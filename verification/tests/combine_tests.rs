use promise::Promise;
use promise::State;
use promise::TextTransform;

fn text(s: &str) -> Option<String> {
    Some(s.to_string())
}

#[test]
fn all_joins_fulfilled_payloads_with_semicolon() {
    let promises = vec![
        Promise::<TextTransform>::resolve(text("a")),
        Promise::resolve(text("b")),
        Promise::resolve(text("c")),
    ];
    let p = Promise::all(promises);
    assert_eq!(p.state, State::FULFILLED);
    assert_eq!(p.value, text("a;b;c"));
}

#[test]
fn all_rejects_with_first_rejection_by_position() {
    let promises = vec![
        Promise::<TextTransform>::resolve(text("a")),
        Promise::reject(text("boom")),
        Promise::resolve(text("c")),
    ];
    let p = Promise::all(promises);
    assert_eq!(p.state, State::REJECTED);
    assert_eq!(p.value, text("boom"));
}

#[test]
fn all_takes_the_first_of_several_rejections() {
    let promises = vec![
        Promise::<TextTransform>::reject(text("first")),
        Promise::reject(text("second")),
    ];
    let p = Promise::all(promises);
    assert_eq!(p.state, State::REJECTED);
    assert_eq!(p.value, text("first"));
}

#[test]
fn all_ex_joins_with_the_given_delimiter() {
    let promises = vec![
        Promise::<TextTransform>::resolve(text("a")),
        Promise::resolve(text("b")),
    ];
    let p = Promise::all_ex(promises, ", ");
    assert_eq!(p.state, State::FULFILLED);
    assert_eq!(p.value, text("a, b"));
}

#[test]
fn all_of_nothing_is_fulfilled_with_empty_text() {
    let p = Promise::<TextTransform>::all(Vec::new());
    assert_eq!(p.state, State::FULFILLED);
    assert_eq!(p.value, text(""));
}

#[test]
fn all_renders_absent_payloads_as_empty_text() {
    let promises = vec![
        Promise::<TextTransform>::resolve(None),
        Promise::resolve(text("b")),
    ];
    let p = Promise::all(promises);
    assert_eq!(p.state, State::FULFILLED);
    assert_eq!(p.value, text(";b"));
}

#[test]
fn all_passes_over_a_still_pending_promise() {
    let promises = vec![
        Promise::<TextTransform>::resolve(text("a")),
        Promise::new(),
        Promise::resolve(text("c")),
    ];
    let p = Promise::all(promises);
    assert_eq!(p.state, State::FULFILLED);
    assert_eq!(p.value, text("a;c"));
}

#[test]
fn all_carries_an_absent_rejection_reason_verbatim() {
    let promises = vec![
        Promise::<TextTransform>::resolve(text("a")),
        Promise::reject(None),
    ];
    let p = Promise::all(promises);
    assert_eq!(p.state, State::REJECTED);
    assert_eq!(p.value, None);
}
