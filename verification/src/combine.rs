//! Aggregation: waiting on a whole sequence of promises and merging their
//! outcomes into one already-settled promise.

use vstd::prelude::*;
use vstd::string::StringExecFns;
use crate::promise::Promise;
use crate::state::State;
use crate::state::opt_view;
use crate::state::rendered;
use crate::transform::Transform;

verus! {

/// The views of a sequence of owned texts.
pub open spec fn texts_of(rs: Seq<String>) -> Seq<Seq<char>> {
    rs.map_values(|s: String| s@)
}

/// The fulfilled payloads of `ps`, rendered to text, in input order; promises
/// in any other state contribute nothing.
pub open spec fn fulfilled_texts<H>(ps: Seq<Promise<H>>) -> Seq<Seq<char>>
    decreases ps.len(),
{
    if ps.len() == 0 {
        Seq::empty()
    } else {
        let rest = fulfilled_texts(ps.drop_last());
        if ps.last().state == State::FULFILLED {
            rest.push(rendered(opt_view(ps.last().value)))
        } else {
            rest
        }
    }
}

/// The reason of the first rejected promise of `ps`, first by input position
/// and verbatim (an absent reason stays absent), or `None` when no promise is
/// rejected.
pub open spec fn first_reject<H>(ps: Seq<Promise<H>>) -> Option<Option<Seq<char>>>
    decreases ps.len(),
{
    if ps.len() == 0 {
        None
    } else {
        match first_reject(ps.drop_last()) {
            Some(r) => Some(r),
            None => if ps.last().state == State::REJECTED {
                Some(opt_view(ps.last().value))
            } else {
                None
            },
        }
    }
}

/// `texts` joined with the delimiter `d` between consecutive elements; an
/// empty sequence joins to empty text.
pub open spec fn join_texts(texts: Seq<Seq<char>>, d: Seq<char>) -> Seq<char>
    decreases texts.len(),
{
    if texts.len() == 0 {
        Seq::empty()
    } else if texts.len() == 1 {
        texts[0]
    } else {
        join_texts(texts.drop_last(), d) + d + texts.last()
    }
}

proof fn lemma_texts_of_push(rs: Seq<String>, s: String)
    ensures
        texts_of(rs.push(s)) == texts_of(rs).push(s@),
{
    assert(texts_of(rs.push(s)) =~= texts_of(rs).push(s@));
}

impl<H: Transform> Promise<H> {
    /// Merges a sequence of promises, read in input order, into one
    /// already-settled promise: rejected with the reason of the first rejected
    /// input, carried verbatim, if there is one, otherwise fulfilled with the
    /// fulfilled payloads rendered to text and joined with `delimiter`. A
    /// promise still pending is passed over: it joins neither the fulfilled
    /// texts nor the rejection check.
    pub fn all_ex(promises: Vec<Promise<H>>, delimiter: &str) -> (p: Promise<H>)
        ensures
            p.wf(),
            p.handlers@.len() == 0,
            match first_reject(promises@) {
                Some(reason) => p.state == State::REJECTED && opt_view(p.value) == reason,
                None => {
                    &&& p.state == State::FULFILLED
                    &&& opt_view(p.value) == Some(
                        join_texts(fulfilled_texts(promises@), delimiter@),
                    )
                },
            },
    {
        let n = promises.len();
        let mut rejected = false;
        let mut first_reason: Option<String> = None;
        let mut results: Vec<String> = Vec::new();
        let mut i: usize = 0;
        proof {
            assert(texts_of(results@) =~= fulfilled_texts(promises@.take(0)));
        }
        while i < n
            invariant
                i <= n,
                n == promises@.len(),
                texts_of(results@) == fulfilled_texts(promises@.take(i as int)),
                rejected ==> first_reject(promises@.take(i as int)) == Some(opt_view(first_reason)),
                !rejected ==> first_reject(promises@.take(i as int)) is None,
            decreases n - i,
        {
            proof {
                assert(promises@.take(i as int + 1).drop_last() =~= promises@.take(i as int));
            }
            let pr = &promises[i];
            match pr.state {
                State::FULFILLED => {
                    let ghost prev_results = results@;
                    let text = match &pr.value {
                        Some(s) => s.clone(),
                        None => String::new(),
                    };
                    results.push(text);
                    proof {
                        lemma_texts_of_push(prev_results, text);
                    }
                },
                State::REJECTED => {
                    if !rejected {
                        rejected = true;
                        first_reason = match &pr.value {
                            Some(s) => Some(s.clone()),
                            None => None,
                        };
                    }
                },
                State::PENDING => {},
            }
            i = i + 1;
        }
        proof {
            assert(promises@.take(n as int) =~= promises@);
        }
        if rejected {
            Promise::reject(first_reason)
        } else {
            let m = results.len();
            let mut joined = String::new();
            let mut j: usize = 0;
            proof {
                assert(texts_of(results@).take(0) =~= Seq::<Seq<char>>::empty());
            }
            while j < m
                invariant
                    j <= m,
                    m == results@.len(),
                    joined@ == join_texts(texts_of(results@).take(j as int), delimiter@),
                decreases m - j,
            {
                proof {
                    assert(texts_of(results@).take(j as int + 1).drop_last() =~= texts_of(
                        results@,
                    ).take(j as int));
                }
                if j > 0 {
                    joined.append(delimiter);
                } else {
                    proof {
                        assert(joined@ + results@[j as int]@ =~= results@[j as int]@);
                    }
                }
                let t = &results[j];
                joined.append(t.as_str());
                j = j + 1;
            }
            proof {
                assert(texts_of(results@).take(m as int) =~= texts_of(results@));
            }
            Promise::resolve(Some(joined))
        }
    }

    /// `all_ex` with the default delimiter, a semicolon.
    pub fn all(promises: Vec<Promise<H>>) -> (p: Promise<H>)
        ensures
            p.wf(),
            p.handlers@.len() == 0,
            match first_reject(promises@) {
                Some(reason) => p.state == State::REJECTED && opt_view(p.value) == reason,
                None => {
                    &&& p.state == State::FULFILLED
                    &&& opt_view(p.value) == Some(join_texts(fulfilled_texts(promises@), ";"@))
                },
            },
    {
        Promise::all_ex(promises, ";")
    }
}

} // verus!
