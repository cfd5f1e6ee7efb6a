//! The promise itself: shared state, settlement, and handler registration.

use vstd::prelude::*;
use crate::state::State;
use crate::state::SettleError;
use crate::state::opt_view;
use crate::transform::Transform;

verus! {

/// A stored continuation: fires on fulfillment when `resolve` is true, on
/// rejection when it is false.
pub struct Handler<H> {
    pub resolve: bool,
    pub handler: H,
}

/// A single-settlement container for a future payload.
///
/// The state moves exactly once from `PENDING` to a terminal state; the
/// handler list is drained exactly once, by that settling transition. This is
/// the state machine itself: the worker that runs a user executor against the
/// two settlement entry points, and the lock that shares this state with it,
/// live with the embedding program.
pub struct Promise<H> {
    pub value: Option<String>,
    pub state: State,
    pub handlers: Vec<Handler<H>>,
}

/// Runs the handlers whose direction matches `dir` over the payload `p`, in
/// order, each handler receiving the previous one's output; handlers of the
/// other direction are passed over without effect.
pub open spec fn run_handlers<H: Transform>(
    hs: Seq<Handler<H>>,
    dir: bool,
    p: Option<Seq<char>>,
) -> Option<Seq<char>>
    decreases hs.len(),
{
    if hs.len() == 0 {
        p
    } else {
        let next = if hs[0].resolve == dir {
            hs[0].handler.spec_apply(p)
        } else {
            p
        };
        run_handlers(hs.drop_first(), dir, next)
    }
}

impl<H: Transform> Promise<H> {
    /// Well-formedness: a pending promise carries no payload yet, and a
    /// settled one has had its handler list drained.
    pub open spec fn wf(self) -> bool {
        &&& self.state == State::PENDING ==> self.value is None
        &&& self.state != State::PENDING ==> self.handlers@.len() == 0
    }

    /// Fresh shared state: pending, no payload, no handlers.
    pub fn new() -> (p: Promise<H>)
        ensures
            p.state == State::PENDING,
            p.value is None,
            p.handlers@.len() == 0,
            p.wf(),
    {
        Promise { value: None, state: State::PENDING, handlers: Vec::new() }
    }

    /// The one settling transition, shared by the two entry points: on a
    /// pending promise it takes the handler list (leaving it empty), runs the
    /// matching handlers in registration order threading the payload through,
    /// stores the final payload, and writes the terminal state; on a promise
    /// that is already terminal it signals `AlreadySettled` and changes
    /// nothing.
    fn settle(&mut self, dir: bool, payload: Option<String>) -> (r: Result<(), SettleError>)
        requires
            old(self).wf(),
        ensures
            final(self).wf(),
            old(self).state == State::PENDING ==> {
                &&& r == Ok::<(), SettleError>(())
                &&& final(self).state == (if dir {
                    State::FULFILLED
                } else {
                    State::REJECTED
                })
                &&& final(self).handlers@.len() == 0
                &&& opt_view(final(self).value) == run_handlers(
                    old(self).handlers@,
                    dir,
                    opt_view(payload),
                )
            },
            old(self).state != State::PENDING ==> {
                &&& r == Err::<(), SettleError>(SettleError::AlreadySettled)
                &&& *final(self) == *old(self)
            },
    {
        if self.state != State::PENDING {
            return Err(SettleError::AlreadySettled);
        }
        let mut handlers: Vec<Handler<H>> = Vec::new();
        core::mem::swap(&mut handlers, &mut self.handlers);
        let ghost init = opt_view(payload);
        let mut prev = payload;
        let n = handlers.len();
        let mut i: usize = 0;
        proof {
            assert(handlers@.skip(0) =~= handlers@);
        }
        while i < n
            invariant
                i <= n,
                n == handlers@.len(),
                run_handlers(handlers@, dir, init) == run_handlers(
                    handlers@.skip(i as int),
                    dir,
                    opt_view(prev),
                ),
            decreases n - i,
        {
            proof {
                assert(handlers@.skip(i as int).drop_first() =~= handlers@.skip(i as int + 1));
            }
            let h = &handlers[i];
            if h.resolve == dir {
                prev = h.handler.apply(prev);
            }
            i = i + 1;
        }
        proof {
            assert(handlers@.skip(n as int) =~= Seq::<Handler<H>>::empty());
        }
        self.value = prev;
        self.state = if dir {
            State::FULFILLED
        } else {
            State::REJECTED
        };
        Ok(())
    }

    /// The resolve capability handed to an executor: settles the promise as
    /// fulfilled, running the fulfillment handlers in registration order over
    /// `value`. A second settlement attempt signals `AlreadySettled` and is a
    /// no-op: it neither re-runs handlers nor overwrites the payload.
    pub fn settle_resolve(&mut self, value: Option<String>) -> (r: Result<(), SettleError>)
        requires
            old(self).wf(),
        ensures
            final(self).wf(),
            old(self).state == State::PENDING ==> {
                &&& r == Ok::<(), SettleError>(())
                &&& final(self).state == State::FULFILLED
                &&& final(self).handlers@.len() == 0
                &&& opt_view(final(self).value) == run_handlers(
                    old(self).handlers@,
                    true,
                    opt_view(value),
                )
            },
            old(self).state != State::PENDING ==> {
                &&& r == Err::<(), SettleError>(SettleError::AlreadySettled)
                &&& *final(self) == *old(self)
            },
    {
        self.settle(true, value)
    }

    /// The reject capability handed to an executor: settles the promise as
    /// rejected, running the rejection handlers in registration order over
    /// `reason`. A second settlement attempt signals `AlreadySettled` and is a
    /// no-op: it neither re-runs handlers nor overwrites the payload.
    pub fn settle_reject(&mut self, reason: Option<String>) -> (r: Result<(), SettleError>)
        requires
            old(self).wf(),
        ensures
            final(self).wf(),
            old(self).state == State::PENDING ==> {
                &&& r == Ok::<(), SettleError>(())
                &&& final(self).state == State::REJECTED
                &&& final(self).handlers@.len() == 0
                &&& opt_view(final(self).value) == run_handlers(
                    old(self).handlers@,
                    false,
                    opt_view(reason),
                )
            },
            old(self).state != State::PENDING ==> {
                &&& r == Err::<(), SettleError>(SettleError::AlreadySettled)
                &&& *final(self) == *old(self)
            },
    {
        self.settle(false, reason)
    }

    /// Registers a continuation for each settlement direction. On a pending
    /// promise both are appended to the handler list, fulfillment handler
    /// first, and nothing runs now; on a settled promise the matching one runs
    /// synchronously and its output replaces the stored payload before the
    /// call returns, while the other is discarded.
    pub fn and_then(&mut self, on_fulfilled: H, on_rejected: H)
        requires
            old(self).wf(),
        ensures
            final(self).wf(),
            old(self).state == State::PENDING ==> {
                &&& final(self).state == old(self).state
                &&& final(self).value == old(self).value
                &&& final(self).handlers@ == old(self).handlers@.push(
                    (Handler { resolve: true, handler: on_fulfilled }),
                ).push((Handler { resolve: false, handler: on_rejected }))
            },
            old(self).state == State::FULFILLED ==> {
                &&& final(self).state == old(self).state
                &&& final(self).handlers@ == old(self).handlers@
                &&& opt_view(final(self).value) == on_fulfilled.spec_apply(
                    opt_view(old(self).value),
                )
            },
            old(self).state == State::REJECTED ==> {
                &&& final(self).state == old(self).state
                &&& final(self).handlers@ == old(self).handlers@
                &&& opt_view(final(self).value) == on_rejected.spec_apply(
                    opt_view(old(self).value),
                )
            },
    {
        match self.state {
            State::PENDING => {
                self.handlers.push(Handler { resolve: true, handler: on_fulfilled });
                self.handlers.push(Handler { resolve: false, handler: on_rejected });
            },
            State::FULFILLED => {
                let mut prev: Option<String> = None;
                core::mem::swap(&mut prev, &mut self.value);
                self.value = on_fulfilled.apply(prev);
            },
            State::REJECTED => {
                let mut prev: Option<String> = None;
                core::mem::swap(&mut prev, &mut self.value);
                self.value = on_rejected.apply(prev);
            },
        }
    }

    /// Registers a rejection-only continuation. On a pending promise it is
    /// appended to the handler list; on a rejected promise it runs
    /// synchronously and its output replaces the stored payload; on a
    /// fulfilled promise the call is a no-op and the promise is unchanged.
    pub fn catch(&mut self, on_rejected: H)
        requires
            old(self).wf(),
        ensures
            final(self).wf(),
            old(self).state == State::PENDING ==> {
                &&& final(self).state == old(self).state
                &&& final(self).value == old(self).value
                &&& final(self).handlers@ == old(self).handlers@.push(
                    (Handler { resolve: false, handler: on_rejected }),
                )
            },
            old(self).state == State::FULFILLED ==> *final(self) == *old(self),
            old(self).state == State::REJECTED ==> {
                &&& final(self).state == old(self).state
                &&& final(self).handlers@ == old(self).handlers@
                &&& opt_view(final(self).value) == on_rejected.spec_apply(
                    opt_view(old(self).value),
                )
            },
    {
        match self.state {
            State::PENDING => {
                self.handlers.push(Handler { resolve: false, handler: on_rejected });
            },
            State::FULFILLED => {},
            State::REJECTED => {
                let mut prev: Option<String> = None;
                core::mem::swap(&mut prev, &mut self.value);
                self.value = on_rejected.apply(prev);
            },
        }
    }

    /// A promise that is already fulfilled with `value`: fresh state settled
    /// at once through the resolve entry point.
    pub fn resolve(value: Option<String>) -> (p: Promise<H>)
        ensures
            p.wf(),
            p.state == State::FULFILLED,
            p.handlers@.len() == 0,
            opt_view(p.value) == opt_view(value),
    {
        let mut p = Promise::new();
        let _ = p.settle_resolve(value);
        p
    }

    /// A promise that is already rejected with `reason`: fresh state settled
    /// at once through the reject entry point.
    pub fn reject(reason: Option<String>) -> (p: Promise<H>)
        ensures
            p.wf(),
            p.state == State::REJECTED,
            p.handlers@.len() == 0,
            opt_view(p.value) == opt_view(reason),
    {
        let mut p = Promise::new();
        let _ = p.settle_reject(reason);
        p
    }
}

/// Handlers run in registration order, each receiving the previous one's
/// output: running a concatenation of two handler lists is running the first
/// list and feeding its final payload to the second.
pub proof fn lemma_run_handlers_append<H: Transform>(
    a: Seq<Handler<H>>,
    b: Seq<Handler<H>>,
    dir: bool,
    p: Option<Seq<char>>,
)
    ensures
        run_handlers(a + b, dir, p) == run_handlers(b, dir, run_handlers(a, dir, p)),
    decreases a.len(),
{
    if a.len() == 0 {
        assert(a + b =~= b);
    } else {
        assert((a + b)[0] == a[0]);
        assert((a + b).drop_first() =~= a.drop_first() + b);
        let next = if a[0].resolve == dir {
            a[0].handler.spec_apply(p)
        } else {
            p
        };
        lemma_run_handlers_append(a.drop_first(), b, dir, next);
    }
}

/// Handlers bound to the other direction never execute: a list in which no
/// handler matches `dir` leaves the payload unchanged.
pub proof fn lemma_run_handlers_no_match<H: Transform>(
    hs: Seq<Handler<H>>,
    dir: bool,
    p: Option<Seq<char>>,
)
    requires
        forall|k: int| 0 <= k < hs.len() ==> hs[k].resolve != dir,
    ensures
        run_handlers(hs, dir, p) == p,
    decreases hs.len(),
{
    if hs.len() > 0 {
        assert(forall|k: int| 0 <= k < hs.drop_first().len() ==> hs.drop_first()[k] == hs[k + 1]);
        lemma_run_handlers_no_match(hs.drop_first(), dir, p);
    }
}

} // verus!
