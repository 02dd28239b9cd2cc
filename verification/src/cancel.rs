//! Stopping a transcription that is already running.
//!
//! Whisper runs inside one long call into native code, so the only way to
//! stop it is to tell it to stop from the inside: whisper.cpp asks an "abort
//! callback" between windows of audio, and returns early when the answer is
//! yes. The flag that callback reads is this one.
//!
//! Whoever asks for a stop leaves the flag raised. The next batch lowers it
//! with [`CancelFlag::clear_cancel`] before starting, so a stop asked for at
//! the very moment a job ends does not silently kill the following job.

use vstd::prelude::*;

verus! {

/// What can be done with the flag.
pub enum FlagOp {
    /// `request_cancel`
    Request,
    /// `clear_cancel`
    Clear,
    /// `cancel_requested`
    Query,
}

/// Whether the flag is raised after `op`, from `raised`.
pub open spec fn after_op(raised: bool, op: FlagOp) -> bool {
    match op {
        FlagOp::Request => true,
        FlagOp::Clear => false,
        FlagOp::Query => raised,
    }
}

/// Whether the flag is raised after the calls `ops`, in order, from `raised`.
pub open spec fn after_ops(raised: bool, ops: Seq<FlagOp>) -> bool
    decreases ops.len(),
{
    if ops.len() == 0 {
        raised
    } else {
        after_op(after_ops(raised, ops.drop_last()), ops.last())
    }
}

/// Law: after any sequence of calls the flag is raised exactly when a
/// request was made and no clear came after it, or when it was raised to
/// begin with and only queries were made. A request stays in force through
/// any number of further requests and queries until the next clear, and a
/// clear until the next request.
pub proof fn law_flag_follows_last_change(raised: bool, ops: Seq<FlagOp>)
    ensures
        after_ops(raised, ops) == ((exists|i: int|
            0 <= i < ops.len() && (#[trigger] ops[i]) is Request && forall|j: int|
                i < j < ops.len() ==> !(ops[j] is Clear)) || (raised && forall|j: int|
            0 <= j < ops.len() ==> (#[trigger] ops[j]) is Query)),
    decreases ops.len(),
{
    if ops.len() > 0 {
        let init = ops.drop_last();
        let n = ops.len() - 1;
        law_flag_follows_last_change(raised, init);
        assert forall|j: int| 0 <= j < n implies #[trigger] ops[j] == init[j] by {}
        match ops.last() {
            FlagOp::Request => {
                assert(ops[n] is Request);
            },
            FlagOp::Clear => {
                assert(ops[n] is Clear);
                if exists|i: int|
                    0 <= i < ops.len() && (#[trigger] ops[i]) is Request && forall|j: int|
                        i < j < ops.len() ==> !(ops[j] is Clear) {
                    let i = choose|i: int|
                        0 <= i < ops.len() && (#[trigger] ops[i]) is Request && forall|j: int|
                            i < j < ops.len() ==> !(ops[j] is Clear);
                    assert(i != n);
                }
                assert(!(ops[n] is Query));
            },
            FlagOp::Query => {
                assert(ops[n] is Query);
                if after_ops(raised, init) {
                    if exists|i: int|
                        0 <= i < init.len() && (#[trigger] init[i]) is Request && forall|j: int|
                            i < j < init.len() ==> !(init[j] is Clear) {
                        let i = choose|i: int|
                            0 <= i < init.len() && (#[trigger] init[i]) is Request && forall|j: int|
                                i < j < init.len() ==> !(init[j] is Clear);
                        assert(ops[i] is Request);
                    }
                } else {
                    if exists|i: int|
                        0 <= i < ops.len() && (#[trigger] ops[i]) is Request && forall|j: int|
                            i < j < ops.len() ==> !(ops[j] is Clear) {
                        let i = choose|i: int|
                            0 <= i < ops.len() && (#[trigger] ops[i]) is Request && forall|j: int|
                                i < j < ops.len() ==> !(ops[j] is Clear);
                        assert(i != n);
                        assert(init[i] is Request);
                    }
                    if raised && forall|j: int| 0 <= j < ops.len() ==> (#[trigger] ops[j]) is Query {
                        assert forall|j: int| 0 <= j < init.len() implies (#[trigger] init[j]) is Query by {
                            assert(ops[j] is Query);
                        }
                    }
                }
            },
        }
    }
}

/// A stop request: raised by whoever wants the running transcription to
/// stop, lowered before work that should run.
#[derive(Debug)]
pub struct CancelFlag {
    raised: bool,
}

impl CancelFlag {
    /// Whether a stop has been asked for and not yet cleared.
    pub closed spec fn is_raised(&self) -> bool {
        self.raised
    }

    /// A lowered flag.
    pub fn new() -> (r: Self)
        ensures
            !r.is_raised(),
    {
        CancelFlag { raised: false }
    }

    /// Ask the running transcription to stop as soon as it can.
    pub fn request_cancel(&mut self)
        ensures
            final(self).is_raised(),
            final(self).is_raised() == after_op(old(self).is_raised(), FlagOp::Request),
    {
        self.raised = true;
    }

    /// Lower the flag. Call this before starting work that should run.
    pub fn clear_cancel(&mut self)
        ensures
            !final(self).is_raised(),
            final(self).is_raised() == after_op(old(self).is_raised(), FlagOp::Clear),
    {
        self.raised = false;
    }

    /// Whether a stop has been asked for and not yet cleared.
    pub fn cancel_requested(&self) -> (r: bool)
        ensures
            r == self.is_raised(),
    {
        self.raised
    }
}

} // verus!
