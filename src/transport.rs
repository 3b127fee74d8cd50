//! The retry policy of one request/response exchange. The caller performs
//! each attempt (write the frame, read with a timeout) and reports how it
//! went; the exchange decides whether to wait and try again, hand back the
//! reply, or give up.
use vstd::prelude::*;

use crate::error::DeviceError;

verus! {

/// Pause before every attempt but the first, in milliseconds.
pub const RETRY_DELAY_MS: u64 = 500;

/// How long one read waits for a reply, in milliseconds.
pub const READ_TIMEOUT_MS: i32 = 1000;

/// How often to try, how long to wait in between, how long to read.
#[derive(Debug, Clone, Copy, PartialEq, Eq)]
pub struct RetryPolicy {
    pub max_attempts: u32,
    pub delay_ms: u64,
    pub timeout_ms: i32,
}

impl RetryPolicy {
    /// `max_attempts` tries, a fixed pause between them, a fixed read timeout.
    pub fn new(max_attempts: u32) -> (r: Self)
        ensures
            r.max_attempts == max_attempts,
            r.delay_ms == RETRY_DELAY_MS,
            r.timeout_ms == READ_TIMEOUT_MS,
    {
        RetryPolicy { max_attempts, delay_ms: RETRY_DELAY_MS, timeout_ms: READ_TIMEOUT_MS }
    }
}

/// How one attempt went.
#[derive(Debug, Clone, PartialEq, Eq)]
pub enum AttemptOutcome {
    /// Writing the frame failed.
    WriteFailed(String),
    /// The read failed.
    ReadFailed(String),
    /// The read returned `len` bytes into `data`; 0 means it timed out.
    Read { len: usize, data: [u8; 32] },
}

/// Whether an attempt produced a reply.
pub open spec fn succeeded(o: AttemptOutcome) -> bool {
    o matches AttemptOutcome::Read { len, .. } && len > 0
}

/// What to do next.
#[derive(Debug, Clone, PartialEq, Eq)]
pub enum SendStep {
    /// Wait `delay_ms` (none for the first attempt), write the frame, then
    /// read for at most `timeout_ms`.
    Attempt { delay_ms: u64, timeout_ms: i32 },
    /// The reply.
    Reply([u8; 32]),
    /// Every attempt failed.
    Failed(DeviceError),
}

/// The progress of one exchange.
#[derive(Debug, Clone, PartialEq, Eq)]
pub struct Exchange {
    pub policy: RetryPolicy,
    pub attempts: u32,
    pub last_error: Option<String>,
    pub reply: Option<[u8; 32]>,
}

impl Exchange {
    /// Attempts never exceed the budget.
    pub open spec fn wf(self) -> bool {
        self.attempts <= self.policy.max_attempts
    }

    /// No reply yet and attempts left.
    pub open spec fn may_attempt(self) -> bool {
        self.reply is None && self.attempts < self.policy.max_attempts
    }

    pub open spec fn step_spec(self) -> SendStep {
        match self.reply {
            Some(data) => SendStep::Reply(data),
            None => if self.attempts < self.policy.max_attempts {
                SendStep::Attempt {
                    delay_ms: if self.attempts == 0 {
                        0
                    } else {
                        self.policy.delay_ms
                    },
                    timeout_ms: self.policy.timeout_ms,
                }
            } else {
                SendStep::Failed(
                    DeviceError::Communication {
                        attempts: self.attempts,
                        last_error: self.last_error,
                    },
                )
            },
        }
    }

    pub open spec fn record_spec(self, o: AttemptOutcome) -> Exchange {
        let next = Exchange { attempts: (self.attempts + 1) as u32, ..self };
        match o {
            AttemptOutcome::WriteFailed(e) => Exchange { last_error: Some(e), ..next },
            AttemptOutcome::ReadFailed(e) => Exchange { last_error: Some(e), ..next },
            AttemptOutcome::Read { len, data } => if len > 0 {
                Exchange { reply: Some(data), ..next }
            } else {
                next
            },
        }
    }

    /// A fresh exchange under `policy`.
    pub fn new(policy: RetryPolicy) -> (r: Self)
        ensures
            r == (Exchange { policy, attempts: 0, last_error: None, reply: None }),
            r.wf(),
    {
        Exchange { policy, attempts: 0, last_error: None, reply: None }
    }

    /// The next step: attempt again (pausing before all but the first
    /// attempt), hand back the reply, or fail naming the attempt count and
    /// the last I/O error.
    pub fn step(&self) -> (r: SendStep)
        ensures
            r == self.step_spec(),
    {
        match &self.reply {
            Some(data) => SendStep::Reply(*data),
            None => if self.attempts < self.policy.max_attempts {
                SendStep::Attempt {
                    delay_ms: if self.attempts == 0 {
                        0
                    } else {
                        self.policy.delay_ms
                    },
                    timeout_ms: self.policy.timeout_ms,
                }
            } else {
                SendStep::Failed(
                    DeviceError::Communication {
                        attempts: self.attempts,
                        last_error: self.last_error.clone(),
                    },
                )
            },
        }
    }

    /// Takes note of one attempt: a failed write or read is remembered as
    /// the last error, a timed-out read leaves it, a non-empty read is the
    /// reply.
    pub fn record(&mut self, outcome: AttemptOutcome)
        requires
            old(self).may_attempt(),
        ensures
            *final(self) == old(self).record_spec(outcome),
            final(self).wf(),
    {
        self.attempts = self.attempts + 1;
        match outcome {
            AttemptOutcome::WriteFailed(e) => {
                self.last_error = Some(e);
            },
            AttemptOutcome::ReadFailed(e) => {
                self.last_error = Some(e);
            },
            AttemptOutcome::Read { len, data } => {
                if len > 0 {
                    self.reply = Some(data);
                }
            },
        }
    }
}

/// The steps of an exchange whose attempts go as `outcomes` says, up to the
/// first step that is not an attempt (or until the outcomes run out).
pub open spec fn steps(ex: Exchange, outcomes: Seq<AttemptOutcome>) -> Seq<SendStep>
    decreases outcomes.len(),
{
    let s = ex.step_spec();
    if s is Attempt && outcomes.len() > 0 {
        seq![s] + steps(ex.record_spec(outcomes[0]), outcomes.drop_first())
    } else {
        seq![s]
    }
}

proof fn lemma_steps_all_fail(ex: Exchange, outcomes: Seq<AttemptOutcome>)
    requires
        ex.wf(),
        ex.reply is None,
        outcomes.len() >= ex.policy.max_attempts - ex.attempts,
        forall|j: int| 0 <= j < outcomes.len() ==> !succeeded(#[trigger] outcomes[j]),
    ensures
        steps(ex, outcomes).len() == ex.policy.max_attempts - ex.attempts + 1,
        forall|k: int|
            0 <= k < ex.policy.max_attempts - ex.attempts ==> #[trigger] steps(ex, outcomes)[k]
                == (SendStep::Attempt {
                delay_ms: if ex.attempts + k == 0 {
                    0
                } else {
                    ex.policy.delay_ms
                },
                timeout_ms: ex.policy.timeout_ms,
            }),
        steps(ex, outcomes).last() is Failed,
    decreases outcomes.len(),
{
    if ex.attempts < ex.policy.max_attempts {
        let next = ex.record_spec(outcomes[0]);
        assert(!succeeded(outcomes[0]));
        assert(next.reply is None);
        assert forall|j: int| 0 <= j < outcomes.drop_first().len() implies !succeeded(
            #[trigger] outcomes.drop_first()[j],
        ) by {
            assert(outcomes.drop_first()[j] == outcomes[j + 1]);
        }
        lemma_steps_all_fail(next, outcomes.drop_first());
        let rest = steps(next, outcomes.drop_first());
        assert(steps(ex, outcomes) == seq![ex.step_spec()] + rest);
        assert forall|k: int| 1 <= k < ex.policy.max_attempts - ex.attempts implies #[trigger] steps(
            ex,
            outcomes,
        )[k] == (SendStep::Attempt {
            delay_ms: if ex.attempts + k == 0 {
                0
            } else {
                ex.policy.delay_ms
            },
            timeout_ms: ex.policy.timeout_ms,
        }) by {
            assert(steps(ex, outcomes)[k] == rest[k - 1]);
        }
    }
}

/// When every attempt fails, an exchange with a budget of `N` attempts makes
/// exactly `N` of them, pauses `delay_ms` before each but the first (so
/// `N - 1` pauses), and then fails.
pub proof fn lemma_retry_exhausts_budget(policy: RetryPolicy, outcomes: Seq<AttemptOutcome>)
    requires
        outcomes.len() >= policy.max_attempts,
        forall|j: int| 0 <= j < outcomes.len() ==> !succeeded(#[trigger] outcomes[j]),
    ensures
        ({
            let t = steps(Exchange { policy, attempts: 0, last_error: None, reply: None }, outcomes);
            &&& t.len() == policy.max_attempts + 1
            &&& policy.max_attempts > 0 ==> t[0] == (SendStep::Attempt {
                delay_ms: 0,
                timeout_ms: policy.timeout_ms,
            })
            &&& forall|k: int|
                1 <= k < policy.max_attempts ==> #[trigger] t[k] == (SendStep::Attempt {
                    delay_ms: policy.delay_ms,
                    timeout_ms: policy.timeout_ms,
                })
            &&& t.last() == SendStep::Failed(
                DeviceError::Communication {
                    attempts: policy.max_attempts,
                    last_error: t.last()->Failed_0->last_error,
                },
            )
        }),
{
    let ex = Exchange { policy, attempts: 0, last_error: None, reply: None };
    lemma_steps_all_fail(ex, outcomes);
    let t = steps(ex, outcomes);
    if policy.max_attempts > 0 {
        assert(t[0] == (SendStep::Attempt { delay_ms: 0, timeout_ms: policy.timeout_ms }));
    }
    lemma_steps_end(ex, outcomes);
}

proof fn lemma_steps_end(ex: Exchange, outcomes: Seq<AttemptOutcome>)
    requires
        ex.wf(),
        ex.reply is None,
        outcomes.len() >= ex.policy.max_attempts - ex.attempts,
        forall|j: int| 0 <= j < outcomes.len() ==> !succeeded(#[trigger] outcomes[j]),
    ensures
        steps(ex, outcomes).last() matches SendStep::Failed(DeviceError::Communication {
            attempts,
            ..
        }) && attempts == ex.policy.max_attempts,
    decreases outcomes.len(),
{
    if ex.attempts < ex.policy.max_attempts {
        let next = ex.record_spec(outcomes[0]);
        assert forall|j: int| 0 <= j < outcomes.drop_first().len() implies !succeeded(
            #[trigger] outcomes.drop_first()[j],
        ) by {
            assert(outcomes.drop_first()[j] == outcomes[j + 1]);
        }
        lemma_steps_end(next, outcomes.drop_first());
    }
}

/// An exchange stops at the first attempt that reads a reply and hands that
/// reply back, after `k + 1` attempts.
pub proof fn lemma_retry_stops_at_first_reply(
    policy: RetryPolicy,
    outcomes: Seq<AttemptOutcome>,
    k: int,
)
    requires
        0 <= k < policy.max_attempts,
        k < outcomes.len(),
        forall|j: int| 0 <= j < k ==> !succeeded(#[trigger] outcomes[j]),
        succeeded(outcomes[k]),
    ensures
        ({
            let t = steps(Exchange { policy, attempts: 0, last_error: None, reply: None }, outcomes);
            &&& t.len() == k + 2
            &&& forall|j: int| 0 <= j <= k ==> #[trigger] t[j] is Attempt
            &&& t[k + 1] == SendStep::Reply(outcomes[k]->Read_data)
        }),
{
    lemma_steps_first_reply(
        Exchange { policy, attempts: 0, last_error: None, reply: None },
        outcomes,
        k,
    );
}

proof fn lemma_steps_first_reply(ex: Exchange, outcomes: Seq<AttemptOutcome>, k: int)
    requires
        ex.reply is None,
        0 <= k < ex.policy.max_attempts - ex.attempts,
        k < outcomes.len(),
        forall|j: int| 0 <= j < k ==> !succeeded(#[trigger] outcomes[j]),
        succeeded(outcomes[k]),
    ensures
        steps(ex, outcomes).len() == k + 2,
        forall|j: int| 0 <= j <= k ==> #[trigger] steps(ex, outcomes)[j] is Attempt,
        steps(ex, outcomes)[k + 1] == SendStep::Reply(outcomes[k]->Read_data),
    decreases k,
{
    let next = ex.record_spec(outcomes[0]);
    let rest = steps(next, outcomes.drop_first());
    if k == 0 {
        assert(next.step_spec() == SendStep::Reply(outcomes[0]->Read_data));
        assert(rest == seq![next.step_spec()]);
    } else {
        assert(!succeeded(outcomes[0]));
        assert forall|j: int| 0 <= j < k - 1 implies !succeeded(
            #[trigger] outcomes.drop_first()[j],
        ) by {
            assert(outcomes.drop_first()[j] == outcomes[j + 1]);
        }
        lemma_steps_first_reply(next, outcomes.drop_first(), k - 1);
        assert forall|j: int| 1 <= j <= k implies #[trigger] steps(ex, outcomes)[j] is Attempt by {
            assert(steps(ex, outcomes)[j] == rest[j - 1]);
        }
    }
}

} // verus!
