//! When events are uploaded, and what follows the server's reply.

use vstd::arithmetic::power2::*;
use vstd::prelude::*;

verus! {

/// The longest wait between two tries, in seconds.
pub const MAX_BACKOFF: u64 = 300;

/// The pause after a refusal, and after too many failures in a row, in seconds.
pub const COOLDOWN: u64 = 60;

/// What follows reading the queue.
#[derive(Debug, Clone, Copy, PartialEq, Eq, Structural)]
pub enum Step {
    /// Trying again after this many seconds.
    Sleep(u64),
    /// Uploading what was read.
    Upload,
}

/// What an upload came to.
#[derive(Debug, Clone, Copy, PartialEq, Eq, Structural)]
pub enum Reply {
    /// The server replied with this status.
    Status(u16),
    /// No reply came.
    Unreachable,
}

/// What is to be done then, waits in seconds.
#[derive(Debug, Clone, Copy, PartialEq, Eq, Structural)]
pub enum Action {
    /// Taking the batch out of the queue.
    Acknowledge,
    /// Leaving the batch in the queue: the server refuses it.
    Refused { wait: u64 },
    /// Leaving the batch in the queue and waiting, and waiting once more where
    /// failures were too many.
    Retry { wait: u64, cooldown: Option<u64> },
}

/// How uploads have been going.
#[derive(Debug, Clone, Copy, PartialEq, Eq, Structural)]
pub struct Uploader {
    /// The next wait after a failure, in seconds.
    pub backoff: u64,
    /// The failures since the last success, refusal or long pause.
    pub failures: u32,
}

/// Whether a reply accepts the batch.
pub open spec fn accepted(reply: Reply) -> bool {
    reply matches Reply::Status(status) && 200 <= status <= 299
}

/// Whether a reply refuses the batch for good: a client error other than being
/// asked to slow down.
pub open spec fn refused(reply: Reply) -> bool {
    reply matches Reply::Status(status) && 400 <= status <= 499 && status != 429
}

/// The failures in a row that bring a long pause.
pub open spec fn failure_limit(max_retries: u32) -> int {
    if max_retries == 0 {
        1
    } else {
        max_retries as int
    }
}

/// Twice the wait, up to the longest.
pub open spec fn doubled(backoff: u64) -> u64 {
    if backoff * 2 >= MAX_BACKOFF {
        MAX_BACKOFF
    } else {
        (backoff * 2) as u64
    }
}

impl Uploader {
    /// Whether the wait is within its bounds.
    pub open spec fn valid(self) -> bool {
        1 <= self.backoff <= MAX_BACKOFF
    }

    /// The state before the first upload.
    pub open spec fn fresh() -> Self {
        Uploader { backoff: 1, failures: 0 }
    }

    /// Whether one more failure is too many.
    pub open spec fn at_limit(self, max_retries: u32) -> bool {
        self.failures == u32::MAX || self.failures + 1 >= failure_limit(max_retries)
    }

    /// The state after one more failure.
    pub open spec fn after_failure(self, max_retries: u32) -> Self {
        Uploader {
            backoff: doubled(self.backoff),
            failures: if self.at_limit(max_retries) {
                0
            } else {
                (self.failures + 1) as u32
            },
        }
    }

    /// The state after `reply`.
    pub open spec fn after(self, reply: Reply, max_retries: u32) -> Self {
        if accepted(reply) {
            Self::fresh()
        } else if refused(reply) {
            Uploader { backoff: self.backoff, failures: 0 }
        } else {
            self.after_failure(max_retries)
        }
    }

    /// What follows `reply`.
    pub open spec fn response_to(self, reply: Reply, max_retries: u32) -> Action {
        if accepted(reply) {
            Action::Acknowledge
        } else if refused(reply) {
            Action::Refused { wait: COOLDOWN }
        } else {
            Action::Retry {
                wait: self.backoff,
                cooldown: if self.at_limit(max_retries) {
                    Some(COOLDOWN)
                } else {
                    None
                },
            }
        }
    }

    /// The state before the first upload.
    pub fn new() -> (uploader: Self)
        ensures
            uploader == Self::fresh(),
            uploader.backoff == 1,
            uploader.failures == 0,
            uploader.valid(),
    {
        Uploader { backoff: 1, failures: 0 }
    }

    /// What follows reading the queue.
    pub open spec fn step_after(self, waiting: Option<usize>, interval_seconds: u64) -> Step {
        match waiting {
            None => Step::Sleep(self.backoff),
            Some(events) => if events == 0 {
                Step::Sleep(interval_seconds)
            } else {
                Step::Upload
            },
        }
    }

    /// Decides what follows reading the queue, which held `waiting` events for the
    /// next batch, or could not be read.
    pub fn on_batch(&self, waiting: Option<usize>, interval_seconds: u64) -> (step: Step)
        ensures
            step == self.step_after(waiting, interval_seconds),
            step == match waiting {
                None => Step::Sleep(self.backoff),
                Some(events) => if events == 0 {
                    Step::Sleep(interval_seconds)
                } else {
                    Step::Upload
                },
            },
    {
        match waiting {
            None => Step::Sleep(self.backoff),
            Some(events) => if events == 0 {
                Step::Sleep(interval_seconds)
            } else {
                Step::Upload
            },
        }
    }

    /// Decides what follows an upload.
    pub fn on_reply(&mut self, reply: Reply, max_retries: u32) -> (action: Action)
        requires
            old(self).valid(),
        ensures
            final(self).valid(),
            *final(self) == old(self).after(reply, max_retries),
            action == old(self).response_to(reply, max_retries),
            action is Acknowledge <==> (reply matches Reply::Status(status) && 200 <= status <= 299),
            action is Refused <==> (reply matches Reply::Status(status) && 400 <= status <= 499
                && status != 429),
            action matches Action::Refused { wait } ==> wait == 60,
            action matches Action::Retry { wait, cooldown } ==> {
                &&& wait == old(self).backoff
                &&& cooldown == if old(self).failures + 1 >= max_retries || max_retries == 0 {
                    Some(60u64)
                } else {
                    None
                }
                &&& old(self).backoff >= 150 ==> final(self).backoff == 300
                &&& old(self).backoff <= 150 ==> final(self).backoff == 2 * old(self).backoff
                &&& final(self).failures == if cooldown is Some {
                    0
                } else {
                    old(self).failures + 1
                }
            },
            action is Acknowledge ==> final(self).backoff == 1 && final(self).failures == 0,
            action is Refused ==> final(self).backoff == old(self).backoff && final(self).failures
                == 0,
    {
        if let Reply::Status(status) = reply {
            if 200 <= status && status <= 299 {
                self.backoff = 1;
                self.failures = 0;
                return Action::Acknowledge;
            }
            if 400 <= status && status <= 499 && status != 429 {
                self.failures = 0;
                return Action::Refused { wait: COOLDOWN };
            }
        }
        let wait = self.backoff;
        self.backoff = if wait * 2 >= MAX_BACKOFF {
            MAX_BACKOFF
        } else {
            wait * 2
        };
        let failures = self.failures.saturating_add(1);
        let limit: u32 = if max_retries == 0 {
            1
        } else {
            max_retries
        };
        if failures >= limit {
            self.failures = 0;
            Action::Retry { wait, cooldown: Some(COOLDOWN) }
        } else {
            self.failures = failures;
            Action::Retry { wait, cooldown: None }
        }
    }
}

/// A batch leaves the queue exactly when the server accepts it, with a status of
/// 2xx.
pub proof fn law_only_accepted_batches_leave(state: Uploader, reply: Reply, max_retries: u32)
    ensures
        state.response_to(reply, max_retries) is Acknowledge <==> (reply matches Reply::Status(
            status,
        ) && 200 <= status < 300),
{
}

/// Being asked to slow down, failures of the server and of the network are all
/// retried.
pub proof fn law_passing_failures_are_retried(state: Uploader, reply: Reply, max_retries: u32)
    requires
        reply matches Reply::Status(status) ==> status == 429 || 500 <= status < 600,
    ensures
        state.response_to(reply, max_retries) is Retry,
{
}

/// Whatever the reply, the state stays valid and the waits stay within their
/// bounds.
pub proof fn law_waits_are_bounded(state: Uploader, reply: Reply, max_retries: u32)
    requires
        state.valid(),
    ensures
        state.after(reply, max_retries).valid(),
        match state.response_to(reply, max_retries) {
            Action::Acknowledge => true,
            Action::Refused { wait } => wait == COOLDOWN,
            Action::Retry { wait, cooldown } => 1 <= wait <= MAX_BACKOFF && (cooldown matches Some(
                pause,
            ) ==> pause == COOLDOWN),
        },
{
}

/// The failures counted stay below the limit, whatever the replies.
pub proof fn law_failures_stay_below_limit(state: Uploader, reply: Reply, max_retries: u32)
    requires
        state.failures < failure_limit(max_retries),
    ensures
        state.after(reply, max_retries).failures < failure_limit(max_retries),
{
}

/// The state after `k` failures in a row from a fresh start.
pub open spec fn after_failures(max_retries: u32, k: nat) -> Uploader
    decreases k,
{
    if k == 0 {
        Uploader::fresh()
    } else {
        after_failures(max_retries, (k - 1) as nat).after_failure(max_retries)
    }
}

/// The backoff law: waits double from one second on, up to the longest.
pub proof fn law_backoff_doubles(max_retries: u32, k: nat)
    ensures
        after_failures(max_retries, k).backoff == if pow2(k) <= MAX_BACKOFF {
            pow2(k) as int
        } else {
            MAX_BACKOFF as int
        },
    decreases k,
{
    lemma2_to64();
    if k > 0 {
        law_backoff_doubles(max_retries, (k - 1) as nat);
        lemma_pow2_unfold(k);
    }
}

/// The cooldown law: of failures in a row, every one whose number is a multiple
/// of the limit brings a long pause, and no other does.
pub proof fn law_cooldown_comes_round(max_retries: u32, k: nat)
    ensures
        after_failures(max_retries, k).failures == k as int % failure_limit(max_retries),
        after_failures(max_retries, k).at_limit(max_retries) <==> (k as int + 1) % failure_limit(
            max_retries,
        ) == 0,
    decreases k,
{
    let limit = failure_limit(max_retries);
    if k > 0 {
        law_cooldown_comes_round(max_retries, (k - 1) as nat);
        lemma_next_remainder(k - 1, limit);
    }
    lemma_next_remainder(k as int, limit);
    if k == 0 {
        assert(0int % limit == 0) by {
            vstd::arithmetic::div_mod::lemma_small_mod(0, limit as nat);
        }
    }
}

proof fn lemma_next_remainder(k: int, limit: int)
    requires
        k >= 0,
        limit >= 1,
    ensures
        0 <= k % limit < limit,
        (k + 1) % limit == if k % limit + 1 == limit {
            0
        } else {
            k % limit + 1
        },
{
    vstd::arithmetic::div_mod::lemma_mod_bound(k, limit);
    vstd::arithmetic::div_mod::lemma_add_mod_noop(k, 1, limit);
    if limit == 1 {
        assert((k + 1) % 1 == 0);
    } else {
        vstd::arithmetic::div_mod::lemma_small_mod(1, limit as nat);
        if k % limit + 1 == limit {
            vstd::arithmetic::div_mod::lemma_mod_self_0(limit);
        } else {
            vstd::arithmetic::div_mod::lemma_small_mod((k % limit + 1) as nat, limit as nat);
        }
    }
}

/// A success forgets every failure before it.
pub proof fn law_success_starts_afresh(state: Uploader, status: u16, max_retries: u32)
    requires
        200 <= status < 300,
    ensures
        state.after(Reply::Status(status), max_retries) == Uploader::fresh(),
{
}

/// What follows a reply, written out: a status of 2xx takes the batch out of the
/// queue, one of 4xx but 429 pauses a minute, and everything else is retried after
/// the backoff, with a minute more where the failures reach the limit.
pub proof fn law_reply_decides_the_action(state: Uploader, reply: Reply, max_retries: u32)
    ensures
        ({
            let action = state.response_to(reply, max_retries);
            let success = reply matches Reply::Status(status) && 200 <= status <= 299;
            let refusal = reply matches Reply::Status(status) && 400 <= status <= 499 && status
                != 429;
            let limit: int = if max_retries >= 1 {
                max_retries as int
            } else {
                1
            };
            &&& success ==> action == Action::Acknowledge
            &&& refusal ==> action == (Action::Refused { wait: 60 })
            &&& !success && !refusal && state.failures + 1 < limit ==> action == (Action::Retry {
                wait: state.backoff,
                cooldown: None,
            })
            &&& !success && !refusal && state.failures + 1 >= limit ==> action == (Action::Retry {
                wait: state.backoff,
                cooldown: Some(60),
            })
        }),
{
}

/// What a reply leaves behind, written out: a success forgets everything, a
/// refusal forgets the failures, and a failure doubles the backoff up to 300
/// seconds and is counted up to the limit.
pub proof fn law_reply_decides_the_state(state: Uploader, reply: Reply, max_retries: u32)
    requires
        1 <= state.backoff <= 300,
    ensures
        ({
            let next = state.after(reply, max_retries);
            let success = reply matches Reply::Status(status) && 200 <= status <= 299;
            let refusal = reply matches Reply::Status(status) && 400 <= status <= 499 && status
                != 429;
            let limit: int = if max_retries >= 1 {
                max_retries as int
            } else {
                1
            };
            &&& Uploader::fresh().backoff == 1
            &&& Uploader::fresh().failures == 0
            &&& success ==> next.backoff == 1 && next.failures == 0
            &&& refusal ==> next.backoff == state.backoff && next.failures == 0
            &&& !success && !refusal && state.backoff >= 150 ==> next.backoff == 300
            &&& !success && !refusal && state.backoff <= 150 ==> next.backoff == state.backoff
                + state.backoff
            &&& !success && !refusal && state.failures + 1 < limit ==> next.failures
                == state.failures + 1
            &&& !success && !refusal && state.failures + 1 >= limit ==> next.failures == 0
        }),
{
}

/// The waits that are handed out double: after `k` failures in a row from a fresh
/// start, whatever their kinds, the next failure is followed by a wait of two to
/// the power of `k` seconds, at most 300, and by a minute more exactly where it
/// is a multiple of the limit. `states` are the states before each reply.
pub proof fn law_waits_handed_out_double(
    states: Seq<Uploader>,
    replies: Seq<Reply>,
    max_retries: u32,
    k: int,
)
    requires
        0 <= k < replies.len(),
        states.len() == replies.len(),
        states[0].backoff == 1,
        states[0].failures == 0,
        forall|i: int|
            0 < i < states.len() ==> #[trigger] states[i] == states[i - 1].after(
                replies[i - 1],
                max_retries,
            ),
        forall|i: int|
            0 <= i < replies.len() ==> (#[trigger] replies[i] matches Reply::Status(status) ==> !(
            200 <= status <= 299) && (!(400 <= status <= 499) || status == 429)),
    ensures
        ({
            let limit: int = if max_retries >= 1 {
                max_retries as int
            } else {
                1
            };
            let action = states[k].response_to(replies[k], max_retries);
            &&& action is Retry
            &&& pow2(k as nat) <= 300 ==> action->Retry_wait == pow2(k as nat)
            &&& pow2(k as nat) > 300 ==> action->Retry_wait == 300
            &&& (k + 1) % limit == 0 ==> action->cooldown == Some(60u64)
            &&& (k + 1) % limit != 0 ==> action->cooldown is None
        }),
{
    lemma_states_of_failures(states, replies, max_retries, k);
    law_backoff_doubles(max_retries, k as nat);
    law_cooldown_comes_round(max_retries, k as nat);
}

proof fn lemma_states_of_failures(
    states: Seq<Uploader>,
    replies: Seq<Reply>,
    max_retries: u32,
    k: int,
)
    requires
        0 <= k < replies.len(),
        states.len() == replies.len(),
        states[0] == Uploader::fresh(),
        forall|i: int|
            0 < i < states.len() ==> #[trigger] states[i] == states[i - 1].after(
                replies[i - 1],
                max_retries,
            ),
        forall|i: int|
            0 <= i < replies.len() ==> !accepted(#[trigger] replies[i]) && !refused(replies[i]),
    ensures
        states[k] == after_failures(max_retries, k as nat),
    decreases k,
{
    if k > 0 {
        lemma_states_of_failures(states, replies, max_retries, k - 1);
        assert(states[k] == states[k - 1].after(replies[k - 1], max_retries));
        assert(!accepted(replies[k - 1]));
    }
}

/// Something waiting is uploaded at once, however much it is. With nothing waiting
/// the pause is the interval, and with a queue that cannot be read it is the
/// backoff; neither depends on the other.
pub proof fn law_waiting_events_are_uploaded(state: Uploader, events: usize, interval_seconds: u64)
    ensures
        state.step_after(Some(events), interval_seconds) == Step::Upload <==> events >= 1,
        state.step_after(Some(0), interval_seconds) == Step::Sleep(interval_seconds),
        state.step_after(None, interval_seconds) == Step::Sleep(state.backoff),
{
}

} // verus!
