//! Which unit is read when, how often a read is repeated, and what becomes of
//! its answer.

use crate::config::CollectorConfig;
use crate::event::{new_event_id, Event};
use crate::frames::Response;
use crate::hex_text::hex_bytes;
use crate::modbus::read_frame;
use vstd::prelude::*;

verus! {

/// Nanoseconds in a second.
pub const SECOND: u128 = 1_000_000_000;

/// When each collector is due, in nanoseconds on a clock that never runs
/// backwards.
pub struct Schedule {
    pub due: Vec<u128>,
}

/// What is to be done now.
#[derive(Debug, Clone, Copy, PartialEq, Eq, Structural)]
pub enum Turn {
    /// Nothing, for this many nanoseconds.
    Sleep(u128),
    /// Reading the collector of this index.
    Poll(usize),
}

/// Whether `i` is the collector that is due first, and the first of those that
/// are due together.
pub open spec fn is_earliest(due: Seq<u128>, i: int) -> bool {
    &&& 0 <= i < due.len()
    &&& forall|j: int| 0 <= j < due.len() ==> due[i] <= #[trigger] due[j]
    &&& forall|j: int| 0 <= j < i ==> due[i] < #[trigger] due[j]
}

/// When a collector that is read at `now` is due again.
pub open spec fn due_again(now: u128, interval_seconds: u64) -> int {
    now + interval_seconds * SECOND
}

impl Schedule {
    /// A schedule in which every collector is due at once.
    pub fn new(collectors: usize, now: u128) -> (schedule: Self)
        ensures
            schedule.due@ == Seq::new(collectors as nat, |i: int| now),
    {
        let mut due: Vec<u128> = Vec::new();
        while due.len() < collectors
            invariant
                due@.len() <= collectors,
                due@ =~= Seq::new(due@.len(), |i: int| now),
            decreases collectors - due@.len(),
        {
            due.push(now);
        }
        Schedule { due }
    }

    /// The collector that is due first, if its time has come, and otherwise how
    /// long that takes.
    pub fn turn(&self, now: u128) -> (turn: Turn)
        requires
            self.due@.len() > 0,
        ensures
            match turn {
                Turn::Poll(i) => is_earliest(self.due@, i as int) && self.due@[i as int] <= now,
                Turn::Sleep(nanos) => exists|i: int| #[trigger]
                    is_earliest(self.due@, i) && self.due@[i] > now && nanos == self.due@[i] - now,
            },
            turn is Poll <==> exists|j: int| 0 <= j < self.due@.len() && #[trigger] self.due@[j] <= now,
            turn matches Turn::Poll(i) ==> {
                &&& i < self.due@.len()
                &&& forall|j: int|
                    0 <= j < self.due@.len() ==> self.due@[i as int] <= #[trigger] self.due@[j]
                &&& forall|j: int| 0 <= j < i ==> self.due@[i as int] < #[trigger] self.due@[j]
            },
            turn matches Turn::Sleep(nanos) ==> {
                &&& forall|j: int| 0 <= j < self.due@.len() ==> now + nanos <= #[trigger] self.due@[j]
                &&& exists|j: int|
                    0 <= j < self.due@.len() && #[trigger] self.due@[j] == now + nanos
            },
    {
        let mut first: usize = 0;
        let mut i: usize = 1;
        while i < self.due.len()
            invariant
                first < i <= self.due@.len(),
                forall|j: int| 0 <= j < i ==> self.due@[first as int] <= #[trigger] self.due@[j],
                forall|j: int| 0 <= j < first ==> self.due@[first as int] < #[trigger] self.due@[j],
            decreases self.due@.len() - i,
        {
            if self.due[i] < self.due[first] {
                first = i;
            }
            i += 1;
        }
        assert(is_earliest(self.due@, first as int));
        let wait = self.due[first];
        if wait > now {
            Turn::Sleep(wait - now)
        } else {
            Turn::Poll(first)
        }
    }

    /// Notes that collector `i` is read at `now`.
    pub fn begin(&mut self, i: usize, now: u128, interval_seconds: u64)
        requires
            i < old(self).due@.len(),
            due_again(now, interval_seconds) <= u128::MAX,
        ensures
            final(self).due@ == old(self).due@.update(
                i as int,
                due_again(now, interval_seconds) as u128,
            ),
            final(self).due@.len() == old(self).due@.len(),
            final(self).due@[i as int] == now + interval_seconds * 1_000_000_000,
            forall|j: int|
                0 <= j < old(self).due@.len() && j != i ==> #[trigger] final(self).due@[j]
                    == old(self).due@[j],
    {
        assert(interval_seconds * SECOND <= u64::MAX * SECOND) by (nonlinear_arith)
            requires
                interval_seconds <= u64::MAX,
        ;
        self.due.set(i, now + interval_seconds as u128 * SECOND);
    }
}

/// What happens while an answer is waited for.
pub enum Signal {
    /// The request could not be sent.
    SendFailed,
    /// An answer of some unit came in.
    Received(Response),
    /// The time for the answer is over, or no answer can come any more.
    Silence,
}

/// What is to be done then.
pub enum Next {
    /// Nothing more for this read.
    GiveUp,
    /// Recording the answer.
    Accept(Response),
    /// Waiting on: the answer is not for this read.
    Listen,
    /// Sending the request again after this many seconds.
    ResendAfter(u64),
}

/// How often a read has been tried.
#[derive(Debug, Clone, Copy, PartialEq, Eq, Structural)]
pub struct Attempts {
    /// The number of repetitions so far.
    pub attempt: u32,
    /// The number of repetitions allowed.
    pub retries: u32,
}

/// Whether `r` answers what `c` is asked.
pub open spec fn answers(c: CollectorConfig, r: crate::frames::ResponseView) -> bool {
    r.addr == c.address && r.func == c.function
}

impl Attempts {
    /// Whether no more repetitions were made than allowed.
    pub open spec fn valid(self) -> bool {
        self.attempt <= self.retries
    }

    /// A read that is tried for the first time.
    pub fn new(retries: u32) -> (attempts: Self)
        ensures
            attempts == (Attempts { attempt: 0, retries }),
            attempts.valid(),
    {
        Attempts { attempt: 0, retries }
    }

    /// The state after a silence.
    pub open spec fn after_silence(self) -> Self {
        if self.attempt < self.retries {
            Attempts { attempt: (self.attempt + 1) as u32, retries: self.retries }
        } else {
            self
        }
    }

    /// The state after `signal`.
    pub open spec fn after(self, signal: Signal) -> Self {
        match signal {
            Signal::Silence => self.after_silence(),
            _ => self,
        }
    }

    /// What follows `signal` while `c` is read.
    pub open spec fn decision(self, c: CollectorConfig, signal: Signal) -> Next {
        match signal {
            Signal::SendFailed => Next::GiveUp,
            Signal::Received(r) => if answers(c, r@) {
                Next::Accept(r)
            } else {
                Next::Listen
            },
            Signal::Silence => if self.attempt < self.retries {
                Next::ResendAfter((self.attempt + 1) as u64)
            } else {
                Next::GiveUp
            },
        }
    }

    /// Decides what follows `signal` while `c` is read.
    pub fn on(&mut self, c: &CollectorConfig, signal: Signal) -> (next: Next)
        requires
            old(self).valid(),
        ensures
            final(self).valid(),
            *final(self) == old(self).after(signal),
            next == old(self).decision(*c, signal),
            next matches Next::Accept(r) ==> {
                &&& signal == Signal::Received(r)
                &&& r.addr == c.address
                &&& r.func == c.function
            },
            signal matches Signal::Received(r) ==> (next is Accept <==> r.addr == c.address
                && r.func == c.function),
            final(self).retries == old(self).retries,
            match signal {
                Signal::SendFailed => next is GiveUp && *final(self) == *old(self),
                Signal::Received(r) => {
                    &&& *final(self) == *old(self)
                    &&& next == if answers(*c, r@) {
                        Next::Accept(r)
                    } else {
                        Next::Listen
                    }
                },
                Signal::Silence => {
                    &&& *final(self) == old(self).after_silence()
                    &&& next == if old(self).attempt < old(self).retries {
                        Next::ResendAfter((old(self).attempt + 1) as u64)
                    } else {
                        Next::GiveUp
                    }
                },
            },
    {
        match signal {
            Signal::SendFailed => Next::GiveUp,
            Signal::Received(r) => if r.addr == c.address && r.func == c.function {
                Next::Accept(r)
            } else {
                Next::Listen
            },
            Signal::Silence => if self.attempt < self.retries {
                self.attempt = self.attempt + 1;
                Next::ResendAfter(self.attempt as u64)
            } else {
                Next::GiveUp
            },
        }
    }
}

/// The request that reads `c`.
pub fn request(c: &CollectorConfig) -> (frame: Vec<u8>)
    ensures
        frame@ == crate::modbus::request_frame(c.address, c.function, c.start, c.count),
        frame@.len() == 8,
        frame@[0] == c.address,
        frame@[1] == c.function,
        frame@[2] * 256 + frame@[3] == c.start,
        frame@[4] * 256 + frame@[5] == c.count,
{
    read_frame(c.address, c.function, c.start, c.count)
}

/// Whether `e` records the answer `r` of `c` to `request`.
pub open spec fn records(
    e: Event,
    site_id: Seq<char>,
    c: CollectorConfig,
    requested_at: i64,
    request: Seq<u8>,
    r: crate::frames::ResponseView,
) -> bool {
    &&& e.site_id@ == site_id
    &&& e.collector_id@ == c.id@
    &&& e.address == c.address
    &&& e.requested_at == requested_at
    &&& e.function == c.function
    &&& e.start == c.start
    &&& e.count == c.count
    &&& e.request_hex@ == crate::hex_text::spaced_hex(request)
    &&& e.response_hex@ == crate::hex_text::spaced_hex(r.raw)
    &&& e.crc_valid == r.crc_ok
}

/// The event for the answer `r`.
pub fn make_event(
    event_id: String,
    site_id: &String,
    c: &CollectorConfig,
    requested_at: i64,
    received_at: i64,
    request: &[u8],
    r: &Response,
) -> (e: Event)
    requires
        3 * request@.len() <= isize::MAX,
        3 * r.raw@.len() <= isize::MAX,
    ensures
        e.event_id == event_id,
        e.received_at == received_at,
        records(e, site_id@, *c, requested_at, request@, r@),
        e.site_id@ == site_id@,
        e.collector_id@ == c.id@,
        e.address == c.address,
        e.requested_at == requested_at,
        e.function == c.function,
        e.start == c.start,
        e.count == c.count,
        e.request_hex@ == crate::hex_text::spaced_hex(request@),
        e.response_hex@ == crate::hex_text::spaced_hex(r.raw@),
        e.crc_valid == r.crc_ok,
{
    Event {
        event_id,
        site_id: site_id.clone(),
        collector_id: c.id.clone(),
        address: c.address,
        requested_at,
        received_at,
        function: c.function,
        start: c.start,
        count: c.count,
        request_hex: hex_bytes(request),
        response_hex: hex_bytes(r.raw.as_slice()),
        crc_valid: r.crc_ok,
    }
}

/// What a read comes to.
pub enum Outcome {
    /// An event to queue.
    Queue(Event),
    /// An answer whose CRC is wrong, which is dropped.
    BadCrc,
    /// No answer.
    Unanswered,
}

/// Whether what was received is queued: only an answer with the right CRC is.
pub open spec fn is_queued(got: Option<crate::frames::ResponseView>) -> bool {
    got matches Some(r) && r.crc_ok
}

/// Concludes at `received_at` a read of `c` that was asked with `request`. The
/// event of a valid answer bears a fresh identifier.
pub fn conclude(
    site_id: &String,
    c: &CollectorConfig,
    requested_at: i64,
    received_at: i64,
    request: &[u8],
    got: Option<Response>,
) -> (outcome: Outcome)
    requires
        3 * request@.len() <= isize::MAX,
        got matches Some(r) ==> 3 * r.raw@.len() <= isize::MAX,
    ensures
        match got {
            None => outcome is Unanswered,
            Some(r) => if r.crc_ok {
                outcome matches Outcome::Queue(e) && {
                    &&& records(e, site_id@, *c, requested_at, request@, r@)
                    &&& e.received_at == received_at
                    &&& crate::event::is_random_uuid(e.event_id@)
                }
            } else {
                outcome is BadCrc
            },
        },
        outcome is Queue <==> is_queued(
            match got {
                Some(r) => Some(r@),
                None => None,
            },
        ),
        outcome matches Outcome::Queue(e) ==> {
            &&& got is Some
            &&& got->0.crc_ok
            &&& e.crc_valid
            &&& e.site_id@ == site_id@
            &&& e.collector_id@ == c.id@
            &&& e.address == c.address
            &&& e.requested_at == requested_at
            &&& e.function == c.function
            &&& e.start == c.start
            &&& e.count == c.count
            &&& e.request_hex@ == crate::hex_text::spaced_hex(request@)
            &&& e.response_hex@ == crate::hex_text::spaced_hex(got->0.raw@)
        },
{
    match got {
        None => Outcome::Unanswered,
        Some(r) => if r.crc_ok {
            let event_id = new_event_id();
            Outcome::Queue(
                make_event(event_id, site_id, c, requested_at, received_at, request, &r),
            )
        } else {
            Outcome::BadCrc
        },
    }
}

/// A collector that was read at `now` is not read again before its interval is
/// over.
pub proof fn law_reads_keep_their_distance(
    due: Seq<u128>,
    i: int,
    now: u128,
    interval_seconds: u64,
    later: u128,
)
    requires
        0 <= i < due.len(),
        due_again(now, interval_seconds) <= u128::MAX,
        due.update(i, due_again(now, interval_seconds) as u128)[i] <= later,
    ensures
        later - now >= interval_seconds * SECOND,
{
}

/// A collector that was read does not come first again while another is waiting
/// whose time had come by then.
pub proof fn law_waiting_goes_first(
    due: Seq<u128>,
    i: int,
    j: int,
    now: u128,
    interval_seconds: u64,
)
    requires
        0 <= i < due.len(),
        0 <= j < due.len(),
        i != j,
        due[j] <= now,
        interval_seconds >= 1,
        due_again(now, interval_seconds) <= u128::MAX,
    ensures
        !is_earliest(due.update(i, due_again(now, interval_seconds) as u128), i),
{
    let after = due.update(i, due_again(now, interval_seconds) as u128);
    assert(interval_seconds * SECOND >= SECOND) by (nonlinear_arith)
        requires
            interval_seconds >= 1,
    ;
    assert(after[j] < after[i]);
}

/// A run of reads, one after the other without a pause for anything to become
/// due: `dues[k]` is the schedule before the `k`th, which reads `polls[k]` at
/// `nows[k]`.
pub open spec fn is_run(
    dues: Seq<Seq<u128>>,
    polls: Seq<int>,
    nows: Seq<u128>,
    intervals: Seq<u64>,
) -> bool {
    &&& dues.len() == polls.len() + 1
    &&& nows.len() == polls.len()
    &&& intervals.len() == polls.len()
    &&& forall|k: int| 0 <= k < polls.len() ==> #[trigger] is_earliest(dues[k], polls[k])
    &&& forall|k: int|
        #![trigger dues[k + 1]]
        0 <= k < polls.len() ==> {
            &&& intervals[k] >= 1
            &&& due_again(nows[k], intervals[k]) <= u128::MAX
            &&& dues[k + 1] == dues[k].update(
                polls[k],
                due_again(nows[k], intervals[k]) as u128,
            )
        }
    &&& forall|k: int, l: int|
        0 <= k <= l < nows.len() ==> #[trigger] nows[k] <= #[trigger] nows[l]
}

/// What is not read stays due when it was.
proof fn lemma_unread_stays(
    dues: Seq<Seq<u128>>,
    polls: Seq<int>,
    nows: Seq<u128>,
    intervals: Seq<u64>,
    j: int,
    k: int,
)
    requires
        is_run(dues, polls, nows, intervals),
        0 <= k <= polls.len(),
        0 <= j < dues[0].len(),
        forall|l: int| 0 <= l < k ==> #[trigger] polls[l] != j,
    ensures
        dues[k].len() == dues[0].len(),
        dues[k][j] == dues[0][j],
    decreases k,
{
    if k > 0 {
        lemma_unread_stays(dues, polls, nows, intervals, j, k - 1);
        assert(dues[(k - 1) + 1] == dues[k]);
        assert(is_earliest(dues[k - 1], polls[k - 1]));
        assert(polls[k - 1] != j);
    }
}

/// What was read at step `k` is due again only after that.
proof fn lemma_read_is_due_later(
    dues: Seq<Seq<u128>>,
    polls: Seq<int>,
    nows: Seq<u128>,
    intervals: Seq<u64>,
    k: int,
    l: int,
)
    requires
        is_run(dues, polls, nows, intervals),
        0 <= k < l <= polls.len(),
    ensures
        0 <= polls[k] < dues[l].len(),
        dues[l][polls[k]] > nows[k],
    decreases l - k,
{
    let m = l - 1;
    assert(dues[m + 1] == dues[l]);
    assert(is_earliest(dues[m], polls[m]));
    assert(intervals[m] * SECOND >= SECOND) by (nonlinear_arith)
        requires
            intervals[m] >= 1,
    ;
    if k < m {
        lemma_read_is_due_later(dues, polls, nows, intervals, k, m);
        assert(nows[k] <= nows[m]);
    }
}

/// No collector starves: one that is due is read within as many reads as there
/// are collectors, whatever else is due.
pub proof fn law_no_collector_starves(
    dues: Seq<Seq<u128>>,
    polls: Seq<int>,
    nows: Seq<u128>,
    intervals: Seq<u64>,
    j: int,
)
    requires
        is_run(dues, polls, nows, intervals),
        0 <= j < dues[0].len(),
        polls.len() == dues[0].len(),
        dues[0][j] <= nows[0],
    ensures
        exists|k: int| 0 <= k < polls.len() && #[trigger] polls[k] == j,
{
    if !(exists|k: int| 0 <= k < polls.len() && #[trigger] polls[k] == j) {
        let n = polls.len() as int;
        assert forall|k: int, l: int| 0 <= k < l < n implies polls[k] != polls[l] by {
            if polls[k] == polls[l] {
                lemma_unread_stays(dues, polls, nows, intervals, j, l);
                lemma_read_is_due_later(dues, polls, nows, intervals, k, l);
                assert(is_earliest(dues[l], polls[l]));
                assert(dues[l][polls[l]] <= dues[l][j]);
                assert(nows[0] <= nows[k]);
            }
        }
        assert(polls.no_duplicates());
        polls.unique_seq_to_set();
        let all = vstd::set_lib::set_int_range(0, n);
        vstd::set_lib::lemma_int_range(0, n);
        assert forall|i: int| polls.to_set().contains(i) implies all.remove(j).contains(i) by {
            let k = choose|k: int| 0 <= k < polls.len() && polls[k] == i;
            lemma_unread_stays(dues, polls, nows, intervals, j, k);
            assert(is_earliest(dues[k], polls[k]));
        }
        vstd::set_lib::lemma_len_subset(polls.to_set(), all.remove(j));
    }
}

/// The state after `k` silences from the first try on.
pub open spec fn after_silences(retries: u32, k: nat) -> Attempts
    decreases k,
{
    if k == 0 {
        Attempts { attempt: 0, retries }
    } else {
        after_silences(retries, (k - 1) as nat).after_silence()
    }
}

/// The retry law: of a unit that stays silent, the request is repeated exactly
/// as often as allowed, the `k`th time after `k` seconds, and then no more.
pub proof fn law_retries_are_bounded(retries: u32, k: nat)
    ensures
        after_silences(retries, k).valid(),
        after_silences(retries, k).retries == retries,
        after_silences(retries, k).attempt == if k <= retries {
            k as int
        } else {
            retries as int
        },
        after_silences(retries, k).attempt < retries <==> k < retries,
    decreases k,
{
    if k > 0 {
        law_retries_are_bounded(retries, (k - 1) as nat);
    }
}

/// What is queued came from the stream as it is and carries the right CRC.
pub proof fn law_only_valid_answers_are_queued(stream: Seq<u8>, i: int)
    requires
        0 <= i < crate::frames::decode(stream).responses.len(),
        is_queued(Some(crate::frames::decode(stream).responses[i])),
    ensures
        crate::crc::crc_matches(crate::frames::decode(stream).responses[i].raw),
        crate::frames::occurs(crate::frames::decode(stream).responses[i].raw, stream),
{
    crate::frames::law_answers_are_genuine(stream);
}

/// The round trip: when the unit of a valid collector answers its request with
/// the registers asked for, that answer is taken out of the stream, taken for
/// the answer, and queued.
pub proof fn law_read_is_recorded(c: CollectorConfig, data: Seq<u8>, tail: Seq<u8>)
    requires
        c.valid(),
        data.len() == 2 * c.count,
        c.address != crate::frames::HEARTBEAT,
        c.address == crate::frames::STAR ==> 5 + data.len() + tail.len() >= 10,
    ensures
        ({
            let raw = crate::modbus::response_frame(c.address, c.function, data);
            let got = crate::frames::decode(raw + tail).responses;
            &&& got.len() > 0
            &&& got[0].raw == raw
            &&& answers(c, got[0])
            &&& is_queued(Some(got[0]))
        }),
{
    crate::frames::law_valid_answer_is_delivered(c.address, c.function, data, tail);
}

/// A collector that is read at `now` is due again exactly its interval later, in
/// nanoseconds, and nobody else's time moves.
pub proof fn law_due_again_after_the_interval(
    due: Seq<u128>,
    i: int,
    now: u128,
    interval_seconds: u64,
)
    requires
        0 <= i < due.len(),
        now + interval_seconds * 1_000_000_000 <= u128::MAX,
    ensures
        ({
            let after = due.update(i, due_again(now, interval_seconds) as u128);
            &&& after[i] - now <= interval_seconds * 1_000_000_000
            &&& after[i] - now >= interval_seconds * 1_000_000_000
            &&& after.len() == due.len()
            &&& forall|j: int| 0 <= j < due.len() && j != i ==> #[trigger] after[j] == due[j]
        }),
{
}

/// Intervals take equally long from any time on, add up, and are counted in
/// seconds.
pub proof fn law_intervals_add_up(now: u128, later: u128, a: u64, b: u64)
    requires
        a + b <= u64::MAX,
    ensures
        due_again(now, a) - now == due_again(later, a) - later,
        (due_again(now, a) - now) + (due_again(now, b) - now) == due_again(now, (a + b) as u64)
            - now,
        due_again(now, 1) - now == 1_000_000_000,
{
    assert((a + b) * 1_000_000_000 == a * 1_000_000_000 + b * 1_000_000_000);
}

/// The collector whose turn it is is due no later than any other, and earlier
/// than those before it. There is always one, and only one.
pub proof fn law_first_due_goes_first(due: Seq<u128>)
    requires
        due.len() > 0,
    ensures
        exists|i: int| is_earliest(due, i),
        forall|i: int, j: int|
            #[trigger] is_earliest(due, i) && 0 <= j < due.len() ==> {
                &&& 0 <= i < due.len()
                &&& due[i] <= #[trigger] due[j]
                &&& j < i ==> due[i] < due[j]
            },
        forall|i: int, j: int| #[trigger]
            is_earliest(due, i) && #[trigger] is_earliest(due, j) ==> i == j,
    decreases due.len(),
{
    if due.len() == 1 {
        assert(is_earliest(due, 0));
    } else {
        let head = due.drop_last();
        law_first_due_goes_first(head);
        let i = choose|i: int| is_earliest(head, i);
        let last = due.len() - 1;
        assert forall|j: int| 0 <= j < last implies head[i] <= #[trigger] due[j] by {
            assert(due[j] == head[j]);
        }
        assert forall|j: int| 0 <= j < i implies head[i] < #[trigger] due[j] by {
            assert(due[j] == head[j]);
        }
        if due[last] < due[i] {
            assert(is_earliest(due, last));
        } else {
            assert(is_earliest(due, i));
        }
    }
}

/// An answer is taken exactly where it comes from the unit and for the function
/// that were asked.
pub proof fn law_only_the_answer_asked_for_is_accepted(
    attempts: Attempts,
    c: CollectorConfig,
    r: Response,
)
    ensures
        attempts.decision(c, Signal::Received(r)) == Next::Accept(r) <==> (r.addr == c.address
            && r.func == c.function),
        !(r.addr == c.address && r.func == c.function) ==> attempts.decision(
            c,
            Signal::Received(r),
        ) == Next::Listen,
        attempts.after(Signal::Received(r)) == attempts,
{
}

/// No answer is taken for two collectors with different addresses or functions.
pub proof fn law_no_answer_counts_twice(
    first: Attempts,
    second: Attempts,
    c: CollectorConfig,
    d: CollectorConfig,
    r: Response,
)
    requires
        c.address != d.address || c.function != d.function,
    ensures
        !(first.decision(c, Signal::Received(r)) is Accept && second.decision(
            d,
            Signal::Received(r),
        ) is Accept),
{
}

/// A request that cannot be sent ends the read, and counts as no repetition.
pub proof fn law_failed_send_ends_the_read(attempts: Attempts, c: CollectorConfig)
    ensures
        attempts.decision(c, Signal::SendFailed) == Next::GiveUp,
        attempts.after(Signal::SendFailed) == attempts,
{
}

/// The waits of a read that stays silent: after `k` silences the next one is
/// followed by a repetition `k + 1` seconds later while fewer than `retries` were
/// made, and then by nothing. `states` are the states before each silence.
pub proof fn law_silence_is_met_with_growing_waits(
    states: Seq<Attempts>,
    retries: u32,
    c: CollectorConfig,
    k: int,
)
    requires
        0 <= k < states.len(),
        states[0].attempt == 0,
        states[0].retries == retries,
        forall|i: int|
            0 < i < states.len() ==> #[trigger] states[i] == states[i - 1].after(Signal::Silence),
    ensures
        states[k].retries == retries,
        k < retries ==> states[k].decision(c, Signal::Silence) == Next::ResendAfter((k + 1) as u64),
        k >= retries ==> states[k].decision(c, Signal::Silence) == Next::GiveUp,
        k <= retries ==> states[k].attempt == k,
        k > retries ==> states[k].attempt == retries,
    decreases k,
{
    if k > 0 {
        law_silence_is_met_with_growing_waits(states, retries, c, k - 1);
        assert(states[k] == states[k - 1].after(Signal::Silence));
    }
}

/// An event says of the read what was asked and of the answer what came: who,
/// when, with what, and whether the CRC was right.
pub proof fn law_event_says_what_happened(
    e: Event,
    site_id: Seq<char>,
    c: CollectorConfig,
    requested_at: i64,
    request: Seq<u8>,
    r: crate::frames::ResponseView,
)
    requires
        records(e, site_id, c, requested_at, request, r),
    ensures
        e.site_id@ == site_id,
        e.collector_id@ == c.id@,
        e.address == c.address,
        e.requested_at == requested_at,
        e.function == c.function,
        e.start == c.start,
        e.count == c.count,
        e.request_hex@ == crate::hex_text::spaced_hex(request),
        e.response_hex@ == crate::hex_text::spaced_hex(r.raw),
        e.crc_valid == r.crc_ok,
{
}

/// Two answers that are recorded alike are alike, byte for byte.
pub proof fn law_event_tells_answers_apart(
    e: Event,
    site_id: Seq<char>,
    c: CollectorConfig,
    requested_at: i64,
    request: Seq<u8>,
    r: crate::frames::ResponseView,
    other: crate::frames::ResponseView,
)
    requires
        records(e, site_id, c, requested_at, request, r),
        records(e, site_id, c, requested_at, request, other),
    ensures
        r.raw == other.raw,
        r.crc_ok == other.crc_ok,
{
    crate::hex_text::law_hex_keeps_everything(r.raw, other.raw);
}

/// What is queued is exactly an answer that came with the right CRC.
pub proof fn law_queueing_follows_the_crc(r: crate::frames::ResponseView)
    ensures
        is_queued(Some(r)) <==> r.crc_ok,
        !is_queued(None),
{
}

} // verus!
