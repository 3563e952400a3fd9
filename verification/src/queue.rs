//! The rules of the queue in which events wait for their upload.

use vstd::prelude::*;
use vstd::string::*;
use vstd::utf8::*;

verus! {

/// A row of the queue.
#[derive(Debug, Clone)]
pub struct QueueRow {
    pub event_id: String,
    /// The event in writing.
    pub payload: String,
    /// The room that the payload takes up.
    pub bytes: i64,
    pub created_at: i64,
}

/// Why an event is not queued.
#[derive(Debug, Clone, Copy, PartialEq, Eq, Structural)]
pub enum QueueError {
    CapacityExceeded,
}

impl QueueError {
    /// The error in words.
    pub fn message(&self) -> (message: String)
        ensures
            message@ == "local queue capacity exceeded"@,
    {
        "local queue capacity exceeded".to_owned()
    }
}

/// The room in use as a count: the database's sum, read without a sign.
pub open spec fn room_used(used: i64) -> int {
    if used >= 0 {
        used as int
    } else {
        used + 0x1_0000_0000_0000_0000
    }
}

/// The length of `payload` in bytes.
pub open spec fn payload_bytes(payload: Seq<char>) -> nat {
    encode_utf8(payload).len()
}

/// Whether `res` is the decision on a payload while `used` bytes are taken: a
/// refusal exactly where it would not fit any more, and otherwise its row.
pub open spec fn is_decision(
    res: Result<QueueRow, QueueError>,
    event_id: String,
    payload: String,
    used: i64,
    max_bytes: u64,
    now: i64,
) -> bool {
    match res {
        Ok(row) => {
            &&& room_used(used) + payload_bytes(payload@) <= max_bytes
            &&& row.event_id == event_id
            &&& row.payload == payload
            &&& row.bytes == payload_bytes(payload@) as i64
            &&& row.created_at == now
        },
        Err(_) => room_used(used) + payload_bytes(payload@) > max_bytes,
    }
}

/// Decides on a payload while `used` bytes are taken: the row to insert, or a
/// refusal where it would not fit any more.
pub fn enqueue(
    event_id: &String,
    payload: String,
    used: i64,
    max_bytes: u64,
    now: i64,
) -> (res: Result<QueueRow, QueueError>)
    requires
        room_used(used) + payload_bytes(payload@) <= u64::MAX,
    ensures
        is_decision(res, *event_id, payload, used, max_bytes, now),
        used >= 0 ==> (res is Ok <==> used + encode_utf8(payload@).len() <= max_bytes),
        res matches Ok(row) ==> {
            &&& row.event_id == *event_id
            &&& row.payload == payload
            &&& encode_utf8(payload@).len() <= i64::MAX ==> row.bytes == encode_utf8(
                payload@,
            ).len()
            &&& row.created_at == now
        },
{
    let bytes = payload.as_str().as_bytes().len();
    #[verifier::truncate]
    let taken: u64 = used as u64;
    assert(taken == room_used(used)) by {
        assert(used >= 0 ==> used as u64 == used) by (bit_vector);
        assert(used < 0 ==> used as u64 == used + 0x1_0000_0000_0000_0000) by (bit_vector);
    }
    if taken + bytes as u64 > max_bytes {
        return Err(QueueError::CapacityExceeded);
    }
    #[verifier::truncate]
    let size: i64 = bytes as i64;
    Ok(QueueRow { event_id: event_id.clone(), payload, bytes: size, created_at: now })
}

/// The bytes of the payloads that are stored.
pub open spec fn stored_bytes(rows: Seq<QueueRow>) -> nat
    decreases rows.len(),
{
    if rows.len() == 0 {
        0
    } else {
        stored_bytes(rows.drop_last()) + payload_bytes(rows.last().payload@)
    }
}

/// The sum of the sizes that the rows give.
pub open spec fn sum_of_sizes(rows: Seq<QueueRow>) -> int
    decreases rows.len(),
{
    if rows.len() == 0 {
        0
    } else {
        sum_of_sizes(rows.drop_last()) + rows.last().bytes
    }
}

/// Whether every row gives the size of its payload.
pub open spec fn sizes_are_true(rows: Seq<QueueRow>) -> bool {
    forall|i: int|
        0 <= i < rows.len() ==> (#[trigger] rows[i]).bytes == payload_bytes(rows[i].payload@)
}

/// Whether an event of this identifier is stored.
pub open spec fn is_stored(rows: Seq<QueueRow>, event_id: Seq<char>) -> bool {
    exists|i: int| 0 <= i < rows.len() && (#[trigger] rows[i]).event_id@ == event_id
}

/// Whether no two rows share an identifier.
pub open spec fn ids_are_unique(rows: Seq<QueueRow>) -> bool {
    forall|i: int, j: int|
        0 <= i < j < rows.len() ==> (#[trigger] rows[i]).event_id@ != (#[trigger] rows[j]).event_id@
}

/// The rows after a decision was acted on: a refusal changes nothing, and a row
/// is inserted unless its identifier is stored already.
pub open spec fn after_decision(
    rows: Seq<QueueRow>,
    res: Result<QueueRow, QueueError>,
) -> Seq<QueueRow> {
    match res {
        Ok(row) => if is_stored(rows, row.event_id@) {
            rows
        } else {
            rows.push(row)
        },
        Err(_) => rows,
    }
}

/// The law of the queue. With `used` the bytes that are stored, an event is
/// refused exactly where its payload would take the queue over its limit, and
/// then nothing changes. Otherwise the queue stays within its limit and the event
/// is stored. Either way every row that was there stays there as it is, and
/// identifiers stay unique.
pub proof fn law_queue_is_kept(
    rows: Seq<QueueRow>,
    res: Result<QueueRow, QueueError>,
    event_id: String,
    payload: String,
    used: i64,
    max_bytes: u64,
    now: i64,
)
    requires
        used == stored_bytes(rows),
        is_decision(res, event_id, payload, used, max_bytes, now),
    ensures
        res is Err <==> stored_bytes(rows) + payload_bytes(payload@) > max_bytes,
        res is Err ==> after_decision(rows, res) == rows,
        res is Ok ==> stored_bytes(after_decision(rows, res)) <= max_bytes,
        res is Ok ==> is_stored(after_decision(rows, res), event_id@),
        rows.is_prefix_of(after_decision(rows, res)),
        ids_are_unique(rows) ==> ids_are_unique(after_decision(rows, res)),
{
    let after = after_decision(rows, res);
    assert(after.subrange(0, rows.len() as int) =~= rows);
    if let Ok(row) = res {
        if !is_stored(rows, row.event_id@) {
            assert(after.drop_last() =~= rows);
            assert(after[rows.len() as int].event_id@ == event_id@);
        }
    }
}

/// While rows give the sizes of their payloads, the sum of those sizes is the
/// bytes that are stored, and a row that was decided on keeps it so. No text is
/// longer than an `i64` can count.
pub proof fn law_sum_counts_what_is_stored(
    rows: Seq<QueueRow>,
    res: Result<QueueRow, QueueError>,
    event_id: String,
    payload: String,
    used: i64,
    max_bytes: u64,
    now: i64,
)
    requires
        sizes_are_true(rows),
        is_decision(res, event_id, payload, used, max_bytes, now),
        payload_bytes(payload@) <= i64::MAX,
    ensures
        sum_of_sizes(rows) == stored_bytes(rows),
        sizes_are_true(after_decision(rows, res)),
        sum_of_sizes(after_decision(rows, res)) == stored_bytes(after_decision(rows, res)),
{
    lemma_sum_of_true_sizes(rows);
    lemma_sum_of_true_sizes(after_decision(rows, res));
}

proof fn lemma_sum_of_true_sizes(rows: Seq<QueueRow>)
    requires
        sizes_are_true(rows),
    ensures
        sum_of_sizes(rows) == stored_bytes(rows),
    decreases rows.len(),
{
    if rows.len() > 0 {
        let head = rows.drop_last();
        assert forall|i: int| 0 <= i < head.len() implies (#[trigger] head[i]).bytes
            == payload_bytes(head[i].payload@) by {
            assert(head[i] == rows[i]);
        }
        lemma_sum_of_true_sizes(head);
        assert(rows[rows.len() - 1].bytes == payload_bytes(rows.last().payload@));
    }
}

/// Rows that leave the queue make room: what is left takes up no more than
/// before.
pub proof fn law_leaving_makes_room(rows: Seq<QueueRow>, stays: spec_fn(QueueRow) -> bool)
    ensures
        stored_bytes(rows.filter(stays)) <= stored_bytes(rows),
    decreases rows.len(),
{
    reveal(Seq::filter);
    if rows.len() > 0 {
        let head = rows.drop_last();
        law_leaving_makes_room(head, stays);
        if stays(rows.last()) {
            assert(rows.filter(stays).drop_last() =~= head.filter(stays));
        }
    }
}

/// The decision, written out over the bytes of the payload: it is let in exactly
/// where the bytes in use and its own are together within the limit, and its row
/// holds what was handed in.
pub proof fn law_decision_counts_bytes(
    res: Result<QueueRow, QueueError>,
    event_id: String,
    payload: String,
    used: i64,
    max_bytes: u64,
    now: i64,
)
    requires
        is_decision(res, event_id, payload, used, max_bytes, now),
    ensures
        ({
            let size = encode_utf8(payload@).len();
            let taken: int = if used >= 0 {
                used as int
            } else {
                used + 0x1_0000_0000_0000_0000
            };
            &&& res is Ok <==> taken + size <= max_bytes
            &&& res matches Ok(row) ==> {
                &&& row.event_id == event_id
                &&& row.payload == payload
                &&& size <= i64::MAX ==> row.bytes == size
                &&& row.created_at == now
            }
        }),
{
}

/// A larger payload is not let in where a smaller one is not, nor where less room
/// is left, nor under a lower limit.
pub proof fn law_decision_is_monotone(
    res: Result<QueueRow, QueueError>,
    more: Result<QueueRow, QueueError>,
    id: String,
    payload: String,
    larger: String,
    used: i64,
    fuller: i64,
    max_bytes: u64,
    lower: u64,
    now: i64,
)
    requires
        is_decision(res, id, payload, used, max_bytes, now),
        is_decision(more, id, larger, fuller, lower, now),
        encode_utf8(payload@).len() <= encode_utf8(larger@).len(),
        0 <= used <= fuller,
        lower <= max_bytes,
        more is Ok,
    ensures
        res is Ok,
{
}

} // verus!
