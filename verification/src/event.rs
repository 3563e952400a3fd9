//! What is recorded of an answer.

use vstd::prelude::*;

verus! {

/// One answer of one unit, with the request that it answers.
#[derive(Debug, Clone)]
pub struct Event {
    pub event_id: String,
    pub site_id: String,
    pub collector_id: String,
    pub address: u8,
    pub requested_at: i64,
    pub received_at: i64,
    pub function: u8,
    pub start: u16,
    pub count: u16,
    pub request_hex: String,
    pub response_hex: String,
    pub crc_valid: bool,
}

/// Whether `c` is a hexadecimal digit, letters small.
pub open spec fn is_lower_hex(c: char) -> bool {
    '0' <= c <= '9' || 'a' <= c <= 'f'
}

/// Whether `id` has the form of a random UUID:
/// `xxxxxxxx-xxxx-4xxx-yxxx-xxxxxxxxxxxx`, with `y` one of `8`, `9`, `a`, `b`.
pub open spec fn is_random_uuid(id: Seq<char>) -> bool {
    &&& id.len() == 36
    &&& forall|i: int|
        0 <= i < 36 ==> if i == 8 || i == 13 || i == 18 || i == 23 {
            #[trigger] id[i] == '-'
        } else {
            is_lower_hex(id[i])
        }
    &&& id[14] == '4'
    &&& id[19] == '8' || id[19] == '9' || id[19] == 'a' || id[19] == 'b'
}

/// `uuid::Uuid::new_v4`, written with `to_string`: a fresh identifier in the
/// form of a random UUID, hyphens between its groups and letters small. Its other
/// digits are random, and nothing is claimed of them. It panics where the
/// operating system has no random numbers to give.
#[verifier::external_body]
pub(crate) fn new_event_id() -> (id: String)
    ensures
        is_random_uuid(id@),
{
    uuid::Uuid::new_v4().to_string()
}

/// The identifiers of the events of a batch, in order.
pub open spec fn ids_of(batch: Seq<Event>) -> Seq<String> {
    batch.map_values(|e: Event| e.event_id)
}

/// The identifiers of the events of a batch, in order.
pub fn event_ids(batch: &Vec<Event>) -> (ids: Vec<String>)
    ensures
        ids@ == ids_of(batch@),
        ids@ == batch@.map_values(|e: Event| e.event_id),
{
    let mut ids: Vec<String> = Vec::new();
    let mut i: usize = 0;
    while i < batch.len()
        invariant
            i <= batch@.len(),
            ids@ =~= batch@.take(i as int).map_values(|e: Event| e.event_id),
        decreases batch@.len() - i,
    {
        ids.push(batch[i].event_id.clone());
        i += 1;
    }
    assert(batch@.take(batch@.len() as int) =~= batch@);
    ids
}

/// The identifiers of two batches one after the other are those of the first and
/// then those of the second, and an event has one.
pub proof fn law_ids_follow_the_batch(a: Seq<Event>, b: Seq<Event>, e: Event)
    ensures
        ids_of(a + b) == ids_of(a) + ids_of(b),
        ids_of(seq![e]) == seq![e.event_id],
        ids_of(a).len() == a.len(),
{
    assert(ids_of(a + b) =~= ids_of(a) + ids_of(b));
    assert(ids_of(seq![e]) =~= seq![e.event_id]);
}

} // verus!
