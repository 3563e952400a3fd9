//! The CRC-16 that closes every Modbus RTU frame, and what it detects.

use vstd::prelude::*;

verus! {

/// The register's value before the first byte.
pub const CRC_INIT: u16 = 0xffff;

/// The generator polynomial, least significant bit first.
pub const CRC_POLY: u16 = 0xa001;

/// The register after one shift: the bit that falls out selects whether the
/// polynomial is subtracted.
pub open spec fn crc_shift(crc: u16) -> u16 {
    if crc & 1 != 0 {
        (crc >> 1) ^ CRC_POLY
    } else {
        crc >> 1
    }
}

/// The register after `n` shifts.
pub open spec fn crc_shifts(crc: u16, n: nat) -> u16
    decreases n,
{
    if n == 0 {
        crc
    } else {
        crc_shift(crc_shifts(crc, (n - 1) as nat))
    }
}

/// The register after one more byte of data.
pub open spec fn crc_byte(crc: u16, byte: u8) -> u16 {
    crc_shifts(crc ^ (byte as u16), 8)
}

/// The register after all of `data`, starting from `crc`.
pub open spec fn crc_from(crc: u16, data: Seq<u8>) -> u16
    decreases data.len(),
{
    if data.len() == 0 {
        crc
    } else {
        crc_byte(crc_from(crc, data.drop_last()), data.last())
    }
}

/// The CRC of `data`.
pub open spec fn crc_of(data: Seq<u8>) -> u16 {
    crc_from(CRC_INIT, data)
}

/// A CRC as it stands on the wire: low byte first.
pub open spec fn crc_trailer(crc: u16) -> Seq<u8> {
    seq![(crc % 256) as u8, (crc / 256) as u8]
}

/// Whether the last two bytes of `raw` are the CRC of those before them.
pub open spec fn crc_matches(raw: Seq<u8>) -> bool {
    &&& raw.len() >= 2
    &&& raw.skip(raw.len() - 2) == crc_trailer(crc_of(raw.take(raw.len() - 2)))
}

/// The Modbus CRC-16 of `data`.
pub fn crc16(data: &[u8]) -> (crc: u16)
    ensures
        crc == crc_of(data@),
{
    let mut crc: u16 = CRC_INIT;
    let mut i: usize = 0;
    while i < data.len()
        invariant
            i <= data@.len(),
            crc == crc_of(data@.take(i as int)),
        decreases data@.len() - i,
    {
        let ghost before = crc;
        crc = crc ^ (data[i] as u16);
        let ghost mixed = crc;
        let mut shifts: u8 = 0;
        while shifts < 8
            invariant
                shifts <= 8,
                crc == crc_shifts(mixed, shifts as nat),
            decreases 8 - shifts,
        {
            crc = if crc & 1 != 0 {
                (crc >> 1) ^ CRC_POLY
            } else {
                crc >> 1
            };
            shifts += 1;
        }
        proof {
            assert(data@.take(i + 1).drop_last() =~= data@.take(i as int));
            assert(crc == crc_byte(before, data@[i as int]));
        }
        i += 1;
    }
    proof {
        assert(data@.take(data@.len() as int) =~= data@);
    }
    crc
}

/// Whether the last two bytes of `raw` are the CRC of those before them.
pub fn crc_valid(raw: &[u8]) -> (ok: bool)
    ensures
        ok == crc_matches(raw@),
{
    let len = raw.len();
    if len < 2 {
        return false;
    }
    let crc = crc16(vstd::slice::slice_subrange(raw, 0, len - 2));
    proof {
        assert(raw@.subrange(0, len - 2) =~= raw@.take(len - 2));
        assert(raw@.skip(len - 2) =~= seq![raw@[len - 2], raw@[len - 1]]);
        assert(crc_trailer(crc)[0] == (crc % 256) as u8 && crc_trailer(crc)[1] == (crc / 256) as u8);
    }
    raw[len - 2] == (crc % 256) as u8 && raw[len - 1] == (crc / 256) as u8
}

/// Running over two pieces is running over the second from where the first
/// ended.
pub proof fn law_crc_concat(crc: u16, a: Seq<u8>, b: Seq<u8>)
    ensures
        crc_from(crc, a + b) == crc_from(crc_from(crc, a), b),
    decreases b.len(),
{
    if b.len() == 0 {
        assert(a + b =~= a);
    } else {
        assert((a + b).drop_last() =~= a + b.drop_last());
        law_crc_concat(crc, a, b.drop_last());
    }
}

proof fn lemma_shift_injective(a: u16, b: u16)
    requires
        crc_shift(a) == crc_shift(b),
    ensures
        a == b,
{
    assert(((if a & 1 != 0 { (a >> 1) ^ 0xa001u16 } else { a >> 1 })
        == (if b & 1 != 0 { (b >> 1) ^ 0xa001u16 } else { b >> 1 })) ==> a == b) by (bit_vector);
}

proof fn lemma_shifts_injective(a: u16, b: u16, n: nat)
    requires
        crc_shifts(a, n) == crc_shifts(b, n),
    ensures
        a == b,
    decreases n,
{
    if n > 0 {
        lemma_shift_injective(crc_shifts(a, (n - 1) as nat), crc_shifts(b, (n - 1) as nat));
        lemma_shifts_injective(a, b, (n - 1) as nat);
    }
}

/// Eight shifts of a register whose low byte is clear move the high byte down.
proof fn lemma_shifts_clear_low(x: u16)
    requires
        x % 256 == 0,
    ensures
        crc_shifts(x, 8) == x / 256,
{
    reveal_with_fuel(crc_shifts, 9);
    assert(x % 256 == 0 ==> {
        &&& x & 1 == 0
        &&& (x >> 1) & 1 == 0
        &&& ((x >> 1) >> 1) & 1 == 0
        &&& (((x >> 1) >> 1) >> 1) & 1 == 0
        &&& ((((x >> 1) >> 1) >> 1) >> 1) & 1 == 0
        &&& (((((x >> 1) >> 1) >> 1) >> 1) >> 1) & 1 == 0
        &&& ((((((x >> 1) >> 1) >> 1) >> 1) >> 1) >> 1) & 1 == 0
        &&& (((((((x >> 1) >> 1) >> 1) >> 1) >> 1) >> 1) >> 1) & 1 == 0
        &&& ((((((((x >> 1) >> 1) >> 1) >> 1) >> 1) >> 1) >> 1) >> 1) == x / 256
    }) by (bit_vector);
}

proof fn lemma_byte_injective(a: u16, b: u16, x: u8, y: u8)
    requires
        crc_byte(a, x) == crc_byte(b, y),
    ensures
        a == b ==> x == y,
        x == y ==> a == b,
{
    lemma_shifts_injective(a ^ (x as u16), b ^ (y as u16), 8);
    assert(a ^ (x as u16) == b ^ (y as u16) ==> (a == b ==> x == y) && (x == y ==> a == b))
        by (bit_vector);
}

/// From one register value, two bytes clear the register exactly when they are
/// that value, low byte first.
proof fn lemma_two_bytes_clear(crc: u16, lo: u8, hi: u8)
    ensures
        crc_byte(crc_byte(crc, lo), hi) == 0 <==> crc == lo + 256 * hi,
{
    let mixed = crc ^ (lo as u16);
    let high = (256 * hi) as u16;
    lemma_shifts_clear_low(high);
    lemma_shifts_clear_low(0);
    assert(crc_byte(hi as u16, hi) == 0) by {
        assert((hi as u16) ^ (hi as u16) == 0) by (bit_vector);
    }
    if crc_byte(crc_byte(crc, lo), hi) == 0 {
        lemma_byte_injective(crc_byte(crc, lo), hi as u16, hi, hi);
        lemma_shifts_injective(mixed, high, 8);
        assert(crc ^ (lo as u16) == (256 * hi) as u16 ==> crc == lo + 256 * hi) by (bit_vector);
    }
    if crc == lo + 256 * hi {
        assert(crc == lo + 256 * hi ==> crc ^ (lo as u16) == (256 * hi) as u16) by (bit_vector);
    }
}

/// The residue law: a frame carries the right CRC exactly when running the CRC
/// over all of it, trailer included, leaves zero.
pub proof fn law_crc_residue(raw: Seq<u8>)
    requires
        raw.len() >= 2,
    ensures
        crc_matches(raw) <==> crc_of(raw) == 0,
{
    let n = raw.len() - 2;
    let body = raw.take(n);
    let lo = raw[n];
    let hi = raw[n + 1];
    assert(raw.drop_last().drop_last() =~= body);
    assert(raw.drop_last().last() == lo);
    reveal_with_fuel(crc_from, 3);
    lemma_two_bytes_clear(crc_of(body), lo, hi);
    assert(raw.skip(n) =~= seq![lo, hi]);
    let trailer = crc_trailer(crc_of(body));
    assert(trailer[0] == (crc_of(body) % 256) as u8 && trailer[1] == (crc_of(body) / 256) as u8);
    if crc_matches(raw) {
        assert(raw.skip(n)[0] == lo && raw.skip(n)[1] == hi);
    }
}

/// Appending its CRC to any message makes a frame that carries the right CRC.
pub proof fn law_crc_sealed(body: Seq<u8>)
    ensures
        crc_matches(body + crc_trailer(crc_of(body))),
{
    let raw = body + crc_trailer(crc_of(body));
    assert(raw.take(raw.len() - 2) =~= body);
    assert(raw.skip(raw.len() - 2) =~= crc_trailer(crc_of(body)));
}

/// The register never forgets: the same bytes lead from different registers to
/// different registers.
proof fn lemma_from_injective(a: u16, b: u16, data: Seq<u8>)
    requires
        crc_from(a, data) == crc_from(b, data),
    ensures
        a == b,
    decreases data.len(),
{
    if data.len() > 0 {
        let head = data.drop_last();
        lemma_byte_injective(crc_from(a, head), crc_from(b, head), data.last(), data.last());
        lemma_from_injective(a, b, head);
    }
}

/// From one register value, two different pairs of bytes lead to different
/// register values.
proof fn lemma_pair_injective(crc: u16, a0: u8, a1: u8, b0: u8, b1: u8)
    requires
        crc_byte(crc_byte(crc, a0), a1) == crc_byte(crc_byte(crc, b0), b1),
    ensures
        a0 == b0,
        a1 == b1,
{
    // Eight shifts are linear and move a clear-low register down, so the two
    // bytes act as one sixteen bit value mixed in before sixteen shifts.
    lemma_pair_as_word(crc, a0, a1);
    lemma_pair_as_word(crc, b0, b1);
    let wa = (a0 + 256 * a1) as u16;
    let wb = (b0 + 256 * b1) as u16;
    lemma_shifts_injective(crc_shifts(crc ^ wa, 8), crc_shifts(crc ^ wb, 8), 8);
    lemma_shifts_injective(crc ^ wa, crc ^ wb, 8);
    assert(crc ^ wa == crc ^ wb ==> wa == wb) by (bit_vector);
}

proof fn lemma_pair_as_word(crc: u16, lo: u8, hi: u8)
    ensures
        crc_byte(crc_byte(crc, lo), hi) == crc_shifts(
            crc_shifts(crc ^ ((lo + 256 * hi) as u16), 8),
            8,
        ),
{
    let high = (256 * hi) as u16;
    assert(crc ^ ((lo + 256 * hi) as u16) == (crc ^ (lo as u16)) ^ ((256 * hi) as u16))
        by (bit_vector);
    lemma_shifts_linear(crc ^ (lo as u16), high, 8);
    lemma_shifts_clear_low(high);
    assert(high / 256 == hi as u16);
}

proof fn lemma_shifts_linear(a: u16, b: u16, n: nat)
    ensures
        crc_shifts(a ^ b, n) == crc_shifts(a, n) ^ crc_shifts(b, n),
    decreases n,
{
    if n > 0 {
        lemma_shifts_linear(a, b, (n - 1) as nat);
        let x = crc_shifts(a, (n - 1) as nat);
        let y = crc_shifts(b, (n - 1) as nat);
        assert((if (x ^ y) & 1 != 0 { ((x ^ y) >> 1) ^ 0xa001u16 } else { (x ^ y) >> 1 })
            == (if x & 1 != 0 { (x >> 1) ^ 0xa001u16 } else { x >> 1 })
            ^ (if y & 1 != 0 { (y >> 1) ^ 0xa001u16 } else { y >> 1 })) by (bit_vector);
    }
}

/// Two messages that differ, and differ only within two neighbouring bytes that
/// both of them have, have different CRCs.
proof fn lemma_detects_inner_pair(a: Seq<u8>, b: Seq<u8>, at: int)
    requires
        a.len() == b.len(),
        0 <= at,
        at + 1 < a.len(),
        a != b,
        forall|i: int| 0 <= i < a.len() && i != at && i != at + 1 ==> a[i] == b[i],
    ensures
        crc_of(a) != crc_of(b),
{
    let head = a.take(at);
    let tail = a.skip(at + 2);
    let pa = seq![a[at], a[at + 1]];
    let pb = seq![b[at], b[at + 1]];
    assert(a =~= head + (pa + tail));
    assert(b =~= head + (pb + tail));
    let crc = crc_of(head);
    law_crc_concat(CRC_INIT, head, pa + tail);
    law_crc_concat(CRC_INIT, head, pb + tail);
    law_crc_concat(crc, pa, tail);
    law_crc_concat(crc, pb, tail);
    if crc_of(a) == crc_of(b) {
        lemma_from_injective(crc_from(crc, pa), crc_from(crc, pb), tail);
        reveal_with_fuel(crc_from, 3);
        assert(pa.drop_last() =~= seq![a[at]]);
        assert(pb.drop_last() =~= seq![b[at]]);
        assert(pa.drop_last().drop_last() =~= Seq::<u8>::empty());
        assert(pb.drop_last().drop_last() =~= Seq::<u8>::empty());
        lemma_pair_injective(crc, a[at], a[at + 1], b[at], b[at + 1]);
        assert(a =~= b);
    }
}

/// The detection law: two messages of one length that differ, and differ only
/// within two neighbouring bytes, have different CRCs. Where `at` is the last
/// byte it has no neighbour, and the two differ in that byte alone.
pub proof fn law_crc_detects_pair(a: Seq<u8>, b: Seq<u8>, at: int)
    requires
        a.len() == b.len(),
        0 <= at < a.len(),
        a != b,
        forall|i: int| 0 <= i < a.len() && i != at && i != at + 1 ==> a[i] == b[i],
    ensures
        crc_of(a) != crc_of(b),
{
    if at + 1 < a.len() {
        lemma_detects_inner_pair(a, b, at);
    } else {
        let more_a = a.push(0);
        let more_b = b.push(0);
        assert(more_a.drop_last() =~= a);
        assert(more_b.drop_last() =~= b);
        lemma_detects_inner_pair(more_a, more_b, at);
    }
}

/// No frame that carries the right CRC turns into another that does by damage
/// within two neighbouring bytes.
pub proof fn law_damage_is_seen(good: Seq<u8>, received: Seq<u8>, at: int)
    requires
        crc_matches(good),
        good.len() == received.len(),
        0 <= at < good.len(),
        good != received,
        forall|i: int| 0 <= i < good.len() && i != at && i != at + 1 ==> good[i] == received[i],
    ensures
        !crc_matches(received),
{
    law_crc_residue(good);
    law_crc_residue(received);
    law_crc_detects_pair(good, received, at);
}

proof fn lemma_shift_undone(x: u16)
    ensures
        ({
            let y = crc_shift(x);
            (if y >= 0x8000 {
                ((y ^ 0xa001) << 1) | 1
            } else {
                y << 1
            }) == x
        }),
{
    assert({
        let y = if x & 1 != 0 { (x >> 1) ^ 0xa001u16 } else { x >> 1 };
        (if y >= 0x8000 { ((y ^ 0xa001u16) << 1) | 1u16 } else { y << 1 }) == x
    }) by (bit_vector);
}

/// The undoing law: eight steps of the opposite register, which moves up and puts
/// the polynomial back wherever the top bit shows that it was taken out, lead
/// from the CRC of a message to the CRC of the message without its last byte,
/// mixed with that byte. The CRC of nothing is all ones.
pub proof fn law_crc_can_be_undone(data: Seq<u8>, byte: u8)
    ensures
        crc_of(Seq::empty()) == 0xffff,
        ({
            let back = |y: u16|
                if y >= 0x8000 {
                    ((y ^ 0xa001) << 1) | 1
                } else {
                    y << 1
                };
            back(back(back(back(back(back(back(back(crc_of(data.push(byte)))))))))) == crc_of(data)
                ^ (byte as u16)
        }),
{
    assert(data.push(byte).drop_last() =~= data);
    let x = crc_of(data) ^ (byte as u16);
    reveal_with_fuel(crc_shifts, 9);
    lemma_shift_undone(crc_shifts(x, 0));
    lemma_shift_undone(crc_shifts(x, 1));
    lemma_shift_undone(crc_shifts(x, 2));
    lemma_shift_undone(crc_shifts(x, 3));
    lemma_shift_undone(crc_shifts(x, 4));
    lemma_shift_undone(crc_shifts(x, 5));
    lemma_shift_undone(crc_shifts(x, 6));
    lemma_shift_undone(crc_shifts(x, 7));
}

/// A frame is taken for valid exactly when its last two bytes, read as a number
/// with the low byte first, are the CRC of all before them.
pub proof fn law_valid_frame_ends_with_its_crc(raw: Seq<u8>)
    ensures
        raw.len() < 2 ==> !crc_matches(raw),
        raw.len() >= 2 ==> (crc_matches(raw) <==> raw[raw.len() - 2] + 256 * raw[raw.len() - 1]
            == crc_of(raw.take(raw.len() - 2))),
{
    if raw.len() >= 2 {
        let n = raw.len() - 2;
        let crc = crc_of(raw.take(n));
        assert(raw.skip(n) =~= seq![raw[n], raw[n + 1]]);
        assert(crc_trailer(crc)[0] == (crc % 256) as u8 && crc_trailer(crc)[1] == (crc
            / 256) as u8);
        if crc_matches(raw) {
            assert(raw.skip(n)[0] == crc_trailer(crc)[0]);
            assert(raw.skip(n)[1] == crc_trailer(crc)[1]);
        }
        if raw[n] + 256 * raw[n + 1] == crc {
            assert(raw.skip(n) =~= crc_trailer(crc));
        }
    }
}

} // verus!
