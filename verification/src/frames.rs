//! Cutting the byte stream of the gateway into answers.
//!
//! The gateway mixes three things into one stream: single heartbeat bytes, its
//! registration text, and Modbus frames, all in pieces of any size.

use crate::crc::crc_valid;
use crate::modbus::frame_len;
use vstd::prelude::*;

verus! {

/// The heartbeat byte of the gateway.
pub const HEARTBEAT: u8 = 0x56;

/// The byte that opens the registration text.
pub const STAR: u8 = 0x2a;

/// The text with which the gateway registers: `*26051501*`.
pub open spec fn registration() -> Seq<u8> {
    seq![0x2a, 0x32, 0x36, 0x30, 0x35, 0x31, 0x35, 0x30, 0x31, 0x2a]
}

/// The answer of one unit to a register read.
#[derive(Clone, Debug)]
pub struct Response {
    /// The unit that answered.
    pub addr: u8,
    /// The function code that it answered to.
    pub func: u8,
    /// The whole frame.
    pub raw: Vec<u8>,
    /// Whether the frame's CRC is right.
    pub crc_ok: bool,
}

/// What a `Response` holds.
pub struct ResponseView {
    pub addr: u8,
    pub func: u8,
    pub raw: Seq<u8>,
    pub crc_ok: bool,
}

impl View for Response {
    type V = ResponseView;

    open spec fn view(&self) -> ResponseView {
        ResponseView { addr: self.addr, func: self.func, raw: self.raw@, crc_ok: self.crc_ok }
    }
}

/// The answer that the frame `raw` stands for.
pub open spec fn response_of(raw: Seq<u8>) -> ResponseView {
    ResponseView {
        addr: raw[0],
        func: raw[1],
        raw,
        crc_ok: crate::crc::crc_matches(raw),
    }
}

/// What the front of the buffer calls for.
pub enum Scan {
    /// More bytes have to arrive first.
    Wait,
    /// This many bytes are of no use.
    Skip(nat),
    /// This many bytes are a frame.
    Frame(nat),
}

/// What the front of `buf` calls for.
pub open spec fn scan(buf: Seq<u8>) -> Scan {
    if buf.len() > 0 && buf[0] == HEARTBEAT {
        Scan::Skip(1)
    } else if registration().is_prefix_of(buf) {
        Scan::Skip(10)
    } else if buf.len() > 0 && buf[0] == STAR && buf.len() < 10 {
        Scan::Wait
    } else {
        match crate::modbus::frame_length(buf) {
            None => Scan::Wait,
            Some(n) => if n == 0 {
                Scan::Skip(1)
            } else if buf.len() < n {
                Scan::Wait
            } else {
                Scan::Frame(n)
            },
        }
    }
}

/// What comes out of a buffer: the answers in it, and the bytes that have to
/// wait for more.
#[verifier::ext_equal]
pub struct Decoded {
    pub responses: Seq<ResponseView>,
    pub rest: Seq<u8>,
}

/// The answers that a frame gives: itself, if it answers a register read.
pub open spec fn delivered(raw: Seq<u8>) -> Seq<ResponseView> {
    if crate::modbus::is_read(raw[1]) {
        seq![response_of(raw)]
    } else {
        Seq::empty()
    }
}

/// Takes everything out of `buf` that can be taken.
pub open spec fn decode(buf: Seq<u8>) -> Decoded
    decreases buf.len(),
{
    match scan(buf) {
        Scan::Wait => Decoded { responses: Seq::empty(), rest: buf },
        Scan::Skip(n) => if 0 < n <= buf.len() {
            decode(buf.skip(n as int))
        } else {
            Decoded { responses: Seq::empty(), rest: buf }
        },
        Scan::Frame(n) => if 0 < n <= buf.len() {
            let after = decode(buf.skip(n as int));
            Decoded {
                responses: delivered(buf.take(n as int)) + after.responses,
                rest: after.rest,
            }
        } else {
            Decoded { responses: Seq::empty(), rest: buf }
        },
    }
}

/// The contents of a list of answers.
pub open spec fn views(list: Seq<Response>) -> Seq<ResponseView> {
    list.map_values(|r: Response| r@)
}

/// Whether the registration text stands in `buf` from `at` on.
fn registration_at(buf: &Vec<u8>, at: usize) -> (yes: bool)
    requires
        at <= buf@.len(),
    ensures
        yes == registration().is_prefix_of(buf@.skip(at as int)),
{
    let ghost text = registration();
    let ghost here = buf@.skip(at as int);
    if buf.len() - at < 10 {
        return false;
    }
    let yes = buf[at] == 0x2a && buf[at + 1] == 0x32 && buf[at + 2] == 0x36 && buf[at + 3] == 0x30
        && buf[at + 4] == 0x35 && buf[at + 5] == 0x31 && buf[at + 6] == 0x35 && buf[at + 7] == 0x30
        && buf[at + 8] == 0x31 && buf[at + 9] == 0x2a;
    proof {
        let front = here.subrange(0, 10);
        assert(forall|i: int| 0 <= i < 10 ==> #[trigger] front[i] == buf@[at + i]);
        if yes {
            assert(front =~= text);
        } else if front == text {
            assert(front[0] == text[0] && front[1] == text[1] && front[2] == text[2]);
            assert(front[3] == text[3] && front[4] == text[4] && front[5] == text[5]);
            assert(front[6] == text[6] && front[7] == text[7] && front[8] == text[8]);
            assert(front[9] == text[9]);
        }
    }
    yes
}

/// Takes in what has been read from the gateway and hands out the answers that
/// are complete with it; what is left of an unfinished frame stays in `buf`.
pub fn read_gateway(buf: &mut Vec<u8>, chunk: &[u8]) -> (responses: Vec<Response>)
    ensures
        views(responses@) == decode(old(buf)@ + chunk@).responses,
        final(buf)@ == decode(old(buf)@ + chunk@).rest,
        forall|i: int| 0 <= i < responses@.len() ==> well_formed((#[trigger] responses@[i])@),
        responses@.len() == decode(old(buf)@ + chunk@).responses.len(),
        forall|i: int|
            0 <= i < responses@.len() ==> {
                let expected = decode(old(buf)@ + chunk@).responses[i];
                &&& (#[trigger] responses@[i]).addr == expected.addr
                &&& responses@[i].func == expected.func
                &&& responses@[i].raw@ == expected.raw
                &&& responses@[i].crc_ok == expected.crc_ok
            },
{
    let ghost all = buf@ + chunk@;
    buf.extend_from_slice(chunk);
    assert(buf@ =~= all);
    let mut responses: Vec<Response> = Vec::new();
    let mut at: usize = 0;
    assert(all.skip(0) =~= all);
    assert(views(responses@) =~= Seq::<ResponseView>::empty());
    loop
        invariant_except_break
            at <= buf@.len(),
            buf@ == all,
            decode(all).responses =~= views(responses@) + decode(all.skip(at as int)).responses,
            decode(all).rest == decode(all.skip(at as int)).rest,
        ensures
            at <= buf@.len(),
            buf@ == all,
            decode(all).responses =~= views(responses@),
            decode(all).rest == all.skip(at as int),
        decreases all.len() - at,
    {
        let ghost here = all.skip(at as int);
        if at < buf.len() && buf[at] == HEARTBEAT {
            assert(scan(here) == Scan::Skip(1));
            assert(here.skip(1) =~= all.skip(at + 1));
            at += 1;
            continue;
        }
        if registration_at(buf, at) {
            assert(here.skip(10) =~= all.skip(at + 10));
            at += 10;
            continue;
        }
        if at < buf.len() && buf[at] == STAR && buf.len() - at < 10 {
            break;
        }
        let len = match frame_len(vstd::slice::slice_subrange(buf.as_slice(), at, buf.len())) {
            Some(n) => n,
            None => {
                assert(all.subrange(at as int, all.len() as int) =~= here);
                break;
            },
        };
        assert(all.subrange(at as int, all.len() as int) =~= here);
        if len == 0 {
            assert(here.skip(1) =~= all.skip(at + 1));
            at += 1;
            continue;
        }
        if buf.len() - at < len {
            break;
        }
        let raw = vstd::slice::slice_to_vec(
            vstd::slice::slice_subrange(buf.as_slice(), at, at + len),
        );
        assert(raw@ =~= here.take(len as int));
        assert(here.skip(len as int) =~= all.skip(at + len));
        let func = raw[1];
        if func == 3 || func == 4 {
            let crc_ok = crc_valid(raw.as_slice());
            let ghost before = views(responses@);
            responses.push(Response { addr: raw[0], func, raw, crc_ok });
            assert(views(responses@) =~= before + seq![response_of(here.take(len as int))]);
        }
        at += len;
    }
    proof {
        law_answers_are_genuine(all);
        assert forall|i: int| 0 <= i < responses@.len() implies well_formed(
            (#[trigger] responses@[i])@,
        ) by {
            assert(views(responses@)[i] == responses@[i]@);
        }
        assert forall|i: int| 0 <= i < responses@.len() implies (#[trigger] responses@[i])@
            == decode(all).responses[i] by {
            assert(views(responses@)[i] == responses@[i]@);
        }
    }
    let rest = buf.split_off(at);
    *buf = rest;
    responses
}

/// What the front of the buffer calls for does not change when more arrives,
/// once it calls for anything.
proof fn lemma_scan_stable(a: Seq<u8>, b: Seq<u8>)
    requires
        scan(a) !is Wait,
    ensures
        scan(a + b) == scan(a),
        match scan(a) {
            Scan::Wait => false,
            Scan::Skip(n) => 0 < n <= a.len(),
            Scan::Frame(n) => 5 <= n <= a.len() && n == crate::modbus::frame_length(a)->0,
        },
{
    let text = registration();
    let ab = a + b;
    if a.len() >= 10 {
        assert(ab.subrange(0, 10) =~= a.subrange(0, 10));
    } else {
        assert(!text.is_prefix_of(a));
        if text.is_prefix_of(ab) {
            assert(ab.subrange(0, 10)[0] == text[0]);
        }
    }
}

/// The streaming law: it makes no difference in how many pieces the bytes of
/// the gateway arrive. What comes out of a piece, and then out of what it left
/// together with the next, is what comes out of both at once.
pub proof fn law_pieces_make_no_difference(a: Seq<u8>, b: Seq<u8>)
    ensures
        decode(a + b).responses == decode(a).responses + decode(decode(a).rest + b).responses,
        decode(a + b).rest == decode(decode(a).rest + b).rest,
    decreases a.len(),
{
    match scan(a) {
        Scan::Wait => {
            assert(decode(a).responses + decode(a + b).responses =~= decode(a + b).responses);
        },
        Scan::Skip(n) => {
            lemma_scan_stable(a, b);
            assert((a + b).skip(n as int) =~= a.skip(n as int) + b);
            law_pieces_make_no_difference(a.skip(n as int), b);
        },
        Scan::Frame(n) => {
            lemma_scan_stable(a, b);
            assert((a + b).skip(n as int) =~= a.skip(n as int) + b);
            assert((a + b).take(n as int) =~= a.take(n as int));
            law_pieces_make_no_difference(a.skip(n as int), b);
            assert(decode(a + b).responses =~= decode(a).responses + decode(
                decode(a).rest + b,
            ).responses);
        },
    }
}

/// What stays in the buffer is the end of what came in, calls for more bytes,
/// and is shorter than the longest frame.
pub proof fn law_rest_is_bounded(buf: Seq<u8>)
    ensures
        scan(decode(buf).rest) is Wait,
        decode(buf).rest.len() < 260,
        decode(buf).rest.len() <= buf.len(),
        decode(buf).rest == buf.skip(buf.len() - decode(buf).rest.len()),
    decreases buf.len(),
{
    match scan(buf) {
        Scan::Wait => {
            assert(buf.skip(0) =~= buf);
        },
        Scan::Skip(n) => {
            lemma_scan_stable(buf, Seq::empty());
            law_rest_is_bounded(buf.skip(n as int));
            let rest = decode(buf).rest;
            assert(buf.skip(n as int).skip(buf.len() - n - rest.len()) =~= buf.skip(
                buf.len() - rest.len(),
            ));
        },
        Scan::Frame(n) => {
            lemma_scan_stable(buf, Seq::empty());
            law_rest_is_bounded(buf.skip(n as int));
            let rest = decode(buf).rest;
            assert(buf.skip(n as int).skip(buf.len() - n - rest.len()) =~= buf.skip(
                buf.len() - rest.len(),
            ));
        },
    }
}

/// Whether an answer is what a register read can be answered with: its fields
/// are those of its frame, its length is the one that it announces, and its
/// CRC verdict is true.
pub open spec fn well_formed(r: ResponseView) -> bool {
    &&& r == response_of(r.raw)
    &&& crate::modbus::is_read(r.func)
    &&& r.raw.len() == 5 + r.raw[2]
}

/// Whether `piece` stands somewhere in `stream`.
pub open spec fn occurs(piece: Seq<u8>, stream: Seq<u8>) -> bool {
    exists|at: int|
        0 <= at <= stream.len() - piece.len() && #[trigger] stream.subrange(at, at + piece.len())
            == piece
}

/// Every answer that is handed out is well-formed and stood in the stream as it
/// is.
pub proof fn law_answers_are_genuine(buf: Seq<u8>)
    ensures
        forall|i: int|
            0 <= i < decode(buf).responses.len() ==> {
                &&& well_formed(#[trigger] decode(buf).responses[i])
                &&& occurs(decode(buf).responses[i].raw, buf)
            },
    decreases buf.len(),
{
    match scan(buf) {
        Scan::Wait => {},
        Scan::Skip(n) => {
            lemma_scan_stable(buf, Seq::empty());
            law_answers_are_genuine(buf.skip(n as int));
            assert forall|i: int| 0 <= i < decode(buf).responses.len() implies {
                &&& well_formed(#[trigger] decode(buf).responses[i])
                &&& occurs(decode(buf).responses[i].raw, buf)
            } by {
                let r = decode(buf.skip(n as int)).responses[i];
                lemma_occurs_later(r.raw, buf, n as int);
            }
        },
        Scan::Frame(n) => {
            lemma_scan_stable(buf, Seq::empty());
            law_answers_are_genuine(buf.skip(n as int));
            let raw = buf.take(n as int);
            let first = delivered(raw);
            assert forall|i: int| 0 <= i < decode(buf).responses.len() implies {
                &&& well_formed(#[trigger] decode(buf).responses[i])
                &&& occurs(decode(buf).responses[i].raw, buf)
            } by {
                if i < first.len() {
                    assert(buf.subrange(0, 0int + raw.len()) =~= raw);
                } else {
                    let r = decode(buf.skip(n as int)).responses[i - first.len()];
                    lemma_occurs_later(r.raw, buf, n as int);
                }
            }
        },
    }
}

proof fn lemma_occurs_later(piece: Seq<u8>, stream: Seq<u8>, n: int)
    requires
        0 <= n <= stream.len(),
        occurs(piece, stream.skip(n)),
    ensures
        occurs(piece, stream),
{
    let later = stream.skip(n);
    let at = choose|at: int|
        0 <= at <= later.len() - piece.len() && #[trigger] later.subrange(at, at + piece.len())
            == piece;
    assert(stream.subrange(n + at, n + at + piece.len()) =~= piece);
}

/// Heartbeats and registrations in front of anything leave no trace.
pub proof fn law_noise_is_dropped(buf: Seq<u8>)
    ensures
        decode(seq![HEARTBEAT] + buf) == decode(buf),
        decode(registration() + buf) == decode(buf),
{
    let beat = seq![HEARTBEAT] + buf;
    assert(beat.skip(1) =~= buf);
    let reg = registration() + buf;
    assert(reg[0] == registration()[0]);
    assert(reg.subrange(0, 10) =~= registration());
    assert(reg.skip(10) =~= buf);
}

/// Whether the frame `raw` at the front of `raw + tail` is taken for a frame: it
/// does not start with a heartbeat, and where it starts like a registration
/// enough has arrived to tell it from one.
pub open spec fn recognizable(raw: Seq<u8>, tail: Seq<u8>) -> bool {
    &&& raw[0] != HEARTBEAT
    &&& raw[0] == STAR ==> raw.len() + tail.len() >= 10
}

/// The delivery law: an answer to a register read that is recognizable is handed
/// out whole, first, and whatever follows it is read as if it stood alone.
pub proof fn law_answer_is_delivered(raw: Seq<u8>, tail: Seq<u8>)
    requires
        raw.len() >= 3,
        crate::modbus::is_read(raw[1]),
        raw.len() == 5 + raw[2],
        recognizable(raw, tail),
    ensures
        decode(raw + tail).responses == seq![response_of(raw)] + decode(tail).responses,
        decode(raw + tail).rest == decode(tail).rest,
{
    let buf = raw + tail;
    assert(buf[0] == raw[0] && buf[1] == raw[1] && buf[2] == raw[2]);
    if registration().is_prefix_of(buf) {
        assert(buf.subrange(0, 10)[1] == registration()[1]);
    }
    assert(scan(buf) == Scan::Frame(raw.len()));
    assert(buf.take(raw.len() as int) =~= raw);
    assert(buf.skip(raw.len() as int) =~= tail);
}

/// An answer that a unit made up with any data and the right CRC is handed out
/// as valid.
pub proof fn law_valid_answer_is_delivered(addr: u8, func: u8, data: Seq<u8>, tail: Seq<u8>)
    requires
        crate::modbus::is_read(func),
        data.len() <= 255,
        addr != HEARTBEAT,
        addr == STAR ==> 5 + data.len() + tail.len() >= 10,
    ensures
        ({
            let raw = crate::modbus::response_frame(addr, func, data);
            &&& decode(raw + tail).responses == seq![
                ResponseView { addr, func, raw, crc_ok: true },
            ] + decode(tail).responses
            &&& decode(raw + tail).rest == decode(tail).rest
        }),
{
    let body = seq![addr, func, data.len() as u8] + data;
    let raw = crate::modbus::response_frame(addr, func, data);
    assert(raw[0] == addr && raw[1] == func && raw[2] == data.len() as u8);
    crate::crc::law_crc_sealed(body);
    law_answer_is_delivered(raw, tail);
}

/// The answer to a register write is taken out of the stream and handed to
/// nobody.
pub proof fn law_write_answer_is_dropped(raw: Seq<u8>, tail: Seq<u8>)
    requires
        raw.len() == 8,
        raw[1] == 6,
        recognizable(raw, tail),
    ensures
        decode(raw + tail) == decode(tail),
{
    let buf = raw + tail;
    assert(buf[0] == raw[0] && buf[1] == raw[1]);
    if registration().is_prefix_of(buf) {
        assert(buf.subrange(0, 10)[1] == registration()[1]);
    }
    assert(scan(buf) == Scan::Frame(8));
    assert(buf.take(8) =~= raw);
    assert(buf.skip(8) =~= tail);
    assert(decode(buf).responses =~= decode(tail).responses);
}

/// Resynchronisation drops a single byte: where a stream starts with neither the
/// heartbeat nor the star and its second byte is no function code that a frame
/// could have, reading it is reading it without its first byte.
pub proof fn law_resync_drops_one_byte(stream: Seq<u8>)
    requires
        stream.len() >= 3,
        stream[0] != 0x56,
        stream[0] != 0x2a,
        stream[1] != 3,
        stream[1] != 4,
        stream[1] != 6,
    ensures
        decode(stream) == decode(stream.skip(1)),
{
    lemma_no_registration(stream);
}

proof fn lemma_no_registration(stream: Seq<u8>)
    requires
        stream.len() > 0,
        stream[0] != 0x2a,
    ensures
        !registration().is_prefix_of(stream),
{
    if registration().is_prefix_of(stream) {
        assert(stream.subrange(0, 10)[0] == registration()[0]);
    }
}

/// Bytes that start with the star and go on unlike the registration are no
/// exception to resynchronisation once ten have arrived.
pub proof fn law_resync_drops_a_lone_star(stream: Seq<u8>)
    requires
        stream.len() >= 10,
        stream[0] == 0x2a,
        stream.take(10) != seq![
            0x2au8,
            0x32u8,
            0x36u8,
            0x30u8,
            0x35u8,
            0x31u8,
            0x35u8,
            0x30u8,
            0x31u8,
            0x2au8,
        ],
        stream[1] != 3,
        stream[1] != 4,
        stream[1] != 6,
    ensures
        decode(stream) == decode(stream.skip(1)),
{
    assert(stream.subrange(0, 10) =~= stream.take(10));
}

/// A heartbeat is one byte and is dropped by itself; a registration is its ten
/// bytes and is dropped whole.
pub proof fn law_gateway_chatter_is_dropped(stream: Seq<u8>)
    ensures
        stream.len() >= 1 && stream[0] == 0x56 ==> decode(stream) == decode(stream.skip(1)),
        stream.len() >= 10 && stream.take(10) == seq![
            0x2au8,
            0x32u8,
            0x36u8,
            0x30u8,
            0x35u8,
            0x31u8,
            0x35u8,
            0x30u8,
            0x31u8,
            0x2au8,
        ] ==> decode(stream) == decode(stream.skip(10)),
{
    if stream.len() >= 10 {
        assert(stream.subrange(0, 10) =~= stream.take(10));
        assert(stream[0] == stream.take(10)[0]);
    }
}

/// What has the function code of a frame is no registration.
proof fn lemma_not_chatter(stream: Seq<u8>)
    requires
        stream.len() >= 3,
        stream[0] != 0x56,
        stream[0] == 0x2a ==> stream.len() >= 10,
        stream[1] == 3 || stream[1] == 4 || stream[1] == 6,
    ensures
        !registration().is_prefix_of(stream),
{
    if registration().is_prefix_of(stream) {
        assert(stream.subrange(0, 10)[1] == registration()[1]);
    }
}

/// The answer to a register read is cut out at the length that its third byte
/// tells. It is handed out with its first byte for the unit, its second for the
/// function, all of its bytes, and the truth about its CRC; what follows is read
/// as if it stood alone.
pub proof fn law_answer_is_cut_out(stream: Seq<u8>)
    requires
        stream.len() >= 3,
        stream[0] != 0x56,
        stream[0] == 0x2a ==> stream.len() >= 10,
        stream[1] == 3 || stream[1] == 4,
        stream.len() >= 5 + stream[2],
    ensures
        ({
            let n = 5 + stream[2];
            let first = decode(stream).responses[0];
            let after = decode(stream.skip(n));
            &&& decode(stream).responses.len() == 1 + after.responses.len()
            &&& first.addr == stream[0]
            &&& first.func == stream[1]
            &&& first.raw == stream.take(n)
            &&& first.crc_ok <==> stream[n - 2] + 256 * stream[n - 1] == crate::crc::crc_of(
                stream.take(n - 2),
            )
            &&& decode(stream).responses.skip(1) == after.responses
            &&& decode(stream).rest == after.rest
        }),
{
    lemma_not_chatter(stream);
    let n = 5 + stream[2];
    let raw = stream.take(n);
    assert(scan(stream) == Scan::Frame(n as nat));
    crate::crc::law_valid_frame_ends_with_its_crc(raw);
    assert(raw.take(n - 2) =~= stream.take(n - 2));
    assert(decode(stream).responses.skip(1) =~= decode(stream.skip(n)).responses);
}

/// The answer to a register write is eight bytes, which are dropped.
pub proof fn law_write_answer_is_eight_bytes(stream: Seq<u8>)
    requires
        stream.len() >= 8,
        stream[0] != 0x56,
        stream[0] == 0x2a ==> stream.len() >= 10,
        stream[1] == 6,
    ensures
        decode(stream) == decode(stream.skip(8)),
{
    lemma_not_chatter(stream);
    assert(scan(stream) == Scan::Frame(8));
    assert(decode(stream).responses =~= decode(stream.skip(8)).responses);
}

/// What can still become something waits, untouched: a star and fewer than ten
/// bytes, fewer than three bytes of anything but a heartbeat, and an answer that
/// is not all there yet.
pub proof fn law_unfinished_bytes_wait(stream: Seq<u8>)
    requires
        stream.len() == 0 || {
            &&& stream[0] != 0x56
            &&& {
                ||| stream.len() < 3
                ||| stream[0] == 0x2a && stream.len() < 10
                ||| (stream[1] == 3 || stream[1] == 4) && stream.len() < 5 + stream[2]
                ||| stream[1] == 6 && stream.len() < 8
            }
        },
    ensures
        decode(stream).responses.len() == 0,
        decode(stream).rest == stream,
{
    if stream.len() >= 10 {
        lemma_not_chatter(stream);
    }
}

/// An answer to a register read behind bytes none of which can start anything is
/// still delivered whole.
pub proof fn law_answer_behind_junk_is_delivered(junk: Seq<u8>, raw: Seq<u8>, tail: Seq<u8>)
    requires
        raw.len() >= 5,
        raw[0] != 0x56,
        raw[0] == 0x2a ==> raw.len() + tail.len() >= 10,
        raw[1] == 3 || raw[1] == 4,
        raw.len() == 5 + raw[2],
        forall|i: int|
            0 <= i < junk.len() ==> {
                let next = (junk + raw)[i + 1];
                &&& #[trigger] junk[i] != 0x56
                &&& junk[i] != 0x2a
                &&& next != 3
                &&& next != 4
                &&& next != 6
            },
    ensures
        ({
            let got = decode(junk + raw + tail);
            &&& got.responses.len() == 1 + decode(tail).responses.len()
            &&& got.responses[0].addr == raw[0]
            &&& got.responses[0].func == raw[1]
            &&& got.responses[0].raw == raw
            &&& got.responses[0].crc_ok <==> raw[raw.len() - 2] + 256 * raw[raw.len() - 1]
                == crate::crc::crc_of(raw.take(raw.len() - 2))
            &&& got.responses.skip(1) == decode(tail).responses
            &&& got.rest == decode(tail).rest
        }),
    decreases junk.len(),
{
    let stream = junk + raw + tail;
    if junk.len() == 0 {
        assert(stream =~= raw + tail);
        law_answer_is_cut_out(stream);
        assert(stream.take(raw.len() as int) =~= raw);
        assert(stream.take(raw.len() - 2) =~= raw.take(raw.len() - 2));
        assert(stream.skip(raw.len() as int) =~= tail);
    } else {
        let less = junk.skip(1);
        assert(stream[0] == junk[0]);
        assert(stream[1] == (junk + raw)[0int + 1]);
        law_resync_drops_one_byte(stream);
        assert(stream.skip(1) =~= less + raw + tail);
        assert forall|i: int| 0 <= i < less.len() implies {
            let next = (less + raw)[i + 1];
            &&& #[trigger] less[i] != 0x56
            &&& less[i] != 0x2a
            &&& next != 3
            &&& next != 4
            &&& next != 6
        } by {
            assert(less[i] == junk[i + 1]);
            assert((less + raw)[i + 1] == (junk + raw)[(i + 1) + 1]);
        }
        law_answer_behind_junk_is_delivered(less, raw, tail);
    }
}

} // verus!
