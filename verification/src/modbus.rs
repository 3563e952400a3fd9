//! Modbus RTU frames: the read request that is sent and the length of what
//! comes back.

use crate::crc::crc16;
use vstd::prelude::*;

verus! {

/// A sixteen bit number as it stands in a request: high byte first.
pub open spec fn be_bytes(n: u16) -> Seq<u8> {
    seq![(n / 256) as u8, (n % 256) as u8]
}

/// A read request without its CRC.
pub open spec fn request_body(addr: u8, func: u8, start: u16, count: u16) -> Seq<u8> {
    seq![addr, func] + be_bytes(start) + be_bytes(count)
}

/// A read request: unit address, function code, first register, number of
/// registers, CRC.
pub open spec fn request_frame(addr: u8, func: u8, start: u16, count: u16) -> Seq<u8> {
    let body = request_body(addr, func, start, count);
    body + crate::crc::crc_trailer(crate::crc::crc_of(body))
}

/// Whether `func` is one of the two register reads, whose answers carry data.
pub open spec fn is_read(func: u8) -> bool {
    func == 3 || func == 4
}

/// The length of the frame that starts at the front of `buf`, as far as it can
/// be told: nothing before three bytes are there, and zero where the function
/// code is none that a frame could start with.
pub open spec fn frame_length(buf: Seq<u8>) -> Option<nat> {
    if buf.len() < 3 {
        None
    } else if is_read(buf[1]) {
        Some((5 + buf[2]) as nat)
    } else if buf[1] == 6 {
        Some(8)
    } else {
        Some(0)
    }
}

/// The answer to a register read: unit address, function code, byte count,
/// data, CRC.
pub open spec fn response_frame(addr: u8, func: u8, data: Seq<u8>) -> Seq<u8> {
    let body = seq![addr, func, data.len() as u8] + data;
    body + crate::crc::crc_trailer(crate::crc::crc_of(body))
}

/// Builds the request that reads `count` registers from `start` on.
pub fn read_frame(addr: u8, func: u8, start: u16, count: u16) -> (frame: Vec<u8>)
    ensures
        frame@ == request_frame(addr, func, start, count),
        frame@.len() == 8,
        frame@[0] == addr,
        frame@[1] == func,
        frame@[2] * 256 + frame@[3] == start,
        frame@[4] * 256 + frame@[5] == count,
        frame@[6] + 256 * frame@[7] == crate::crc::crc_of(frame@.take(6)),
{
    proof {
        law_request_says_what_is_asked(addr, func, start, count);
    }
    let mut frame: Vec<u8> = vec![
        addr,
        func,
        (start / 256) as u8,
        (start % 256) as u8,
        (count / 256) as u8,
        (count % 256) as u8,
    ];
    assert(frame@ =~= request_body(addr, func, start, count));
    let crc = crc16(frame.as_slice());
    frame.push((crc % 256) as u8);
    frame.push((crc / 256) as u8);
    assert(frame@ =~= request_frame(addr, func, start, count));
    frame
}

/// The length of the frame at the front of `buf`; `None` while too little has
/// arrived to tell, `Some(0)` where no frame can start.
pub fn frame_len(buf: &[u8]) -> (len: Option<usize>)
    ensures
        match len {
            None => frame_length(buf@) is None,
            Some(n) => frame_length(buf@) == Some(n as nat),
        },
{
    if buf.len() < 3 {
        return None;
    }
    match buf[1] {
        3 | 4 => Some(5 + buf[2] as usize),
        6 => Some(8),
        _ => Some(0),
    }
}

/// Every request carries the right CRC.
pub proof fn law_request_is_sealed(addr: u8, func: u8, start: u16, count: u16)
    ensures
        crate::crc::crc_matches(request_frame(addr, func, start, count)),
{
    crate::crc::law_crc_sealed(request_body(addr, func, start, count));
}

/// Different requests are different on the wire.
pub proof fn law_request_is_unambiguous(
    addr: u8,
    func: u8,
    start: u16,
    count: u16,
    addr2: u8,
    func2: u8,
    start2: u16,
    count2: u16,
)
    requires
        request_frame(addr, func, start, count) == request_frame(addr2, func2, start2, count2),
    ensures
        addr == addr2,
        func == func2,
        start == start2,
        count == count2,
{
    let a = request_frame(addr, func, start, count);
    let b = request_frame(addr2, func2, start2, count2);
    assert(a[0] == addr && a[1] == func);
    assert(a[2] == (start / 256) as u8 && a[3] == (start % 256) as u8);
    assert(a[4] == (count / 256) as u8 && a[5] == (count % 256) as u8);
    assert(b[0] == addr2 && b[1] == func2);
    assert(b[2] == (start2 / 256) as u8 && b[3] == (start2 % 256) as u8);
    assert(b[4] == (count2 / 256) as u8 && b[5] == (count2 % 256) as u8);
}

/// A request says what is asked for, byte by byte: the unit, the function, the
/// first register and the number of registers with their high bytes first, and
/// the CRC of those six bytes with its low byte first.
pub proof fn law_request_says_what_is_asked(addr: u8, func: u8, start: u16, count: u16)
    ensures
        ({
            let frame = request_frame(addr, func, start, count);
            &&& frame.len() == 8
            &&& frame[0] == addr
            &&& frame[1] == func
            &&& frame[2] * 256 + frame[3] == start
            &&& frame[4] * 256 + frame[5] == count
            &&& frame[6] + 256 * frame[7] == crate::crc::crc_of(frame.take(6))
        }),
{
    let frame = request_frame(addr, func, start, count);
    let body = request_body(addr, func, start, count);
    assert(frame.take(6) =~= body);
    let crc = crate::crc::crc_of(body);
    assert(frame[2] == (start / 256) as u8 && frame[3] == (start % 256) as u8);
    assert(frame[4] == (count / 256) as u8 && frame[5] == (count % 256) as u8);
    assert(frame[6] == (crc % 256) as u8 && frame[7] == (crc / 256) as u8);
}

/// A length is told from three bytes on. The answer to a read is as long as its
/// third byte says and five more, the answer to a write is eight bytes, and
/// nothing else has a length.
pub proof fn law_length_is_told_by_the_header(buf: Seq<u8>)
    ensures
        frame_length(buf) is None <==> buf.len() < 3,
        buf.len() >= 3 && (buf[1] == 3 || buf[1] == 4) ==> frame_length(buf)->0 == 5 + buf[2],
        buf.len() >= 3 && buf[1] == 6 ==> frame_length(buf)->0 == 8,
        buf.len() >= 3 && buf[1] != 3 && buf[1] != 4 && buf[1] != 6 ==> frame_length(buf)->0 == 0,
{
}

} // verus!
