//! Bytes written out in hexadecimal.

use vstd::prelude::*;
use vstd::string::*;

verus! {

/// The digit for `n` below sixteen, with capital letters.
pub open spec fn upper_digit(n: int) -> char {
    if n < 10 {
        (n + 0x30) as char
    } else {
        (n - 10 + 0x41) as char
    }
}

/// The digit for `n` below sixteen, with small letters.
pub open spec fn lower_digit(n: int) -> char {
    if n < 10 {
        (n + 0x30) as char
    } else {
        (n - 10 + 0x61) as char
    }
}

/// The four bits of `data` that the `i`th digit of its text stands for, the high
/// ones of a byte first.
pub open spec fn half_byte(data: Seq<u8>, i: int) -> int {
    if i % 2 == 0 {
        data[i / 2] as int / 16
    } else {
        data[i / 2] as int % 16
    }
}

/// `data` in capital hexadecimal digits, two for each byte.
pub open spec fn upper_hex(data: Seq<u8>) -> Seq<char> {
    Seq::new(2 * data.len(), |i: int| upper_digit(half_byte(data, i)))
}

/// `data` in small hexadecimal digits, two for each byte.
pub open spec fn lower_hex(data: Seq<u8>) -> Seq<char> {
    Seq::new(2 * data.len(), |i: int| lower_digit(half_byte(data, i)))
}

/// `data` in capital hexadecimal digits, two for each byte and a space between
/// bytes.
pub open spec fn spaced_hex(data: Seq<u8>) -> Seq<char> {
    Seq::new(
        if data.len() == 0 {
            0
        } else {
            (3 * data.len() - 1) as nat
        },
        |i: int|
            if i % 3 == 0 {
                upper_digit(data[i / 3] as int / 16)
            } else if i % 3 == 1 {
                upper_digit(data[i / 3] as int % 16)
            } else {
                ' '
            },
    )
}

/// `hex::encode_upper`: two capital hexadecimal digits for each byte, in order.
/// A text that no allocation can hold makes it panic.
#[verifier::external_body]
fn encode_upper(data: &[u8]) -> (text: String)
    requires
        2 * data@.len() <= isize::MAX,
    ensures
        text@ == upper_hex(data@),
{
    hex::encode_upper(data)
}

/// `hex::encode`: two small hexadecimal digits for each byte, in order. A text
/// that no allocation can hold makes it panic.
#[verifier::external_body]
pub(crate) fn encode(data: &[u8]) -> (text: String)
    requires
        2 * data@.len() <= isize::MAX,
    ensures
        text@ == lower_hex(data@),
{
    hex::encode(data)
}

/// Writes `v` out as in `0B 03 00`.
pub fn hex_bytes(v: &[u8]) -> (text: String)
    requires
        3 * v@.len() <= isize::MAX,
    ensures
        text@ == spaced_hex(v@),
{
    let digits = encode_upper(v);
    let pairs = digits.as_str();
    assert(pairs.is_ascii());
    let mut text = String::new();
    let mut i: usize = 0;
    while i < v.len()
        invariant
            i <= v@.len(),
            3 * v@.len() <= isize::MAX,
            pairs@ == upper_hex(v@),
            pairs.is_ascii(),
            text@ =~= spaced_hex(v@.take(i as int)),
        decreases v@.len() - i,
    {
        if i > 0 {
            text.append(" ");
            proof {
                reveal_strlit(" ");
            }
        }
        text.append(pairs.substring_ascii(2 * i, 2 * i + 2));
        i += 1;
    }
    assert(v@.take(v@.len() as int) =~= v@);
    text
}

/// The text keeps every bit: different bytes are written out differently.
pub proof fn law_hex_keeps_everything(a: Seq<u8>, b: Seq<u8>)
    requires
        spaced_hex(a) == spaced_hex(b),
    ensures
        a == b,
{
    let ta = spaced_hex(a);
    let tb = spaced_hex(b);
    assert(ta.len() == tb.len());
    assert forall|i: int| 0 <= i < a.len() implies a[i] == b[i] by {
        assert(ta[3 * i] == tb[3 * i]);
        assert(ta[3 * i + 1] == tb[3 * i + 1]);
        assert((3 * i) / 3 == i && (3 * i) % 3 == 0);
        assert((3 * i + 1) / 3 == i && (3 * i + 1) % 3 == 1);
    }
    assert(a =~= b);
}

/// Read back, the spaced text is the bytes again: two capital digits for each
/// byte, high half first, and a space between bytes.
pub proof fn law_spaced_text_reads_back(data: Seq<u8>)
    ensures
        spaced_hex(data).len() == if data.len() == 0 {
            0
        } else {
            3 * data.len() - 1
        },
        forall|i: int|
            0 <= i < data.len() ==> {
                let high = spaced_hex(data)[3 * i];
                let low = spaced_hex(data)[3 * i + 1];
                &&& '0' <= high <= '9' || 'A' <= high <= 'F'
                &&& '0' <= low <= '9' || 'A' <= low <= 'F'
                &&& #[trigger] data[i] == 16 * (if high <= '9' {
                    high as int - 0x30
                } else {
                    high as int - 0x41 + 10
                }) + (if low <= '9' {
                    low as int - 0x30
                } else {
                    low as int - 0x41 + 10
                })
            },
        forall|i: int| 0 <= i < data.len() - 1 ==> #[trigger] spaced_hex(data)[3 * i + 2] == ' ',
{
    assert forall|i: int| 0 <= i < data.len() implies {
        let high = spaced_hex(data)[3 * i];
        let low = spaced_hex(data)[3 * i + 1];
        &&& '0' <= high <= '9' || 'A' <= high <= 'F'
        &&& '0' <= low <= '9' || 'A' <= low <= 'F'
        &&& #[trigger] data[i] == 16 * (if high <= '9' {
            high as int - 0x30
        } else {
            high as int - 0x41 + 10
        }) + (if low <= '9' {
            low as int - 0x30
        } else {
            low as int - 0x41 + 10
        })
    } by {
        assert((3 * i) / 3 == i && (3 * i) % 3 == 0);
        assert((3 * i + 1) / 3 == i && (3 * i + 1) % 3 == 1);
    }
    assert forall|i: int| 0 <= i < data.len() - 1 implies #[trigger] spaced_hex(data)[3 * i + 2]
        == ' ' by {
        assert((3 * i + 2) % 3 == 2);
    }
}

/// Read back, the small digits are the bytes again, two for each byte and the
/// high half first.
pub proof fn law_lower_text_reads_back(data: Seq<u8>)
    ensures
        lower_hex(data).len() == 2 * data.len(),
        forall|i: int|
            0 <= i < data.len() ==> {
                let high = lower_hex(data)[2 * i];
                let low = lower_hex(data)[2 * i + 1];
                &&& '0' <= high <= '9' || 'a' <= high <= 'f'
                &&& '0' <= low <= '9' || 'a' <= low <= 'f'
                &&& #[trigger] data[i] == 16 * (if high <= '9' {
                    high as int - 0x30
                } else {
                    high as int - 0x61 + 10
                }) + (if low <= '9' {
                    low as int - 0x30
                } else {
                    low as int - 0x61 + 10
                })
            },
{
    assert forall|i: int| 0 <= i < data.len() implies {
        let high = lower_hex(data)[2 * i];
        let low = lower_hex(data)[2 * i + 1];
        &&& '0' <= high <= '9' || 'a' <= high <= 'f'
        &&& '0' <= low <= '9' || 'a' <= low <= 'f'
        &&& #[trigger] data[i] == 16 * (if high <= '9' {
            high as int - 0x30
        } else {
            high as int - 0x61 + 10
        }) + (if low <= '9' {
            low as int - 0x30
        } else {
            low as int - 0x61 + 10
        })
    } by {
        assert((2 * i) / 2 == i && (2 * i) % 2 == 0);
        assert((2 * i + 1) / 2 == i && (2 * i + 1) % 2 == 1);
    }
}

} // verus!
