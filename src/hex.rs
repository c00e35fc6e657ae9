//! Lower-case hexadecimal text of byte strings.
use vstd::prelude::*;
use vstd::string::StrSliceExecFns;
use vstd::string::StringExecFns;

verus! {

/// The sixteen lower-case hexadecimal digits, in order of value.
pub open spec fn hex_digits() -> Seq<char> {
    seq!['0', '1', '2', '3', '4', '5', '6', '7', '8', '9', 'a', 'b', 'c', 'd', 'e', 'f']
}

/// The two digits that write one byte, high half first.
pub open spec fn hex_byte(b: u8) -> Seq<char> {
    seq![hex_digits()[(b / 16) as int], hex_digits()[(b % 16) as int]]
}

/// The lower-case hexadecimal text of a byte string: two digits per byte.
pub open spec fn hex_of(bytes: Seq<u8>) -> Seq<char>
    decreases bytes.len(),
{
    if bytes.len() == 0 {
        Seq::empty()
    } else {
        hex_of(bytes.drop_last()) + hex_byte(bytes.last())
    }
}

/// The value of a hexadecimal digit of either case.
pub open spec fn hex_value(c: char) -> Option<u8> {
    if '0' <= c && c <= '9' {
        Some((c as u32 - '0' as u32) as u8)
    } else if 'a' <= c && c <= 'f' {
        Some((c as u32 - 'a' as u32 + 10) as u8)
    } else if 'A' <= c && c <= 'F' {
        Some((c as u32 - 'A' as u32 + 10) as u8)
    } else {
        None
    }
}

/// Whether a character is a hexadecimal digit of either case.
pub open spec fn is_hex_digit(c: char) -> bool {
    hex_value(c) is Some
}

/// Whether a character is a hexadecimal digit of either case.
pub fn is_hex_char(c: char) -> (r: bool)
    ensures
        r == is_hex_digit(c),
{
    ('0' <= c && c <= '9') || ('a' <= c && c <= 'f') || ('A' <= c && c <= 'F')
}

/// Appends the digit of value `v` to `out`.
fn push_digit(out: &mut String, v: u8)
    requires
        v < 16,
    ensures
        final(out)@ == old(out)@.push(hex_digits()[v as int]),
{
    let digits = "0123456789abcdef";
    proof {
        reveal_strlit("0123456789abcdef");
        assert(digits@ =~= hex_digits());
    }
    let d = digits.substring_char(v as usize, v as usize + 1);
    proof {
        assert(d@ =~= seq![hex_digits()[v as int]]);
    }
    out.append(d);
}

/// The lower-case hexadecimal text of `bytes`, two digits per byte.
pub fn to_hex(bytes: &[u8]) -> (r: String)
    ensures
        r@ == hex_of(bytes@),
{
    let mut out = String::new();
    let mut i: usize = 0;
    while i < bytes.len()
        invariant
            i <= bytes@.len(),
            out@ == hex_of(bytes@.subrange(0, i as int)),
        decreases bytes@.len() - i,
    {
        let b = bytes[i];
        push_digit(&mut out, b / 16);
        push_digit(&mut out, b % 16);
        proof {
            let prefix = bytes@.subrange(0, i as int + 1);
            assert(prefix.drop_last() =~= bytes@.subrange(0, i as int));
            assert(prefix.last() == b);
            assert(out@ =~= hex_of(prefix));
        }
        i = i + 1;
    }
    proof {
        assert(bytes@.subrange(0, bytes@.len() as int) =~= bytes@);
    }
    out
}

/// The value of a hexadecimal digit of either case; none for other characters.
pub fn digit_value(c: char) -> (r: Option<u8>)
    ensures
        r == hex_value(c),
{
    if '0' <= c && c <= '9' {
        Some((c as u32 - '0' as u32) as u8)
    } else if 'a' <= c && c <= 'f' {
        Some((c as u32 - 'a' as u32 + 10) as u8)
    } else if 'A' <= c && c <= 'F' {
        Some((c as u32 - 'A' as u32 + 10) as u8)
    } else {
        None
    }
}

/// Whether `s` writes exactly 32 bytes in hexadecimal: 64 digits of either case.
pub open spec fn is_hex32(s: Seq<char>) -> bool {
    &&& s.len() == 64
    &&& forall|i: int| 0 <= i < 64 ==> #[trigger] is_hex_digit(s[i])
}

/// The byte written by the digits at `2 * i` and `2 * i + 1`.
pub open spec fn hex_pair_value(s: Seq<char>, i: int) -> u8 {
    (hex_value(s[2 * i])->0 * 16 + hex_value(s[2 * i + 1])->0) as u8
}

/// The 32 bytes that 64 hexadecimal digits write; none for any other text.
pub fn parse_hex32(s: &str) -> (r: Option<[u8; 32]>)
    ensures
        r is Some <==> is_hex32(s@),
        r matches Some(b) ==> forall|i: int| 0 <= i < 32 ==> #[trigger] b@[i] == hex_pair_value(
            s@,
            i,
        ),
{
    if s.unicode_len() != 64 {
        return None;
    }
    let mut out = [0u8; 32];
    let mut i: usize = 0;
    while i < 32
        invariant
            s@.len() == 64,
            i <= 32,
            forall|j: int| 0 <= j < 2 * i ==> #[trigger] is_hex_digit(s@[j]),
            forall|j: int| 0 <= j < i ==> #[trigger] out@[j] == hex_pair_value(s@, j),
        decreases 32 - i,
    {
        let hi = match digit_value(s.get_char(2 * i)) {
            Some(v) => v,
            None => {
                proof {
                    assert(!is_hex_digit(s@[2 * i as int]));
                }
                return None;
            },
        };
        let lo = match digit_value(s.get_char(2 * i + 1)) {
            Some(v) => v,
            None => {
                proof {
                    assert(!is_hex_digit(s@[2 * i as int + 1]));
                }
                return None;
            },
        };
        out[i] = hi * 16 + lo;
        i = i + 1;
    }
    Some(out)
}

} // verus!
