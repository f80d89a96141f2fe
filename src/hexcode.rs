use vstd::prelude::*;
use vstd::string::*;

verus! {

/// The value of a hexadecimal digit, either case.
pub open spec fn hex_digit_value(c: char) -> Option<u8> {
    if '0' <= c && c <= '9' {
        Some((c as u32 - '0' as u32) as u8)
    } else if 'a' <= c && c <= 'f' {
        Some((c as u32 - 'a' as u32 + 10) as u8)
    } else if 'A' <= c && c <= 'F' {
        Some((c as u32 - 'A' as u32 + 10) as u8)
    } else {
        None
    }
}

/// The byte that two hexadecimal digits spell, high digit first.
pub open spec fn hex_pair_value(a: char, b: char) -> Option<u8> {
    match (hex_digit_value(a), hex_digit_value(b)) {
        (Some(x), Some(y)) => Some((16 * x + y) as u8),
        _ => None,
    }
}

/// The text without its spaces.
pub open spec fn without_spaces(s: Seq<char>) -> Seq<char>
    decreases s.len(),
{
    if s.len() == 0 {
        Seq::empty()
    } else if s.last() == ' ' {
        without_spaces(s.drop_last())
    } else {
        without_spaces(s.drop_last()).push(s.last())
    }
}

/// Every pair of characters spells a byte.
pub open spec fn pairs_valid(cs: Seq<char>) -> bool {
    forall|k: int| 0 <= k < cs.len() / 2 ==> (#[trigger] hex_pair_value(cs[2 * k], cs[2 * k + 1])) is Some
}

/// The bytes that the pairs of characters spell.
pub open spec fn pair_bytes(cs: Seq<char>) -> Seq<u8> {
    Seq::new(cs.len() / 2, |k: int| hex_pair_value(cs[2 * k], cs[2 * k + 1])->Some_0)
}

pub open spec fn msg_odd_length() -> Seq<char> {
    "hex string length must be even"@
}

pub open spec fn msg_invalid_hex() -> Seq<char> {
    "invalid hex string"@
}

fn digit_value(c: char) -> (r: Option<u8>)
    ensures
        r == hex_digit_value(c),
{
    if '0' <= c && c <= '9' {
        Some((c as u32 - '0' as u32) as u8)
    } else if 'a' <= c && c <= 'f' {
        Some((c as u32 - 'a' as u32 + 10) as u8)
    } else if 'A' <= c && c <= 'F' {
        Some((c as u32 - 'A' as u32 + 10) as u8)
    } else {
        None
    }
}

fn pair_value(a: char, b: char) -> (r: Option<u8>)
    ensures
        r == hex_pair_value(a, b),
{
    match (digit_value(a), digit_value(b)) {
        (Some(x), Some(y)) => Some(16 * x + y),
        _ => None,
    }
}

/// Reads a hexadecimal text, with or without spaces between the digits,
/// as bytes: an error when the digits are odd in number or a pair is not a
/// byte.
pub fn hex_string_to_bytes(hex: &str) -> (r: Result<Vec<u8>, String>)
    ensures
        without_spaces(hex@).len() % 2 != 0 ==> (r matches Err(e) && e@ == msg_odd_length()),
        without_spaces(hex@).len() % 2 == 0 && !pairs_valid(without_spaces(hex@)) ==> (r matches Err(e)
            && e@ == msg_invalid_hex()),
        without_spaces(hex@).len() % 2 == 0 && pairs_valid(without_spaces(hex@)) ==> (r matches Ok(v)
            && v@ == pair_bytes(without_spaces(hex@))),
{
    proof {
        reveal_strlit("hex string length must be even");
        reveal_strlit("invalid hex string");
    }
    let n = hex.unicode_len();
    let mut cs: Vec<char> = Vec::new();
    let mut i: usize = 0;
    while i < n
        invariant
            n == hex@.len(),
            i <= n,
            cs@ == without_spaces(hex@.subrange(0, i as int)),
        decreases n - i,
    {
        let c = hex.get_char(i);
        proof {
            let p = hex@.subrange(0, i + 1);
            assert(p.drop_last() =~= hex@.subrange(0, i as int));
            assert(p.last() == c);
        }
        if c != ' ' {
            cs.push(c);
        }
        i = i + 1;
    }
    proof {
        assert(hex@.subrange(0, n as int) =~= hex@);
    }
    let m = cs.len();
    if m % 2 != 0 {
        return Err("hex string length must be even".to_owned());
    }
    let mut out: Vec<u8> = Vec::new();
    let mut k: usize = 0;
    while k < m / 2
        invariant
            m == cs@.len(),
            cs@ == without_spaces(hex@),
            m % 2 == 0,
            k <= m / 2,
            out@.len() == k,
            forall|j: int| 0 <= j < k ==> (#[trigger] hex_pair_value(cs@[2 * j], cs@[2 * j + 1])) is Some,
            forall|j: int| 0 <= j < k ==> out@[j] == #[trigger] pair_bytes(cs@)[j],
        decreases m / 2 - k,
    {
        match pair_value(cs[2 * k], cs[2 * k + 1]) {
            Some(b) => {
                out.push(b);
            },
            None => {
                proof {
                    let j = k as int;
                    assert(hex_pair_value(cs@[2 * j], cs@[2 * j + 1]) is None);
                    assert(!pairs_valid(cs@));
                }
                return Err("invalid hex string".to_owned());
            },
        }
        k = k + 1;
    }
    assert(out@ =~= pair_bytes(cs@));
    Ok(out)
}

// ---------------------------------------------------------------------------
// Strict hexadecimal, as the `hex` crate reads it.
// ---------------------------------------------------------------------------

/// The text is an even number of hexadecimal digits.
pub open spec fn is_strict_hex(s: Seq<char>) -> bool {
    s.len() % 2 == 0 && forall|i: int| 0 <= i < s.len() ==> (#[trigger] hex_digit_value(s[i])) is Some
}

/// The bytes that a strict hexadecimal text spells, two digits a byte.
pub open spec fn strict_hex_bytes(s: Seq<char>) -> Seq<u8> {
    Seq::new(
        s.len() / 2,
        |k: int| (16 * hex_digit_value(s[2 * k])->Some_0 + hex_digit_value(s[2 * k + 1])->Some_0) as u8,
    )
}

/// Relies on hex::decode: an even number of hexadecimal digits, either case,
/// decodes to one byte per pair, high digit first; anything else is an
/// error.
#[verifier::external_body]
fn hex_decode(s: &str) -> (r: Option<Vec<u8>>)
    ensures
        r is Some == is_strict_hex(s@),
        r is Some ==> r->Some_0@ == strict_hex_bytes(s@),
{
    hex::decode(s).ok()
}

/// The payload of a TCP run, given as strict hexadecimal text.
pub fn decode_payload_hex(text: &str) -> (r: Result<Vec<u8>, String>)
    ensures
        is_strict_hex(text@) ==> (r matches Ok(v) && v@ == strict_hex_bytes(text@)),
        !is_strict_hex(text@) ==> (r matches Err(e) && e@ == msg_invalid_hex()),
{
    proof {
        reveal_strlit("invalid hex string");
    }
    match hex_decode(text) {
        Some(v) => Ok(v),
        None => Err("invalid hex string".to_owned()),
    }
}

} // verus!
