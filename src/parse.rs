use vstd::prelude::*;
use vstd::string::StringSliceAdditionalSpecFns;

verus! {

/// Whether a byte is an ASCII decimal digit.
pub open spec fn is_digit(b: u8) -> bool {
    48 <= b <= 57
}

/// The value of a sequence of decimal digits, most significant first.
pub open spec fn digits_value(b: Seq<u8>) -> nat
    decreases b.len(),
{
    if b.len() == 0 {
        0
    } else {
        digits_value(b.drop_last()) * 10 + (b.last() - 48) as nat
    }
}

/// The bytes after an optional leading `+`.
pub open spec fn unsigned_part(b: Seq<u8>) -> Seq<u8> {
    if b.len() > 0 && b[0] == 43 {
        b.drop_first()
    } else {
        b
    }
}

/// Whether all the bytes are decimal digits.
pub open spec fn all_digits(d: Seq<u8>) -> bool {
    forall|i: int| 0 <= i < d.len() ==> is_digit(#[trigger] d[i])
}

/// The unsigned integer that the bytes denote: an optional `+`, then one or more decimal
/// digits, of a value that fits in a `usize`.
pub open spec fn decimal(b: Seq<u8>) -> Option<usize> {
    let d = unsigned_part(b);
    if d.len() > 0 && all_digits(d) && digits_value(d) <= usize::MAX {
        Some(digits_value(d) as usize)
    } else {
        None
    }
}

/// The unsigned integer that a text denotes.
pub open spec fn spec_usize(s: Seq<char>) -> Option<usize> {
    decimal(vstd::utf8::encode_utf8(s))
}

/// Parses an unsigned decimal integer.
pub fn parse_usize(s: &str) -> (r: Option<usize>)
    ensures
        r == spec_usize(s@),
{
    let b = s.as_bytes();
    let mut i: usize = 0;
    if b.len() > 0 && b[0] == 43 {
        i = 1;
    }
    let ghost d = b@.skip(i as int);
    assert(d =~= unsigned_part(b@));
    if i >= b.len() {
        return None;
    }
    let start = i;
    let mut v: usize = 0;
    let mut overflow = false;
    while i < b.len()
        invariant
            start <= i <= b@.len(),
            b@ == vstd::utf8::encode_utf8(s@),
            d == unsigned_part(b@),
            d == b@.skip(start as int),
            forall|j: int| start <= j < i ==> is_digit(b@[j]),
            !overflow ==> v as nat == digits_value(b@.subrange(start as int, i as int)),
            overflow ==> digits_value(b@.subrange(start as int, i as int)) > usize::MAX,
        decreases b@.len() - i,
    {
        let c = b[i];
        assert(b@.subrange(start as int, i + 1).drop_last() =~= b@.subrange(start as int, i as int));
        assert(b@.subrange(start as int, i + 1).last() == c);
        if c < 48 || c > 57 {
            assert(d[i - start] == c);
            assert(!is_digit(d[i - start]));
            assert(!all_digits(d));
            return None;
        }
        let digit = (c - 48) as usize;
        if !overflow {
            match v.checked_mul(10) {
                Some(m) => match m.checked_add(digit) {
                    Some(n) => {
                        v = n;
                    },
                    None => {
                        overflow = true;
                    },
                },
                None => {
                    overflow = true;
                },
            }
        }
        i = i + 1;
    }
    assert(b@.subrange(start as int, b@.len() as int) =~= d);
    if overflow {
        None
    } else {
        Some(v)
    }
}

/// Whether two texts are equal.
pub fn str_is(s: &str, lit: &str) -> (r: bool)
    ensures
        r == (s@ == lit@),
{
    let a = s.to_owned();
    let b = lit.to_owned();
    a == b
}

} // verus!
