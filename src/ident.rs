//! Parsing of 16-bit identifiers written in hexadecimal, with any number of
//! leading `0x` markers.
use vstd::prelude::*;

verus! {

broadcast use vstd::string::to_string_from_display_ensures_for_str;

/// A hexadecimal digit, in either case.
pub open spec fn is_hex_digit(c: char) -> bool {
    ('0' <= c <= '9') || ('a' <= c <= 'f') || ('A' <= c <= 'F')
}

/// Numeric value of a hexadecimal digit.
pub open spec fn hex_digit_value(c: char) -> int {
    if '0' <= c <= '9' {
        c as int - '0' as int
    } else if 'a' <= c <= 'f' {
        c as int - 'a' as int + 10
    } else {
        c as int - 'A' as int + 10
    }
}

pub open spec fn all_hex(d: Seq<char>) -> bool {
    forall|i: int| 0 <= i < d.len() ==> is_hex_digit(#[trigger] d[i])
}

/// Value of a sequence of hexadecimal digits, most significant first.
pub open spec fn hex_value(d: Seq<char>) -> int
    decreases d.len(),
{
    if d.len() == 0 {
        0
    } else {
        hex_value(d.drop_last()) * 16 + hex_digit_value(d.last())
    }
}

/// The text with every leading `0x` removed.
pub open spec fn strip_0x(s: Seq<char>) -> Seq<char>
    decreases s.len(),
{
    if s.len() >= 2 && s[0] == '0' && s[1] == 'x' {
        strip_0x(s.subrange(2, s.len() as int))
    } else {
        s
    }
}

/// The digits of an unsigned number: a leading `+` is dropped when
/// something follows it.
pub open spec fn unsigned_digits(t: Seq<char>) -> Seq<char> {
    if t.len() > 1 && t[0] == '+' {
        t.drop_first()
    } else {
        t
    }
}

/// Some run of valid leading digits already exceeds the 16-bit range.
pub open spec fn overflows_u16(d: Seq<char>) -> bool {
    exists|k: int| 0 <= k <= d.len() && all_hex(#[trigger] d.take(k)) && hex_value(d.take(k)) > 0xffff
}

pub open spec fn empty_message() -> Seq<char> {
    "cannot parse integer from empty string"@
}

pub open spec fn invalid_digit_message() -> Seq<char> {
    "invalid digit found in string"@
}

pub open spec fn overflow_message() -> Seq<char> {
    "number too large to fit in target type"@
}

/// What parsing `text` yields: the number, or the message of the error.
pub open spec fn parse_hex_result(text: Seq<char>) -> Result<int, Seq<char>> {
    let t = strip_0x(text);
    let d = unsigned_digits(t);
    if t.len() == 0 {
        Err(empty_message())
    } else if overflows_u16(d) {
        Err(overflow_message())
    } else if !all_hex(d) {
        Err(invalid_digit_message())
    } else {
        Ok(hex_value(d))
    }
}

proof fn lemma_hex_value_monotone(d: Seq<char>, a: int, b: int)
    requires
        0 <= a <= b <= d.len(),
        all_hex(d.take(b)),
    ensures
        0 <= hex_value(d.take(a)) <= hex_value(d.take(b)),
    decreases b,
{
    if b > 0 {
        assert(d.take(b).drop_last() =~= d.take(b - 1));
        assert(is_hex_digit(d.take(b)[b - 1]));
        assert(all_hex(d.take(b - 1))) by {
            assert forall|i: int| 0 <= i < b - 1 implies is_hex_digit(#[trigger] d.take(b - 1)[i]) by {
                assert(d.take(b - 1)[i] == d.take(b)[i]);
            }
        }
        if a < b {
            lemma_hex_value_monotone(d, a, b - 1);
        } else {
            lemma_hex_value_monotone(d, b - 1, b - 1);
        }
    }
}

/// The characters of `s`, in order.
fn chars_of(s: &str) -> (r: Vec<char>)
    ensures
        r@ == s@,
{
    let mut out: Vec<char> = Vec::new();
    for c in it: s.chars()
        invariant
            it.seq() == s@,
            out@ == it.seq().take(it.index() as int),
    {
        assert(it.seq().take(it.index() + 1) =~= it.seq().take(it.index() as int).push(c));
        out.push(c);
    }
    assert(out@ =~= s@);
    out
}

/// Parses a 16-bit identifier written in hexadecimal. Every leading `0x` is
/// removed first; a `+` sign may precede the digits. The error carries the
/// standard message of the failure met first, reading from the left.
pub fn parse_hex(s: &str) -> (r: Result<u16, String>)
    ensures
        match parse_hex_result(s@) {
            Ok(v) => r matches Ok(x) && x as int == v,
            Err(m) => r matches Err(e) && e@ == m,
        },
{
    let b = chars_of(s);
    let n = b.len();
    let mut start: usize = 0;
    assert(b@.subrange(0, n as int) =~= b@);
    while n - start >= 2 && b[start] == '0' && b[start + 1] == 'x'
        invariant
            b@ == s@,
            n == b@.len(),
            start <= n,
            strip_0x(b@) == strip_0x(b@.subrange(start as int, n as int)),
        decreases n - start,
    {
        let ghost rest = b@.subrange(start as int, n as int);
        assert(rest.subrange(2, rest.len() as int) =~= b@.subrange(start + 2, n as int));
        start = start + 2;
    }
    let ghost t = b@.subrange(start as int, n as int);
    assert(strip_0x(t) == t);
    if start == n {
        assert(t.len() == 0);
        return Err("cannot parse integer from empty string".to_string());
    }
    if n - start > 1 && b[start] == '+' {
        start = start + 1;
    }
    let ghost d = b@.subrange(start as int, n as int);
    assert(d == unsigned_digits(t)) by {
        if t.len() > 1 && t[0] == '+' {
            assert(t.drop_first() =~= d);
        } else {
            assert(t =~= d);
        }
    }
    let mut i: usize = start;
    let mut v: u32 = 0;
    while i < n
        invariant
            b@ == s@,
            n == b@.len(),
            start <= i <= n,
            d == b@.subrange(start as int, n as int),
            strip_0x(s@).len() > 0,
            unsigned_digits(strip_0x(s@)) == d,
            all_hex(d.take(i - start)),
            v as int == hex_value(d.take(i - start)),
            v <= 0xffff,
        decreases n - i,
    {
        let c = b[i];
        let k: usize = i - start;
        assert(d[k as int] == c);
        let digit: u32;
        if '0' <= c && c <= '9' {
            digit = (c as u32) - ('0' as u32);
        } else if 'a' <= c && c <= 'f' {
            digit = (c as u32) - ('a' as u32) + 10;
        } else if 'A' <= c && c <= 'F' {
            digit = (c as u32) - ('A' as u32) + 10;
        } else {
            proof {
                assert(!all_hex(d));
                assert forall|j: int| 0 <= j <= d.len() && all_hex(#[trigger] d.take(j)) implies hex_value(d.take(j)) <= 0xffff by {
                    if j > k {
                        assert(d.take(j)[k as int] == c);
                    }
                    lemma_hex_value_monotone(d, j, k as int);
                }
            }
            return Err("invalid digit found in string".to_string());
        }
        assert(d.take(k + 1).drop_last() =~= d.take(k as int));
        assert(all_hex(d.take(k + 1))) by {
            assert forall|j: int| 0 <= j < k + 1 implies is_hex_digit(#[trigger] d.take(k + 1)[j]) by {
                if j < k {
                    assert(d.take(k + 1)[j] == d.take(k as int)[j]);
                }
            }
        }
        v = v * 16 + digit;
        i = i + 1;
        if v > 0xffff {
            assert(overflows_u16(d)) by {
                assert(hex_value(d.take(k + 1)) > 0xffff);
            }
            return Err("number too large to fit in target type".to_string());
        }
    }
    proof {
        assert(d.take(i - start) =~= d);
        assert forall|j: int| 0 <= j <= d.len() && all_hex(#[trigger] d.take(j)) implies hex_value(d.take(j)) <= 0xffff by {
            lemma_hex_value_monotone(d, j, d.len() as int);
        }
    }
    Ok(v as u16)
}

} // verus!
