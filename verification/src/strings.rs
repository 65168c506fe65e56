//! Verified helpers on strings: equality, prefix tests and decimal
//! rendering of counters, all specified over the character sequences
//! behind `&str` and `String`.
use vstd::prelude::*;
use vstd::string::StrSliceExecFns;
use vstd::utf8::encode_utf8_decode_utf8;

verus! {

/// Character-for-character equality of two string slices.
pub fn str_eq(a: &str, b: &str) -> (r: bool)
    ensures
        r == (a@ == b@),
{
    let av = a.as_bytes_vec();
    let bv = b.as_bytes_vec();
    if av.len() != bv.len() {
        proof {
            if a@ == b@ {
                assert(av@ == bv@);
            }
        }
        return false;
    }
    let n = av.len();
    let mut i: usize = 0;
    while i < n
        invariant
            i <= n,
            n == av.len() == bv.len(),
            av@ == vstd::utf8::encode_utf8(a@),
            bv@ == vstd::utf8::encode_utf8(b@),
            forall|j: int| 0 <= j < i ==> av@[j] == bv@[j],
        decreases n - i,
    {
        if av[i] != bv[i] {
            proof {
                if a@ == b@ {
                    assert(av@ == bv@);
                }
            }
            return false;
        }
        i += 1;
    }
    proof {
        assert(av@ =~= bv@);
        encode_utf8_decode_utf8(a@);
        encode_utf8_decode_utf8(b@);
    }
    true
}

/// `p` is an initial run of `s`.
pub open spec fn spec_starts_with(s: Seq<char>, p: Seq<char>) -> bool {
    p.len() <= s.len() && s.subrange(0, p.len() as int) == p
}

/// Whether the characters of `prefix` open the string `s`.
pub fn str_starts_with(s: &str, prefix: &str) -> (r: bool)
    ensures
        r == spec_starts_with(s@, prefix@),
{
    let pl = prefix.unicode_len();
    let sl = s.unicode_len();
    if pl > sl {
        return false;
    }
    let mut i: usize = 0;
    while i < pl
        invariant
            i <= pl,
            pl == prefix@.len(),
            pl <= sl == s@.len(),
            forall|j: int| 0 <= j < i ==> s@[j] == prefix@[j],
        decreases pl - i,
    {
        if s.get_char(i) != prefix.get_char(i) {
            proof {
                assert(s@.subrange(0, pl as int)[i as int] == s@[i as int]);
            }
            return false;
        }
        i += 1;
    }
    proof {
        assert(s@.subrange(0, pl as int) =~= prefix@);
    }
    true
}

/// The white-space characters, as Unicode lists them.
pub open spec fn is_space_char(c: char) -> bool {
    let u = c as u32;
    u == 0x9 || u == 0xa || u == 0xb || u == 0xc || u == 0xd || u == 0x20 || u == 0x85 || u == 0xa0
        || u == 0x1680 || (0x2000 <= u && u <= 0x200a) || u == 0x2028 || u == 0x2029 || u == 0x202f
        || u == 0x205f || u == 0x3000
}

/// Whether a character is white space.
pub fn is_space(c: char) -> (r: bool)
    ensures
        r == is_space_char(c),
{
    let u = c as u32;
    u == 0x9 || u == 0xa || u == 0xb || u == 0xc || u == 0xd || u == 0x20 || u == 0x85 || u == 0xa0
        || u == 0x1680 || (0x2000 <= u && u <= 0x200a) || u == 0x2028 || u == 0x2029 || u == 0x202f
        || u == 0x205f || u == 0x3000
}

/// The string without its leading white space.
pub open spec fn trim_front(s: Seq<char>) -> Seq<char>
    decreases s.len(),
{
    if s.len() > 0 && is_space_char(s[0]) {
        trim_front(s.drop_first())
    } else {
        s
    }
}

/// The string without its trailing white space.
pub open spec fn trim_back(s: Seq<char>) -> Seq<char>
    decreases s.len(),
{
    if s.len() > 0 && is_space_char(s.last()) {
        trim_back(s.drop_last())
    } else {
        s
    }
}

/// The string without leading and trailing white space.
pub open spec fn spec_trim(s: Seq<char>) -> Seq<char> {
    trim_back(trim_front(s))
}

/// A copy of `s` without leading and trailing white space.
pub fn str_trim(s: &str) -> (r: String)
    ensures
        r@ == spec_trim(s@),
{
    let n = s.unicode_len();
    proof {
        assert(s@.subrange(0, n as int) =~= s@);
    }
    let mut a: usize = 0;
    while a < n && is_space(s.get_char(a))
        invariant
            a <= n,
            n == s@.len(),
            trim_front(s@) == trim_front(s@.subrange(a as int, n as int)),
        decreases n - a,
    {
        proof {
            assert(s@.subrange(a as int, n as int).drop_first() =~= s@.subrange(
                a as int + 1,
                n as int,
            ));
        }
        a += 1;
    }
    proof {
        assert(trim_front(s@) =~= s@.subrange(a as int, n as int));
    }
    let mut b: usize = n;
    while b > a && is_space(s.get_char(b - 1))
        invariant
            a <= b <= n,
            n == s@.len(),
            trim_front(s@) == s@.subrange(a as int, n as int),
            trim_back(s@.subrange(a as int, n as int)) == trim_back(
                s@.subrange(a as int, b as int),
            ),
        decreases b,
    {
        proof {
            assert(s@.subrange(a as int, b as int).drop_last() =~= s@.subrange(
                a as int,
                b as int - 1,
            ));
        }
        b -= 1;
    }
    proof {
        assert(trim_back(s@.subrange(a as int, b as int)) =~= s@.subrange(a as int, b as int));
    }
    String::from_str(s.substring_char(a, b))
}

/// The character for one decimal digit.
pub open spec fn digit_char(d: int) -> char
    recommends
        0 <= d < 10,
{
    if d == 0 {
        '0'
    } else if d == 1 {
        '1'
    } else if d == 2 {
        '2'
    } else if d == 3 {
        '3'
    } else if d == 4 {
        '4'
    } else if d == 5 {
        '5'
    } else if d == 6 {
        '6'
    } else if d == 7 {
        '7'
    } else if d == 8 {
        '8'
    } else {
        '9'
    }
}

/// The decimal rendering of `n`, most significant digit first and
/// without leading zeroes (a single zero for `n == 0`).
pub open spec fn dec_str(n: nat) -> Seq<char>
    decreases n,
{
    if n < 10 {
        seq![digit_char(n as int)]
    } else {
        dec_str(n / 10).push(digit_char((n % 10) as int))
    }
}

/// A one-character string slice for the decimal digit `d`.
fn digit_str(d: u64) -> (r: &'static str)
    requires
        d < 10,
    ensures
        r@ == seq![digit_char(d as int)],
{
    proof {
        reveal_strlit("0");
        reveal_strlit("1");
        reveal_strlit("2");
        reveal_strlit("3");
        reveal_strlit("4");
        reveal_strlit("5");
        reveal_strlit("6");
        reveal_strlit("7");
        reveal_strlit("8");
        reveal_strlit("9");
    }
    let r: &'static str = match d {
        0 => "0",
        1 => "1",
        2 => "2",
        3 => "3",
        4 => "4",
        5 => "5",
        6 => "6",
        7 => "7",
        8 => "8",
        _ => "9",
    };
    proof {
        assert(r@ =~= seq![digit_char(d as int)]);
    }
    r
}

/// The decimal rendering of `n` as an owned string.
pub fn u64_to_dec(n: u64) -> (r: String)
    ensures
        r@ == dec_str(n as nat),
{
    let mut out = String::from_str(digit_str(n % 10));
    let mut m: u64 = n / 10;
    proof {
        if m > 0 {
            assert(dec_str(n as nat) == dec_str((n / 10) as nat).push(digit_char((n % 10) as int)));
            assert(dec_str((m as nat)).push(digit_char((n % 10) as int)) =~= dec_str(m as nat)
                + out@);
        }
    }
    while m > 0
        invariant
            m > 0 ==> dec_str(n as nat) == dec_str(m as nat) + out@,
            m == 0 ==> dec_str(n as nat) == out@,
        decreases m,
    {
        let d = m % 10;
        let next: u64 = m / 10;
        let piece = String::from_str(digit_str(d));
        let rest = out;
        out = piece.concat(rest.as_str());
        proof {
            if next > 0 {
                assert(dec_str(m as nat) == dec_str(next as nat).push(digit_char(d as int)));
                assert(dec_str(next as nat).push(digit_char(d as int)) + rest@ =~= dec_str(
                    next as nat,
                ) + out@);
            } else {
                assert(dec_str(m as nat) =~= seq![digit_char(d as int)]);
                assert(dec_str(m as nat) + rest@ =~= out@);
            }
        }
        m = next;
    }
    out
}

} // verus!
