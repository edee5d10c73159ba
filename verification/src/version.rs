//! Concrete versions: a totally ordered triple of numeric components,
//! together with the decimal-digit machinery used to parse and render
//! version text.

use vstd::prelude::*;

verus! {

/// A fully resolved, concrete version: `major.minor.patch`.
#[derive(Clone, Copy, PartialEq, Eq, Structural, Debug, Hash)]
pub struct Version {
    pub major: u64,
    pub minor: u64,
    pub patch: u64,
}

/// Strict lexicographic order on versions.
pub open spec fn version_lt(a: Version, b: Version) -> bool {
    a.major < b.major || (a.major == b.major && (a.minor < b.minor || (a.minor == b.minor
        && a.patch < b.patch)))
}

/// Non-strict lexicographic order on versions.
pub open spec fn version_le(a: Version, b: Version) -> bool {
    version_lt(a, b) || a == b
}

impl Version {
    pub fn new(major: u64, minor: u64, patch: u64) -> (r: Version)
        ensures
            r == (Version { major, minor, patch }),
    {
        Version { major, minor, patch }
    }

    /// Decides the strict order `self < other`.
    pub fn lt(&self, other: &Version) -> (r: bool)
        ensures
            r == version_lt(*self, *other),
    {
        if self.major != other.major {
            self.major < other.major
        } else if self.minor != other.minor {
            self.minor < other.minor
        } else {
            self.patch < other.patch
        }
    }

    /// Decides the non-strict order `self <= other`.
    pub fn le(&self, other: &Version) -> (r: bool)
        ensures
            r == version_le(*self, *other),
    {
        !other.lt(self)
    }
}

/// The order is total: any two versions compare.
pub proof fn lemma_version_order_total(a: Version, b: Version)
    ensures
        version_lt(a, b) || version_lt(b, a) || a == b,
        !(version_lt(a, b) && version_lt(b, a)),
{
}

/// The order is transitive.
pub proof fn lemma_version_order_trans(a: Version, b: Version, c: Version)
    requires
        version_lt(a, b),
        version_lt(b, c),
    ensures
        version_lt(a, c),
{
}

/// Is `c` a decimal digit?
pub open spec fn is_digit_char(c: char) -> bool {
    '0' <= c && c <= '9'
}

/// Numeric value of a digit character.
pub open spec fn digit_val(c: char) -> int {
    c as int - '0' as int
}

/// A non-empty sequence of decimal digits.
pub open spec fn is_digits(s: Seq<char>) -> bool {
    s.len() > 0 && forall|i: int| 0 <= i < s.len() ==> is_digit_char(s[i])
}

/// Value of a digit string, most significant digit first.
pub open spec fn digits_val(s: Seq<char>) -> int
    decreases s.len(),
{
    if s.len() == 0 {
        0
    } else {
        digits_val(s.drop_last()) * 10 + digit_val(s.last())
    }
}

/// The digit character for a value below ten.
pub open spec fn digit_char(d: int) -> char {
    if d == 1 {
        '1'
    } else if d == 2 {
        '2'
    } else if d == 3 {
        '3'
    } else if d == 4 {
        '4'
    } else if d == 5 {
        '5'
    } else if d == 6 {
        '6'
    } else if d == 7 {
        '7'
    } else if d == 8 {
        '8'
    } else if d == 9 {
        '9'
    } else {
        '0'
    }
}

/// Canonical decimal rendering of a natural number: no leading zeros,
/// except that zero itself renders as a single `'0'`.
pub open spec fn dec_str(n: nat) -> Seq<char>
    decreases n,
{
    if n < 10 {
        seq![digit_char(n as int)]
    } else {
        dec_str(n / 10).push(digit_char((n % 10) as int))
    }
}

/// A digit string has a non-negative value.
pub proof fn lemma_digits_val_nonneg(s: Seq<char>)
    requires
        forall|i: int| 0 <= i < s.len() ==> is_digit_char(s[i]),
    ensures
        digits_val(s) >= 0,
    decreases s.len(),
{
    if s.len() > 0 {
        lemma_digits_val_nonneg(s.drop_last());
    }
}

/// The value of a digit string never drops when digits are appended:
/// every prefix of an all-digit string is worth at most the whole.
pub proof fn lemma_digits_val_prefix(s: Seq<char>, i: int)
    requires
        forall|k: int| 0 <= k < s.len() ==> is_digit_char(s[k]),
        0 <= i <= s.len(),
    ensures
        digits_val(s.subrange(0, i)) <= digits_val(s),
    decreases s.len() - i,
{
    if i == s.len() {
        assert(s.subrange(0, i) =~= s);
    } else {
        lemma_digits_val_prefix(s, i + 1);
        let p = s.subrange(0, i + 1);
        assert(p.drop_last() =~= s.subrange(0, i));
        lemma_digits_val_nonneg(s.subrange(0, i));
        assert(digits_val(p) == digits_val(s.subrange(0, i)) * 10 + digit_val(s[i]));
        assert(digits_val(s.subrange(0, i)) <= digits_val(s.subrange(0, i)) * 10);
    }
}

/// `digit_char` and `digit_val` are inverse on single digits.
pub proof fn lemma_digit_char_val(d: int)
    requires
        0 <= d < 10,
    ensures
        is_digit_char(digit_char(d)),
        digit_val(digit_char(d)) == d,
{
}

/// The canonical rendering is made of digits, is worth the number it
/// renders, and starts with a non-zero digit for any non-zero number.
pub proof fn lemma_dec_str(n: nat)
    ensures
        is_digits(dec_str(n)),
        digits_val(dec_str(n)) == n,
        n > 0 ==> dec_str(n)[0] != '0',
    decreases n,
{
    if n < 10 {
        lemma_digit_char_val(n as int);
        let s = dec_str(n);
        assert(s =~= seq![digit_char(n as int)]);
        assert(s.drop_last() =~= Seq::<char>::empty());
        assert(digits_val(s.drop_last()) == 0);
        assert(s.last() == digit_char(n as int));
        assert(digits_val(s) == digits_val(s.drop_last()) * 10 + digit_val(s.last()));
        assert(digits_val(s) == n);
    } else {
        lemma_dec_str(n / 10);
        lemma_digit_char_val((n % 10) as int);
        let s = dec_str(n / 10);
        let c = digit_char((n % 10) as int);
        assert(s.push(c).drop_last() =~= s);
        assert(s.push(c).last() == c);
        assert(digits_val(s.push(c)) == digits_val(s) * 10 + digit_val(c));
        assert(s.push(c)[0] == s[0]);
    }
}

/// Parses a non-empty all-digit string as a `u128`; rejects anything
/// else, including values past `u128::MAX`.
pub fn parse_u128(s: &str) -> (r: Option<u128>)
    ensures
        r is Some <==> is_digits(s@) && digits_val(s@) <= u128::MAX as int,
        r matches Some(v) ==> v as int == digits_val(s@),
{
    let n = s.unicode_len();
    if n == 0 {
        return None;
    }
    let mut acc: u128 = 0;
    let mut i: usize = 0;
    while i < n
        invariant
            0 <= i <= n,
            n == s@.len(),
            forall|k: int| 0 <= k < i ==> is_digit_char(s@[k]),
            acc as int == digits_val(s@.subrange(0, i as int)),
        decreases n - i,
    {
        let c = s.get_char(i);
        let d: u128 = match c {
            '0' => 0,
            '1' => 1,
            '2' => 2,
            '3' => 3,
            '4' => 4,
            '5' => 5,
            '6' => 6,
            '7' => 7,
            '8' => 8,
            '9' => 9,
            _ => {
                proof {
                    assert(!is_digit_char(s@[i as int]));
                }
                return None;
            },
        };
        proof {
            assert(is_digit_char(s@[i as int]));
            assert(digit_val(s@[i as int]) == d as int);
        }
        let ghost prefix = s@.subrange(0, i as int);
        let ghost next_prefix = s@.subrange(0, i as int + 1);
        proof {
            assert(next_prefix.drop_last() =~= prefix);
            assert(next_prefix.last() == s@[i as int]);
            assert(digits_val(next_prefix) == digits_val(prefix) * 10 + d as int);
        }
        let grown = match acc.checked_mul(10) {
            Some(x) => x.checked_add(d),
            None => None,
        };
        match grown {
            Some(x) => {
                acc = x;
            },
            None => {
                proof {
                    if is_digits(s@) {
                        lemma_digits_val_prefix(s@, i as int + 1);
                    }
                }
                return None;
            },
        }
        i = i + 1;
    }
    proof {
        assert(s@.subrange(0, n as int) =~= s@);
    }
    Some(acc)
}

/// Parses a non-empty all-digit string as a `u64`.
pub fn parse_u64(s: &str) -> (r: Option<u64>)
    ensures
        r is Some <==> is_digits(s@) && digits_val(s@) <= u64::MAX as int,
        r matches Some(v) ==> v as int == digits_val(s@),
{
    match parse_u128(s) {
        Some(x) => {
            if x <= u64::MAX as u128 {
                Some(x as u64)
            } else {
                None
            }
        },
        None => None,
    }
}

/// One-character string slice for a digit value.
fn digit_str(d: u64) -> (r: &'static str)
    requires
        d < 10,
    ensures
        r@ =~= seq![digit_char(d as int)],
{
    proof {
        reveal_strlit("0");
        reveal_strlit("1");
        reveal_strlit("2");
        reveal_strlit("3");
        reveal_strlit("4");
        reveal_strlit("5");
        reveal_strlit("6");
        reveal_strlit("7");
        reveal_strlit("8");
        reveal_strlit("9");
    }
    match d {
        0 => "0",
        1 => "1",
        2 => "2",
        3 => "3",
        4 => "4",
        5 => "5",
        6 => "6",
        7 => "7",
        8 => "8",
        _ => "9",
    }
}

/// Renders a number in canonical decimal form.
pub fn render_u64(n: u64) -> (r: String)
    ensures
        r@ == dec_str(n as nat),
{
    if n == 0 {
        let r = String::from_str(digit_str(0));
        assert(r@ =~= dec_str(0));
        return r;
    }
    let mut out = String::new();
    let mut rem = n;
    while rem > 0
        invariant
            rem > 0 ==> dec_str(n as nat) =~= dec_str(rem as nat) + out@,
            rem == 0 ==> out@ =~= dec_str(n as nat),
            n > 0,
        decreases rem,
    {
        let d = rem % 10;
        let ds = digit_str(d);
        let new_out = String::from_str(ds).concat(out.as_str());
        proof {
            if rem < 10 {
                assert(dec_str(rem as nat) =~= seq![digit_char(d as int)]);
                assert(new_out@ =~= dec_str(rem as nat) + out@);
                assert(new_out@ =~= dec_str(n as nat));
            } else {
                assert(dec_str(rem as nat) =~= dec_str((rem / 10) as nat).push(
                    digit_char(d as int),
                ));
                assert(dec_str((rem / 10) as nat).push(digit_char(d as int)) =~= dec_str(
                    (rem / 10) as nat,
                ) + seq![digit_char(d as int)]);
                assert(dec_str(n as nat) =~= dec_str((rem / 10) as nat) + new_out@);
            }
        }
        out = new_out;
        rem = rem / 10;
    }
    out
}

} // verus!

