use vstd::prelude::*;
use vstd::string::*;

use crate::arg_key::{first_index_of, lemma_first_index_of};
use crate::decimal::{decimal, dec_of};
use crate::parse_error::{ParseError, ParseErrorKind};

verus! {

/// A version number: major, minor and patch.
#[derive(Debug, Default, Clone, Copy, PartialEq, Eq, Structural)]
pub struct AppVersion {
    pub major: u32,
    pub minor: u32,
    pub patch: u32,
}

/// The order of versions: by major, then minor, then patch.
pub open spec fn version_cmp(a: AppVersion, b: AppVersion) -> core::cmp::Ordering {
    if a.major > b.major || a.major == b.major && a.minor > b.minor
        || a.major == b.major && a.minor == b.minor && a.patch > b.patch {
        core::cmp::Ordering::Greater
    } else if a.major == b.major && a.minor == b.minor && a.patch == b.patch {
        core::cmp::Ordering::Equal
    } else {
        core::cmp::Ordering::Less
    }
}

impl PartialOrd for AppVersion {
    fn partial_cmp(&self, other: &Self) -> (r: Option<core::cmp::Ordering>) {
        if self.major > other.major || self.major == other.major && self.minor > other.minor
            || self.major == other.major && self.minor == other.minor && self.patch > other.patch {
            Some(core::cmp::Ordering::Greater)
        } else if self.major == other.major && self.minor == other.minor && self.patch == other.patch {
            Some(core::cmp::Ordering::Equal)
        } else {
            Some(core::cmp::Ordering::Less)
        }
    }
}

impl vstd::std_specs::cmp::PartialOrdSpecImpl for AppVersion {
    open spec fn obeys_partial_cmp_spec() -> bool {
        true
    }

    open spec fn partial_cmp_spec(&self, other: &AppVersion) -> Option<core::cmp::Ordering> {
        Some(version_cmp(*self, *other))
    }
}

pub open spec fn is_digit(c: char) -> bool {
    '0' <= c && c <= '9'
}

/// The number that the decimal digits `s` denote.
pub open spec fn digits_value(s: Seq<char>) -> nat
    decreases s.len(),
{
    if s.len() == 0 {
        0
    } else {
        digits_value(s.drop_last()) * 10 + ((s.last() as u32) - ('0' as u32)) as nat
    }
}

/// The digits of a number as `u32` parsing reads them: an optional `+`,
/// then the digits.
pub open spec fn unsigned_digits(s: Seq<char>) -> Seq<char> {
    if s.len() > 0 && s[0] == '+' {
        s.drop_first()
    } else {
        s
    }
}

/// The `u32` that `s` denotes, if it is one: one or more decimal digits,
/// after an optional `+`, of a value that fits.
pub open spec fn u32_of(s: Seq<char>) -> Option<u32> {
    let d = unsigned_digits(s);
    if d.len() > 0 && (forall|i: int| 0 <= i < d.len() ==> is_digit(#[trigger] d[i]))
        && digits_value(d) <= u32::MAX {
        Some(digits_value(d) as u32)
    } else {
        None
    }
}

/// The first three `.`-separated fields of `s`, if it has that many.
pub open spec fn version_fields(s: Seq<char>) -> Option<(Seq<char>, Seq<char>, Seq<char>)> {
    let d1 = first_index_of(s, '.');
    let s1 = s.subrange(d1 + 1, s.len() as int);
    let d2 = first_index_of(s1, '.');
    let s2 = s1.subrange(d2 + 1, s1.len() as int);
    let d3 = first_index_of(s2, '.');
    if d1 >= s.len() || d2 >= s1.len() {
        None
    } else {
        Some((s.subrange(0, d1), s1.subrange(0, d2), s2.subrange(0, d3)))
    }
}

/// The version that `s` denotes: three `.`-separated numbers (further
/// fields are not read).
pub open spec fn version_of(s: Seq<char>) -> Option<AppVersion> {
    match version_fields(s) {
        None => None,
        Some((a, b, c)) => match (u32_of(a), u32_of(b), u32_of(c)) {
            (Some(major), Some(minor), Some(patch)) => Some(AppVersion { major, minor, patch }),
            _ => None,
        },
    }
}

proof fn lemma_digits_value_grows(s: Seq<char>, i: int)
    requires
        0 <= i <= s.len(),
    ensures
        digits_value(s.subrange(0, i)) <= digits_value(s),
    decreases s.len() - i,
{
    if i < s.len() {
        lemma_digits_value_grows(s, i + 1);
        assert(s.subrange(0, i + 1).drop_last() =~= s.subrange(0, i));
        let v = digits_value(s.subrange(0, i));
        assert(v <= v * 10) by (nonlinear_arith);
    } else {
        assert(s.subrange(0, i) =~= s);
    }
}

fn parse_u32(s: &str) -> (r: Option<u32>)
    ensures
        r == u32_of(s@),
{
    let n = s.unicode_len();
    let start: usize = if n > 0 && s.get_char(0) == '+' {
        1
    } else {
        0
    };
    let ghost d = unsigned_digits(s@);
    proof {
        assert(d =~= s@.subrange(start as int, n as int));
    }
    if start == n {
        return None;
    }
    let mut acc: u64 = 0;
    let mut i: usize = start;
    while i < n
        invariant
            n == s@.len(),
            start <= i <= n,
            start < n,
            d == s@.subrange(start as int, n as int),
            d == unsigned_digits(s@),
            acc == digits_value(d.subrange(0, i - start)),
            acc <= u32::MAX,
            forall|j: int| 0 <= j < i - start ==> is_digit(#[trigger] d[j]),
        decreases n - i,
    {
        let c = s.get_char(i);
        proof {
            assert(d[i - start] == c);
        }
        if c < '0' || c > '9' {
            proof {
                assert(!is_digit(d[i - start]));
                assert(!(forall|j: int| 0 <= j < d.len() ==> is_digit(#[trigger] d[j])));
            }
            return None;
        }
        proof {
            assert(d.subrange(0, i - start + 1).drop_last() =~= d.subrange(0, i - start));
            assert(d.subrange(0, i - start + 1).last() == c);
        }
        acc = acc * 10 + (c as u64 - '0' as u64);
        proof {
            assert(acc == digits_value(d.subrange(0, i - start + 1)));
        }
        if acc > u32::MAX as u64 {
            proof {
                lemma_digits_value_grows(d, i - start + 1);
            }
            return None;
        }
        i = i + 1;
    }
    proof {
        assert(d.subrange(0, n - start) =~= d);
    }
    Some(acc as u32)
}

/// The position of the first `c` in `s`, or its length.
fn find_char(s: &str, c: char) -> (r: usize)
    ensures
        r == first_index_of(s@, c),
        r <= s@.len(),
{
    proof {
        lemma_first_index_of(s@, c);
    }
    let n = s.unicode_len();
    let mut i: usize = 0;
    while i < n
        invariant
            n == s@.len(),
            0 <= i <= n,
            forall|j: int| 0 <= j < i ==> s@[j] != c,
            0 <= first_index_of(s@, c) <= s@.len(),
            forall|j: int| 0 <= j < first_index_of(s@, c) ==> s@[j] != c,
            first_index_of(s@, c) < s@.len() ==> s@[first_index_of(s@, c)] == c,
        decreases n - i,
    {
        if s.get_char(i) == c {
            proof {
                let f = first_index_of(s@, c);
                if f < i {
                    assert(s@[f] == c);
                }
            }
            return i;
        }
        i = i + 1;
    }
    n
}

impl AppVersion {
    pub fn new(major: u32, minor: u32, patch: u32) -> (r: Self)
        ensures
            r == (AppVersion { major, minor, patch }),
    {
        AppVersion { major, minor, patch }
    }

    /// Reads a version written `major.minor.patch`.
    pub fn parse(v: &str) -> (r: Result<AppVersion, ParseError>)
        ensures
            version_of(v@) matches Some(ver) ==> r == Ok::<AppVersion, ParseError>(ver),
            version_of(v@) is None ==> (r matches Err(e) && e.kind == ParseErrorKind::InvalidValue && e.msg@ == v@),
    {
        let n = v.unicode_len();
        let d1 = find_char(v, '.');
        if d1 >= n {
            return Err(ParseError::invalid_value(v));
        }
        let s1 = v.substring_char(d1 + 1, n);
        let n1 = s1.unicode_len();
        let d2 = find_char(s1, '.');
        if d2 >= n1 {
            return Err(ParseError::invalid_value(v));
        }
        let s2 = s1.substring_char(d2 + 1, n1);
        let d3 = find_char(s2, '.');
        let major = parse_u32(v.substring_char(0, d1));
        let minor = parse_u32(s1.substring_char(0, d2));
        let patch = parse_u32(s2.substring_char(0, d3));
        match (major, minor, patch) {
            (Some(major), Some(minor), Some(patch)) => Ok(AppVersion { major, minor, patch }),
            _ => Err(ParseError::invalid_value(v)),
        }
    }

    /// The version written `major.minor.patch`.
    pub open spec fn to_text_spec(&self) -> Seq<char> {
        dec_of(self.major as nat) + "."@ + dec_of(self.minor as nat) + "."@ + dec_of(self.patch as nat)
    }

    /// The version written `major.minor.patch`.
    pub fn to_text(&self) -> (r: String)
        ensures
            r@ == self.to_text_spec(),
    {
        decimal(self.major as u64).concat(".").concat(decimal(self.minor as u64).as_str()).concat(".").concat(
            decimal(self.patch as u64).as_str(),
        )
    }
}

} // verus!
