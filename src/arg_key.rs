use vstd::prelude::*;
use vstd::string::*;

use crate::parse_error::ParseError;

verus! {

/// Whether `s` has the shape of an option key: `-` and exactly one
/// character, or `--` and at least two more characters.
pub open spec fn is_key_shape(s: Seq<char>) -> bool {
    (s.len() >= 4 && s[0] == '-' && s[1] == '-') || (s.len() == 2 && s[0] == '-')
}

/// Whether `c` occurs in `s`.
pub open spec fn has_char(s: Seq<char>, c: char) -> bool {
    exists|i: int| 0 <= i < s.len() && s[i] == c
}

/// The position of the first `c` in `s`, or `s.len()` when there is none.
pub open spec fn first_index_of(s: Seq<char>, c: char) -> int
    decreases s.len(),
{
    if s.len() == 0 {
        0
    } else if s[0] == c {
        0
    } else {
        1 + first_index_of(s.drop_first(), c)
    }
}

/// The key part of an option token: everything before the first `=`.
pub open spec fn key_part(s: Seq<char>) -> Seq<char> {
    s.subrange(0, first_index_of(s, '='))
}

/// The inline value of an option token: everything after the first `=`,
/// when there is one.
pub open spec fn value_part(s: Seq<char>) -> Option<Seq<char>> {
    let i = first_index_of(s, '=');
    if i < s.len() {
        Some(s.subrange(i + 1, s.len() as int))
    } else {
        None
    }
}

pub proof fn lemma_first_index_of(s: Seq<char>, c: char)
    ensures
        0 <= first_index_of(s, c) <= s.len(),
        forall|j: int| 0 <= j < first_index_of(s, c) ==> s[j] != c,
        first_index_of(s, c) < s.len() ==> s[first_index_of(s, c)] == c,
    decreases s.len(),
{
    if s.len() > 0 && s[0] != c {
        lemma_first_index_of(s.drop_first(), c);
        assert forall|j: int| 0 <= j < first_index_of(s, c) implies s[j] != c by {
            if j > 0 {
                assert(s[j] == s.drop_first()[j - 1]);
            }
        }
    }
}

/// Whether `s` is an option token: it has the shape of a key, and so does
/// its part before the first `=`.
pub open spec fn is_option_token(s: Seq<char>) -> bool {
    is_key_shape(s) && is_key_shape(key_part(s))
}

/// An option key as it appears on the command line, such as `-v` or `--name`.
#[derive(Debug)]
pub struct ArgKey {
    pub value: String,
}

impl View for ArgKey {
    type V = Seq<char>;

    open spec fn view(&self) -> Seq<char> {
        self.value@
    }
}

impl Clone for ArgKey {
    fn clone(&self) -> (r: Self)
        ensures
            r@ == self@,
    {
        ArgKey { value: self.value.clone() }
    }
}

impl PartialEq for ArgKey {
    fn eq(&self, other: &ArgKey) -> (r: bool) {
        self.value == other.value
    }
}

impl vstd::std_specs::cmp::PartialEqSpecImpl for ArgKey {
    open spec fn obeys_eq_spec() -> bool {
        true
    }

    open spec fn eq_spec(&self, other: &ArgKey) -> bool {
        self@ == other@
    }
}

impl ArgKey {
    /// Whether this key is the raw string `s`.
    pub fn eq_str(&self, s: &str) -> (r: bool)
        ensures
            r == (self@ == s@),
    {
        crate::arg::str_eq(self.value.as_str(), s)
    }

    /// Whether `k` has the shape of an option key.
    pub fn is_arg_key(k: &str) -> (r: bool)
        ensures
            r == is_key_shape(k@),
    {
        let n = k.unicode_len();
        if n < 2 || n == 3 {
            return false;
        }
        if k.get_char(0) != '-' {
            return false;
        }
        n == 2 || k.get_char(1) == '-'
    }

    /// Builds a key from `k`, which must have the shape of one.
    pub fn make(k: &str) -> (r: Result<ArgKey, ParseError>)
        ensures
            is_key_shape(k@) <==> r.is_ok(),
            r matches Ok(key) ==> key@ == k@,
            r matches Err(e) ==> e.kind == crate::parse_error::ParseErrorKind::NotArgumentKey
                && e.msg@ == k@,
    {
        if Self::is_arg_key(k) {
            Ok(ArgKey { value: String::from_str(k) })
        } else {
            Err(ParseError::not_argument_key(k))
        }
    }

    /// Splits an option token at its first `=` into the key and the inline
    /// value; fails when the token, or its part before the first `=`, does
    /// not have the shape of a key.
    pub fn parse_arg(k: &str) -> (r: Result<(ArgKey, Option<String>), ParseError>)
        ensures
            r.is_ok() <==> is_option_token(k@),
            r matches Ok((key, _)) ==> is_key_shape(key@),
            r matches Ok((key, v)) ==> key@ == key_part(k@) && (match v {
                Some(s) => value_part(k@) == Some(s@),
                None => value_part(k@).is_none(),
            }),
            r matches Err(e) ==> e.kind == crate::parse_error::ParseErrorKind::NotArgumentKey
                && e.msg@ == k@,
    {
        if !Self::is_arg_key(k) {
            return Err(ParseError::not_argument_key(k));
        }
        let n = k.unicode_len();
        let mut i: usize = 0;
        while i < n
            invariant
                n == k@.len(),
                0 <= i <= n,
                forall|j: int| 0 <= j < i ==> k@[j] != '=',
            ensures
                0 <= i <= n,
                forall|j: int| 0 <= j < i ==> k@[j] != '=',
                i < n ==> k@[i as int] == '=',
            decreases n - i,
        {
            if k.get_char(i) == '=' {
                break;
            }
            i = i + 1;
        }
        proof {
            lemma_first_index_of(k@, '=');
            let f = first_index_of(k@, '=');
            if f < i {
                assert(k@[f] == '=');
            }
            if i < n {
                assert(k@[i as int] == '=');
            }
            assert(f == i);
        }
        let kp = k.substring_char(0, i);
        if !Self::is_arg_key(kp) {
            return Err(ParseError::not_argument_key(k));
        }
        let key = ArgKey { value: String::from_str(kp) };
        if i < n {
            Ok((key, Some(String::from_str(k.substring_char(i + 1, n)))))
        } else {
            Ok((key, None))
        }
    }
}

} // verus!
