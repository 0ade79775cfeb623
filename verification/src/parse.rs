use vstd::prelude::*;

use crate::ValidationError;

verus! {

/// One decomposed `key=value` command-line argument. The key never holds
/// an `=`; the value may, and may be empty.
#[derive(Debug, PartialEq, Eq)]
pub struct KeyValue {
    pub key: String,
    pub value: String,
}

impl KeyValue {
    /// A well-formed pair came from a first-`=` split, so its key holds
    /// no `=` character.
    pub open spec fn wf(self) -> bool {
        forall|j: int| 0 <= j < self.key@.len() ==> self.key@[j] != '='
    }
}

/// Whether `s` holds an `=` character.
pub open spec fn has_eq(s: Seq<char>) -> bool {
    exists|i: int| 0 <= i < s.len() && s[i] == '='
}

/// The position of the first `=` in `s`; `s.len()` when there is none.
pub open spec fn first_eq_idx(s: Seq<char>) -> int
    decreases s.len(),
{
    if s.len() == 0 {
        0
    } else if s[0] == '=' {
        0
    } else {
        1 + first_eq_idx(s.subrange(1, s.len() as int))
    }
}

/// `first_eq_idx` points at the first `=` of `s`, or just past the end
/// when `s` has none.
pub proof fn lemma_first_eq_idx(s: Seq<char>)
    ensures
        0 <= first_eq_idx(s) <= s.len(),
        first_eq_idx(s) < s.len() ==> s[first_eq_idx(s)] == '=',
        forall|j: int| 0 <= j < first_eq_idx(s) ==> s[j] != '=',
        has_eq(s) <==> first_eq_idx(s) < s.len(),
    decreases s.len(),
{
    if s.len() == 0 {
    } else if s[0] == '=' {
    } else {
        let t = s.subrange(1, s.len() as int);
        lemma_first_eq_idx(t);
        assert forall|j: int| 0 <= j < first_eq_idx(s) implies s[j] != '=' by {
            if j > 0 {
                assert(t[j - 1] != '=');
            }
        }
        if has_eq(s) {
            let i = choose|i: int| 0 <= i < s.len() && s[i] == '=';
            assert(i > 0);
            assert(t[i - 1] == '=');
            assert(has_eq(t));
        }
        if has_eq(t) {
            let i = choose|i: int| 0 <= i < t.len() && t[i] == '=';
            assert(s[i + 1] == '=');
        }
    }
}

/// The key part of a raw argument: everything before the first `=`.
pub open spec fn key_of(s: Seq<char>) -> Seq<char> {
    s.subrange(0, first_eq_idx(s))
}

/// The value part of a raw argument: everything after the first `=`,
/// further `=` characters included.
pub open spec fn value_of(s: Seq<char>) -> Seq<char> {
    s.subrange(first_eq_idx(s) + 1, s.len() as int)
}

/// Split `s` at its first `=` into a key/value pair; a string without
/// `=` is rejected. No trimming, and an empty value is accepted.
pub fn parse_key_value(s: &str) -> (r: Result<KeyValue, ValidationError>)
    ensures
        r is Ok <==> has_eq(s@),
        r matches Ok(kv) ==> kv.key@ == key_of(s@) && kv.value@ == value_of(s@) && kv.wf(),
        r matches Err(e) ==> e matches ValidationError::MalformedKeyValue(orig) && orig@ == s@,
{
    proof {
        lemma_first_eq_idx(s@);
    }
    let n = s.unicode_len();
    let mut i: usize = 0;
    while i < n
        invariant
            n == s@.len(),
            i <= n,
            forall|j: int| 0 <= j < i ==> s@[j] != '=',
        decreases n - i,
    {
        if s.get_char(i) == '=' {
            proof {
                lemma_first_eq_idx(s@);
                assert(first_eq_idx(s@) == i) by {
                    assert(s@[i as int] == '=');
                    if first_eq_idx(s@) < i {
                        assert(s@[first_eq_idx(s@)] != '=');
                    }
                }
            }
            let key = String::from_str(s.substring_char(0, i));
            let value = String::from_str(s.substring_char(i + 1, n));
            let kv = KeyValue { key, value };
            proof {
                assert forall|j: int| 0 <= j < kv.key@.len() implies kv.key@[j] != '=' by {
                    assert(kv.key@[j] == s@[j]);
                }
            }
            return Ok(kv);
        }
        i += 1;
    }
    Err(ValidationError::MalformedKeyValue(String::from_str(s)))
}

/// Whether `url::Url::parse` accepts `s` as an absolute URL. The outcome
/// depends on `s` alone.
pub uninterp spec fn url_parse_ok(s: Seq<char>) -> bool;

/// Relies on url::Url::parse: it accepts exactly the syntactically valid
/// absolute URLs (a scheme is required; a relative reference fails), and
/// its outcome is a function of the input string alone.
#[verifier::external_body]
fn url_accepts(s: &str) -> (b: bool)
    ensures
        b == url_parse_ok(s@),
{
    url::Url::parse(s).is_ok()
}

/// Validate `s` as an absolute URL. On success the original string comes
/// back unchanged (no normalization); on failure the error carries it.
pub fn parse_url(s: &str) -> (r: Result<String, ValidationError>)
    ensures
        r is Ok <==> url_parse_ok(s@),
        r matches Ok(out) ==> out@ == s@,
        r matches Err(e) ==> e matches ValidationError::MalformedUrl(orig) && orig@ == s@,
{
    if url_accepts(s) {
        Ok(String::from_str(s))
    } else {
        Err(ValidationError::MalformedUrl(String::from_str(s)))
    }
}

} // verus!
