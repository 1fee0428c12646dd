//! The composite identifier `<repo-id>/<native-id>` that names one task
//! across all backends.

use vstd::prelude::*;
use vstd::string::*;
use crate::error::TaskError;
use crate::text::{
    chars_of, decimal, find_first, first_index_of, lemma_first_index_of, lemma_first_index_unique,
};

verus! {

/// The characters an identifier segment is made of: ASCII letters, digits,
/// `_` and `-`.
pub open spec fn is_id_char(c: char) -> bool {
    ('A' <= c && c <= 'Z') || ('a' <= c && c <= 'z') || ('0' <= c && c <= '9') || c == '_' || c
        == '-'
}

/// A segment is valid when it is not empty and holds identifier characters
/// only.
pub open spec fn valid_segment(s: Seq<char>) -> bool {
    s.len() > 0 && forall|k: int| 0 <= k < s.len() ==> is_id_char(#[trigger] s[k])
}

/// The string form of the pair `(repo_id, native_id)`.
pub open spec fn encoded(repo_id: Seq<char>, native_id: Seq<char>) -> Seq<char> {
    repo_id + seq!['/'] + native_id
}

/// The pair that the reference `s` names: `s` split at its first `/`, where
/// both sides are valid segments.
pub open spec fn decoded(s: Seq<char>) -> Option<(Seq<char>, Seq<char>)> {
    let i = first_index_of(s, '/');
    if i < s.len() && valid_segment(s.take(i)) && valid_segment(s.skip(i + 1)) {
        Some((s.take(i), s.skip(i + 1)))
    } else {
        None
    }
}

/// Decoding undoes encoding: a pair of valid segments comes back unchanged
/// from its string form.
pub proof fn lemma_decode_encode(repo_id: Seq<char>, native_id: Seq<char>)
    requires
        valid_segment(repo_id),
        valid_segment(native_id),
    ensures
        decoded(encoded(repo_id, native_id)) == Some((repo_id, native_id)),
{
    let s = encoded(repo_id, native_id);
    let i = repo_id.len() as int;
    assert forall|k: int| 0 <= k < i implies s[k] != '/' by {
        assert(s[k] == repo_id[k]);
        assert(is_id_char(repo_id[k]));
    }
    assert(s[i] == '/');
    lemma_first_index_unique(s, '/', i);
    assert(s.take(i) =~= repo_id);
    assert(s.skip(i + 1) =~= native_id);
}

/// Encoding undoes decoding: a reference that decodes is the string form of
/// the pair it decodes to.
pub proof fn lemma_encode_decode(s: Seq<char>)
    requires
        decoded(s) is Some,
    ensures
        decoded(s) matches Some(pair) && encoded(pair.0, pair.1) == s,
{
    lemma_first_index_of(s, '/');
    let i = first_index_of(s, '/');
    assert(s.take(i) + seq!['/'] + s.skip(i + 1) =~= s);
}

/// Joins a repository id and a native issue id into one task reference.
pub fn encode(repo_id: &str, native_id: &str) -> (s: String)
    ensures
        s@ == encoded(repo_id@, native_id@),
{
    proof {
        reveal_strlit("/");
    }
    let mut s = String::from_str(repo_id);
    s.append("/");
    s.append(native_id);
    assert("/"@ =~= seq!['/']);
    s
}

/// Whether `c` may stand in an identifier segment.
pub fn id_char(c: char) -> (r: bool)
    ensures
        r == is_id_char(c),
{
    ('A' <= c && c <= 'Z') || ('a' <= c && c <= 'z') || ('0' <= c && c <= '9') || c == '_' || c
        == '-'
}

/// Whether the characters of `v` from `from` up to `to` form a valid
/// segment.
fn segment_is_valid(v: &Vec<char>, from: usize, to: usize) -> (r: bool)
    requires
        from <= to <= v.len(),
    ensures
        r == valid_segment(v@.subrange(from as int, to as int)),
{
    if from == to {
        return false;
    }
    let ghost seg = v@.subrange(from as int, to as int);
    let mut i: usize = from;
    while i < to
        invariant
            from <= i <= to <= v.len(),
            seg == v@.subrange(from as int, to as int),
            forall|k: int| 0 <= k < i - from ==> is_id_char(#[trigger] seg[k]),
        decreases to - i,
    {
        if !id_char(v[i]) {
            assert(seg[i - from] == v[i as int]);
            return false;
        }
        assert(seg[i - from] == v[i as int]);
        i = i + 1;
    }
    true
}

/// Splits a task reference into its repository id and its native issue id.
///
/// Succeeds exactly on the references of the form `<repo-id>/<native-id>`
/// with both parts valid segments; whether the repository id is configured
/// is not looked at.
pub fn decode(s: &str) -> (r: Result<(String, String), TaskError>)
    ensures
        match r {
            Ok(pair) => decoded(s@) == Some((pair.0@, pair.1@)),
            Err(e) => decoded(s@) is None && e is InvalidIdentifierFormat,
        },
{
    let v = chars_of(s);
    let i = find_first(&v, '/');
    proof {
        lemma_first_index_of(v@, '/');
    }
    if i < v.len() && segment_is_valid(&v, 0, i) && segment_is_valid(&v, i + 1, v.len()) {
        assert(v@.subrange(0, i as int) == s@.take(i as int));
        assert(v@.subrange(i + 1, v.len() as int) == s@.skip(i + 1));
        let repo_id = String::from_str(s.substring_char(0, i));
        let native_id = String::from_str(s.substring_char(i + 1, v.len()));
        Ok((repo_id, native_id))
    } else {
        proof {
            if i < v.len() {
                assert(v@.subrange(0, i as int) == s@.take(i as int));
                assert(v@.subrange(i + 1, v.len() as int) == s@.skip(i + 1));
            }
        }
        Err(TaskError::InvalidIdentifierFormat)
    }
}

/// A decimal numeral is a valid segment, so the number of an issue can
/// stand as the native id of a task reference.
pub proof fn lemma_decimal_is_valid_segment(n: nat)
    ensures
        valid_segment(decimal(n)),
    decreases n,
{
    if n >= 10 {
        lemma_decimal_is_valid_segment(n / 10);
        let d = decimal(n);
        assert forall|k: int| 0 <= k < d.len() implies is_id_char(#[trigger] d[k]) by {
            if k < d.len() - 1 {
                assert(d[k] == decimal(n / 10)[k]);
            }
        }
    }
}

} // verus!
