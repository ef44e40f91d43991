//! Placeholder substitution for configuration templates.
//!
//! A template is a sequence of bytes; a secrets map is an ordered list of
//! key/value pairs. For every key, every literal occurrence of the
//! placeholder token `{{ key }}` (double braces, space padded) is replaced by
//! the key's value, scanning left to right in a single pass per key: the
//! replacement value itself is never rescanned for the same key. Keys that
//! have no occurrence in the template change nothing, and placeholders whose
//! key is not in the map are left verbatim.

use vstd::prelude::*;

verus! {

/// The pattern `p` occurs in `t` at position `i`.
pub open spec fn match_at(t: Seq<u8>, p: Seq<u8>, i: int) -> bool {
    0 <= i && i + p.len() <= t.len() && t.subrange(i, i + p.len()) == p
}

/// The pattern `p` occurs somewhere in `t`.
pub open spec fn contains_pattern(t: Seq<u8>, p: Seq<u8>) -> bool {
    exists|i: int| match_at(t, p, i)
}

/// Replace every occurrence of `p` in `t` by `v`, scanning left to right;
/// the replaced value is not rescanned. An empty pattern replaces nothing.
pub open spec fn replace_all(t: Seq<u8>, p: Seq<u8>, v: Seq<u8>) -> Seq<u8>
    decreases t.len(),
{
    if p.len() == 0 || t.len() < p.len() {
        t
    } else if t.subrange(0, p.len() as int) == p {
        v + replace_all(t.skip(p.len() as int), p, v)
    } else {
        seq![t[0]] + replace_all(t.skip(1), p, v)
    }
}

/// The placeholder token for a key: `{{ key }}`.
pub open spec fn placeholder_seq(key: Seq<u8>) -> Seq<u8> {
    seq![123u8, 123u8, 32u8] + key + seq![32u8, 125u8, 125u8]
}

/// The views of an ordered secrets list: key/value pairs of byte sequences.
pub open spec fn secrets_view(s: Seq<(Vec<u8>, Vec<u8>)>) -> Seq<(Seq<u8>, Seq<u8>)> {
    s.map_values(|kv: (Vec<u8>, Vec<u8>)| (kv.0@, kv.1@))
}

/// Apply the secrets at positions `i..` of the list to `t`, in order.
pub open spec fn substitute_from(t: Seq<u8>, secrets: Seq<(Seq<u8>, Seq<u8>)>, i: int) -> Seq<u8>
    decreases secrets.len() - i,
{
    if i < 0 || i >= secrets.len() {
        t
    } else {
        substitute_from(
            replace_all(t, placeholder_seq(secrets[i].0), secrets[i].1),
            secrets,
            i + 1,
        )
    }
}

/// The full substitution: every key's placeholder replaced by its value,
/// keys applied in list order.
pub open spec fn substitute_seq(t: Seq<u8>, secrets: Seq<(Seq<u8>, Seq<u8>)>) -> Seq<u8> {
    substitute_from(t, secrets, 0)
}

/// Append all bytes of `src` to `dst`.
pub fn push_all(dst: &mut Vec<u8>, src: &Vec<u8>)
    ensures
        final(dst)@ == old(dst)@ + src@,
{
    let mut j: usize = 0;
    while j < src.len()
        invariant
            j <= src@.len(),
            dst@ =~= old(dst)@ + src@.subrange(0, j as int),
        decreases src@.len() - j,
    {
        dst.push(src[j]);
        j = j + 1;
        proof {
            assert(dst@ =~= old(dst)@ + src@.subrange(0, j as int));
        }
    }
    proof {
        assert(src@.subrange(0, src@.len() as int) =~= src@);
        assert(dst@ =~= old(dst)@ + src@);
    }
}

/// Whether `p` occurs in `t` at position `i`.
pub fn is_match_at(t: &Vec<u8>, p: &Vec<u8>, i: usize) -> (b: bool)
    requires
        i <= t@.len(),
    ensures
        b == match_at(t@, p@, i as int),
{
    if t.len() - i < p.len() {
        return false;
    }
    let mut j: usize = 0;
    while j < p.len()
        invariant
            i + p@.len() <= t@.len() <= usize::MAX,
            j <= p@.len(),
            forall|k: int| 0 <= k < j ==> t@[i + k] == p@[k],
        decreases p@.len() - j,
    {
        if t[i + j] != p[j] {
            proof {
                assert(match_at(t@, p@, i as int) ==> t@.subrange(
                    i as int,
                    i + p@.len(),
                )[j as int] == p@[j as int]);
                assert(t@.subrange(i as int, i + p@.len())[j as int] == t@[i + j]);
            }
            return false;
        }
        j = j + 1;
    }
    proof {
        assert(t@.subrange(i as int, i + p@.len()) =~= p@);
    }
    true
}

/// Replace every occurrence of the non-empty pattern `p` in `t` by `v`,
/// scanning left to right without rescanning replaced values.
pub fn replace_bytes(t: &Vec<u8>, p: &Vec<u8>, v: &Vec<u8>) -> (r: Vec<u8>)
    requires
        p@.len() > 0,
    ensures
        r@ == replace_all(t@, p@, v@),
{
    let mut r: Vec<u8> = Vec::new();
    let mut i: usize = 0;
    proof {
        assert(t@.skip(0) =~= t@);
        assert(Seq::<u8>::empty() + replace_all(t@, p@, v@) =~= replace_all(t@, p@, v@));
    }
    while i < t.len()
        invariant
            i <= t@.len(),
            p@.len() > 0,
            replace_all(t@, p@, v@) == r@ + replace_all(t@.skip(i as int), p@, v@),
        decreases t@.len() - i,
    {
        let ghost prev = i as int;
        if is_match_at(t, p, i) {
            push_all(&mut r, v);
            i = i + p.len();
            proof {
                assert(t@.skip(prev).subrange(0, p@.len() as int) =~= t@.subrange(
                    prev,
                    prev + p@.len(),
                ));
                assert(t@.skip(prev).subrange(0, p@.len() as int) == p@);
                assert(t@.skip(prev).skip(p@.len() as int) =~= t@.skip(i as int));
                assert(replace_all(t@.skip(prev), p@, v@) == v@ + replace_all(
                    t@.skip(i as int),
                    p@,
                    v@,
                ));
                assert(replace_all(t@, p@, v@) =~= r@ + replace_all(t@.skip(i as int), p@, v@));
            }
        } else {
            r.push(t[i]);
            i = i + 1;
            proof {
                let rest = t@.skip(prev);
                if rest.len() < p@.len() {
                    // both tails are below the pattern length, so both are left as they are
                    assert(replace_all(rest, p@, v@) == rest);
                    assert(replace_all(t@.skip(i as int), p@, v@) == t@.skip(i as int));
                    assert(rest =~= seq![t@[prev]] + t@.skip(i as int));
                } else {
                    assert(rest.subrange(0, p@.len() as int) =~= t@.subrange(
                        prev,
                        prev + p@.len(),
                    ));
                    assert(rest.subrange(0, p@.len() as int) != p@);
                    assert(rest.skip(1) =~= t@.skip(i as int));
                    assert(rest[0] == t@[prev]);
                    assert(replace_all(rest, p@, v@) == seq![t@[prev]] + replace_all(
                        t@.skip(i as int),
                        p@,
                        v@,
                    ));
                }
                assert(replace_all(t@, p@, v@) =~= r@ + replace_all(t@.skip(i as int), p@, v@));
            }
        }
    }
    proof {
        assert(t@.skip(t@.len() as int) =~= Seq::<u8>::empty());
        assert(replace_all(t@.skip(t@.len() as int), p@, v@) == Seq::<u8>::empty());
        assert(r@ =~= replace_all(t@, p@, v@));
    }
    r
}

/// Build the placeholder token `{{ key }}` for a key.
pub fn placeholder_bytes(key: &Vec<u8>) -> (r: Vec<u8>)
    ensures
        r@ == placeholder_seq(key@),
        r@.len() == key@.len() + 6,
{
    let mut r: Vec<u8> = Vec::new();
    r.push(123u8);
    r.push(123u8);
    r.push(32u8);
    push_all(&mut r, key);
    r.push(32u8);
    r.push(125u8);
    r.push(125u8);
    proof {
        assert(r@ =~= placeholder_seq(key@));
    }
    r
}

/// Substitute every secret into the template: for each key in list order,
/// every occurrence of `{{ key }}` is replaced by the key's value.
pub fn substitute_secrets(content: &Vec<u8>, secrets: &Vec<(Vec<u8>, Vec<u8>)>) -> (r: Vec<u8>)
    ensures
        r@ == substitute_seq(content@, secrets_view(secrets@)),
{
    let mut cur: Vec<u8> = Vec::new();
    push_all(&mut cur, content);
    proof {
        assert(cur@ =~= content@);
    }
    let ghost sv = secrets_view(secrets@);
    let mut idx: usize = 0;
    while idx < secrets.len()
        invariant
            idx <= secrets@.len(),
            sv == secrets_view(secrets@),
            substitute_seq(content@, sv) == substitute_from(cur@, sv, idx as int),
        decreases secrets@.len() - idx,
    {
        let ph = placeholder_bytes(&secrets[idx].0);
        proof {
            assert(sv[idx as int] == (secrets@[idx as int].0@, secrets@[idx as int].1@));
        }
        cur = replace_bytes(&cur, &ph, &secrets[idx].1);
        idx = idx + 1;
    }
    cur
}

/// Replacing a pattern that occurs nowhere in the text changes nothing.
pub proof fn lemma_replace_absent(t: Seq<u8>, p: Seq<u8>, v: Seq<u8>)
    requires
        p.len() > 0,
        !contains_pattern(t, p),
    ensures
        replace_all(t, p, v) == t,
    decreases t.len(),
{
    if t.len() >= p.len() {
        assert(!match_at(t, p, 0));
        assert(t.subrange(0, p.len() as int) != p);
        assert forall|i: int| !match_at(t.skip(1), p, i) by {
            if match_at(t.skip(1), p, i) {
                assert(t.skip(1).subrange(i, i + p.len()) =~= t.subrange(i + 1, i + 1 + p.len()));
                assert(match_at(t, p, i + 1));
            }
        }
        lemma_replace_absent(t.skip(1), p, v);
        assert(replace_all(t, p, v) =~= t);
    }
}

/// Substituting an empty secrets map is the identity: the output is
/// byte-identical to the input template.
pub proof fn lemma_substitute_empty(t: Seq<u8>)
    ensures
        substitute_seq(t, Seq::<(Seq<u8>, Seq<u8>)>::empty()) == t,
{
}

/// Helper for the identity law: if no key at positions `i..` has its
/// placeholder in the text, applying those keys changes nothing.
proof fn lemma_substitute_from_no_placeholders(t: Seq<u8>, secrets: Seq<(Seq<u8>, Seq<u8>)>, i: int)
    requires
        forall|j: int|
            i <= j < secrets.len() ==> !contains_pattern(t, placeholder_seq(#[trigger] secrets[j].0)),
    ensures
        substitute_from(t, secrets, i) == t,
    decreases secrets.len() - i,
{
    if 0 <= i < secrets.len() {
        lemma_replace_absent(t, placeholder_seq(secrets[i].0), secrets[i].1);
        lemma_substitute_from_no_placeholders(t, secrets, i + 1);
    }
}

/// Substitution is the identity on templates holding none of the map's
/// placeholders: the output is byte-identical to the input.
pub proof fn lemma_substitute_no_placeholders(t: Seq<u8>, secrets: Seq<(Seq<u8>, Seq<u8>)>)
    requires
        forall|j: int|
            0 <= j < secrets.len() ==> !contains_pattern(t, placeholder_seq(#[trigger] secrets[j].0)),
    ensures
        substitute_seq(t, secrets) == t,
{
    lemma_substitute_from_no_placeholders(t, secrets, 0);
}

/// Replacement is determined by the first occurrence: the text up to it is
/// kept, the value is put in its place, and replacement continues after it.
pub proof fn lemma_replace_first_match(t: Seq<u8>, p: Seq<u8>, v: Seq<u8>, i: int)
    requires
        p.len() > 0,
        match_at(t, p, i),
        forall|j: int| 0 <= j < i ==> !match_at(t, p, j),
    ensures
        replace_all(t, p, v) == t.subrange(0, i) + v + replace_all(t.skip(i + p.len()), p, v),
    decreases i,
{
    if i == 0 {
        assert(t.subrange(0, p.len() as int) == p);
        assert(replace_all(t, p, v) == v + replace_all(t.skip(p.len() as int), p, v));
        assert(t.subrange(0, 0) =~= Seq::<u8>::empty());
        assert(t.subrange(0, 0) + v + replace_all(t.skip(p.len() as int), p, v) =~= v
            + replace_all(t.skip(p.len() as int), p, v));
    } else {
        assert(t.len() >= p.len());
        assert(!match_at(t, p, 0));
        assert(t.subrange(0, p.len() as int) != p);
        let rest = t.skip(1);
        assert(rest.subrange(i - 1, i - 1 + p.len()) =~= t.subrange(i, i + p.len()));
        assert(match_at(rest, p, i - 1));
        assert forall|j: int| 0 <= j < i - 1 implies !match_at(rest, p, j) by {
            if match_at(rest, p, j) {
                assert(rest.subrange(j, j + p.len()) =~= t.subrange(j + 1, j + 1 + p.len()));
                assert(match_at(t, p, j + 1));
            }
        }
        lemma_replace_first_match(rest, p, v, i - 1);
        assert(rest.skip(i - 1 + p.len()) =~= t.skip(i + p.len()));
        assert(seq![t[0]] + rest.subrange(0, i - 1) =~= t.subrange(0, i));
        assert(replace_all(t, p, v) == seq![t[0]] + (rest.subrange(0, i - 1) + v + replace_all(
            t.skip(i + p.len()),
            p,
            v,
        )));
        assert(seq![t[0]] + (rest.subrange(0, i - 1) + v + replace_all(t.skip(i + p.len()), p, v))
            =~= t.subrange(0, i) + v + replace_all(t.skip(i + p.len()), p, v));
    }
}

/// The round trip for one key: in a template `a + {{ key }} + b` whose first
/// occurrence of the placeholder is the one shown and whose tail `b` holds no
/// further occurrence, replacement yields exactly `a + value + b`: the value
/// stands at the placeholder's position and that placeholder is gone.
pub proof fn lemma_substitution_round_trip(a: Seq<u8>, key: Seq<u8>, b: Seq<u8>, v: Seq<u8>)
    requires
        forall|j: int|
            0 <= j < a.len() ==> !match_at(
                a + placeholder_seq(key) + b,
                placeholder_seq(key),
                j,
            ),
        !contains_pattern(b, placeholder_seq(key)),
    ensures
        replace_all(a + placeholder_seq(key) + b, placeholder_seq(key), v) == a + v + b,
{
    let p = placeholder_seq(key);
    let t = a + p + b;
    assert(t.subrange(a.len() as int, (a.len() + p.len()) as int) =~= p);
    assert(match_at(t, p, a.len() as int));
    lemma_replace_first_match(t, p, v, a.len() as int);
    assert(t.skip((a.len() + p.len()) as int) =~= b);
    lemma_replace_absent(b, p, v);
    assert(t.subrange(0, a.len() as int) =~= a);
    assert(t.subrange(0, a.len() as int) + v + replace_all(t.skip((a.len() + p.len()) as int), p, v) =~= a
        + v + b);
}

/// A placeholder whose key is not in the secrets map is left verbatim when
/// no key of the map occurs in the template.
pub proof fn lemma_unmatched_placeholder_verbatim(
    t: Seq<u8>,
    secrets: Seq<(Seq<u8>, Seq<u8>)>,
    unknown_key: Seq<u8>,
)
    requires
        forall|j: int|
            0 <= j < secrets.len() ==> !contains_pattern(t, placeholder_seq(#[trigger] secrets[j].0)),
        contains_pattern(t, placeholder_seq(unknown_key)),
    ensures
        contains_pattern(substitute_seq(t, secrets), placeholder_seq(unknown_key)),
{
    lemma_substitute_no_placeholders(t, secrets);
}

} // verus!
