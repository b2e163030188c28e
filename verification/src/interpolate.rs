//! Secret interpolation: every occurrence of each secret's key in the
//! configuration text is literally replaced with the secret's value before
//! the text is parsed.  The text is handled as bytes.

use vstd::prelude::*;

verus! {

/// The pattern `p` occurs in `t` at position `i`.
pub open spec fn occurs_at(t: Seq<u8>, p: Seq<u8>, i: int) -> bool {
    0 <= i && i + p.len() <= t.len() && t.subrange(i, i + p.len() as int) == p
}

/// The pattern `p` occurs somewhere in `t`.
pub open spec fn contains_pattern(t: Seq<u8>, p: Seq<u8>) -> bool {
    exists|i: int| occurs_at(t, p, i)
}

/// `t` with every occurrence of `p` replaced by `v`, scanning left to
/// right and never rescanning replaced text.
pub open spec fn spec_replace(t: Seq<u8>, p: Seq<u8>, v: Seq<u8>) -> Seq<u8>
    recommends
        p.len() > 0,
    decreases t.len(),
{
    if p.len() == 0 || t.len() < p.len() {
        t
    } else if t.subrange(0, p.len() as int) == p {
        v + spec_replace(t.skip(p.len() as int), p, v)
    } else {
        seq![t[0]] + spec_replace(t.skip(1), p, v)
    }
}

/// As `spec_replace`, with an empty key ignored rather than matched
/// everywhere.
pub open spec fn spec_replace_checked(t: Seq<u8>, p: Seq<u8>, v: Seq<u8>) -> Seq<u8> {
    if p.len() == 0 {
        t
    } else {
        spec_replace(t, p, v)
    }
}

/// `t` after substituting each secret in turn: key replaced by value, in
/// list order.
pub open spec fn spec_interpolate(t: Seq<u8>, secrets: Seq<(Vec<u8>, Vec<u8>)>) -> Seq<u8>
    decreases secrets.len(),
{
    if secrets.len() == 0 {
        t
    } else {
        spec_interpolate(
            spec_replace_checked(t, secrets[0].0@, secrets[0].1@),
            secrets.drop_first(),
        )
    }
}

/// Replacement is the identity on text in which the pattern never occurs.
pub proof fn lemma_replace_absent(t: Seq<u8>, p: Seq<u8>, v: Seq<u8>)
    requires
        p.len() > 0,
        !contains_pattern(t, p),
    ensures
        spec_replace(t, p, v) == t,
    decreases t.len(),
{
    if t.len() >= p.len() {
        assert(!occurs_at(t, p, 0));
        assert forall|i: int| !occurs_at(t.skip(1), p, i) by {
            if occurs_at(t.skip(1), p, i) {
                assert(t.subrange(i + 1, i + 1 + p.len() as int) =~= t.skip(1).subrange(
                    i,
                    i + p.len() as int,
                ));
                assert(occurs_at(t, p, i + 1));
            }
        }
        lemma_replace_absent(t.skip(1), p, v);
        assert(seq![t[0]] + t.skip(1) =~= t);
    }
}

/// Secret interpolation is a fixed point on text that holds no occurrence
/// of any key: substituted text is left exactly as it is.
pub proof fn lemma_interpolate_fixed_point(t: Seq<u8>, secrets: Seq<(Vec<u8>, Vec<u8>)>)
    requires
        forall|i: int| 0 <= i < secrets.len() ==> !contains_pattern(t, (#[trigger] secrets[i]).0@),
    ensures
        spec_interpolate(t, secrets) == t,
    decreases secrets.len(),
{
    if secrets.len() > 0 {
        if secrets[0].0@.len() > 0 {
            lemma_replace_absent(t, secrets[0].0@, secrets[0].1@);
        }
        assert(spec_replace_checked(t, secrets[0].0@, secrets[0].1@) == t);
        assert forall|i: int|
            0 <= i < secrets.drop_first().len() implies !contains_pattern(
            t,
            (#[trigger] secrets.drop_first()[i]).0@,
        ) by {
            assert(secrets.drop_first()[i] == secrets[i + 1]);
        }
        lemma_interpolate_fixed_point(t, secrets.drop_first());
    }
}

/// Decides whether `p` occurs in `t` at position `i`.
fn matches_at(t: &Vec<u8>, p: &Vec<u8>, i: usize) -> (r: bool)
    requires
        i + p@.len() <= t@.len(),
    ensures
        r == (t@.subrange(i as int, i + p@.len()) == p@),
{
    let tlen = t.len();
    let mut j: usize = 0;
    while j < p.len()
        invariant
            tlen == t@.len(),
            i + p@.len() <= t@.len(),
            j <= p@.len(),
            forall|m: int| 0 <= m < j ==> t@[i + m] == p@[m],
        decreases p@.len() - j,
    {
        proof {
            assert(i + j < t@.len());
        }
        if t[i + j] != p[j] {
            proof {
                assert(t@.subrange(i as int, i + p@.len())[j as int] != p@[j as int]);
            }
            return false;
        }
        j += 1;
    }
    proof {
        assert(t@.subrange(i as int, i + p@.len()) =~= p@);
    }
    true
}

/// Appends all of `v` to `out`.
fn push_bytes(out: &mut Vec<u8>, v: &Vec<u8>)
    ensures
        final(out)@ == old(out)@ + v@,
{
    let mut j: usize = 0;
    while j < v.len()
        invariant
            j <= v@.len(),
            out@ == old(out)@ + v@.subrange(0, j as int),
        decreases v@.len() - j,
    {
        out.push(v[j]);
        proof {
            assert(out@ =~= old(out)@ + v@.subrange(0, j + 1 as int));
        }
        j += 1;
    }
    proof {
        assert(old(out)@ + v@.subrange(0, v@.len() as int) =~= old(out)@ + v@);
    }
}

/// Replaces every occurrence of `p` in `t` with `v`, left to right.
pub fn replace_all(t: &Vec<u8>, p: &Vec<u8>, v: &Vec<u8>) -> (r: Vec<u8>)
    requires
        p@.len() > 0,
    ensures
        r@ == spec_replace(t@, p@, v@),
{
    let mut out: Vec<u8> = Vec::new();
    let mut i: usize = 0;
    proof {
        assert(t@.skip(0) =~= t@);
        assert(Seq::<u8>::empty() + spec_replace(t@, p@, v@) =~= spec_replace(t@, p@, v@));
    }
    while i < t.len()
        invariant
            i <= t@.len(),
            p@.len() > 0,
            spec_replace(t@, p@, v@) == out@ + spec_replace(t@.skip(i as int), p@, v@),
        decreases t@.len() - i,
    {
        let remaining = t.len() - i;
        if p.len() <= remaining && matches_at(t, p, i) {
            let ghost before = out@;
            push_bytes(&mut out, v);
            proof {
                let rest = t@.skip(i as int);
                assert(rest.subrange(0, p@.len() as int) =~= t@.subrange(i as int, i + p@.len()));
                assert(rest.skip(p@.len() as int) =~= t@.skip(i + p@.len()));
                assert(spec_replace(rest, p@, v@) == v@ + spec_replace(
                    t@.skip(i + p@.len()),
                    p@,
                    v@,
                ));
                assert(before + (v@ + spec_replace(t@.skip(i + p@.len()), p@, v@)) =~= (before
                    + v@) + spec_replace(t@.skip(i + p@.len()), p@, v@));
            }
            i = i + p.len();
        } else {
            let ghost before = out@;
            out.push(t[i]);
            proof {
                let rest = t@.skip(i as int);
                assert(rest.len() == t@.len() - i);
                if p@.len() <= rest.len() {
                    assert(rest.subrange(0, p@.len() as int) =~= t@.subrange(
                        i as int,
                        i + p@.len(),
                    ));
                    assert(rest.subrange(0, p@.len() as int) != p@);
                    assert(rest.skip(1) =~= t@.skip(i + 1));
                    assert(rest[0] == t@[i as int]);
                    assert(spec_replace(rest, p@, v@) == seq![t@[i as int]] + spec_replace(
                        t@.skip(i + 1),
                        p@,
                        v@,
                    ));
                    assert(before + (seq![t@[i as int]] + spec_replace(t@.skip(i + 1), p@, v@))
                        =~= out@ + spec_replace(t@.skip(i + 1), p@, v@));
                } else {
                    assert(spec_replace(rest, p@, v@) == rest);
                    assert(t@.skip(i + 1).len() < p@.len());
                    assert(spec_replace(t@.skip(i + 1), p@, v@) == t@.skip(i + 1));
                    assert(rest =~= seq![t@[i as int]] + t@.skip(i + 1));
                    assert(before + rest =~= out@ + t@.skip(i + 1));
                }
            }
            i = i + 1;
        }
    }
    proof {
        assert(t@.skip(t@.len() as int) =~= Seq::<u8>::empty());
        assert(spec_replace(t@.skip(t@.len() as int), p@, v@) =~= Seq::<u8>::empty());
        assert(out@ + Seq::<u8>::empty() =~= out@);
    }
    out
}

/// Interpolates the secrets into the configuration text: each key's
/// occurrences are replaced by its value, secret by secret in list order.
/// An empty key is ignored.
pub fn interpolate_secrets(config: &Vec<u8>, secrets: &Vec<(Vec<u8>, Vec<u8>)>) -> (r: Vec<u8>)
    ensures
        r@ == spec_interpolate(config@, secrets@),
{
    let mut current: Vec<u8> = config.clone();
    proof {
        assert(current@ == config@);
    }
    let mut k: usize = 0;
    proof {
        assert(secrets@.skip(0) =~= secrets@);
    }
    while k < secrets.len()
        invariant
            k <= secrets@.len(),
            spec_interpolate(config@, secrets@) == spec_interpolate(
                current@,
                secrets@.skip(k as int),
            ),
        decreases secrets@.len() - k,
    {
        let ghost rest = secrets@.skip(k as int);
        let key = &secrets[k].0;
        let value = &secrets[k].1;
        if key.len() > 0 {
            let replaced = replace_all(&current, key, value);
            proof {
                assert(rest[0] == secrets@[k as int]);
                assert(rest.drop_first() =~= secrets@.skip(k + 1));
                assert(spec_interpolate(current@, rest) == spec_interpolate(
                    replaced@,
                    secrets@.skip(k + 1),
                ));
            }
            current = replaced;
        } else {
            proof {
                assert(rest[0] == secrets@[k as int]);
                assert(rest.drop_first() =~= secrets@.skip(k + 1));
                assert(spec_interpolate(current@, rest) == spec_interpolate(
                    current@,
                    secrets@.skip(k + 1),
                ));
            }
        }
        k += 1;
    }
    proof {
        assert(secrets@.skip(secrets@.len() as int) =~= Seq::<(Vec<u8>, Vec<u8>)>::empty());
    }
    current
}

} // verus!
