//! Conversions between strings and character vectors, and small helpers on
//! character vectors. The rest of the library builds and inspects text as
//! `Vec<char>`, whose view is the same `Seq<char>` that a `String`'s view is.

use vstd::prelude::*;

verus! {

/// Relies on str::chars: iterating a string slice yields exactly the
/// characters of its view, in order.
#[verifier::external_body]
pub(crate) fn str_to_chars(s: &str) -> (r: Vec<char>)
    ensures
        r@ == s@,
{
    s.chars().collect()
}

/// Relies on FromIterator for String: collecting characters builds the string
/// whose view is exactly that character sequence.
#[verifier::external_body]
pub(crate) fn chars_to_string(v: &Vec<char>) -> (r: String)
    ensures
        r@ == v@,
{
    v.iter().collect()
}

/// Appends every character of `src` to `dst`.
pub fn append_chars(dst: &mut Vec<char>, src: &Vec<char>)
    ensures
        final(dst)@ == old(dst)@ + src@,
{
    let mut i: usize = 0;
    while i < src.len()
        invariant
            i <= src.len(),
            dst@ == old(dst)@ + src@.subrange(0, i as int),
        decreases src.len() - i,
    {
        dst.push(src[i]);
        i = i + 1;
        proof {
            assert(old(dst)@ + src@.subrange(0, i as int)
                =~= old(dst)@ + src@.subrange(0, i - 1) + seq![src@[i - 1]]);
        }
    }
    proof {
        assert(src@.subrange(0, src@.len() as int) =~= src@);
    }
}

/// Appends every character of the string `src` to `dst`.
pub fn append_str_chars(dst: &mut Vec<char>, src: &str)
    ensures
        final(dst)@ == old(dst)@ + src@,
{
    let v = str_to_chars(src);
    append_chars(dst, &v);
}

/// The views of a sequence of character vectors.
pub open spec fn char_vecs_view(parts: Seq<Vec<char>>) -> Seq<Seq<char>> {
    parts.map_values(|v: Vec<char>| v@)
}

/// The parts joined by single spaces.
pub open spec fn join_space(parts: Seq<Seq<char>>) -> Seq<char>
    decreases parts.len(),
{
    if parts.len() == 0 {
        Seq::empty()
    } else if parts.len() == 1 {
        parts[0]
    } else {
        parts[0] + seq![' '] + join_space(parts.drop_first())
    }
}

/// Joining one more part appends a space (unless nothing stood before it)
/// and the part.
pub proof fn lemma_join_space_push(parts: Seq<Seq<char>>, p: Seq<char>)
    ensures
        join_space(parts.push(p)) == if parts.len() == 0 {
            p
        } else {
            join_space(parts) + seq![' '] + p
        },
    decreases parts.len(),
{
    if parts.len() == 0 {
        assert(parts.push(p) =~= seq![p]);
    } else {
        assert(parts.push(p).drop_first() =~= parts.drop_first().push(p));
        lemma_join_space_push(parts.drop_first(), p);
        if parts.len() == 1 {
            assert(join_space(parts.push(p)) =~= join_space(parts) + seq![' '] + p);
        } else {
            assert(parts[0] + seq![' '] + (join_space(parts.drop_first()) + seq![' '] + p)
                =~= (parts[0] + seq![' '] + join_space(parts.drop_first())) + seq![' '] + p);
        }
    }
}

/// Joins the parts with single spaces.
pub fn join_space_x(parts: &Vec<Vec<char>>) -> (r: Vec<char>)
    ensures
        r@ == join_space(char_vecs_view(parts@)),
{
    let ghost pv = char_vecs_view(parts@);
    let mut out: Vec<char> = Vec::new();
    let mut j: usize = 0;
    while j < parts.len()
        invariant
            j <= parts.len(),
            pv == char_vecs_view(parts@),
            out@ == join_space(pv.take(j as int)),
        decreases parts.len() - j,
    {
        let ghost out0 = out@;
        if j > 0 {
            out.push(' ');
        }
        append_chars(&mut out, &parts[j]);
        proof {
            lemma_join_space_push(pv.take(j as int), pv[j as int]);
            assert(pv.take(j as int).push(pv[j as int]) =~= pv.take(j + 1));
            assert(pv[j as int] == parts@[j as int]@);
            if j > 0 {
                assert(out@ =~= out0 + seq![' '] + pv[j as int]);
            } else {
                assert(out@ =~= pv[j as int]);
            }
        }
        j = j + 1;
    }
    proof {
        assert(pv.take(parts@.len() as int) =~= pv);
    }
    out
}

/// The character vectors of a list of strings.
pub fn strings_to_char_vecs(vs: &Vec<String>) -> (r: Vec<Vec<char>>)
    ensures
        r@.len() == vs@.len(),
        forall|j: int| 0 <= j < vs@.len() ==> r@[j]@ == vs@[j]@,
{
    let mut r: Vec<Vec<char>> = Vec::new();
    let mut j: usize = 0;
    while j < vs.len()
        invariant
            j <= vs.len(),
            r@.len() == j,
            forall|l: int| 0 <= l < j ==> r@[l]@ == vs@[l]@,
        decreases vs.len() - j,
    {
        r.push(str_to_chars(vs[j].as_str()));
        j = j + 1;
    }
    r
}

/// Whether the characters of `t` from `offset` on are exactly the characters
/// of `pat`.
pub fn chars_eq_from(t: &Vec<char>, offset: usize, pat: &Vec<char>) -> (b: bool)
    requires
        offset <= t.len(),
    ensures
        b == (t@.subrange(offset as int, t@.len() as int) == pat@),
{
    if t.len() - offset != pat.len() {
        proof {
            assert(t@.subrange(offset as int, t@.len() as int).len() != pat@.len());
        }
        return false;
    }
    let mut i: usize = 0;
    while i < pat.len()
        invariant
            offset <= t.len(),
            t.len() - offset == pat.len(),
            i <= pat.len(),
            forall|j: int| 0 <= j < i ==> t@[offset + j] == pat@[j],
        decreases pat.len() - i,
    {
        if t[offset + i] != pat[i] {
            proof {
                assert(t@.subrange(offset as int, t@.len() as int)[i as int] != pat@[i as int]);
            }
            return false;
        }
        i = i + 1;
    }
    proof {
        assert(t@.subrange(offset as int, t@.len() as int) =~= pat@);
    }
    true
}

} // verus!
