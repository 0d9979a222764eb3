//! Line-oriented rewriting of small configuration files: filter the lines a
//! setting owns, then append the new ones.

use vstd::prelude::*;

use crate::ifconfig::{has_prefix, starts_with};
use crate::interface::Strs;

verus! {

/// The lines of `v` that do not begin with `p`, order kept.
pub open spec fn unprefixed(v: Strs, p: Seq<char>) -> Strs
    decreases v.len(),
{
    if v.len() == 0 {
        v
    } else if !has_prefix(v.last(), p) {
        unprefixed(v.drop_last(), p).push(v.last())
    } else {
        unprefixed(v.drop_last(), p)
    }
}

/// `before + x + after` for each `x` of `v`.
pub open spec fn wrapped(v: Strs, before: Seq<char>, after: Seq<char>) -> Strs {
    Seq::new(v.len(), |i: int| before + v[i] + after)
}

/// `s` holds the byte sequence `p` somewhere.
pub open spec fn has_infix(s: Seq<char>, p: Seq<char>) -> bool {
    let a = vstd::utf8::encode_utf8(s);
    let b = vstd::utf8::encode_utf8(p);
    exists|i: int| 0 <= i && i + b.len() <= a.len() && #[trigger] a.subrange(i, i + b.len()) == b
}

/// Whether `s` contains `p`.
pub fn contains_text(s: &str, p: &str) -> (r: bool)
    ensures
        r == has_infix(s@, p@),
{
    let a = s.as_bytes();
    let b = p.as_bytes();
    if b.len() > a.len() {
        return false;
    }
    let mut i: usize = 0;
    while i <= a.len() - b.len()
        invariant
            a@ == vstd::utf8::encode_utf8(s@),
            b@ == vstd::utf8::encode_utf8(p@),
            b.len() <= a.len(),
            i <= a.len() - b.len() + 1,
            forall|k: int| 0 <= k < i ==> #[trigger] a@.subrange(k, k + b@.len()) != b@,
        decreases a.len() - b.len() + 1 - i,
    {
        let mut j: usize = 0;
        while j < b.len() && a[i + j] == b[j]
            invariant
                a@ == vstd::utf8::encode_utf8(s@),
                b@ == vstd::utf8::encode_utf8(p@),
                i + b.len() <= a.len(),
                j <= b.len(),
                forall|m: int| 0 <= m < j ==> a@[i + m] == b@[m],
            decreases b.len() - j,
        {
            j = j + 1;
        }
        if j == b.len() {
            assert(a@.subrange(i as int, i + b@.len()) =~= b@);
            return true;
        }
        assert(a@.subrange(i as int, i + b@.len())[j as int] != b@[j as int]);
        i = i + 1;
    }
    false
}

/// Copies the lines of `lines` that do not begin with `prefix`.
pub fn drop_prefixed(lines: &Vec<String>, prefix: &String) -> (r: Vec<String>)
    ensures
        r.deep_view() == unprefixed(lines.deep_view(), prefix@),
{
    let mut r: Vec<String> = Vec::new();
    let mut i: usize = 0;
    assert(unprefixed(lines.deep_view().take(0), prefix@) =~= Seq::<Seq<char>>::empty());
    while i < lines.len()
        invariant
            i <= lines.len(),
            r.deep_view() == unprefixed(lines.deep_view().take(i as int), prefix@),
        decreases lines.len() - i,
    {
        let ghost t = lines.deep_view().take(i as int + 1);
        assert(t.drop_last() =~= lines.deep_view().take(i as int));
        assert(t.last() == lines.deep_view()[i as int]);
        if !starts_with(&lines[i], prefix) {
            let x = lines[i].clone();
            let ghost prev = r.deep_view();
            r.push(x);
            assert(r.deep_view() =~= prev.push(lines.deep_view()[i as int]));
        }
        assert(r.deep_view() == unprefixed(t, prefix@));
        i = i + 1;
    }
    assert(lines.deep_view().take(lines.len() as int) =~= lines.deep_view());
    r
}

/// Appends `before + x + after` to `out` for each `x` of `v`.
pub fn append_wrapped(out: &mut Vec<String>, v: &Vec<String>, before: &str, after: &str)
    ensures
        final(out).deep_view() == old(out).deep_view() + wrapped(v.deep_view(), before@, after@),
{
    let ghost start = out.deep_view();
    let mut i: usize = 0;
    while i < v.len()
        invariant
            i <= v.len(),
            out.deep_view() == start + wrapped(v.deep_view(), before@, after@).take(i as int),
        decreases v.len() - i,
    {
        let line = before.to_owned().concat(v[i].as_str()).concat(after);
        let ghost prev = out.deep_view();
        out.push(line);
        assert(out.deep_view() =~= prev.push(before@ + v.deep_view()[i as int] + after@));
        i = i + 1;
        assert(out.deep_view() =~= start + wrapped(v.deep_view(), before@, after@).take(i as int));
    }
    assert(wrapped(v.deep_view(), before@, after@).take(v.len() as int) =~= wrapped(
        v.deep_view(),
        before@,
        after@,
    ));
}

} // verus!
