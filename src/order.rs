//! The order in which interface names are kept: byte-wise lexicographic order
//! of their UTF-8 encodings, which is the order of `String`'s `Ord`.

use vstd::prelude::*;
use vstd::utf8::*;

verus! {

broadcast use vstd::utf8::group_utf8_lib;

/// Strict lexicographic order on byte sequences.
pub open spec fn bytes_lt(a: Seq<u8>, b: Seq<u8>) -> bool
    decreases a.len(),
{
    if b.len() == 0 {
        false
    } else if a.len() == 0 {
        true
    } else if a[0] != b[0] {
        a[0] < b[0]
    } else {
        bytes_lt(a.drop_first(), b.drop_first())
    }
}

/// Strict order on names: the order of their UTF-8 bytes.
pub open spec fn name_lt(x: Seq<char>, y: Seq<char>) -> bool {
    bytes_lt(encode_utf8(x), encode_utf8(y))
}

pub proof fn lemma_bytes_lt_irreflexive(a: Seq<u8>)
    ensures
        !bytes_lt(a, a),
    decreases a.len(),
{
    if a.len() > 0 {
        lemma_bytes_lt_irreflexive(a.drop_first());
    }
}

pub proof fn lemma_bytes_lt_transitive(a: Seq<u8>, b: Seq<u8>, c: Seq<u8>)
    requires
        bytes_lt(a, b),
        bytes_lt(b, c),
    ensures
        bytes_lt(a, c),
    decreases a.len(),
{
    if a.len() > 0 && a[0] == b[0] && b[0] == c[0] {
        lemma_bytes_lt_transitive(a.drop_first(), b.drop_first(), c.drop_first());
    }
}

pub proof fn lemma_bytes_lt_total(a: Seq<u8>, b: Seq<u8>)
    ensures
        bytes_lt(a, b) || a == b || bytes_lt(b, a),
    decreases a.len(),
{
    if a.len() > 0 && b.len() > 0 && a[0] == b[0] {
        lemma_bytes_lt_total(a.drop_first(), b.drop_first());
        if a.drop_first() == b.drop_first() {
            assert(a =~= seq![a[0]] + a.drop_first());
            assert(b =~= seq![b[0]] + b.drop_first());
        }
    } else if a.len() == 0 && b.len() == 0 {
        assert(a =~= b);
    }
}

pub proof fn lemma_name_lt_irreflexive(x: Seq<char>)
    ensures
        !name_lt(x, x),
{
    lemma_bytes_lt_irreflexive(encode_utf8(x));
}

pub proof fn lemma_name_lt_transitive(x: Seq<char>, y: Seq<char>, z: Seq<char>)
    requires
        name_lt(x, y),
        name_lt(y, z),
    ensures
        name_lt(x, z),
{
    lemma_bytes_lt_transitive(encode_utf8(x), encode_utf8(y), encode_utf8(z));
}

pub proof fn lemma_name_lt_total(x: Seq<char>, y: Seq<char>)
    ensures
        name_lt(x, y) || x == y || name_lt(y, x),
{
    lemma_bytes_lt_total(encode_utf8(x), encode_utf8(y));
    if encode_utf8(x) == encode_utf8(y) {
        assert(decode_utf8(encode_utf8(x)) == x);
        assert(decode_utf8(encode_utf8(y)) == y);
    }
}

proof fn lemma_bytes_lt_skip(a: Seq<u8>, b: Seq<u8>, i: int)
    requires
        0 <= i < a.len(),
        i < b.len(),
        a[i] == b[i],
    ensures
        bytes_lt(a.skip(i), b.skip(i)) == bytes_lt(a.skip(i + 1), b.skip(i + 1)),
{
    assert(a.skip(i).drop_first() =~= a.skip(i + 1));
    assert(b.skip(i).drop_first() =~= b.skip(i + 1));
}

/// Compares two names in the order of `String`.
pub fn name_less(x: &String, y: &String) -> (r: bool)
    ensures
        r == name_lt(x@, y@),
{
    let a = x.as_str().as_bytes();
    let b = y.as_str().as_bytes();
    let ghost sa = a@;
    let ghost sb = b@;
    assert(sa.skip(0) =~= sa);
    assert(sb.skip(0) =~= sb);
    let mut i: usize = 0;
    while i < a.len() && i < b.len()
        invariant
            a@ == sa,
            b@ == sb,
            sa == encode_utf8(x@),
            sb == encode_utf8(y@),
            i <= sa.len(),
            i <= sb.len(),
            bytes_lt(sa, sb) == bytes_lt(sa.skip(i as int), sb.skip(i as int)),
        decreases a.len() - i,
    {
        if a[i] != b[i] {
            return a[i] < b[i];
        }
        proof {
            lemma_bytes_lt_skip(sa, sb, i as int);
        }
        i = i + 1;
    }
    i < b.len()
}

/// Names in non-decreasing order.
pub open spec fn names_sorted(s: Seq<Seq<char>>) -> bool {
    forall|i: int, j: int| 0 <= i < j < s.len() ==> !name_lt(s[j], s[i])
}

/// The names in lexicographic (byte) order: the order in which configuration
/// fragments are read.
pub fn sort_names(v: &Vec<String>) -> (r: Vec<String>)
    ensures
        names_sorted(r.deep_view()),
        r.deep_view().to_multiset() == v.deep_view().to_multiset(),
{
    let mut out: Vec<String> = Vec::new();
    let mut i: usize = 0;
    assert(v.deep_view().take(0) =~= Seq::<Seq<char>>::empty());
    assert(out.deep_view() =~= Seq::<Seq<char>>::empty());
    while i < v.len()
        invariant
            i <= v.len(),
            names_sorted(out.deep_view()),
            out.deep_view().to_multiset() == v.deep_view().take(i as int).to_multiset(),
        decreases v.len() - i,
    {
        let x = v[i].clone();
        let ghost o = out.deep_view();
        let mut k: usize = 0;
        while k < out.len() && !name_less(&x, &out[k])
            invariant
                k <= out.len(),
                o == out.deep_view(),
                forall|m: int| 0 <= m < k ==> !name_lt(x@, #[trigger] o[m]),
            decreases out.len() - k,
        {
            k = k + 1;
        }
        let ghost xv = x@;
        assert(xv == v.deep_view()[i as int]);
        out.insert(k, x);
        assert(out.deep_view() =~= o.insert(k as int, xv));
        assert(k < o.len() ==> name_lt(xv, o[k as int]));
        assert forall|a: int, b: int| 0 <= a < b < out.deep_view().len() implies !name_lt(
            out.deep_view()[b],
            out.deep_view()[a],
        ) by {
            let n = out.deep_view();
            if a < k && b == k {
                assert(n[a] == o[a] && n[b] == xv);
            } else if a == k as int && b > k {
                assert(n[a] == xv && n[b] == o[b - 1]);
                if name_lt(o[b - 1], xv) {
                    if b - 1 > k {
                        lemma_name_lt_transitive(o[b - 1], xv, o[k as int]);
                    } else {
                        lemma_name_lt_transitive(xv, o[k as int], xv);
                        lemma_name_lt_irreflexive(xv);
                    }
                }
            } else if b < k {
                assert(n[a] == o[a] && n[b] == o[b]);
            } else if a < k {
                assert(n[a] == o[a] && n[b] == o[b - 1]);
            } else {
                assert(n[a] == o[a - 1] && n[b] == o[b - 1]);
            }
        }
        proof {
            vstd::seq_lib::to_multiset_insert(o, k as int, xv);
            let t = v.deep_view().take(i as int);
            assert(v.deep_view().take(i as int + 1) =~= t.push(xv));
            vstd::seq_lib::to_multiset_build(t, xv);
        }
        i = i + 1;
    }
    assert(v.deep_view().take(v.len() as int) =~= v.deep_view());
    out
}

} // verus!

