//! Verified string utilities: equality, substring search, lexicographic
//! order, sorting and joining. The built-in tools and the protocol layer
//! build on these.

use vstd::prelude::*;
use vstd::string::*;

verus! {

/// Compares two strings character by character.
pub fn str_eq(a: &str, b: &str) -> (r: bool)
    ensures
        r == (a@ == b@),
{
    let alen = a.unicode_len();
    let blen = b.unicode_len();
    if alen != blen {
        proof {
            assert(a@ != b@);
        }
        return false;
    }
    let mut i: usize = 0;
    while i < alen
        invariant
            alen == a@.len(),
            alen == b@.len(),
            i <= alen,
            forall|m: int| 0 <= m < i ==> a@[m] == b@[m],
        decreases alen - i,
    {
        if a.get_char(i) != b.get_char(i) {
            proof {
                assert(a@[i as int] != b@[i as int]);
            }
            return false;
        }
        i = i + 1;
    }
    proof {
        assert(a@ =~= b@);
    }
    true
}

/// Whether `needle` occurs in `hay` as a contiguous run of characters.
pub open spec fn contains_sub(hay: Seq<char>, needle: Seq<char>) -> bool {
    exists|k: int|
        0 <= k && k + needle.len() <= hay.len() && #[trigger] hay.subrange(k, k + needle.len())
            == needle
}

fn matches_at(hay: &str, hlen: usize, needle: &str, nlen: usize, k: usize) -> (r: bool)
    requires
        hlen == hay@.len(),
        nlen == needle@.len(),
        k + nlen <= hlen,
    ensures
        r == (hay@.subrange(k as int, k as int + nlen as int) == needle@),
{
    let mut m: usize = 0;
    while m < nlen
        invariant
            hlen == hay@.len(),
            nlen == needle@.len(),
            k + nlen <= hlen,
            m <= nlen,
            forall|x: int| 0 <= x < m ==> hay@[k + x] == needle@[x],
        decreases nlen - m,
    {
        if hay.get_char(k + m) != needle.get_char(m) {
            proof {
                assert(hay@.subrange(k as int, k as int + nlen as int)[m as int] == hay@[k + m]);
                assert(hay@.subrange(k as int, k as int + nlen as int) != needle@);
            }
            return false;
        }
        m = m + 1;
    }
    proof {
        assert(hay@.subrange(k as int, k as int + nlen as int) =~= needle@);
    }
    true
}

/// Substring search by characters.
pub fn str_contains(hay: &str, needle: &str) -> (r: bool)
    ensures
        r == contains_sub(hay@, needle@),
{
    let hlen = hay.unicode_len();
    let nlen = needle.unicode_len();
    if nlen > hlen {
        proof {
            assert(!contains_sub(hay@, needle@));
        }
        return false;
    }
    if nlen == 0 {
        proof {
            assert(hay@.subrange(0, 0 + needle@.len() as int) =~= needle@);
        }
        return true;
    }
    let mut k: usize = 0;
    while k <= hlen - nlen
        invariant
            hlen == hay@.len(),
            nlen == needle@.len(),
            0 < nlen <= hlen,
            k <= hlen - nlen + 1,
            forall|x: int|
                0 <= x < k ==> #[trigger] hay@.subrange(x, x + nlen as int) != needle@,
        decreases hlen - nlen - k + 1,
    {
        if matches_at(hay, hlen, needle, nlen, k) {
            return true;
        }
        k = k + 1;
    }
    proof {
        assert forall|x: int| 0 <= x && x + needle@.len() <= hay@.len() implies #[trigger] hay@
            .subrange(x, x + needle@.len()) != needle@ by {
            assert(x < k);
            assert(hay@.subrange(x, x + nlen as int) != needle@);
        }
    }
    false
}

/// Lexicographic order on character sequences, from position `i` on.
pub open spec fn lex_le_from(a: Seq<char>, b: Seq<char>, i: int) -> bool
    decreases a.len() - i,
{
    if i < 0 || i >= a.len() {
        true
    } else if i >= b.len() {
        false
    } else if a[i] != b[i] {
        a[i] < b[i]
    } else {
        lex_le_from(a, b, i + 1)
    }
}

/// Lexicographic order on character sequences.
pub open spec fn lex_le(a: Seq<char>, b: Seq<char>) -> bool {
    lex_le_from(a, b, 0)
}

/// The order is total: two strings can always be put in order.
pub proof fn lemma_lex_total(a: Seq<char>, b: Seq<char>)
    ensures
        lex_le(a, b) || lex_le(b, a),
{
    lemma_lex_total_from(a, b, 0);
}

proof fn lemma_lex_total_from(a: Seq<char>, b: Seq<char>, i: int)
    ensures
        lex_le_from(a, b, i) || lex_le_from(b, a, i),
    decreases a.len() - i,
{
    if 0 <= i < a.len() && i < b.len() && a[i] == b[i] {
        lemma_lex_total_from(a, b, i + 1);
    }
}

fn str_le_from(a: &str, alen: usize, b: &str, blen: usize, i: usize) -> (r: bool)
    requires
        alen == a@.len(),
        blen == b@.len(),
        i <= alen,
        i <= blen,
    ensures
        r == lex_le_from(a@, b@, i as int),
    decreases alen - i,
{
    if i >= alen {
        return true;
    }
    if i >= blen {
        return false;
    }
    let ca = a.get_char(i);
    let cb = b.get_char(i);
    if ca != cb {
        ca < cb
    } else {
        str_le_from(a, alen, b, blen, i + 1)
    }
}

/// Lexicographic comparison of two strings by characters.
pub fn str_le(a: &str, b: &str) -> (r: bool)
    ensures
        r == lex_le(a@, b@),
{
    let alen = a.unicode_len();
    let blen = b.unicode_len();
    str_le_from(a, alen, b, blen, 0)
}

/// The views of a sequence of strings.
pub open spec fn views_of(v: Seq<String>) -> Seq<Seq<char>> {
    v.map_values(|s: String| s@)
}

/// Sorted in weakly increasing lexicographic order, adjacent pairs.
pub open spec fn lex_sorted(v: Seq<Seq<char>>) -> bool {
    forall|i: int| 0 <= i && i + 1 < v.len() ==> lex_le(#[trigger] v[i], v[i + 1])
}

/// Sorts strings in increasing lexicographic order; the result holds
/// exactly the input strings.
pub fn sort_strings(v: Vec<String>) -> (out: Vec<String>)
    ensures
        lex_sorted(views_of(out@)),
        views_of(out@).to_multiset() == views_of(v@).to_multiset(),
{
    broadcast use vstd::seq_lib::group_to_multiset_ensures;

    let ghost orig = views_of(v@);
    let mut v = v;
    let mut out: Vec<String> = Vec::new();
    proof {
        assert(views_of(out@) =~= Seq::<Seq<char>>::empty());
        assert(views_of(v@).to_multiset() =~= views_of(out@).to_multiset().add(
            views_of(v@).to_multiset(),
        ));
    }
    while v.len() > 0
        invariant
            lex_sorted(views_of(out@)),
            views_of(v@).to_multiset().add(views_of(out@).to_multiset()) == orig.to_multiset(),
        decreases v.len(),
    {
        let ghost pre_v = views_of(v@);
        let x = v.remove(0);
        proof {
            pre_v.to_multiset_ensures();
            assert(views_of(v@) =~= pre_v.remove(0));
            assert(pre_v[0] == x@);
            assert(pre_v.remove(0).to_multiset() =~= pre_v.to_multiset().remove(x@));
            assert(pre_v.to_multiset().count(x@) > 0) by {
                assert(pre_v.contains(pre_v[0]));
            }
        }
        insert_sorted(&mut out, x);
        proof {
            assert(views_of(v@).to_multiset().add(views_of(out@).to_multiset())
                =~= orig.to_multiset());
        }
    }
    proof {
        assert(views_of(v@) =~= Seq::<Seq<char>>::empty());
        assert(views_of(v@).to_multiset().add(views_of(out@).to_multiset()) =~= views_of(
            out@,
        ).to_multiset());
    }
    out
}

fn goes_after(x: &String, out: &Vec<String>, pos: usize) -> (r: bool)
    requires
        pos < out@.len(),
    ensures
        r == !lex_le(x@, out@[pos as int]@),
{
    !str_le(x.as_str(), out[pos].as_str())
}

/// Inserts a string into a sorted vector, keeping it sorted.
#[verifier::rlimit(50)]
fn insert_sorted(out: &mut Vec<String>, x: String)
    requires
        lex_sorted(views_of(old(out)@)),
    ensures
        lex_sorted(views_of(final(out)@)),
        views_of(final(out)@).to_multiset() == views_of(old(out)@).to_multiset().insert(x@),
{
    broadcast use vstd::seq_lib::group_to_multiset_ensures;

    let mut pos: usize = 0;
    while pos < out.len() && goes_after(&x, out, pos)
        invariant
            pos <= out@.len(),
            lex_sorted(views_of(out@)),
            out@ == old(out)@,
            forall|m: int| 0 <= m < pos ==> lex_le(#[trigger] views_of(out@)[m], x@),
        decreases out@.len() - pos,
    {
        proof {
            lemma_lex_total(x@, out@[pos as int]@);
            assert(views_of(out@)[pos as int] == out@[pos as int]@);
        }
        pos = pos + 1;
    }
    proof {
        if pos < out@.len() {
            assert(lex_le(x@, out@[pos as int]@));
        }
    }
    let ghost pre = views_of(out@);
    out.insert(pos, x);
    proof {
        let post = views_of(out@);
        pre.insert_ensures(pos as int, x@);
        assert(post =~= pre.insert(pos as int, x@));
        assert forall|i: int| 0 <= i && i + 1 < post.len() implies lex_le(
            #[trigger] post[i],
            post[i + 1],
        ) by {
            let ins = pre.insert(pos as int, x@);
            if i + 1 < pos {
                assert(ins[i] == pre[i]);
                assert(ins[i + 1] == pre[i + 1]);
                assert(post[i] == pre[i] && post[i + 1] == pre[i + 1]);
            } else if i + 1 == pos {
                assert(ins[i] == pre[i]);
                assert(post[i] == pre[i] && post[i + 1] == x@);
            } else if i == pos {
                assert(ins[i + 1] == pre[i]);
                assert(post[i] == x@ && post[i + 1] == pre[i]);
            } else {
                assert(ins[(i - 1) + 1] == pre[i - 1]);
                assert(ins[i + 1] == pre[i]);
                assert(post[i] == pre[i - 1] && post[i + 1] == pre[i]);
            }
        }
        lemma_insert_to_multiset(pre, pos as int, x@);
    }
}

proof fn lemma_insert_to_multiset(s: Seq<Seq<char>>, pos: int, x: Seq<char>)
    requires
        0 <= pos <= s.len(),
    ensures
        s.insert(pos, x).to_multiset() == s.to_multiset().insert(x),
    decreases s.len() - pos,
{
    broadcast use vstd::seq_lib::group_to_multiset_ensures;

    s.to_multiset_ensures();
    if pos == s.len() {
        assert(s.insert(pos, x) =~= s.push(x));
    } else {
        let t = s.insert(pos, x);
        t.to_multiset_ensures();
        s.insert_ensures(pos, x);
        assert(t.remove(pos) =~= s);
        assert(t[pos] == x);
        assert(t.remove(pos).to_multiset() =~= t.to_multiset().remove(x));
        assert(t.to_multiset().count(x) > 0) by {
            assert(t.contains(t[pos]));
        }
        assert(s.to_multiset().insert(x) =~= t.to_multiset());
    }
}

/// The strings of `v`, joined with a newline between each pair.
pub open spec fn join_lines_spec(v: Seq<Seq<char>>) -> Seq<char>
    decreases v.len(),
{
    if v.len() == 0 {
        Seq::empty()
    } else if v.len() == 1 {
        v[0]
    } else {
        join_lines_spec(v.drop_last()) + seq!['\n'] + v.last()
    }
}

/// Joins strings with newlines.
pub fn join_lines(v: &Vec<String>) -> (out: String)
    ensures
        out@ == join_lines_spec(views_of(v@)),
{
    let mut out = String::new();
    let mut i: usize = 0;
    while i < v.len()
        invariant
            i <= v@.len(),
            out@ == join_lines_spec(views_of(v@).subrange(0, i as int)),
        decreases v@.len() - i,
    {
        if i > 0 {
            out.append("\n");
        }
        out.append(v[i].as_str());
        proof {
            reveal_strlit("\n");
            let pre = views_of(v@).subrange(0, i as int);
            let post = views_of(v@).subrange(0, i as int + 1);
            assert(post.drop_last() =~= pre);
            assert(post.last() == v@[i as int]@);
            if i == 0 {
                assert(out@ =~= join_lines_spec(post));
            } else {
                assert(out@ =~= join_lines_spec(post));
            }
        }
        i = i + 1;
    }
    proof {
        assert(views_of(v@).subrange(0, v@.len() as int) =~= views_of(v@));
    }
    out
}

} // verus!
