//! The order of texts, and lists of texts in it.
use crate::text::{chars, texts};
use vstd::prelude::*;
use vstd::relations::{sorted_by, total_ordering};

verus! {

/// `a` comes before `b` or is the same text: the first character that differs decides, and a text
/// comes before what continues it.
pub open spec fn text_leq(a: Seq<char>, b: Seq<char>) -> bool
    decreases a.len(),
{
    if a.len() == 0 {
        true
    } else if b.len() == 0 {
        false
    } else if a[0] != b[0] {
        a[0] < b[0]
    } else {
        text_leq(a.skip(1), b.skip(1))
    }
}

/// The order of texts as a relation.
pub open spec fn text_order() -> spec_fn(Seq<char>, Seq<char>) -> bool {
    |a: Seq<char>, b: Seq<char>| text_leq(a, b)
}

/// A list of texts in order.
pub open spec fn sorted(list: Seq<Seq<char>>) -> Seq<Seq<char>> {
    list.sort_by(text_order())
}

proof fn lemma_reflexive(a: Seq<char>)
    ensures
        text_leq(a, a),
    decreases a.len(),
{
    if a.len() > 0 {
        lemma_reflexive(a.skip(1));
    }
}

proof fn lemma_antisymmetric(a: Seq<char>, b: Seq<char>)
    requires
        text_leq(a, b),
        text_leq(b, a),
    ensures
        a == b,
    decreases a.len(),
{
    if a.len() > 0 {
        lemma_antisymmetric(a.skip(1), b.skip(1));
        assert(a =~= seq![a[0]] + a.skip(1));
        assert(b =~= seq![b[0]] + b.skip(1));
    } else {
        assert(a =~= b);
    }
}

proof fn lemma_connected(a: Seq<char>, b: Seq<char>)
    ensures
        text_leq(a, b) || text_leq(b, a),
    decreases a.len(),
{
    if a.len() > 0 && b.len() > 0 && a[0] == b[0] {
        lemma_connected(a.skip(1), b.skip(1));
    }
}

proof fn lemma_transitive(a: Seq<char>, b: Seq<char>, c: Seq<char>)
    requires
        text_leq(a, b),
        text_leq(b, c),
    ensures
        text_leq(a, c),
    decreases a.len(),
{
    if a.len() > 0 && b[0] == c[0] && a[0] == b[0] {
        lemma_transitive(a.skip(1), b.skip(1), c.skip(1));
    }
}

proof fn lemma_total()
    ensures
        total_ordering(text_order()),
{
    let leq = text_order();
    assert forall|a: Seq<char>| #[trigger] leq(a, a) by {
        lemma_reflexive(a);
    }
    assert forall|a: Seq<char>, b: Seq<char>| #[trigger] leq(a, b) && #[trigger] leq(b, a) implies a
        == b by {
        lemma_antisymmetric(a, b);
    }
    assert forall|a: Seq<char>, b: Seq<char>| #[trigger] leq(a, b) || #[trigger] leq(b, a) by {
        lemma_connected(a, b);
    }
    assert forall|a: Seq<char>, b: Seq<char>, c: Seq<char>| #[trigger]
        leq(a, b) && #[trigger] leq(b, c) implies leq(a, c) by {
        lemma_transitive(a, b, c);
    }
}

/// Tells whether a text comes before another one or is the same.
pub fn not_after(a: &str, b: &str) -> (r: bool)
    ensures
        r == text_leq(a@, b@),
{
    let x = chars(a);
    let y = chars(b);
    let mut i: usize = 0;
    assert(x@.skip(0) =~= x@);
    assert(y@.skip(0) =~= y@);
    while i < x.len() && i < y.len()
        invariant
            x@ == a@,
            y@ == b@,
            i <= x@.len(),
            i <= y@.len(),
            text_leq(x@, y@) == text_leq(x@.skip(i as int), y@.skip(i as int)),
        decreases x@.len() - i,
    {
        assert(x@.skip(i as int)[0] == x@[i as int]);
        assert(y@.skip(i as int)[0] == y@[i as int]);
        let c: char = x[i];
        let d: char = y[i];
        if c != d {
            return c < d;
        }
        assert(x@.skip(i as int).skip(1) =~= x@.skip(i + 1));
        assert(y@.skip(i as int).skip(1) =~= y@.skip(i + 1));
        i = i + 1;
    }
    i == x.len()
}

fn merge(a: &[String], b: &[String]) -> (r: Vec<String>)
    requires
        sorted_by(texts(a@), text_order()),
        sorted_by(texts(b@), text_order()),
    ensures
        sorted_by(texts(r@), text_order()),
        texts(r@).to_multiset() == (texts(a@) + texts(b@)).to_multiset(),
{
    broadcast use vstd::seq_lib::group_to_multiset_ensures;

    let ghost ta = texts(a@);
    let ghost tb = texts(b@);
    let ghost leq = text_order();
    proof {
        lemma_total();
    }
    let mut out: Vec<String> = Vec::new();
    let mut i: usize = 0;
    let mut j: usize = 0;
    assert(texts(out@) + ta.skip(0) + tb.skip(0) =~= ta + tb);
    while i < a.len() || j < b.len()
        invariant
            ta == texts(a@),
            tb == texts(b@),
            leq == text_order(),
            total_ordering(leq),
            sorted_by(ta, leq),
            sorted_by(tb, leq),
            i <= a@.len(),
            j <= b@.len(),
            sorted_by(texts(out@), leq),
            forall|k: int, m: int|
                0 <= k < out@.len() && i <= m < ta.len() ==> leq(
                    #[trigger] texts(out@)[k],
                    #[trigger] ta[m],
                ),
            forall|k: int, m: int|
                0 <= k < out@.len() && j <= m < tb.len() ==> leq(
                    #[trigger] texts(out@)[k],
                    #[trigger] tb[m],
                ),
            (texts(out@) + ta.skip(i as int) + tb.skip(j as int)).to_multiset() == (ta
                + tb).to_multiset(),
        decreases a@.len() - i + (b@.len() - j),
    {
        let ghost before = texts(out@);
        let left = j >= b.len() || (i < a.len() && not_after(a[i].as_str(), b[j].as_str()));
        if left {
            let ghost x = ta[i as int];
            assert forall|m: int| j <= m < tb.len() implies leq(x, #[trigger] tb[m]) by {
                assert(leq(x, tb[j as int]));
                if m > j {
                    assert(leq(tb[j as int], tb[m]));
                    lemma_transitive(x, tb[j as int], tb[m]);
                }
            }
            out.push(a[i].clone());
            assert(texts(out@) =~= before.push(x));
            proof {
                assert(ta.skip(i as int) =~= seq![x] + ta.skip(i + 1));
                assert(before + ta.skip(i as int) + tb.skip(j as int) =~= before.push(x) + ta.skip(
                    i + 1,
                ) + tb.skip(j as int));
            }
            i = i + 1;
        } else {
            let ghost x = tb[j as int];
            assert forall|m: int| i <= m < ta.len() implies leq(x, #[trigger] ta[m]) by {
                lemma_connected(ta[i as int], x);
                assert(leq(x, ta[i as int]));
                if m > i {
                    assert(leq(ta[i as int], ta[m]));
                    lemma_transitive(x, ta[i as int], ta[m]);
                }
            }
            out.push(b[j].clone());
            assert(texts(out@) =~= before.push(x));
            proof {
                let u = before + ta.skip(i as int);
                assert(tb.skip(j as int) =~= seq![x] + tb.skip(j + 1));
                lemma_moved(before, ta.skip(i as int), x, tb.skip(j + 1));
                assert(u + tb.skip(j as int) =~= u + (seq![x] + tb.skip(j + 1)));
            }
            j = j + 1;
        }
    }
    assert(texts(out@) + ta.skip(i as int) + tb.skip(j as int) =~= texts(out@));
    out
}

/// Moving an item forwards leaves a list with the same items.
proof fn lemma_moved(a: Seq<Seq<char>>, b: Seq<Seq<char>>, x: Seq<char>, c: Seq<Seq<char>>)
    ensures
        (a + b + (seq![x] + c)).to_multiset() == (a.push(x) + b + c).to_multiset(),
{
    broadcast use vstd::seq_lib::group_to_multiset_ensures;

    vstd::seq_lib::lemma_multiset_commutative(b, seq![x] + c);
    vstd::seq_lib::lemma_multiset_commutative(a + b, seq![x] + c);
    vstd::seq_lib::lemma_multiset_commutative(a, b);
    vstd::seq_lib::lemma_multiset_commutative(seq![x], c);
    vstd::seq_lib::lemma_multiset_commutative(a.push(x) + b, c);
    vstd::seq_lib::lemma_multiset_commutative(a.push(x), b);
    vstd::seq_lib::lemma_multiset_commutative(a, seq![x]);
    assert(a.push(x) =~= a + seq![x]);
    let l = (a + b + (seq![x] + c)).to_multiset();
    let r = (a.push(x) + b + c).to_multiset();
    assert(l =~= r);
}

/// Puts texts in order.
pub fn sort_texts(list: Vec<String>) -> (r: Vec<String>)
    ensures
        texts(r@) == sorted(texts(list@)),
    decreases list@.len(),
{
    let ghost all = texts(list@);
    proof {
        lemma_total();
        all.lemma_sort_by_ensures(text_order());
    }
    if list.len() <= 1 {
        assert(sorted_by(all, text_order()));
        proof {
            vstd::seq_lib::lemma_sorted_unique(all, sorted(all), text_order());
        }
        return list;
    }
    let mut left = list;
    let mid: usize = left.len() / 2;
    let right = left.split_off(mid);
    assert(all =~= texts(left@) + texts(right@));
    proof {
        texts(left@).lemma_sort_by_ensures(text_order());
        texts(right@).lemma_sort_by_ensures(text_order());
    }
    let ghost tl = texts(left@);
    let ghost tr = texts(right@);
    let a = sort_texts(left);
    let b = sort_texts(right);
    let out = merge(&a, &b);
    proof {
        vstd::seq_lib::lemma_multiset_commutative(tl, tr);
        vstd::seq_lib::lemma_multiset_commutative(texts(a@), texts(b@));
        vstd::seq_lib::lemma_sorted_unique(texts(out@), sorted(all), text_order());
    }
    out
}

/// Sorting loses no text and adds none, and each text stands behind those that come before it.
pub proof fn law_sorted(list: Seq<Seq<char>>)
    ensures
        sorted(list).to_multiset() == list.to_multiset(),
        forall|i: int, j: int|
            0 <= i < j < sorted(list).len() ==> text_leq(
                #[trigger] sorted(list)[i],
                #[trigger] sorted(list)[j],
            ),
{
    lemma_total();
    list.lemma_sort_by_ensures(text_order());
    assert forall|i: int, j: int| 0 <= i < j < sorted(list).len() implies text_leq(
        #[trigger] sorted(list)[i],
        #[trigger] sorted(list)[j],
    ) by {
        let leq = text_order();
        assert(leq(sorted(list)[i], sorted(list)[j]));
    }
}

/// Texts are ordered as in a dictionary: what they begin with in common does not count, the first
/// characters that differ decide, and a text comes before those that go on behind it.
pub proof fn law_dictionary_order(common: Seq<char>, a: Seq<char>, b: Seq<char>)
    ensures
        text_leq(common + a, common + b) == text_leq(a, b),
        a.len() > 0 && b.len() > 0 && a[0] != b[0] ==> (text_leq(a, b) <==> a[0] < b[0]),
        text_leq(seq![], b),
        a.len() > 0 ==> !text_leq(a, seq![]),
    decreases common.len(),
{
    if common.len() > 0 {
        let rest = common.skip(1);
        law_dictionary_order(rest, a, b);
        assert((common + a).skip(1) =~= rest + a);
        assert((common + b).skip(1) =~= rest + b);
        assert((common + a)[0] == (common + b)[0]);
    } else {
        assert(common + a =~= a);
        assert(common + b =~= b);
    }
}

} // verus!
