use vstd::prelude::*;

verus! {

/// "key=value"
pub open spec fn pair_text(p: (Seq<char>, Seq<char>)) -> Seq<char> {
    p.0 + seq!['='] + p.1
}

/// The texts joined by '&'.
pub open spec fn amp_join(ts: Seq<Seq<char>>) -> Seq<char>
    decreases ts.len(),
{
    if ts.len() == 0 {
        seq![]
    } else if ts.len() == 1 {
        ts[0]
    } else {
        amp_join(ts.drop_last()) + seq!['&'] + ts.last()
    }
}

pub open spec fn pair_views(q: Seq<(String, String)>) -> Seq<(Seq<char>, Seq<char>)> {
    q.map_values(|p: (String, String)| (p.0@, p.1@))
}

/// The text of a query: empty when there is no pair, else '?' and the pairs,
/// as "key=value", joined by '&', in the given order.
pub open spec fn query_text(ps: Seq<(Seq<char>, Seq<char>)>) -> Seq<char> {
    if ps.len() == 0 {
        seq![]
    } else {
        seq!['?'] + amp_join(ps.map_values(|p: (Seq<char>, Seq<char>)| pair_text(p)))
    }
}

/// Writes the pairs of a query in the given order.
pub fn render_query(q: &Vec<(String, String)>) -> (r: String)
    ensures
        r@ == query_text(pair_views(q@)),
{
    if q.len() == 0 {
        return String::new();
    }
    let ghost texts = pair_views(q@).map_values(|p: (Seq<char>, Seq<char>)| pair_text(p));
    let mut body = String::new();
    let mut i: usize = 0;
    while i < q.len()
        invariant
            i <= q@.len(),
            texts == pair_views(q@).map_values(|p: (Seq<char>, Seq<char>)| pair_text(p)),
            body@ == amp_join(texts.subrange(0, i as int)),
        decreases q.len() - i,
    {
        proof {
            reveal_strlit("&");
            reveal_strlit("=");
            let s = texts.subrange(0, i + 1);
            assert(s.drop_last() =~= texts.subrange(0, i as int));
            assert(s.last() == texts[i as int]);
            assert(texts[i as int] == q@[i as int].0@ + seq!['='] + q@[i as int].1@);
        }
        if i > 0 {
            body.append("&");
        }
        body.append(q[i].0.as_str());
        body.append("=");
        body.append(q[i].1.as_str());
        i = i + 1;
    }
    assert(texts.subrange(0, q@.len() as int) =~= texts);
    let mut out = String::new();
    proof {
        reveal_strlit("?");
    }
    out.append("?");
    out.append(body.as_str());
    out
}

/// Whether `a` comes before `b` when texts are compared character by character.
pub open spec fn chars_lt(a: Seq<char>, b: Seq<char>) -> bool
    decreases a.len(),
{
    if b.len() == 0 {
        false
    } else if a.len() == 0 {
        true
    } else if a[0] != b[0] {
        (a[0] as int) < (b[0] as int)
    } else {
        chars_lt(a.drop_first(), b.drop_first())
    }
}

/// Pairs ordered by key, then by value.
pub open spec fn pair_le(p: (Seq<char>, Seq<char>), q: (Seq<char>, Seq<char>)) -> bool {
    chars_lt(p.0, q.0) || (p.0 == q.0 && !chars_lt(q.1, p.1))
}

/// `x` put into `s` before the first pair that it does not follow.
pub open spec fn insert_spec(x: (Seq<char>, Seq<char>), s: Seq<(Seq<char>, Seq<char>)>) -> Seq<(Seq<char>, Seq<char>)>
    decreases s.len(),
{
    if s.len() == 0 {
        seq![x]
    } else if pair_le(x, s[0]) {
        seq![x] + s
    } else {
        seq![s[0]] + insert_spec(x, s.drop_first())
    }
}

/// The pairs in canonical order: each put, in turn, into the ones before it.
pub open spec fn sort_spec(s: Seq<(Seq<char>, Seq<char>)>) -> Seq<(Seq<char>, Seq<char>)>
    decreases s.len(),
{
    if s.len() == 0 {
        seq![]
    } else {
        insert_spec(s.last(), sort_spec(s.drop_last()))
    }
}

/// Whether text `a` comes before text `b`.
pub fn chars_less(a: &str, b: &str) -> (r: bool)
    ensures
        r == chars_lt(a@, b@),
{
    let n = a.unicode_len();
    let m = b.unicode_len();
    let mut i: usize = 0;
    assert(a@.subrange(0, n as int) =~= a@);
    assert(b@.subrange(0, m as int) =~= b@);
    while i < n && i < m
        invariant
            n == a@.len(),
            m == b@.len(),
            i <= n,
            i <= m,
            chars_lt(a@, b@) == chars_lt(a@.subrange(i as int, n as int), b@.subrange(i as int, m as int)),
        decreases n - i,
    {
        let ghost sa = a@.subrange(i as int, n as int);
        let ghost sb = b@.subrange(i as int, m as int);
        assert(sa[0] == a@[i as int]);
        assert(sb[0] == b@[i as int]);
        let x = a.get_char(i);
        let y = b.get_char(i);
        if x != y {
            return (x as u32) < (y as u32);
        }
        assert(sa.drop_first() =~= a@.subrange(i + 1, n as int));
        assert(sb.drop_first() =~= b@.subrange(i + 1, m as int));
        i = i + 1;
    }
    i < m
}

proof fn lemma_insert_at(x: (Seq<char>, Seq<char>), s: Seq<(Seq<char>, Seq<char>)>, p: int)
    requires
        0 <= p <= s.len(),
        forall|j: int| 0 <= j < p ==> !pair_le(x, s[j]),
        p == s.len() || pair_le(x, s[p]),
    ensures
        insert_spec(x, s) == s.insert(p, x),
    decreases p,
{
    if p == 0 {
        if s.len() == 0 {
            assert(s.insert(0, x) =~= seq![x]);
        } else {
            assert(s.insert(0, x) =~= seq![x] + s);
        }
    } else {
        assert(!pair_le(x, s[0]));
        assert forall|j: int| 0 <= j < p - 1 implies !pair_le(x, s.drop_first()[j]) by {
            assert(!pair_le(x, s[j + 1]));
        }
        lemma_insert_at(x, s.drop_first(), p - 1);
        assert(seq![s[0]] + s.drop_first().insert(p - 1, x) =~= s.insert(p, x));
    }
}

/// The pairs of a query in canonical order: by key, then by value.
pub fn sort_query(q: &Vec<(String, String)>) -> (r: Vec<(String, String)>)
    ensures
        pair_views(r@) == sort_spec(pair_views(q@)),
{
    let mut out: Vec<(String, String)> = Vec::new();
    let mut i: usize = 0;
    assert(pair_views(q@).subrange(0, 0) =~= seq![]);
    assert(pair_views(out@) =~= seq![]);
    while i < q.len()
        invariant
            i <= q@.len(),
            pair_views(out@) == sort_spec(pair_views(q@).subrange(0, i as int)),
        decreases q.len() - i,
    {
        let ghost s = pair_views(out@);
        let ghost x = (q@[i as int].0@, q@[i as int].1@);
        let mut p: usize = 0;
        while p < out.len()
            && !(chars_less(q[i].0.as_str(), out[p].0.as_str())
                || (crate::module::str_eq(q[i].0.as_str(), out[p].0.as_str())
                    && !chars_less(out[p].1.as_str(), q[i].1.as_str())))
            invariant
                s == pair_views(out@),
                i < q@.len(),
                x == (q@[i as int].0@, q@[i as int].1@),
                p <= out@.len(),
                forall|j: int| 0 <= j < p ==> !pair_le(x, s[j]),
            decreases out.len() - p,
        {
            p = p + 1;
        }
        proof {
            lemma_insert_at(x, s, p as int);
            let t = pair_views(q@).subrange(0, i + 1);
            assert(t.drop_last() =~= pair_views(q@).subrange(0, i as int));
            assert(t.last() == x);
        }
        let pair = (q[i].0.clone(), q[i].1.clone());
        out.insert(p, pair);
        assert(pair_views(out@) =~= s.insert(p as int, x));
        i = i + 1;
    }
    assert(pair_views(q@).subrange(0, q@.len() as int) =~= pair_views(q@));
    out
}

/// The canonical text of a query: its pairs in canonical order.
pub fn stringify_query(q: &Vec<(String, String)>) -> (r: String)
    ensures
        r@ == query_text(sort_spec(pair_views(q@))),
{
    let sorted = sort_query(q);
    render_query(&sorted)
}

pub proof fn lemma_lt_irrefl(a: Seq<char>)
    ensures
        !chars_lt(a, a),
    decreases a.len(),
{
    if a.len() > 0 {
        lemma_lt_irrefl(a.drop_first());
    }
}

proof fn lemma_lt_trans(a: Seq<char>, b: Seq<char>, c: Seq<char>)
    requires
        chars_lt(a, b),
        chars_lt(b, c),
    ensures
        chars_lt(a, c),
    decreases a.len(),
{
    if a.len() > 0 && b.len() > 0 && c.len() > 0 && a[0] == b[0] && b[0] == c[0] {
        lemma_lt_trans(a.drop_first(), b.drop_first(), c.drop_first());
    }
}

proof fn lemma_lt_total(a: Seq<char>, b: Seq<char>)
    requires
        a != b,
    ensures
        chars_lt(a, b) || chars_lt(b, a),
    decreases a.len(),
{
    if a.len() > 0 && b.len() > 0 && a[0] == b[0] {
        if a.drop_first() == b.drop_first() {
            assert(a =~= seq![a[0]] + a.drop_first());
            assert(b =~= seq![b[0]] + b.drop_first());
        }
        lemma_lt_total(a.drop_first(), b.drop_first());
    } else if a.len() == 0 && b.len() == 0 {
        assert(a =~= b);
    } else if a.len() > 0 && b.len() > 0 {
        let x = a[0];
        let y = b[0];
        assert((x as int) != (y as int));
    }
}

proof fn lemma_lt_asym(a: Seq<char>, b: Seq<char>)
    requires
        chars_lt(a, b),
    ensures
        !chars_lt(b, a),
{
    if chars_lt(b, a) {
        lemma_lt_trans(a, b, a);
        lemma_lt_irrefl(a);
    }
}

proof fn lemma_pair_total(p: (Seq<char>, Seq<char>), q: (Seq<char>, Seq<char>))
    ensures
        pair_le(p, q) || pair_le(q, p),
{
    if p.0 != q.0 {
        lemma_lt_total(p.0, q.0);
    } else if chars_lt(q.1, p.1) {
        lemma_lt_asym(q.1, p.1);
    }
}

proof fn lemma_pair_antisym(p: (Seq<char>, Seq<char>), q: (Seq<char>, Seq<char>))
    requires
        pair_le(p, q),
        pair_le(q, p),
    ensures
        p == q,
{
    lemma_lt_irrefl(p.0);
    if chars_lt(p.0, q.0) {
        lemma_lt_asym(p.0, q.0);
    } else if chars_lt(q.0, p.0) {
        lemma_lt_asym(q.0, p.0);
    } else {
        if p.1 != q.1 {
            lemma_lt_total(p.1, q.1);
        }
    }
}

proof fn lemma_pair_trans(p: (Seq<char>, Seq<char>), q: (Seq<char>, Seq<char>), r: (Seq<char>, Seq<char>))
    requires
        pair_le(p, q),
        pair_le(q, r),
    ensures
        pair_le(p, r),
{
    if chars_lt(p.0, q.0) && chars_lt(q.0, r.0) {
        lemma_lt_trans(p.0, q.0, r.0);
    } else if p.0 == q.0 && q.0 == r.0 {
        if chars_lt(r.1, p.1) {
            if p.1 != q.1 {
                lemma_lt_total(p.1, q.1);
            }
            if q.1 != r.1 {
                lemma_lt_total(q.1, r.1);
            }
            if p.1 != q.1 && q.1 != r.1 {
                lemma_lt_trans(p.1, q.1, r.1);
            }
            lemma_lt_asym(r.1, p.1);
        }
    }
}

/// Each pair is ordered before all that follow it.
pub open spec fn is_sorted(s: Seq<(Seq<char>, Seq<char>)>) -> bool {
    forall|i: int, j: int| 0 <= i < j < s.len() ==> pair_le(s[i], s[j])
}

proof fn lemma_insert_sorted(x: (Seq<char>, Seq<char>), s: Seq<(Seq<char>, Seq<char>)>)
    requires
        is_sorted(s),
    ensures
        is_sorted(insert_spec(x, s)),
        insert_spec(x, s).to_multiset() == s.to_multiset().insert(x),
    decreases s.len(),
{
    let r = insert_spec(x, s);
    if s.len() == 0 {
        assert(r =~= s.insert(0, x));
        vstd::seq_lib::to_multiset_insert(s, 0, x);
    } else if pair_le(x, s[0]) {
        assert(r =~= s.insert(0, x));
        vstd::seq_lib::to_multiset_insert(s, 0, x);
        assert forall|i: int, j: int| 0 <= i < j < r.len() implies pair_le(r[i], r[j]) by {
            if i == 0 {
                if j > 1 {
                    lemma_pair_trans(x, s[0], s[j - 1]);
                }
            }
        }
    } else {
        let rest = s.drop_first();
        lemma_insert_sorted(x, rest);
        let t = insert_spec(x, rest);
        assert(r =~= t.insert(0, s[0]));
        assert(s =~= rest.insert(0, s[0]));
        vstd::seq_lib::to_multiset_insert(t, 0, s[0]);
        vstd::seq_lib::to_multiset_insert(rest, 0, s[0]);
        assert(r.to_multiset() =~= s.to_multiset().insert(x));
        lemma_pair_total(x, s[0]);
        assert forall|i: int, j: int| 0 <= i < j < r.len() implies pair_le(r[i], r[j]) by {
            if i == 0 {
                let y = t[j - 1];
                t.to_multiset_ensures();
                rest.to_multiset_ensures();
                assert(t.contains(y));
                assert(t.to_multiset().count(y) > 0);
                if y != x {
                    assert(rest.to_multiset().count(y) > 0);
                    assert(rest.contains(y));
                    let k = choose|k: int| 0 <= k < rest.len() && rest[k] == y;
                    assert(s[k + 1] == y);
                }
            }
        }
    }
}

proof fn lemma_sort_sorted(s: Seq<(Seq<char>, Seq<char>)>)
    ensures
        is_sorted(sort_spec(s)),
        sort_spec(s).to_multiset() == s.to_multiset(),
    decreases s.len(),
{
    if s.len() > 0 {
        lemma_sort_sorted(s.drop_last());
        lemma_insert_sorted(s.last(), sort_spec(s.drop_last()));
        assert(s =~= s.drop_last().push(s.last()));
        vstd::seq_lib::to_multiset_build(s.drop_last(), s.last());
    } else {
        assert(sort_spec(s) =~= s);
    }
}

/// Two sorted sequences of pairs with the same pairs, counted with
/// multiplicity, are equal.
pub proof fn lemma_sorted_unique(a: Seq<(Seq<char>, Seq<char>)>, b: Seq<(Seq<char>, Seq<char>)>)
    requires
        is_sorted(a),
        is_sorted(b),
        a.to_multiset() == b.to_multiset(),
    ensures
        a == b,
    decreases a.len(),
{
    a.to_multiset_ensures();
    b.to_multiset_ensures();
    if a.len() == 0 {
        assert(a =~= b);
    } else {
        assert(a.to_multiset().count(a[0]) > 0) by {
            assert(a.contains(a[0]));
        }
        assert(b.contains(a[0]));
        let k = choose|k: int| 0 <= k < b.len() && b[k] == a[0];
        assert(b.len() == a.len());
        assert(b.contains(b[0]));
        assert(b.to_multiset().count(b[0]) > 0);
        assert(a.contains(b[0]));
        let m = choose|m: int| 0 <= m < a.len() && a[m] == b[0];
        if k > 0 {
            assert(pair_le(b[0], b[k]));
        } else {
            lemma_pair_total(b[0], b[0]);
        }
        if m > 0 {
            assert(pair_le(a[0], a[m]));
        } else {
            lemma_pair_total(a[0], a[0]);
        }
        lemma_pair_antisym(a[0], b[0]);
        vstd::seq_lib::to_multiset_remove(a, 0);
        vstd::seq_lib::to_multiset_remove(b, 0);
        assert(a.remove(0) =~= a.drop_first());
        assert(b.remove(0) =~= b.drop_first());
        assert forall|i: int, j: int| 0 <= i < j < a.drop_first().len() implies pair_le(
            a.drop_first()[i],
            a.drop_first()[j],
        ) by {
            assert(pair_le(a[i + 1], a[j + 1]));
        }
        assert forall|i: int, j: int| 0 <= i < j < b.drop_first().len() implies pair_le(
            b.drop_first()[i],
            b.drop_first()[j],
        ) by {
            assert(pair_le(b[i + 1], b[j + 1]));
        }
        lemma_sorted_unique(a.drop_first(), b.drop_first());
        assert(a =~= seq![a[0]] + a.drop_first());
        assert(b =~= seq![b[0]] + b.drop_first());
    }
}

/// Queries with the same pairs, in any order, have the same canonical order,
/// and so the same text.
pub proof fn lemma_query_order_irrelevant(a: Seq<(Seq<char>, Seq<char>)>, b: Seq<(Seq<char>, Seq<char>)>)
    requires
        a.to_multiset() == b.to_multiset(),
    ensures
        sort_spec(a) == sort_spec(b),
        query_text(sort_spec(a)) == query_text(sort_spec(b)),
{
    lemma_sort_sorted(a);
    lemma_sort_sorted(b);
    lemma_sorted_unique(sort_spec(a), sort_spec(b));
}

} // verus!
