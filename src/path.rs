use vstd::prelude::*;
use relative_path::RelativePath;

verus! {

/// Splits `s` at '/', leaving out empty pieces; `cur` is the piece read so far.
pub open spec fn split_acc(s: Seq<char>, cur: Seq<char>) -> Seq<Seq<char>>
    decreases s.len(),
{
    if s.len() == 0 {
        if cur.len() == 0 { seq![] } else { seq![cur] }
    } else if s[0] == '/' {
        let rest = split_acc(s.drop_first(), seq![]);
        if cur.len() == 0 { rest } else { seq![cur] + rest }
    } else {
        split_acc(s.drop_first(), cur.push(s[0]))
    }
}

/// The components of a path: its pieces between '/' separators, empty ones left out.
pub open spec fn components(s: Seq<char>) -> Seq<Seq<char>> {
    split_acc(s, seq![])
}

/// A component as it can stand in a path: not empty, and without '/'.
pub open spec fn is_segment(c: Seq<char>) -> bool {
    c.len() > 0 && !c.contains('/')
}

pub open spec fn dot() -> Seq<char> {
    seq!['.']
}

pub open spec fn dot_dot() -> Seq<char> {
    seq!['.', '.']
}

/// A segment that names a directory entry, neither "." nor "..".
pub open spec fn is_normal(c: Seq<char>) -> bool {
    is_segment(c) && c != dot() && c != dot_dot()
}

/// "/c0/c1/.../cn"
pub open spec fn abs_join(cs: Seq<Seq<char>>) -> Seq<char>
    decreases cs.len(),
{
    if cs.len() == 0 {
        seq![]
    } else {
        seq!['/'] + cs[0] + abs_join(cs.drop_first())
    }
}

/// "c0/c1/.../cn"
pub open spec fn rel_join(cs: Seq<Seq<char>>) -> Seq<char> {
    if cs.len() == 0 {
        seq![]
    } else {
        cs[0] + abs_join(cs.drop_first())
    }
}

/// An absolute path in plain form: '/' followed by normal components joined by
/// single '/', with at least one component.
pub open spec fn is_clean_abs(s: Seq<char>) -> bool {
    let cs = components(s);
    &&& cs.len() >= 1
    &&& s == abs_join(cs)
    &&& forall|i: int| 0 <= i < cs.len() ==> is_normal(#[trigger] cs[i])
}

/// The length of the longest common prefix of two component lists.
pub open spec fn common_len(a: Seq<Seq<char>>, b: Seq<Seq<char>>) -> nat
    decreases a.len(),
{
    if a.len() == 0 || b.len() == 0 || a[0] != b[0] {
        0
    } else {
        1 + common_len(a.drop_first(), b.drop_first())
    }
}

/// The components of the path that leads from directory `from` to `to`:
/// one ".." for each component of `from` past the common prefix, then the rest of `to`.
pub open spec fn relative_components(from: Seq<Seq<char>>, to: Seq<Seq<char>>) -> Seq<Seq<char>> {
    let k = common_len(from, to) as int;
    Seq::new((from.len() - k) as nat, |i: int| dot_dot()) + to.subrange(k, to.len() as int)
}

/// The path of `to` relative to the directory `from`.
pub open spec fn relative_spec(from: Seq<char>, to: Seq<char>) -> Seq<char> {
    rel_join(relative_components(components(from), components(to)))
}

/// Applies relative components to a stack of directory components: "." is
/// skipped, ".." drops the last one, anything else is pushed. `None` where a
/// ".." would leave the stack empty.
pub open spec fn logical(stack: Seq<Seq<char>>, rel: Seq<Seq<char>>) -> Option<Seq<Seq<char>>>
    decreases rel.len(),
{
    if rel.len() == 0 {
        Some(stack)
    } else if rel[0] == dot() {
        logical(stack, rel.drop_first())
    } else if rel[0] == dot_dot() {
        if stack.len() <= 1 {
            None
        } else {
            logical(stack.drop_last(), rel.drop_first())
        }
    } else {
        logical(stack.push(rel[0]), rel.drop_first())
    }
}

proof fn lemma_split_segment(c: Seq<char>, t: Seq<char>, cur: Seq<char>)
    requires
        !c.contains('/'),
    ensures
        split_acc(c + t, cur) == split_acc(t, cur + c),
    decreases c.len(),
{
    if c.len() == 0 {
        assert(c + t =~= t);
        assert(cur + c =~= cur);
    } else {
        let s = c + t;
        assert(s[0] == c[0]);
        assert(s.drop_first() =~= c.drop_first() + t);
        assert(!c.drop_first().contains('/')) by {
            if c.drop_first().contains('/') {
                let j = choose|j: int| 0 <= j < c.drop_first().len() && c.drop_first()[j] == '/';
                assert(c[j + 1] == '/');
            }
        }
        assert(c[0] != '/') by {
            if c[0] == '/' {
                assert(c.contains('/'));
            }
        }
        lemma_split_segment(c.drop_first(), t, cur.push(c[0]));
        assert(cur.push(c[0]) + c.drop_first() =~= cur + c);
    }
}

proof fn lemma_split_abs_join(cs: Seq<Seq<char>>, cur: Seq<char>)
    requires
        forall|i: int| 0 <= i < cs.len() ==> is_segment(#[trigger] cs[i]),
    ensures
        split_acc(abs_join(cs), cur) == (if cur.len() == 0 { cs } else { seq![cur] + cs }),
    decreases cs.len(),
{
    if cs.len() == 0 {
        assert(cs =~= seq![]);
        assert(seq![cur] + cs =~= seq![cur]);
    } else {
        let rest = cs.drop_first();
        let s = abs_join(cs);
        assert(s =~= seq!['/'] + (cs[0] + abs_join(rest)));
        assert(s[0] == '/');
        assert(s.drop_first() =~= cs[0] + abs_join(rest));
        assert(is_segment(cs[0]));
        lemma_split_segment(cs[0], abs_join(rest), seq![]);
        assert(seq![] + cs[0] =~= cs[0]);
        lemma_split_abs_join(rest, cs[0]);
        assert(seq![cs[0]] + rest =~= cs);
        assert(seq![cur] + (seq![cs[0]] + rest) =~= seq![cur] + cs);
    }
}

/// The components of a joined list are the list itself.
pub proof fn lemma_components_join(cs: Seq<Seq<char>>)
    requires
        forall|i: int| 0 <= i < cs.len() ==> is_segment(#[trigger] cs[i]),
    ensures
        components(abs_join(cs)) == cs,
        components(rel_join(cs)) == cs,
{
    lemma_split_abs_join(cs, seq![]);
    if cs.len() > 0 {
        let rest = cs.drop_first();
        lemma_split_segment(cs[0], abs_join(rest), seq![]);
        assert(seq![] + cs[0] =~= cs[0]);
        lemma_split_abs_join(rest, cs[0]);
        assert(seq![cs[0]] + rest =~= cs);
    }
}

proof fn lemma_abs_join_push(cs: Seq<Seq<char>>, c: Seq<char>)
    ensures
        abs_join(cs.push(c)) == abs_join(cs) + seq!['/'] + c,
    decreases cs.len(),
{
    if cs.len() == 0 {
        assert(cs.push(c).drop_first() =~= seq![]);
        assert(abs_join(cs.push(c).drop_first()) =~= seq![]);
        assert(abs_join(cs.push(c)) =~= seq!['/'] + c);
        assert(abs_join(cs) + seq!['/'] + c =~= seq!['/'] + c);
    } else {
        assert(cs.push(c).drop_first() =~= cs.drop_first().push(c));
        lemma_abs_join_push(cs.drop_first(), c);
        assert(abs_join(cs.push(c)) =~= abs_join(cs) + seq!['/'] + c);
    }
}

proof fn lemma_rel_join_push(cs: Seq<Seq<char>>, c: Seq<char>)
    ensures
        rel_join(cs.push(c)) == (if cs.len() == 0 { c } else { rel_join(cs) + seq!['/'] + c }),
{
    if cs.len() == 0 {
        assert(cs.push(c).drop_first() =~= seq![]);
        assert(abs_join(cs.push(c).drop_first()) =~= seq![]);
        assert(rel_join(cs.push(c)) =~= c);
    } else {
        assert(cs.push(c).drop_first() =~= cs.drop_first().push(c));
        lemma_abs_join_push(cs.drop_first(), c);
        assert(rel_join(cs.push(c)) =~= rel_join(cs) + seq!['/'] + c);
    }
}

pub open spec fn views(v: Seq<String>) -> Seq<Seq<char>> {
    v.map_values(|x: String| x@)
}

/// Splits a path into its components.
pub fn split_components(s: &str) -> (r: Vec<String>)
    ensures
        views(r@) == components(s@),
{
    let n = s.unicode_len();
    let mut out: Vec<String> = Vec::new();
    let mut start: usize = 0;
    let mut i: usize = 0;
    assert(s@.subrange(0, n as int) =~= s@);
    assert(s@.subrange(0, 0) =~= seq![]);
    assert(views(out@) =~= seq![]);
    assert(views(out@) + components(s@) =~= components(s@));
    while i < n
        invariant
            n == s@.len(),
            start <= i <= n,
            views(out@) + split_acc(s@.subrange(i as int, n as int), s@.subrange(start as int, i as int))
                == components(s@),
        decreases n - i,
    {
        let ghost rest = s@.subrange(i as int, n as int);
        let ghost cur = s@.subrange(start as int, i as int);
        assert(rest[0] == s@[i as int]);
        assert(rest.drop_first() =~= s@.subrange(i + 1, n as int));
        let c = s.get_char(i);
        if c == '/' {
            if start < i {
                let piece = String::from_str(s.substring_char(start, i));
                let ghost before = out@;
                out.push(piece);
                assert(views(out@) =~= views(before).push(cur)) by {
                    assert(views(out@).len() == views(before).len() + 1);
                }
                assert(views(before) + (seq![cur] + split_acc(rest.drop_first(), seq![]))
                    =~= views(out@) + split_acc(rest.drop_first(), seq![]));
            }
            start = i + 1;
            assert(s@.subrange(start as int, (i + 1) as int) =~= seq![]);
        } else {
            assert(cur.push(c) =~= s@.subrange(start as int, (i + 1) as int));
        }
        i = i + 1;
    }
    let ghost cur = s@.subrange(start as int, n as int);
    assert(s@.subrange(n as int, n as int).len() == 0);
    if start < n {
        let piece = String::from_str(s.substring_char(start, n));
        let ghost before = out@;
        out.push(piece);
        assert(views(out@) =~= views(before).push(cur)) by {
            assert(views(out@).len() == views(before).len() + 1);
        }
        assert(views(before) + seq![cur] =~= views(out@));
    } else {
        assert(views(out@) + seq![] =~= views(out@));
    }
    out
}

proof fn lemma_common_len(a: Seq<Seq<char>>, b: Seq<Seq<char>>, k: int)
    requires
        0 <= k <= a.len(),
        k <= b.len(),
        forall|j: int| 0 <= j < k ==> a[j] == b[j],
        k == a.len() || k == b.len() || a[k] != b[k],
    ensures
        common_len(a, b) == k,
    decreases k,
{
    if k > 0 {
        assert(a[0] == b[0]);
        assert forall|j: int| 0 <= j < k - 1 implies a.drop_first()[j] == b.drop_first()[j] by {
            assert(a[j + 1] == b[j + 1]);
        }
        lemma_common_len(a.drop_first(), b.drop_first(), k - 1);
    }
}

/// The path of `to` relative to the directory `from`, both split at '/'.
pub fn relative(from: &str, to: &str) -> (r: String)
    ensures
        r@ == relative_spec(from@, to@),
{
    let fc = split_components(from);
    let tc = split_components(to);
    let ghost a = views(fc@);
    let ghost b = views(tc@);
    let mut k: usize = 0;
    while k < fc.len() && k < tc.len() && fc[k] == tc[k]
        invariant
            a == views(fc@),
            b == views(tc@),
            k <= fc@.len(),
            k <= tc@.len(),
            forall|j: int| 0 <= j < k ==> a[j] == b[j],
        decreases fc.len() - k,
    {
        assert(a[k as int] == fc@[k as int]@);
        k = k + 1;
    }
    proof {
        lemma_common_len(a, b, k as int);
    }
    let ghost target = relative_components(a, b);
    let mut out = String::new();
    let ghost mut parts: Seq<Seq<char>> = seq![];
    let mut j: usize = k;
    while j < fc.len()
        invariant
            a == views(fc@),
            k <= j <= fc@.len(),
            parts.len() == j - k,
            out@ == rel_join(parts),
            forall|t: int| 0 <= t < parts.len() ==> parts[t] == dot_dot(),
        decreases fc.len() - j,
    {
        proof {
            reveal_strlit("/");
            reveal_strlit("..");
            lemma_rel_join_push(parts, dot_dot());
        }
        if j > k {
            out.append("/");
        }
        out.append("..");
        proof {
            parts = parts.push(dot_dot());
        }
        j = j + 1;
    }
    let mut j: usize = k;
    while j < tc.len()
        invariant
            a == views(fc@),
            b == views(tc@),
            k <= fc@.len(),
            k <= j <= tc@.len(),
            parts.len() == a.len() - k + (j - k),
            out@ == rel_join(parts),
            parts == target.subrange(0, parts.len() as int),
            target == relative_components(a, b),
            common_len(a, b) == k,
        decreases tc.len() - j,
    {
        proof {
            reveal_strlit("/");
            lemma_rel_join_push(parts, b[j as int]);
        }
        if j > k || fc.len() > k {
            out.append("/");
        }
        out.append(tc[j].as_str());
        proof {
            parts = parts.push(b[j as int]);
        }
        j = j + 1;
    }
    assert(parts =~= target);
    out
}

/// The path that relative_path's `RelativePath::to_logical_path` gives for a
/// relative path joined onto a base, on Unix targets.
pub uninterp spec fn logical_path_of(rel: Seq<char>, base: Seq<char>) -> Seq<char>;

/// Relies on relative_path's `RelativePath::to_logical_path`, on Unix targets
/// (where the separator it appends is '/'): the result depends on the two
/// texts alone; starting from `base`, each component of `rel` is applied in
/// turn; "." is skipped, ".." drops the last component of the path so far, any
/// other is appended after a '/'. That much is stated where `base` is a plain
/// absolute path and no ".." reaches the file system root.
#[verifier::external_body]
pub(crate) fn logical_join(rel: &str, base: &str) -> (r: String)
    ensures
        r@ == logical_path_of(rel@, base@),
        is_clean_abs(base@) && logical(components(base@), components(rel@)) is Some
            ==> r@ == abs_join(logical(components(base@), components(rel@))->0),
{
    RelativePath::new(rel).to_logical_path(base).to_string_lossy().to_string()
}

proof fn lemma_logical_pops(stack: Seq<Seq<char>>, m: nat, t: Seq<Seq<char>>)
    requires
        stack.len() >= m + 1,
    ensures
        logical(stack, Seq::new(m, |i: int| dot_dot()) + t)
            == logical(stack.subrange(0, stack.len() - m), t),
    decreases m,
{
    let d = Seq::new(m, |i: int| dot_dot());
    if m == 0 {
        assert(d + t =~= t);
        assert(stack.subrange(0, stack.len() as int) =~= stack);
    } else {
        let s = d + t;
        assert(s[0] == dot_dot());
        assert(dot_dot() != dot()) by {
            assert(dot_dot().len() != dot().len());
        }
        let d1 = Seq::new((m - 1) as nat, |i: int| dot_dot());
        assert(s.drop_first() =~= d1 + t);
        lemma_logical_pops(stack.drop_last(), (m - 1) as nat, t);
        assert(stack.drop_last().subrange(0, stack.drop_last().len() - (m - 1))
            =~= stack.subrange(0, stack.len() - m));
    }
}

proof fn lemma_logical_normal(stack: Seq<Seq<char>>, t: Seq<Seq<char>>)
    requires
        forall|i: int| 0 <= i < t.len() ==> is_normal(#[trigger] t[i]),
    ensures
        logical(stack, t) == Some(stack + t),
    decreases t.len(),
{
    if t.len() == 0 {
        assert(stack + t =~= stack);
    } else {
        assert(is_normal(t[0]));
        assert forall|i: int| 0 <= i < t.drop_first().len() implies is_normal(#[trigger] t.drop_first()[i]) by {
            assert(is_normal(t[i + 1]));
        }
        lemma_logical_normal(stack.push(t[0]), t.drop_first());
        assert(stack.push(t[0]) + t.drop_first() =~= stack + t);
    }
}

/// Joining the relative path from `root` to `p` back onto `root` gives the
/// components of `p`, where both are plain absolute paths that share their
/// first component.
pub proof fn lemma_relative_then_logical(p: Seq<char>, root: Seq<char>)
    requires
        is_clean_abs(p),
        is_clean_abs(root),
        common_len(components(root), components(p)) >= 1,
    ensures
        logical(components(root), components(relative_spec(root, p))) == Some(components(p)),
{
    let a = components(root);
    let b = components(p);
    let k = common_len(a, b) as int;
    lemma_common_prefix(a, b);
    let rc = relative_components(a, b);
    let tail = b.subrange(k, b.len() as int);
    let m = (a.len() - k) as nat;
    assert(rc == Seq::new(m, |i: int| dot_dot()) + tail);
    assert forall|i: int| 0 <= i < rc.len() implies is_segment(#[trigger] rc[i]) by {
        if i < m {
            assert(rc[i] == dot_dot());
            assert(!dot_dot().contains('/')) by {
                if dot_dot().contains('/') {
                    let j = choose|j: int| 0 <= j < dot_dot().len() && dot_dot()[j] == '/';
                }
            }
        } else {
            assert(rc[i] == b[i - m + k]);
            assert(is_normal(b[i - m + k]));
        }
    }
    lemma_components_join(rc);
    lemma_logical_pops(a, m, tail);
    assert forall|i: int| 0 <= i < tail.len() implies is_normal(#[trigger] tail[i]) by {
        assert(tail[i] == b[i + k]);
    }
    lemma_logical_normal(a.subrange(0, k), tail);
    assert(a.subrange(0, k) + tail =~= b);
}

proof fn lemma_common_prefix(a: Seq<Seq<char>>, b: Seq<Seq<char>>)
    ensures
        common_len(a, b) <= a.len(),
        common_len(a, b) <= b.len(),
        forall|j: int| 0 <= j < common_len(a, b) ==> a[j] == b[j],
    decreases a.len(),
{
    if !(a.len() == 0 || b.len() == 0 || a[0] != b[0]) {
        lemma_common_prefix(a.drop_first(), b.drop_first());
        assert forall|j: int| 0 <= j < common_len(a, b) implies a[j] == b[j] by {
            if j > 0 {
                assert(a.drop_first()[j - 1] == b.drop_first()[j - 1]);
            }
        }
    }
}

} // verus!
