//! The combined environment display string: explicit KEY=VALUE pairs
//! sorted by key, then passthrough variable names sorted, joined with
//! commas, or a dash when there is nothing to show.

use vstd::prelude::*;

verus! {

use vstd::relations::{sorted_by, total_ordering};
use vstd::seq_lib::lemma_sorted_unique;
use crate::json::str_eq;

/// Lexicographic order on character sequences, by code point.
pub open spec fn lex_le(a: Seq<char>, b: Seq<char>) -> bool
    decreases a.len(),
{
    if a.len() == 0 {
        true
    } else if b.len() == 0 {
        false
    } else if a[0] != b[0] {
        a[0] < b[0]
    } else {
        lex_le(a.drop_first(), b.drop_first())
    }
}

/// The order as a value, for `sorted_by` and `sort_by`.
pub open spec fn lex_le_fn() -> spec_fn(Seq<char>, Seq<char>) -> bool {
    |a: Seq<char>, b: Seq<char>| lex_le(a, b)
}

/// Pairs ordered by key, ties broken by value.
pub open spec fn pair_le(x: (Seq<char>, Seq<char>), y: (Seq<char>, Seq<char>)) -> bool {
    if x.0 != y.0 {
        lex_le(x.0, y.0)
    } else {
        lex_le(x.1, y.1)
    }
}

/// The pair order as a value.
pub open spec fn pair_le_fn() -> spec_fn((Seq<char>, Seq<char>), (Seq<char>, Seq<char>)) -> bool {
    |x: (Seq<char>, Seq<char>), y: (Seq<char>, Seq<char>)| pair_le(x, y)
}

/// One of two sequences always precedes the other.
proof fn lemma_lex_le_total(a: Seq<char>, b: Seq<char>)
    ensures
        lex_le(a, b) || lex_le(b, a),
    decreases a.len(),
{
    if a.len() > 0 && b.len() > 0 && a[0] == b[0] {
        lemma_lex_le_total(a.drop_first(), b.drop_first());
    }
}

/// Mutual precedence means equality.
proof fn lemma_lex_le_antisym(a: Seq<char>, b: Seq<char>)
    requires
        lex_le(a, b),
        lex_le(b, a),
    ensures
        a == b,
    decreases a.len(),
{
    if a.len() == 0 {
        assert(b.len() == 0);
        assert(a =~= b);
    } else {
        assert(b.len() > 0);
        assert(a[0] == b[0]);
        lemma_lex_le_antisym(a.drop_first(), b.drop_first());
        assert(a.drop_first().len() == a.len() - 1);
        assert(b.drop_first().len() == b.len() - 1);
        assert(a.len() == b.len());
        assert forall|j: int| 0 <= j < a.len() implies a[j] == b[j] by {
            if j >= 1 {
                assert(a.drop_first()[j - 1] == b.drop_first()[j - 1]);
                assert(a.drop_first()[j - 1] == a[j]);
                assert(b.drop_first()[j - 1] == b[j]);
            }
        }
        assert(a =~= b);
    }
}

/// Precedence is transitive.
proof fn lemma_lex_le_trans(a: Seq<char>, b: Seq<char>, c: Seq<char>)
    requires
        lex_le(a, b),
        lex_le(b, c),
    ensures
        lex_le(a, c),
    decreases a.len(),
{
    if a.len() > 0 && b.len() > 0 && c.len() > 0 {
        if a[0] == b[0] && b[0] == c[0] {
            lemma_lex_le_trans(a.drop_first(), b.drop_first(), c.drop_first());
        }
    }
}

/// The string order is a total order.
pub proof fn lemma_lex_le_total_ordering()
    ensures
        total_ordering(lex_le_fn()),
{
    assert forall|a: Seq<char>| #[trigger] lex_le_fn()(a, a) by {
        lemma_lex_le_total(a, a);
    }
    assert forall|a: Seq<char>, b: Seq<char>|
        #[trigger] lex_le_fn()(a, b) && #[trigger] lex_le_fn()(b, a) implies a == b by {
        lemma_lex_le_antisym(a, b);
    }
    assert forall|a: Seq<char>, b: Seq<char>, c: Seq<char>|
        #[trigger] lex_le_fn()(a, b) && #[trigger] lex_le_fn()(b, c) implies lex_le_fn()(a, c) by {
        lemma_lex_le_trans(a, b, c);
    }
    assert forall|a: Seq<char>, b: Seq<char>| #[trigger] lex_le_fn()(a, b) || #[trigger] lex_le_fn()(
        b,
        a,
    ) by {
        lemma_lex_le_total(a, b);
    }
}

/// The pair order is a total order.
pub proof fn lemma_pair_le_total_ordering()
    ensures
        total_ordering(pair_le_fn()),
{
    assert forall|x: (Seq<char>, Seq<char>)| #[trigger] pair_le_fn()(x, x) by {
        lemma_lex_le_total(x.1, x.1);
    }
    assert forall|x: (Seq<char>, Seq<char>), y: (Seq<char>, Seq<char>)|
        #[trigger] pair_le_fn()(x, y) && #[trigger] pair_le_fn()(y, x) implies x == y by {
        if x.0 != y.0 {
            lemma_lex_le_antisym(x.0, y.0);
        } else {
            lemma_lex_le_antisym(x.1, y.1);
        }
    }
    assert forall|x: (Seq<char>, Seq<char>), y: (Seq<char>, Seq<char>), z: (Seq<char>, Seq<char>)|
        #[trigger] pair_le_fn()(x, y) && #[trigger] pair_le_fn()(y, z) implies pair_le_fn()(
        x,
        z,
    ) by {
        if x.0 == y.0 && y.0 == z.0 {
            lemma_lex_le_trans(x.1, y.1, z.1);
        } else if x.0 == y.0 {
            assert(lex_le(y.0, z.0));
        } else if y.0 == z.0 {
            assert(lex_le(x.0, y.0));
        } else {
            lemma_lex_le_trans(x.0, y.0, z.0);
            if x.0 == z.0 {
                lemma_lex_le_antisym(x.0, y.0);
            }
        }
    }
    assert forall|x: (Seq<char>, Seq<char>), y: (Seq<char>, Seq<char>)|
        #[trigger] pair_le_fn()(x, y) || #[trigger] pair_le_fn()(y, x) by {
        if x.0 == y.0 {
            lemma_lex_le_total(x.1, y.1);
        } else {
            lemma_lex_le_total(x.0, y.0);
        }
    }
}

/// A common prefix shifts the comparison along.
proof fn lemma_lex_le_skip(a: Seq<char>, b: Seq<char>, i: int)
    requires
        0 <= i <= a.len(),
        i <= b.len(),
        forall|j: int| 0 <= j < i ==> a[j] == b[j],
    ensures
        lex_le(a, b) == lex_le(a.skip(i), b.skip(i)),
    decreases i,
{
    if i == 0 {
        assert(a.skip(0) =~= a);
        assert(b.skip(0) =~= b);
    } else {
        assert(a.len() > 0 && b.len() > 0 && a[0] == b[0]);
        assert(a.drop_first() =~= a.skip(1));
        assert(b.drop_first() =~= b.skip(1));
        assert(a.skip(1).skip(i - 1) =~= a.skip(i));
        assert(b.skip(1).skip(i - 1) =~= b.skip(i));
        lemma_lex_le_skip(a.skip(1), b.skip(1), i - 1);
        assert(forall|j: int| 0 <= j < i - 1 ==> a.skip(1)[j] == b.skip(1)[j]);
    }
}

/// String precedence, character by character.
fn str_lex_le(a: &str, b: &str) -> (r: bool)
    ensures
        r == lex_le(a@, b@),
{
    let an = a.unicode_len();
    let bn = b.unicode_len();
    let m = if an <= bn {
        an
    } else {
        bn
    };
    let mut i: usize = 0;
    while i < m
        invariant
            an == a@.len(),
            bn == b@.len(),
            m == (if an <= bn {
                an
            } else {
                bn
            }),
            i <= m,
            forall|j: int| 0 <= j < i ==> a@[j] == b@[j],
        decreases m - i,
    {
        let ca = a.get_char(i);
        let cb = b.get_char(i);
        if ca != cb {
            proof {
                lemma_lex_le_skip(a@, b@, i as int);
                assert(a@.skip(i as int)[0] == a@[i as int]);
                assert(b@.skip(i as int)[0] == b@[i as int]);
            }
            return ca < cb;
        }
        i = i + 1;
    }
    proof {
        lemma_lex_le_skip(a@, b@, m as int);
        if an <= bn {
            assert(a@.skip(m as int).len() == 0);
        } else {
            assert(b@.skip(m as int).len() == 0);
            assert(a@.skip(m as int).len() > 0);
        }
    }
    an <= bn
}

/// Pair precedence over owned strings.
fn string_pair_le(x: &(String, String), y: &(String, String)) -> (r: bool)
    ensures
        r == pair_le(x.deep_view(), y.deep_view()),
{
    if str_eq(x.0.as_str(), y.0.as_str()) {
        str_lex_le(x.1.as_str(), y.1.as_str())
    } else {
        str_lex_le(x.0.as_str(), y.0.as_str())
    }
}

/// A copy of a pair of strings, equal under the view.
fn clone_pair(p: &(String, String)) -> (r: (String, String))
    ensures
        r.deep_view() == p.deep_view(),
{
    (p.0.clone(), p.1.clone())
}

/// Sort KEY=VALUE pairs by key, ties by value: the unique sorted
/// arrangement of the input.
fn sort_pairs(input: &Vec<(String, String)>) -> (out: Vec<(String, String)>)
    ensures
        out.deep_view() == input.deep_view().sort_by(pair_le_fn()),
{
    broadcast use vstd::seq_lib::to_multiset_insert;
    broadcast use vstd::seq_lib::to_multiset_build;

    let ghost leq = pair_le_fn();
    let mut out: Vec<(String, String)> = Vec::new();
    let n = input.len();
    let mut i: usize = 0;
    proof {
        assert(out.deep_view() =~= Seq::<(Seq<char>, Seq<char>)>::empty());
        assert(input.deep_view().take(0) =~= Seq::<(Seq<char>, Seq<char>)>::empty());
        assert(out.deep_view().to_multiset() =~= input.deep_view().take(0).to_multiset());
    }
    while i < n
        invariant
            n == input@.len(),
            i <= n,
            leq == pair_le_fn(),
            sorted_by(out.deep_view(), leq),
            out.deep_view().to_multiset() == input.deep_view().take(i as int).to_multiset(),
        decreases n - i,
    {
        let x = clone_pair(&input[i]);
        let ghost xv = x.deep_view();
        proof {
            assert(xv == input.deep_view()[i as int]);
        }
        let ghost before = out.deep_view();
        let m = out.len();
        let mut p: usize = m;
        let mut k: usize = 0;
        while k < m
            invariant
                m == out@.len(),
                before == out.deep_view(),
                xv == x.deep_view(),
                k <= m,
                p <= m,
                p == m ==> forall|j: int| 0 <= j < k ==> pair_le(#[trigger] before[j], xv),
                p < m ==> p < k && !pair_le(before[p as int], xv) && (forall|j: int|
                    0 <= j < p ==> pair_le(#[trigger] before[j], xv)),
            decreases m - k,
        {
            if p == m {
                let le = string_pair_le(&out[k], &x);
                proof {
                    assert(out[k as int].deep_view() == before[k as int]);
                }
                if !le {
                    p = k;
                }
            }
            k = k + 1;
        }
        out.insert(p, x);
        proof {
            before.insert_ensures(p as int, xv);
            assert(out.deep_view() =~= before.insert(p as int, xv));
            let now = out.deep_view();
            if p < m {
                lemma_lex_le_total(before[p as int].0, xv.0);
                lemma_lex_le_total(before[p as int].1, xv.1);
                assert(pair_le(xv, before[p as int]));
            }
            assert forall|u: int, w: int| 0 <= u < w < now.len() implies leq(
                #[trigger] now[u],
                #[trigger] now[w],
            ) by {
                if u < p && w < p {
                    assert(leq(before[u], before[w]));
                } else if u < p && w == p {
                    assert(pair_le(before[u], xv));
                } else if u < p && w > p {
                    assert(leq(before[u], before[w - 1]));
                } else if u == p && w > p {
                    if w - 1 == p {
                        assert(pair_le(xv, before[p as int]));
                    } else {
                        assert(leq(before[p as int], before[w - 1]));
                        assert(pair_le(xv, before[p as int]));
                        if xv.0 == before[p as int].0 && before[p as int].0 == before[w - 1].0 {
                            lemma_lex_le_trans(xv.1, before[p as int].1, before[w - 1].1);
                        } else if xv.0 == before[p as int].0 {
                        } else if before[p as int].0 == before[w - 1].0 {
                        } else {
                            lemma_lex_le_trans(xv.0, before[p as int].0, before[w - 1].0);
                            if xv.0 == before[w - 1].0 {
                                lemma_lex_le_antisym(xv.0, before[p as int].0);
                            }
                        }
                    }
                } else {
                    assert(u > p && w > p);
                    assert(leq(before[u - 1], before[w - 1]));
                }
            }
            assert(sorted_by(now, leq));
            vstd::seq_lib::to_multiset_insert(before, p as int, xv);
            assert(now.to_multiset() =~= before.to_multiset().insert(xv));
            let pre = input.deep_view().take(i as int);
            assert(input.deep_view().take(i + 1) =~= pre.push(xv));
            vstd::seq_lib::to_multiset_build(pre, xv);
            assert(pre.push(xv).to_multiset() =~= pre.to_multiset().insert(xv));
            assert(now.to_multiset() =~= input.deep_view().take(i + 1).to_multiset());
        }
        i = i + 1;
    }
    proof {
        lemma_pair_le_total_ordering();
        assert(input.deep_view().take(n as int) =~= input.deep_view());
        input.deep_view().lemma_sort_by_ensures(leq);
        lemma_sorted_unique(out.deep_view(), input.deep_view().sort_by(leq), leq);
        assert(out.deep_view() =~= input.deep_view().sort_by(leq));
    }
    out
}

/// Sort variable names: the unique sorted arrangement of the input.
fn sort_strings(input: &Vec<String>) -> (out: Vec<String>)
    ensures
        out.deep_view() == input.deep_view().sort_by(lex_le_fn()),
{
    broadcast use vstd::seq_lib::to_multiset_insert;
    broadcast use vstd::seq_lib::to_multiset_build;

    let ghost leq = lex_le_fn();
    let mut out: Vec<String> = Vec::new();
    let n = input.len();
    let mut i: usize = 0;
    proof {
        assert(out.deep_view() =~= Seq::<Seq<char>>::empty());
        assert(input.deep_view().take(0) =~= Seq::<Seq<char>>::empty());
        assert(out.deep_view().to_multiset() =~= input.deep_view().take(0).to_multiset());
    }
    while i < n
        invariant
            n == input@.len(),
            i <= n,
            leq == lex_le_fn(),
            sorted_by(out.deep_view(), leq),
            out.deep_view().to_multiset() == input.deep_view().take(i as int).to_multiset(),
        decreases n - i,
    {
        let x = input[i].clone();
        let ghost xv = x@;
        proof {
            assert(xv == input.deep_view()[i as int]);
        }
        let ghost before = out.deep_view();
        let m = out.len();
        let mut p: usize = m;
        let mut k: usize = 0;
        while k < m
            invariant
                m == out@.len(),
                before == out.deep_view(),
                xv == x@,
                k <= m,
                p <= m,
                p == m ==> forall|j: int| 0 <= j < k ==> lex_le(#[trigger] before[j], xv),
                p < m ==> p < k && !lex_le(before[p as int], xv) && (forall|j: int|
                    0 <= j < p ==> lex_le(#[trigger] before[j], xv)),
            decreases m - k,
        {
            if p == m {
                let le = str_lex_le(out[k].as_str(), x.as_str());
                proof {
                    assert(out[k as int].deep_view() == before[k as int]);
                }
                if !le {
                    p = k;
                }
            }
            k = k + 1;
        }
        out.insert(p, x);
        proof {
            before.insert_ensures(p as int, xv);
            assert(out.deep_view() =~= before.insert(p as int, xv));
            let now = out.deep_view();
            if p < m {
                lemma_lex_le_total(before[p as int], xv);
                assert(lex_le(xv, before[p as int]));
            }
            assert forall|u: int, w: int| 0 <= u < w < now.len() implies leq(
                #[trigger] now[u],
                #[trigger] now[w],
            ) by {
                if u < p && w < p {
                    assert(leq(before[u], before[w]));
                } else if u < p && w == p {
                    assert(lex_le(before[u], xv));
                } else if u < p && w > p {
                    assert(leq(before[u], before[w - 1]));
                } else if u == p && w > p {
                    if w - 1 == p {
                        assert(lex_le(xv, before[p as int]));
                    } else {
                        assert(leq(before[p as int], before[w - 1]));
                        lemma_lex_le_trans(xv, before[p as int], before[w - 1]);
                    }
                } else {
                    assert(u > p && w > p);
                    assert(leq(before[u - 1], before[w - 1]));
                }
            }
            assert(sorted_by(now, leq));
            vstd::seq_lib::to_multiset_insert(before, p as int, xv);
            assert(now.to_multiset() =~= before.to_multiset().insert(xv));
            let pre = input.deep_view().take(i as int);
            assert(input.deep_view().take(i + 1) =~= pre.push(xv));
            vstd::seq_lib::to_multiset_build(pre, xv);
            assert(pre.push(xv).to_multiset() =~= pre.to_multiset().insert(xv));
            assert(now.to_multiset() =~= input.deep_view().take(i + 1).to_multiset());
        }
        i = i + 1;
    }
    proof {
        lemma_lex_le_total_ordering();
        assert(input.deep_view().take(n as int) =~= input.deep_view());
        input.deep_view().lemma_sort_by_ensures(leq);
        lemma_sorted_unique(out.deep_view(), input.deep_view().sort_by(leq), leq);
        assert(out.deep_view() =~= input.deep_view().sort_by(leq));
    }
    out
}

/// One explicit pair's display form: `KEY=VALUE`.
pub open spec fn env_pair_part(p: (Seq<char>, Seq<char>)) -> Seq<char> {
    p.0 + "="@ + p.1
}

/// One passthrough variable's display form: `$NAME`.
pub open spec fn var_part(v: Seq<char>) -> Seq<char> {
    "$"@ + v
}

/// Later parts, each preceded by a comma separator.
pub open spec fn rest_join(parts: Seq<Seq<char>>) -> Seq<char>
    decreases parts.len(),
{
    if parts.len() == 0 {
        Seq::<char>::empty()
    } else {
        ", "@ + parts[0] + rest_join(parts.drop_first())
    }
}

/// All parts joined with commas.
pub open spec fn join_parts(parts: Seq<Seq<char>>) -> Seq<char> {
    if parts.len() == 0 {
        Seq::<char>::empty()
    } else {
        parts[0] + rest_join(parts.drop_first())
    }
}

/// The display string for sorted pairs and sorted names: their parts
/// joined with commas, or a dash when there is nothing to show.
pub open spec fn spec_env_display(pairs: Seq<(Seq<char>, Seq<char>)>, vars: Seq<Seq<char>>) -> Seq<
    char,
> {
    let parts = Seq::new(pairs.len(), |i: int| env_pair_part(pairs[i])) + Seq::new(
        vars.len(),
        |i: int| var_part(vars[i]),
    );
    if parts.len() == 0 {
        "-"@
    } else {
        join_parts(parts)
    }
}

/// The pairs an optional map stands for: none means no pairs.
pub open spec fn spec_env_pairs(env: Option<&Vec<(String, String)>>) -> Seq<(Seq<char>, Seq<char>)> {
    match env {
        Some(v) => v.deep_view(),
        None => Seq::<(Seq<char>, Seq<char>)>::empty(),
    }
}

/// The invariant the pair list carries over from the map it stands for:
/// no key occurs twice.
pub open spec fn distinct_keys(pairs: Seq<(Seq<char>, Seq<char>)>) -> bool {
    forall|i: int, j: int| 0 <= i < j < pairs.len() ==> (#[trigger] pairs[i]).0 != (
    #[trigger] pairs[j]).0
}

/// Joining one more part appends a separator and the part.
proof fn lemma_rest_join_push(parts: Seq<Seq<char>>, x: Seq<char>)
    ensures
        rest_join(parts.push(x)) =~= rest_join(parts) + (", "@ + x),
    decreases parts.len(),
{
    assert(parts.push(x)[0] == if parts.len() == 0 {
        x
    } else {
        parts[0]
    });
    if parts.len() == 0 {
        assert(parts.push(x).drop_first() =~= Seq::<Seq<char>>::empty());
        assert(rest_join(Seq::<Seq<char>>::empty()) =~= Seq::<char>::empty());
        assert(rest_join(parts.push(x)) =~= ", "@ + x);
        assert(rest_join(parts) + (", "@ + x) =~= ", "@ + x);
    } else {
        assert(parts.push(x).drop_first() =~= parts.drop_first().push(x));
        lemma_rest_join_push(parts.drop_first(), x);
        assert(rest_join(parts.push(x)) =~= ", "@ + parts[0] + rest_join(
            parts.drop_first().push(x),
        ));
        assert(", "@ + parts[0] + (rest_join(parts.drop_first()) + (", "@ + x)) =~= (", "@
            + parts[0] + rest_join(parts.drop_first())) + (", "@ + x));
    }
}

/// The parts of the display, in order: pair parts then variable parts.
fn build_parts(pairs: &Vec<(String, String)>, vars: &Vec<String>) -> (parts: Vec<String>)
    ensures
        parts.deep_view() =~= Seq::new(
            pairs.deep_view().len(),
            |i: int| env_pair_part(pairs.deep_view()[i]),
        ) + Seq::new(vars.deep_view().len(), |i: int| var_part(vars.deep_view()[i])),
{
    let mut parts: Vec<String> = Vec::new();
    let n = pairs.len();
    let mut i: usize = 0;
    while i < n
        invariant
            n == pairs@.len(),
            i <= n,
            parts@.len() == i,
            forall|k: int|
                0 <= k < i ==> parts@[k]@ == env_pair_part(#[trigger] pairs.deep_view()[k]),
        decreases n - i,
    {
        let part = pairs[i].0.clone().concat("=").concat(pairs[i].1.as_str());
        proof {
            assert(part@ =~= env_pair_part(pairs.deep_view()[i as int]));
        }
        parts.push(part);
        i = i + 1;
    }
    let m = vars.len();
    let mut k: usize = 0;
    while k < m
        invariant
            n == pairs@.len(),
            m == vars@.len(),
            k <= m,
            parts@.len() == n + k,
            forall|j: int|
                0 <= j < n ==> parts@[j]@ == env_pair_part(#[trigger] pairs.deep_view()[j]),
            forall|j: int|
                0 <= j < k ==> parts@[n + j]@ == var_part(#[trigger] vars.deep_view()[j]),
        decreases m - k,
    {
        let part = String::from_str("$").concat(vars[k].as_str());
        proof {
            assert(part@ =~= var_part(vars.deep_view()[k as int]));
        }
        parts.push(part);
        k = k + 1;
    }
    parts
}

/// All parts joined with commas, executable side.
fn join(parts: &Vec<String>) -> (out: String)
    ensures
        out@ =~= join_parts(parts.deep_view()),
{
    let mut out = String::new();
    let n = parts.len();
    let mut i: usize = 0;
    while i < n
        invariant
            n == parts@.len(),
            i <= n,
            out@ =~= join_parts(parts.deep_view().take(i as int)),
        decreases n - i,
    {
        let ghost pv = parts.deep_view();
        let ghost before = out@;
        if i == 0 {
            out.append(parts[0].as_str());
            proof {
                assert(pv.take(1)[0] == pv[0]);
                assert(pv.take(1).drop_first() =~= Seq::<Seq<char>>::empty());
                assert(out@ =~= pv[0] + Seq::<char>::empty());
                assert(out@ =~= join_parts(pv.take(1)));
            }
        } else {
            out.append(", ");
            out.append(parts[i].as_str());
            proof {
                let head = pv.take(i as int);
                assert(head.len() > 0);
                assert(pv.take(i + 1)[0] == pv[0]);
                assert(pv.take(i + 1).drop_first() =~= head.drop_first().push(pv[i as int]));
                lemma_rest_join_push(head.drop_first(), pv[i as int]);
                assert(out@ =~= (head[0] + rest_join(head.drop_first())) + (", "@
                    + pv[i as int]));
                assert((head[0] + rest_join(head.drop_first())) + (", "@ + pv[i as int]) =~= head[0]
                    + (rest_join(head.drop_first()) + (", "@ + pv[i as int])));
                assert(head[0] == pv[0]);
                assert(out@ =~= join_parts(pv.take(i + 1)));
            }
        }
        i = i + 1;
    }
    proof {
        assert(parts.deep_view().take(n as int) =~= parts.deep_view());
    }
    out
}

/// The combined environment display: explicit pairs sorted by key, then
/// passthrough names sorted, as `KEY=VALUE` and `$NAME` parts joined with
/// commas — or `-` when there is nothing to show. The pair list stands
/// for a map, so its keys must be distinct.
pub fn format_env_display(env: Option<&Vec<(String, String)>>, env_vars: Vec<String>) -> (r:
    String)
    requires
        distinct_keys(spec_env_pairs(env)),
    ensures
        r@ == spec_env_display(
            spec_env_pairs(env).sort_by(pair_le_fn()),
            env_vars.deep_view().sort_by(lex_le_fn()),
        ),
{
    let sorted_pairs: Vec<(String, String)> = match env {
        Some(v) => sort_pairs(v),
        None => {
            let empty_pairs: Vec<(String, String)> = Vec::new();
            proof {
                lemma_pair_le_total_ordering();
                let e = Seq::<(Seq<char>, Seq<char>)>::empty();
                e.lemma_sort_by_ensures(pair_le_fn());
                assert(empty_pairs.deep_view() =~= e);
                assert(sorted_by(empty_pairs.deep_view(), pair_le_fn()));
                assert(empty_pairs.deep_view().to_multiset() == e.sort_by(
                    pair_le_fn(),
                ).to_multiset());
                lemma_sorted_unique(empty_pairs.deep_view(), e.sort_by(pair_le_fn()), pair_le_fn());
                assert(empty_pairs.deep_view() =~= e.sort_by(pair_le_fn()));
            }
            empty_pairs
        },
    };
    let sorted_vars = sort_strings(&env_vars);
    let parts = build_parts(&sorted_pairs, &sorted_vars);
    if parts.len() == 0 {
        "-".to_owned()
    } else {
        join(&parts)
    }
}

} // verus!
