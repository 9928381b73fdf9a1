//! Rank aggregation: reduce a batch of kill events to one entry per
//! distinct killer name with its kill count, then order the entries
//! by count, highest first. The sort is stable, so killers with
//! equal counts stay in first-seen order, which makes the ranking
//! deterministic for a given batch order.
use vstd::multiset::Multiset;
use vstd::prelude::*;

use crate::ascii::ci_equal;
use crate::ascii::str_eq_ignore_case;
use crate::events::RangeResponseEntry;

verus! {

/// A ranking entry, abstractly: the killer's name as characters and
/// the kill count as an unbounded integer.
pub open spec fn entry_view(p: (String, u32)) -> (Seq<char>, int) {
    (p.0@, p.1 as int)
}

pub open spec fn entries_view(s: Seq<(String, u32)>) -> Seq<(Seq<char>, int)> {
    s.map_values(|p: (String, u32)| entry_view(p))
}

/// The killer names of a batch, in batch order.
pub open spec fn killer_names(events: Seq<RangeResponseEntry>) -> Seq<Seq<char>> {
    events.map_values(|e: RangeResponseEntry| e.killer_name@)
}

/// Index of the first entry carrying exactly the name `n`, or -1.
pub open spec fn find_name(g: Seq<(Seq<char>, int)>, n: Seq<char>) -> int
    decreases g.len(),
{
    if g.len() == 0 {
        -1
    } else if g[0].0 == n {
        0
    } else {
        let r = find_name(g.drop_first(), n);
        if r < 0 {
            -1
        } else {
            r + 1
        }
    }
}

/// What `find_name` returns: -1 exactly when the name is absent,
/// else the first index carrying it.
pub proof fn lemma_find_name(g: Seq<(Seq<char>, int)>, n: Seq<char>)
    ensures
        find_name(g, n) == -1 ==> forall|j: int| 0 <= j < g.len() ==> (#[trigger] g[j]).0 != n,
        find_name(g, n) != -1 ==> 0 <= find_name(g, n) < g.len() && g[find_name(g, n)].0 == n && (
        forall|j: int| 0 <= j < find_name(g, n) ==> (#[trigger] g[j]).0 != n),
    decreases g.len(),
{
    if g.len() > 0 && g[0].0 != n {
        let gd = g.drop_first();
        lemma_find_name(gd, n);
        if find_name(g, n) == -1 {
            assert forall|j: int| 0 <= j < g.len() implies (#[trigger] g[j]).0 != n by {
                if j > 0 {
                    assert(gd[j - 1] == g[j]);
                }
            }
        } else {
            let r = find_name(g, n);
            assert(gd[r - 1] == g[r]);
            assert forall|j: int| 0 <= j < r implies (#[trigger] g[j]).0 != n by {
                if j > 0 {
                    assert(gd[j - 1] == g[j]);
                }
            }
        }
    }
}

/// Converse: an index that carries the name, with none before it,
/// is what `find_name` returns.
pub proof fn lemma_find_name_is(g: Seq<(Seq<char>, int)>, n: Seq<char>, j: int)
    requires
        0 <= j < g.len(),
        g[j].0 == n,
        forall|i: int| 0 <= i < j ==> (#[trigger] g[i]).0 != n,
    ensures
        find_name(g, n) == j,
    decreases j,
{
    if j > 0 {
        let gd = g.drop_first();
        assert(gd[j - 1] == g[j]);
        assert forall|i: int| 0 <= i < j - 1 implies (#[trigger] gd[i]).0 != n by {
            assert(gd[i] == g[i + 1]);
        }
        lemma_find_name_is(gd, n, j - 1);
    }
}

/// One more kill for `n`: count up the entry that carries the name,
/// or append a fresh entry with count one.
pub open spec fn bump(g: Seq<(Seq<char>, int)>, n: Seq<char>) -> Seq<(Seq<char>, int)> {
    let j = find_name(g, n);
    if j >= 0 {
        g.update(j, (n, g[j].1 + 1))
    } else {
        g.push((n, 1))
    }
}

/// Group a name sequence: one entry per distinct name, carrying how
/// often the name occurs, entries in first-seen order.
pub open spec fn tally(names: Seq<Seq<char>>) -> Seq<(Seq<char>, int)>
    decreases names.len(),
{
    if names.len() == 0 {
        Seq::empty()
    } else {
        bump(tally(names.drop_last()), names.last())
    }
}

/// No two entries carry the same name.
pub open spec fn distinct_names(g: Seq<(Seq<char>, int)>) -> bool {
    forall|i: int, j: int|
        0 <= i < j < g.len() ==> (#[trigger] g[i]).0 != (#[trigger] g[j]).0
}

/// What grouping means: entries carry distinct names; an entry's
/// count is exactly how often its name occurs in the input; a name
/// has an entry exactly when it occurs at all; and every count is at
/// least one and at most the input length.
pub proof fn lemma_tally_semantics(names: Seq<Seq<char>>)
    ensures
        distinct_names(tally(names)),
        forall|i: int|
            0 <= i < tally(names).len() ==> (#[trigger] tally(names)[i]).1
                == names.to_multiset().count(tally(names)[i].0),
        forall|n: Seq<char>|
            (exists|i: int| 0 <= i < tally(names).len() && (#[trigger] tally(names)[i]).0 == n)
                <==> #[trigger] names.to_multiset().count(n) > 0,
        forall|i: int|
            0 <= i < tally(names).len() ==> 1 <= (#[trigger] tally(names)[i]).1 <= names.len(),
    decreases names.len(),
{
    broadcast use vstd::seq_lib::group_to_multiset_ensures;

    if names.len() == 0 {
        assert(names.to_multiset() =~= Multiset::empty());
    } else {
        let prefix = names.drop_last();
        let last = names.last();
        lemma_tally_semantics(prefix);
        lemma_find_name(tally(prefix), last);
        assert(names =~= prefix.push(last));
        assert(names.to_multiset() == prefix.to_multiset().insert(last));
        let t = tally(prefix);
        let j = find_name(t, last);
        if j >= 0 {
            let t2 = t.update(j, (last, t[j].1 + 1));
            assert(tally(names) == t2);
            assert(forall|i: int| 0 <= i < t2.len() && i != j ==> #[trigger] t2[i] == t[i]);
            assert(t[j].0 == last);
            assert(forall|i: int| 0 <= i < t.len() && i != j ==> (#[trigger] t[i]).0 != last);
            assert(prefix.to_multiset().count(last) > 0);
            assert forall|n: Seq<char>|
                (exists|i: int| 0 <= i < t2.len() && (#[trigger] t2[i]).0 == n)
                    <==> #[trigger] names.to_multiset().count(n) > 0 by {
                if exists|i: int| 0 <= i < t2.len() && (#[trigger] t2[i]).0 == n {
                    let i0 = choose|i: int| 0 <= i < t2.len() && (#[trigger] t2[i]).0 == n;
                    if i0 == j {
                        assert(names.to_multiset().count(last) > 0);
                    } else {
                        assert(t[i0].0 == n);
                    }
                }
                if names.to_multiset().count(n) > 0 {
                    if n == last {
                        assert(t2[j as int].0 == n);
                    } else {
                        assert(prefix.to_multiset().count(n) > 0);
                        let i0 = choose|i: int| 0 <= i < t.len() && (#[trigger] t[i]).0 == n;
                        assert(t2[i0].0 == n);
                    }
                }
            }
        } else {
            let t2 = t.push((last, 1));
            assert(tally(names) == t2);
            assert(prefix.to_multiset().count(last) == 0) by {
                if prefix.to_multiset().count(last) > 0 {
                    let i0 = choose|i: int| 0 <= i < t.len() && (#[trigger] t[i]).0 == last;
                    assert(t[i0].0 == last);
                }
            }
            assert(forall|i: int| 0 <= i < t.len() ==> #[trigger] t2[i] == t[i]);
            assert(t2[t.len() as int].0 == last);
            assert forall|n: Seq<char>|
                (exists|i: int| 0 <= i < t2.len() && (#[trigger] t2[i]).0 == n)
                    <==> #[trigger] names.to_multiset().count(n) > 0 by {
                if exists|i: int| 0 <= i < t2.len() && (#[trigger] t2[i]).0 == n {
                    let i0 = choose|i: int| 0 <= i < t2.len() && (#[trigger] t2[i]).0 == n;
                    if i0 < t.len() {
                        assert(t[i0].0 == n);
                    } else {
                        assert(n == last);
                        assert(names.to_multiset().count(last) > 0);
                    }
                }
                if names.to_multiset().count(n) > 0 {
                    if n == last {
                        assert(t2[t.len() as int].0 == n);
                    } else {
                        assert(prefix.to_multiset().count(n) > 0);
                        let i0 = choose|i: int| 0 <= i < t.len() && (#[trigger] t[i]).0 == n;
                        assert(t2[i0].0 == n);
                    }
                }
            }
        }
    }
}

/// Insert one entry into a count-descending run, after every entry
/// whose count is at least as large: the stable insertion position.
pub open spec fn ins(s: Seq<(Seq<char>, int)>, p: (Seq<char>, int)) -> Seq<(Seq<char>, int)>
    decreases s.len(),
{
    if s.len() > 0 && s.last().1 < p.1 {
        ins(s.drop_last(), p).push(s.last())
    } else {
        s.push(p)
    }
}

/// Stable insertion sort by count, highest first: entries with equal
/// counts keep their relative order.
pub open spec fn isort(s: Seq<(Seq<char>, int)>) -> Seq<(Seq<char>, int)>
    decreases s.len(),
{
    if s.len() == 0 {
        Seq::empty()
    } else {
        ins(isort(s.drop_last()), s.last())
    }
}

/// Counts never increase along the run.
pub open spec fn sorted_desc(s: Seq<(Seq<char>, int)>) -> bool {
    forall|i: int, j: int|
        0 <= i <= j < s.len() ==> (#[trigger] s[i]).1 >= (#[trigger] s[j]).1
}

/// Where `ins` puts the new entry: right before the longest suffix
/// of entries with strictly smaller counts.
proof fn lemma_ins_at(s: Seq<(Seq<char>, int)>, p: (Seq<char>, int), pos: int)
    requires
        0 <= pos <= s.len(),
        forall|k: int| pos <= k < s.len() ==> (#[trigger] s[k]).1 < p.1,
        pos > 0 ==> s[pos - 1].1 >= p.1,
    ensures
        ins(s, p) == s.subrange(0, pos) + seq![p] + s.subrange(pos, s.len() as int),
    decreases s.len(),
{
    if pos == s.len() {
        assert(ins(s, p) == s.push(p));
        assert(s.push(p) =~= s.subrange(0, pos) + seq![p] + s.subrange(pos, s.len() as int));
    } else {
        assert(s.last().1 < p.1);
        lemma_ins_at(s.drop_last(), p, pos);
        assert(s.drop_last().subrange(0, pos) =~= s.subrange(0, pos));
        assert(s.drop_last().subrange(pos, s.len() - 1) =~= s.subrange(pos, s.len() - 1));
        assert((s.subrange(0, pos) + seq![p] + s.subrange(pos, s.len() - 1)).push(s.last()) =~= s
            .subrange(0, pos) + seq![p] + s.subrange(pos, s.len() as int));
    }
}

/// Every entry `ins` yields is the inserted one or one of the run.
proof fn lemma_ins_elements(s: Seq<(Seq<char>, int)>, p: (Seq<char>, int))
    ensures
        ins(s, p).len() == s.len() + 1,
        forall|i: int|
            0 <= i < ins(s, p).len() ==> #[trigger] ins(s, p)[i] == p || s.contains(ins(s, p)[i]),
    decreases s.len(),
{
    if s.len() > 0 && s.last().1 < p.1 {
        lemma_ins_elements(s.drop_last(), p);
        assert(forall|x: (Seq<char>, int)| s.drop_last().contains(x) ==> s.contains(x)) by {
            assert(forall|i: int|
                0 <= i < s.len() - 1 ==> #[trigger] s.drop_last()[i] == s[i]);
        }
        assert(s.contains(s.last()));
    } else {
        assert(forall|i: int| 0 <= i < s.len() ==> s.contains(#[trigger] s[i]));
    }
}

/// Inserting into a count-descending run keeps it count-descending.
proof fn lemma_ins_sorted(s: Seq<(Seq<char>, int)>, p: (Seq<char>, int))
    requires
        sorted_desc(s),
    ensures
        sorted_desc(ins(s, p)),
    decreases s.len(),
{
    if s.len() > 0 && s.last().1 < p.1 {
        assert(sorted_desc(s.drop_last())) by {
            assert(forall|i: int|
                0 <= i < s.len() - 1 ==> #[trigger] s.drop_last()[i] == s[i]);
        }
        lemma_ins_sorted(s.drop_last(), p);
        lemma_ins_elements(s.drop_last(), p);
        let t = ins(s.drop_last(), p);
        assert(forall|i: int| 0 <= i < t.len() ==> (#[trigger] t[i]).1 >= s.last().1) by {
            assert(forall|i: int|
                0 <= i < s.len() - 1 ==> (#[trigger] s.drop_last()[i]).1 >= s.last().1);
        }
        assert(forall|i: int|
            0 <= i < ins(s, p).len() - 1 ==> #[trigger] ins(s, p)[i] == t[i]);
    }
}

/// The sorted run is count-descending.
pub proof fn lemma_isort_sorted(s: Seq<(Seq<char>, int)>)
    ensures
        sorted_desc(isort(s)),
    decreases s.len(),
{
    if s.len() > 0 {
        lemma_isort_sorted(s.drop_last());
        lemma_ins_sorted(isort(s.drop_last()), s.last());
    }
}

/// Inserting adds exactly the one entry.
proof fn lemma_ins_multiset(s: Seq<(Seq<char>, int)>, p: (Seq<char>, int))
    ensures
        ins(s, p).to_multiset() == s.to_multiset().insert(p),
    decreases s.len(),
{
    broadcast use vstd::seq_lib::group_to_multiset_ensures;

    if s.len() > 0 && s.last().1 < p.1 {
        lemma_ins_multiset(s.drop_last(), p);
        assert(s =~= s.drop_last().push(s.last()));
        assert(s.to_multiset() == s.drop_last().to_multiset().insert(s.last()));
        assert(s.drop_last().to_multiset().insert(p).insert(s.last()) =~= s.drop_last()
            .to_multiset().insert(s.last()).insert(p));
    }
}

/// Sorting permutes: the sorted run holds exactly the entries of the
/// input, counted with multiplicity.
pub proof fn lemma_isort_permutes(s: Seq<(Seq<char>, int)>)
    ensures
        isort(s).to_multiset() == s.to_multiset(),
    decreases s.len(),
{
    broadcast use vstd::seq_lib::group_to_multiset_ensures;

    if s.len() == 0 {
        assert(isort(s) =~= s);
    } else {
        lemma_isort_permutes(s.drop_last());
        lemma_ins_multiset(isort(s.drop_last()), s.last());
        assert(s =~= s.drop_last().push(s.last()));
    }
}

/// Ties keep first-seen order: in `t`, entries with equal counts
/// appear in the order their names stand in `orig`.
pub open spec fn order_respects(orig: Seq<(Seq<char>, int)>, t: Seq<(Seq<char>, int)>) -> bool {
    forall|a: int, b: int|
        0 <= a < b < t.len() && (#[trigger] t[a]).1 == (#[trigger] t[b]).1 ==> find_name(
            orig,
            t[a].0,
        ) < find_name(orig, t[b].0)
}

/// Inserting keeps tie order, provided everything already in the run
/// with the same count stands earlier in `orig` than the new entry.
proof fn lemma_ins_stable(
    orig: Seq<(Seq<char>, int)>,
    s: Seq<(Seq<char>, int)>,
    p: (Seq<char>, int),
)
    requires
        order_respects(orig, s),
        forall|i: int|
            0 <= i < s.len() && (#[trigger] s[i]).1 == p.1 ==> find_name(orig, s[i].0) < find_name(
                orig,
                p.0,
            ),
    ensures
        order_respects(orig, ins(s, p)),
    decreases s.len(),
{
    if s.len() > 0 && s.last().1 < p.1 {
        assert(forall|i: int| 0 <= i < s.len() - 1 ==> #[trigger] s.drop_last()[i] == s[i]);
        lemma_ins_stable(orig, s.drop_last(), p);
        lemma_ins_elements(s.drop_last(), p);
        let t = ins(s.drop_last(), p);
        let r = t.push(s.last());
        assert(forall|i: int| 0 <= i < t.len() ==> #[trigger] r[i] == t[i]);
        assert forall|a: int, b: int|
            0 <= a < b < r.len() && (#[trigger] r[a]).1 == (#[trigger] r[b]).1 implies find_name(
            orig,
            r[a].0,
        ) < find_name(orig, r[b].0) by {
            if b == r.len() - 1 {
                assert(r[b] == s.last());
                assert(t[a] == p || s.drop_last().contains(t[a]));
                if t[a] == p {
                    assert(false);
                } else {
                    let i0 = choose|i: int|
                        0 <= i < s.drop_last().len() && s.drop_last()[i] == t[a];
                    assert(s[i0] == t[a]);
                    assert(s[i0].1 == s.last().1);
                    assert(order_respects(orig, s));
                    assert(find_name(orig, s[i0].0) < find_name(orig, s[s.len() - 1].0));
                }
            }
        }
    } else {
        let r = s.push(p);
        assert(forall|i: int| 0 <= i < s.len() ==> #[trigger] r[i] == s[i]);
        assert forall|a: int, b: int|
            0 <= a < b < r.len() && (#[trigger] r[a]).1 == (#[trigger] r[b]).1 implies find_name(
            orig,
            r[a].0,
        ) < find_name(orig, r[b].0) by {
            if b == r.len() - 1 {
                assert(r[a] == s[a]);
            }
        }
    }
}

/// The full stability law: for a run with pairwise distinct names,
/// sorting keeps entries with equal counts in the order their names
/// stand in the input.
pub proof fn lemma_isort_stable(s: Seq<(Seq<char>, int)>)
    requires
        distinct_names(s),
    ensures
        order_respects(s, isort(s)),
    decreases s.len(),
{
    if s.len() > 0 {
        let prefix = s.drop_last();
        let last = s.last();
        assert(forall|i: int| 0 <= i < s.len() - 1 ==> #[trigger] prefix[i] == s[i]);
        assert(distinct_names(prefix));
        lemma_isort_stable(prefix);
        lemma_isort_permutes(prefix);
        let t = isort(prefix);
        assert(order_respects(s, t)) by {
            assert forall|a: int, b: int|
                0 <= a < b < t.len() && (#[trigger] t[a]).1 == (#[trigger] t[b]).1 implies
                find_name(s, t[a].0) < find_name(s, t[b].0) by {
                lemma_member_of_prefix(s, t, a);
                lemma_member_of_prefix(s, t, b);
            }
        }
        assert(forall|i: int|
            0 <= i < t.len() && (#[trigger] t[i]).1 == last.1 ==> find_name(s, t[i].0)
                < find_name(s, last.0)) by {
            lemma_find_name_is(s, last.0, s.len() - 1);
            assert forall|i: int| 0 <= i < t.len() implies find_name(s, t[i].0) < s.len() - 1 by {
                lemma_member_of_prefix(s, t, i);
            }
        }
        lemma_ins_stable(s, t, last);
    }
}

/// Sorting keeps the length.
pub proof fn lemma_isort_len(s: Seq<(Seq<char>, int)>)
    ensures
        isort(s).len() == s.len(),
    decreases s.len(),
{
    if s.len() > 0 {
        lemma_isort_len(s.drop_last());
        lemma_ins_elements(isort(s.drop_last()), s.last());
    }
}

/// Grouping never yields more entries than there were names.
pub proof fn lemma_tally_len(names: Seq<Seq<char>>)
    ensures
        tally(names).len() <= names.len(),
    decreases names.len(),
{
    if names.len() > 0 {
        lemma_tally_len(names.drop_last());
        let t = tally(names.drop_last());
        let last = names.last();
        lemma_find_name(t, last);
        let j = find_name(t, last);
        if j >= 0 {
            assert(tally(names) == t.update(j, (last, t[j].1 + 1)));
            assert(tally(names).len() == t.len());
        } else {
            assert(tally(names) == t.push((last, 1)));
        }
    }
}

/// What a weekly summary means, all in one place. The summary of a
/// name sequence — `isort(tally(names))` — is sorted by count,
/// highest first; it has exactly one entry per distinct name that
/// occurs, carrying exactly that name's number of occurrences; and
/// entries with equal counts stand in the order the names were
/// first seen.
pub proof fn lemma_summary_semantics(names: Seq<Seq<char>>)
    ensures
        sorted_desc(isort(tally(names))),
        forall|i: int|
            0 <= i < isort(tally(names)).len() ==> (#[trigger] isort(tally(names))[i]).1
                == names.to_multiset().count(isort(tally(names))[i].0),
        forall|n: Seq<char>|
            (exists|i: int|
                0 <= i < isort(tally(names)).len() && (#[trigger] isort(tally(names))[i]).0 == n)
                <==> #[trigger] names.to_multiset().count(n) > 0,
        order_respects(tally(names), isort(tally(names))),
{
    broadcast use vstd::seq_lib::group_to_multiset_ensures;

    let t = tally(names);
    let g = isort(t);
    lemma_tally_semantics(names);
    lemma_isort_sorted(t);
    lemma_isort_permutes(t);
    lemma_isort_stable(t);
    assert forall|i: int| 0 <= i < g.len() implies (#[trigger] g[i]).1
        == names.to_multiset().count(g[i].0) by {
        assert(g.to_multiset().count(g[i]) > 0);
        assert(t.contains(g[i]));
        let j = choose|j: int| 0 <= j < t.len() && t[j] == g[i];
        assert(t[j].1 == names.to_multiset().count(t[j].0));
    }
    assert forall|n: Seq<char>|
        (exists|i: int| 0 <= i < g.len() && (#[trigger] g[i]).0 == n)
            <==> #[trigger] names.to_multiset().count(n) > 0 by {
        if exists|i: int| 0 <= i < g.len() && (#[trigger] g[i]).0 == n {
            let i0 = choose|i: int| 0 <= i < g.len() && (#[trigger] g[i]).0 == n;
            assert(g.to_multiset().count(g[i0]) > 0);
            assert(t.contains(g[i0]));
            let j = choose|j: int| 0 <= j < t.len() && t[j] == g[i0];
            assert(t[j].0 == n);
        }
        if names.to_multiset().count(n) > 0 {
            let j = choose|j: int| 0 <= j < t.len() && (#[trigger] t[j]).0 == n;
            assert(t.to_multiset().count(t[j]) > 0);
            assert(g.to_multiset().count(t[j]) > 0);
            assert(g.contains(t[j]));
            let i0 = choose|i: int| 0 <= i < g.len() && g[i] == t[j];
            assert(g[i0].0 == n);
        }
    }
}

/// Group a batch of kill events by killer name — exact string, in
/// first-seen order — count each group, and sort by count, highest
/// first, ties in first-seen order. A killer with a single kill
/// appears; an empty batch gives an empty ranking.
pub fn get_sorted_weekly_summary(data: Vec<RangeResponseEntry>) -> (r: Vec<(String, u32)>)
    requires
        data@.len() <= u32::MAX,
    ensures
        entries_view(r@) == isort(tally(killer_names(data@))),
{
    let ghost names = killer_names(data@);
    let mut grouped: Vec<(String, u32)> = Vec::new();
    let mut idx: usize = 0;
    while idx < data.len()
        invariant
            data@.len() <= u32::MAX,
            names == killer_names(data@),
            0 <= idx <= data@.len(),
            entries_view(grouped@) == tally(names.take(idx as int)),
        decreases data@.len() - idx,
    {
        let ghost t = tally(names.take(idx as int));
        let ghost name_v = data@[idx as int].killer_name@;
        proof {
            lemma_tally_semantics(names.take(idx as int));
            assert(names.take(idx + 1).drop_last() =~= names.take(idx as int));
            assert(names.take(idx + 1).last() == names[idx as int]);
            assert(names[idx as int] == name_v);
            assert(forall|i2: int|
                0 <= i2 < grouped@.len() ==> #[trigger] entries_view(grouped@)[i2] == entry_view(
                    grouped@[i2],
                ));
        }
        let mut j: usize = 0;
        while j < grouped.len()
            invariant
                0 <= j <= grouped@.len(),
                idx < data@.len(),
                name_v == data@[idx as int].killer_name@,
                forall|i2: int| 0 <= i2 < j ==> (#[trigger] grouped@[i2]).0@ != name_v,
            ensures
                0 <= j <= grouped@.len(),
                j < grouped@.len() ==> grouped@[j as int].0@ == name_v,
                forall|i2: int| 0 <= i2 < j ==> (#[trigger] grouped@[i2]).0@ != name_v,
            decreases grouped@.len() - j,
        {
            if grouped[j].0 == data[idx].killer_name {
                break ;
            }
            j = j + 1;
        }
        if j < grouped.len() {
            proof {
                lemma_find_name_is(t, name_v, j as int);
                assert(t[j as int].1 <= names.take(idx as int).len());
            }
            let pair = grouped.remove(j);
            let count: u32 = pair.1;
            grouped.insert(j, (pair.0, count + 1));
            proof {
                let t2 = tally(names.take(idx + 1));
                assert(t2 == t.update(j as int, (name_v, t[j as int].1 + 1)));
                assert(entries_view(grouped@) =~= t2);
            }
        } else {
            proof {
                lemma_find_name(t, name_v);
                if find_name(t, name_v) != -1 {
                    assert(grouped@[find_name(t, name_v)].0@ == name_v);
                }
                assert(find_name(t, name_v) == -1);
            }
            grouped.push((data[idx].killer_name.clone(), 1));
            proof {
                let t2 = tally(names.take(idx + 1));
                assert(t2 == t.push((name_v, 1)));
                assert(entries_view(grouped@) =~= t2);
            }
        }
        idx = idx + 1;
    }
    proof {
        assert(names.take(names.len() as int) =~= names);
    }
    let ghost gv = entries_view(grouped@);
    let mut out: Vec<(String, u32)> = Vec::new();
    let mut i: usize = 0;
    while i < grouped.len()
        invariant
            gv == entries_view(grouped@),
            0 <= i <= grouped@.len(),
            out@.len() == i,
            entries_view(out@) == isort(gv.take(i as int)),
        decreases grouped@.len() - i,
    {
        let p: (String, u32) = (grouped[i].0.clone(), grouped[i].1);
        let kc: u32 = p.1;
        let ghost pv = entry_view(p);
        let ghost out_before = out@;
        let mut pos: usize = out.len();
        while pos > 0 && out[pos - 1].1 < kc
            invariant
                out@ == out_before,
                0 <= pos <= out@.len(),
                forall|k2: int| pos <= k2 < out@.len() ==> (#[trigger] out@[k2]).1 < kc,
            decreases pos,
        {
            pos = pos - 1;
        }
        proof {
            assert(forall|i2: int|
                0 <= i2 < out_before.len() ==> #[trigger] entries_view(out_before)[i2]
                    == entry_view(out_before[i2]));
            assert(forall|i2: int|
                0 <= i2 < grouped@.len() ==> #[trigger] gv[i2] == entry_view(grouped@[i2]));
            assert(gv.take(i + 1).drop_last() =~= gv.take(i as int));
            assert(gv.take(i + 1).last() == gv[i as int]);
            assert(pv == gv[i as int]);
            lemma_ins_at(entries_view(out_before), pv, pos as int);
        }
        out.insert(pos, p);
        proof {
            let ev = entries_view(out_before);
            assert(entries_view(out@) =~= ev.subrange(0, pos as int) + seq![pv] + ev.subrange(
                pos as int,
                ev.len() as int,
            ));
            assert(entries_view(out@) == ins(ev, pv));
            assert(isort(gv.take(i + 1)) == ins(isort(gv.take(i as int)), gv[i as int]));
        }
        i = i + 1;
    }
    proof {
        assert(gv.take(gv.len() as int) =~= gv);
    }
    out
}

/// Does the ranking hold an entry for this commander name, compared
/// case-insensitively?
pub fn is_cmdr_in_result_set(data: &Vec<(String, u32)>, cmdr: &String) -> (r: bool)
    ensures
        r == exists|i: int| 0 <= i < data@.len() && ci_equal((#[trigger] data@[i]).0@, cmdr@),
{
    let mut i: usize = 0;
    while i < data.len()
        invariant
            0 <= i <= data@.len(),
            forall|k: int| 0 <= k < i ==> !ci_equal((#[trigger] data@[k]).0@, cmdr@),
        decreases data@.len() - i,
    {
        if str_eq_ignore_case(data[i].0.as_str(), cmdr.as_str()) {
            return true;
        }
        i = i + 1;
    }
    false
}

/// Any entry of the sorted prefix is an entry of the prefix, and its
/// name finds its (unique) place strictly before the last input
/// position.
proof fn lemma_member_of_prefix(s: Seq<(Seq<char>, int)>, t: Seq<(Seq<char>, int)>, i: int)
    requires
        distinct_names(s),
        s.len() > 0,
        t.to_multiset() == s.drop_last().to_multiset(),
        0 <= i < t.len(),
    ensures
        0 <= find_name(s, t[i].0) < s.len() - 1,
        find_name(s, t[i].0) == find_name(s.drop_last(), t[i].0),
{
    broadcast use vstd::seq_lib::group_to_multiset_ensures;

    let prefix = s.drop_last();
    assert(forall|k: int| 0 <= k < s.len() - 1 ==> #[trigger] prefix[k] == s[k]);
    assert(t.to_multiset().count(t[i]) > 0);
    assert(prefix.to_multiset().count(t[i]) > 0);
    assert(prefix.contains(t[i]));
    let j = choose|j: int| 0 <= j < prefix.len() && prefix[j] == t[i];
    assert(s[j] == t[i]);
    assert(forall|k: int| 0 <= k < j ==> (#[trigger] s[k]).0 != s[j].0);
    lemma_find_name_is(s, t[i].0, j);
    lemma_find_name_is(prefix, t[i].0, j);
}

} // verus!
