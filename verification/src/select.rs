//! Selection policy: which rows of a ranking to present. Without a
//! target, the global top ten. With a target name, a window of at
//! most five entries ending at the target's rank, the target
//! highlighted — or nothing at all when the name is absent from the
//! ranking (case-insensitively).
use vstd::prelude::*;

use crate::ascii::ci_equal;
use crate::ascii::str_eq_ignore_case;
use crate::ranking::entries_view;
use crate::ranking::entry_view;

verus! {

/// One presentation row: 1-based rank, commander name, kill count,
/// and whether the row is the highlighted target.
pub struct DataRow {
    pub position: u32,
    pub cmdr: String,
    pub kill_count: u32,
    pub highlight: bool,
}

/// Index of the first ranking entry whose name equals `n` up to
/// ASCII case, or -1.
pub open spec fn find_ci(g: Seq<(Seq<char>, int)>, n: Seq<char>) -> int
    decreases g.len(),
{
    if g.len() == 0 {
        -1
    } else if ci_equal(g[0].0, n) {
        0
    } else {
        let r = find_ci(g.drop_first(), n);
        if r < 0 {
            -1
        } else {
            r + 1
        }
    }
}

/// What `find_ci` returns: -1 exactly when no entry matches, else
/// the first matching index.
pub proof fn lemma_find_ci(g: Seq<(Seq<char>, int)>, n: Seq<char>)
    ensures
        find_ci(g, n) == -1 ==> forall|j: int|
            0 <= j < g.len() ==> !ci_equal((#[trigger] g[j]).0, n),
        find_ci(g, n) != -1 ==> 0 <= find_ci(g, n) < g.len() && ci_equal(g[find_ci(g, n)].0, n) && (
        forall|j: int| 0 <= j < find_ci(g, n) ==> !ci_equal((#[trigger] g[j]).0, n)),
    decreases g.len(),
{
    if g.len() > 0 && !ci_equal(g[0].0, n) {
        let gd = g.drop_first();
        lemma_find_ci(gd, n);
        if find_ci(g, n) == -1 {
            assert forall|j: int| 0 <= j < g.len() implies !ci_equal((#[trigger] g[j]).0, n) by {
                if j > 0 {
                    assert(gd[j - 1] == g[j]);
                }
            }
        } else {
            let r = find_ci(g, n);
            assert(gd[r - 1] == g[r]);
            assert forall|j: int| 0 <= j < r implies !ci_equal((#[trigger] g[j]).0, n) by {
                if j > 0 {
                    assert(gd[j - 1] == g[j]);
                }
            }
        }
    }
}

/// Converse: an index that matches, with none before it, is what
/// `find_ci` returns.
pub proof fn lemma_find_ci_is(g: Seq<(Seq<char>, int)>, n: Seq<char>, j: int)
    requires
        0 <= j < g.len(),
        ci_equal(g[j].0, n),
        forall|i: int| 0 <= i < j ==> !ci_equal((#[trigger] g[i]).0, n),
    ensures
        find_ci(g, n) == j,
    decreases j,
{
    if j > 0 {
        let gd = g.drop_first();
        assert(gd[j - 1] == g[j]);
        assert forall|i: int| 0 <= i < j - 1 implies !ci_equal((#[trigger] gd[i]).0, n) by {
            assert(gd[i] == g[i + 1]);
        }
        lemma_find_ci_is(gd, n, j - 1);
    }
}

/// The rows presenting the global top of the ranking: the first
/// `min(10, len)` entries, ranks 1 upward, nothing highlighted.
pub open spec fn rows_match_top(rows: Seq<DataRow>, g: Seq<(Seq<char>, int)>) -> bool {
    &&& rows.len() == if g.len() < 10 {
        g.len() as int
    } else {
        10
    }
    &&& forall|k: int|
        0 <= k < rows.len() ==> {
            &&& (#[trigger] rows[k]).position == k + 1
            &&& rows[k].cmdr@ == g[k].0
            &&& rows[k].kill_count == g[k].1
            &&& !rows[k].highlight
        }
}

/// The rows presenting a local window around the target at rank
/// index `i`: at most five entries ending at `i`, ranks still
/// global and ascending, exactly the target highlighted.
pub open spec fn rows_match_window(rows: Seq<DataRow>, g: Seq<(Seq<char>, int)>, i: int) -> bool {
    let lo = if i >= 4 {
        i - 4
    } else {
        0
    };
    &&& rows.len() == i - lo + 1
    &&& forall|k: int|
        0 <= k < rows.len() ==> {
            &&& (#[trigger] rows[k]).position == lo + k + 1
            &&& rows[k].cmdr@ == g[lo + k].0
            &&& rows[k].kill_count == g[lo + k].1
            &&& (rows[k].highlight <==> lo + k == i)
        }
}

/// Pick the rows to present. Without a target: the global top ten
/// (or all of a shorter ranking — in particular `Some` of no rows at
/// all for an empty ranking). With a target name: `None` when the
/// name is absent from the ranking up to ASCII case, else the window
/// of at most five entries ending at the target, the target alone
/// highlighted.
pub fn select_rows(ranked: &Vec<(String, u32)>, cmdr_name: &Option<String>) -> (out: Option<
    Vec<DataRow>,
>)
    requires
        ranked@.len() <= u32::MAX,
    ensures
        cmdr_name is None ==> (out matches Some(rows) && rows_match_top(
            rows@,
            entries_view(ranked@),
        )),
        cmdr_name matches Some(n) ==> ({
            let fi = find_ci(entries_view(ranked@), n@);
            &&& (out is None <==> fi == -1)
            &&& fi >= 0 ==> (out matches Some(rows) && rows_match_window(
                rows@,
                entries_view(ranked@),
                fi,
            ))
        }),
{
    let ghost g = entries_view(ranked@);
    proof {
        assert(forall|k: int| 0 <= k < ranked@.len() ==> #[trigger] g[k] == entry_view(ranked@[k]));
    }
    match cmdr_name {
        None => {
            let take_n: usize = if ranked.len() < 10 {
                ranked.len()
            } else {
                10
            };
            let mut rows: Vec<DataRow> = Vec::new();
            let mut k: usize = 0;
            while k < take_n
                invariant
                    take_n <= ranked@.len(),
                    take_n <= 10,
                    g == entries_view(ranked@),
                    0 <= k <= take_n,
                    rows@.len() == k,
                    forall|k2: int|
                        0 <= k2 < k ==> {
                            &&& (#[trigger] rows@[k2]).position == k2 + 1
                            &&& rows@[k2].cmdr@ == g[k2].0
                            &&& rows@[k2].kill_count == g[k2].1
                            &&& !rows@[k2].highlight
                        },
                decreases take_n - k,
            {
                rows.push(
                    DataRow {
                        position: (k + 1) as u32,
                        cmdr: ranked[k].0.clone(),
                        kill_count: ranked[k].1,
                        highlight: false,
                    },
                );
                k = k + 1;
            }
            Some(rows)
        },
        Some(name) => {
            let mut i: usize = 0;
            let len = ranked.len();
            while i < len
                invariant
                    len == ranked@.len() <= u32::MAX,
                    g == entries_view(ranked@),
                    0 <= i <= len,
                    forall|k2: int| 0 <= k2 < i ==> !ci_equal((#[trigger] g[k2]).0, name@),
                ensures
                    0 <= i <= len,
                    i < len ==> ci_equal(g[i as int].0, name@),
                    forall|k2: int| 0 <= k2 < i ==> !ci_equal((#[trigger] g[k2]).0, name@),
                decreases len - i,
            {
                if str_eq_ignore_case(ranked[i].0.as_str(), name.as_str()) {
                    break ;
                }
                i = i + 1;
            }
            if i == len {
                proof {
                    lemma_find_ci(g, name@);
                    if find_ci(g, name@) != -1 {
                        assert(ci_equal(g[find_ci(g, name@)].0, name@));
                    }
                }
                return None;
            }
            proof {
                lemma_find_ci_is(g, name@, i as int);
            }
            let lo: usize = if i >= 4 {
                i - 4
            } else {
                0
            };
            let mut rows: Vec<DataRow> = Vec::new();
            let mut k: usize = 0;
            while k < i - lo + 1
                invariant
                    g == entries_view(ranked@),
                    ranked@.len() <= u32::MAX,
                    lo == if i >= 4 {
                        i - 4
                    } else {
                        0
                    },
                    lo <= i < ranked@.len(),
                    0 <= k <= i - lo + 1,
                    rows@.len() == k,
                    forall|k2: int|
                        0 <= k2 < k ==> {
                            &&& (#[trigger] rows@[k2]).position == lo + k2 + 1
                            &&& rows@[k2].cmdr@ == g[lo + k2].0
                            &&& rows@[k2].kill_count == g[lo + k2].1
                            &&& (rows@[k2].highlight <==> lo + k2 == i)
                        },
                decreases i - lo + 1 - k,
            {
                rows.push(
                    DataRow {
                        position: (lo + k + 1) as u32,
                        cmdr: ranked[lo + k].0.clone(),
                        kill_count: ranked[lo + k].1,
                        highlight: lo + k == i,
                    },
                );
                k = k + 1;
            }
            Some(rows)
        },
    }
}

} // verus!
