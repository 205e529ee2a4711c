//! Per-name breakdowns of the totals (by model, by project): one row per
//! name, each row holding the totals of exactly the messages with that name,
//! and the ranking of rows by cost.
use vstd::prelude::*;
use vstd::multiset::Multiset;
use crate::records::{Record, Filter, sum_where, sum_all, any_selected, lemma_push, lemma_sum_where_le, lemma_room_le, lemma_none_selected, selects};
use crate::usage::{Aggregate, Usage, Totals, has_room, plus, zero_totals};

verus! {

broadcast use {vstd::seq_lib::group_seq_properties, vstd::multiset::group_multiset_axioms};

/// The name by which messages are broken down.
pub enum GroupBy {
    Model,
    Project,
}

/// The name of `r` under the breakdown `g`.
pub open spec fn group_key(g: GroupBy, r: Record) -> Seq<char> {
    match g {
        GroupBy::Model => r.model,
        GroupBy::Project => r.project,
    }
}

/// The selection of messages whose name under `g` is `k`.
pub open spec fn key_filter(g: GroupBy, k: Seq<char>) -> Filter {
    match g {
        GroupBy::Model => Filter::Model(k),
        GroupBy::Project => Filter::Project(k),
    }
}

/// `rows` is the breakdown of `rs` by `g`: no name occurs twice, each row
/// holds the totals of the messages with its name and names at least one
/// message, and every message's name has a row.
#[verifier::opaque]
pub open spec fn groups_match(rows: Seq<(String, Aggregate)>, rs: Seq<Record>, g: GroupBy) -> bool {
    &&& forall|i: int, j: int|
        0 <= i < rows.len() && 0 <= j < rows.len() && i != j ==> #[trigger] rows[i].0@
            != #[trigger] rows[j].0@
    &&& forall|i: int|
        0 <= i < rows.len() ==> (#[trigger] rows[i]).1.totals() == sum_where(
            rs,
            key_filter(g, rows[i].0@),
        ) && any_selected(rs, key_filter(g, rows[i].0@))
    &&& forall|k: int| 0 <= k < rs.len() ==> has_row(rows, group_key(g, #[trigger] rs[k]))
}

/// Some row of `rows` is named `key`.
pub open spec fn has_row(rows: Seq<(String, Aggregate)>, key: Seq<char>) -> bool {
    exists|i: int| 0 <= i < rows.len() && (#[trigger] rows[i]).0@ == key
}

proof fn lemma_key_selects(g: GroupBy, k: Seq<char>, r: Record)
    ensures
        selects(key_filter(g, k), r) == (group_key(g, r) == k),
{
}

/// The row of `rows` named `key`, if there is one.
pub fn find_row(rows: &Vec<(String, Aggregate)>, key: &String) -> (r: Option<usize>)
    ensures
        match r {
            Some(i) => i < rows.len() && rows@[i as int].0@ == key@,
            None => forall|i: int| 0 <= i < rows.len() ==> (#[trigger] rows@[i]).0@ != key@,
        },
{
    let mut i: usize = 0;
    while i < rows.len()
        invariant
            i <= rows.len(),
            forall|j: int| 0 <= j < i ==> (#[trigger] rows@[j]).0@ != key@,
        decreases rows.len() - i,
    {
        if rows[i].0 == *key {
            return Some(i);
        }
        i = i + 1;
    }
    None
}

/// Counts message `r` (of model `model`, usage `u`, name `key`) into the
/// breakdown: into the row named `key`, or a new row at the end.
pub fn add_to_rows(
    rows: &mut Vec<(String, Aggregate)>,
    key: &String,
    model: &str,
    u: Usage,
    Ghost(rs): Ghost<Seq<Record>>,
    Ghost(r): Ghost<Record>,
    Ghost(g): Ghost<GroupBy>,
)
    requires
        groups_match(old(rows)@, rs, g),
        key@ == group_key(g, r),
        model@ == r.model,
        u == r.usage,
        has_room(sum_all(rs), r.model, r.usage),
    ensures
        groups_match(final(rows)@, rs.push(r), g),
{
    let rs2 = Ghost(rs.push(r));
    proof {
        reveal(groups_match);
        assert forall|k: Seq<char>| #[trigger] sum_where(rs.push(r), key_filter(g, k)) == (if k
            == key@ {
            crate::usage::plus(sum_where(rs, key_filter(g, k)), r.model, r.usage)
        } else {
            sum_where(rs, key_filter(g, k))
        }) by {
            lemma_push(rs, r, key_filter(g, k));
            lemma_key_selects(g, k, r);
        }
        lemma_sum_where_le(rs, key_filter(g, key@));
        lemma_room_le(sum_where(rs, key_filter(g, key@)), sum_all(rs), r.model, r.usage);
        assert(rs2@[rs.len() as int] == r);
        assert(selects(key_filter(g, key@), r)) by {
            lemma_key_selects(g, key@, r);
        }
    }
    let ghost old_rows = rows@;
    match find_row(rows, key) {
        Some(i) => {
            let name = rows[i].0.clone();
            let mut agg = rows[i].1;
            agg.add(model, u);
            rows.set(i, (name, agg));
            proof {
                assert forall|j: int| 0 <= j < rows.len() implies #[trigger] any_selected(
                    rs2@,
                    key_filter(g, rows@[j].0@),
                ) by {
                    if j == i {
                        assert(selects(key_filter(g, rows@[j].0@), rs2@[rs.len() as int]));
                    } else {
                        let w = choose|w: int|
                            0 <= w < rs.len() && #[trigger] selects(
                                key_filter(g, old_rows[j].0@),
                                rs[w],
                            );
                        assert(rs2@[w] == rs[w]);
                    }
                }
                assert forall|k: int| 0 <= k < rs2@.len() implies has_row(
                    rows@,
                    group_key(g, #[trigger] rs2@[k]),
                ) by {
                    if k == rs.len() {
                        assert(rows@[i as int].0@ == group_key(g, rs2@[k]));
                    } else {
                        assert(rs2@[k] == rs[k]);
                        let j = choose|j: int|
                            0 <= j < old_rows.len() && (#[trigger] old_rows[j]).0@ == group_key(
                                g,
                                rs[k],
                            );
                        assert(rows@[j].0@ == old_rows[j].0@);
                    }
                }
            }
        },
        None => {
            proof {
                assert(!any_selected(rs, key_filter(g, key@))) by {
                    if any_selected(rs, key_filter(g, key@)) {
                        let w = choose|w: int|
                            0 <= w < rs.len() && #[trigger] selects(key_filter(g, key@), rs[w]);
                        lemma_key_selects(g, key@, rs[w]);
                        let j = choose|j: int|
                            0 <= j < old_rows.len() && (#[trigger] old_rows[j]).0@ == group_key(
                                g,
                                rs[w],
                            );
                    }
                }
                lemma_none_selected(rs, key_filter(g, key@));
            }
            let mut agg = Aggregate::new();
            agg.add(model, u);
            rows.push((key.clone(), agg));
            proof {
                let n = old_rows.len() as int;
                assert forall|j: int| 0 <= j < rows.len() implies #[trigger] any_selected(
                    rs2@,
                    key_filter(g, rows@[j].0@),
                ) by {
                    if j == n {
                        assert(selects(key_filter(g, rows@[j].0@), rs2@[rs.len() as int]));
                    } else {
                        let w = choose|w: int|
                            0 <= w < rs.len() && #[trigger] selects(
                                key_filter(g, old_rows[j].0@),
                                rs[w],
                            );
                        assert(rs2@[w] == rs[w]);
                    }
                }
                assert forall|k: int| 0 <= k < rs2@.len() implies has_row(
                    rows@,
                    group_key(g, #[trigger] rs2@[k]),
                ) by {
                    if k == rs.len() {
                        assert(rows@[n].0@ == group_key(g, rs2@[k]));
                    } else {
                        assert(rs2@[k] == rs[k]);
                        let j = choose|j: int|
                            0 <= j < old_rows.len() && (#[trigger] old_rows[j]).0@ == group_key(
                                g,
                                rs[k],
                            );
                        assert(rows@[j].0@ == old_rows[j].0@);
                    }
                }
            }
        },
    }
}

// ---------------------------------------------------------------- ranking

/// Rows in order of decreasing cost.
pub open spec fn sorted_by_cost_desc(rows: Seq<(String, Aggregate)>) -> bool {
    forall|i: int, j: int| 0 <= i < j < rows.len() ==> #[trigger] rows[i].1.cost >= #[trigger] rows[j].1.cost
}

/// The rows of `v`, reordered by decreasing cost.
pub fn sort_by_cost_desc(v: Vec<(String, Aggregate)>) -> (r: Vec<(String, Aggregate)>)
    ensures
        r@.to_multiset() == v@.to_multiset(),
        sorted_by_cost_desc(r@),
{
    let mut rest = v;
    let mut out: Vec<(String, Aggregate)> = Vec::new();
    let ghost orig = rest@;
    while rest.len() > 0
        invariant
            out@.to_multiset().add(rest@.to_multiset()) == orig.to_multiset(),
            sorted_by_cost_desc(out@),
            forall|i: int, j: int|
                0 <= i < out.len() && 0 <= j < rest.len() ==> #[trigger] out@[i].1.cost
                    >= #[trigger] rest@[j].1.cost,
        decreases rest.len(),
    {
        let mut m: usize = 0;
        let mut k: usize = 1;
        while k < rest.len()
            invariant
                0 < rest.len(),
                m < rest.len(),
                m < k <= rest.len(),
                forall|j: int| 0 <= j < k ==> rest@[m as int].1.cost >= #[trigger] rest@[j].1.cost,
            decreases rest.len() - k,
        {
            if rest[k].1.cost > rest[m].1.cost {
                m = k;
            }
            k = k + 1;
        }
        let ghost before = rest@;
        let ghost out_before = out@;
        let x = rest.remove(m);
        proof {
            vstd::seq_lib::to_multiset_remove(before, m as int);
        }
        out.push(x);
        proof {
            assert(out@.to_multiset() == out_before.to_multiset().insert(x));
            assert(rest@.to_multiset() == before.to_multiset().remove(x));
            assert(before.to_multiset().contains(x)) by {
                assert(before[m as int] == x);
                assert(before.contains(x));
            }
            assert(out@.to_multiset().add(rest@.to_multiset()) =~= out_before.to_multiset().add(
                before.to_multiset(),
            ));
            assert forall|i: int, j: int| 0 <= i < out.len() && 0 <= j < rest.len() implies #[trigger] out@[i].1.cost
                >= #[trigger] rest@[j].1.cost by {
                let jj = if j < m { j } else { j + 1 };
                assert(rest@[j] == before[jj]);
                if i < out_before.len() {
                    assert(out@[i] == out_before[i]);
                } else {
                    assert(out@[i] == before[m as int]);
                }
            }
            assert forall|i: int, j: int| 0 <= i < j < out.len() implies #[trigger] out@[i].1.cost
                >= #[trigger] out@[j].1.cost by {
                if j == out_before.len() {
                    assert(out@[j] == before[m as int]);
                    assert(out@[i] == out_before[i]);
                } else {
                    assert(out@[i] == out_before[i]);
                    assert(out@[j] == out_before[j]);
                }
            }
        }
    }
    proof {
        assert(rest@.to_multiset() =~= Multiset::empty());
        assert(out@.to_multiset().add(Multiset::empty()) =~= out@.to_multiset());
    }
    out
}

/// Reordering the rows of a breakdown leaves it a breakdown of the same
/// messages.
pub proof fn lemma_groups_match_reordered(
    a: Seq<(String, Aggregate)>,
    b: Seq<(String, Aggregate)>,
    rs: Seq<Record>,
    g: GroupBy,
)
    requires
        groups_match(a, rs, g),
        a.to_multiset() == b.to_multiset(),
    ensures
        groups_match(b, rs, g),
{
    reveal(groups_match);
    assert forall|x: (String, Aggregate)| b.contains(x) implies a.contains(x) by {
        vstd::seq_lib::to_multiset_contains(b, x);
        vstd::seq_lib::to_multiset_contains(a, x);
    }
    assert forall|x: (String, Aggregate)| a.contains(x) implies b.contains(x) by {
        vstd::seq_lib::to_multiset_contains(b, x);
        vstd::seq_lib::to_multiset_contains(a, x);
    }
    assert(a.no_duplicates());
    a.lemma_multiset_has_no_duplicates();
    assert forall|x: (String, Aggregate)| b.to_multiset().contains(x) implies b.to_multiset().count(
        x,
    ) == 1 by {}
    b.lemma_multiset_has_no_duplicates_conv();
    assert forall|i: int, j: int|
        0 <= i < b.len() && 0 <= j < b.len() && i != j implies #[trigger] b[i].0@
        != #[trigger] b[j].0@ by {
        assert(b.contains(b[i]));
        assert(b.contains(b[j]));
        let p = choose|p: int| 0 <= p < a.len() && a[p] == b[i];
        let q = choose|q: int| 0 <= q < a.len() && a[q] == b[j];
        if b[i].0@ == b[j].0@ {
            assert(a[p].0@ == a[q].0@);
            assert(p == q);
        }
    }
    assert forall|i: int| 0 <= i < b.len() implies (#[trigger] b[i]).1.totals() == sum_where(
        rs,
        key_filter(g, b[i].0@),
    ) && any_selected(rs, key_filter(g, b[i].0@)) by {
        assert(b.contains(b[i]));
        let p = choose|p: int| 0 <= p < a.len() && a[p] == b[i];
        assert(a[p] == b[i]);
    }
    assert forall|k: int| 0 <= k < rs.len() implies has_row(b, group_key(g, #[trigger] rs[k])) by {
        let i = choose|i: int|
            0 <= i < a.len() && (#[trigger] a[i]).0@ == group_key(g, rs[k]);
        assert(a.contains(a[i]));
        let j = choose|j: int| 0 <= j < b.len() && b[j] == a[i];
        assert(b[j].0@ == group_key(g, rs[k]));
    }
}

// ---------------------------------------------------------------- sums of rows

/// Fieldwise sum of two totals.
pub open spec fn add_totals(a: Totals, b: Totals) -> Totals {
    Totals {
        input: a.input + b.input,
        output: a.output + b.output,
        cache_write: a.cache_write + b.cache_write,
        cache_read: a.cache_read + b.cache_read,
        cost: a.cost + b.cost,
        messages: a.messages + b.messages,
    }
}

/// The totals of all rows together.
pub open spec fn sum_rows(rows: Seq<(String, Aggregate)>) -> Totals
    decreases rows.len(),
{
    if rows.len() == 0 {
        zero_totals()
    } else {
        add_totals(sum_rows(rows.drop_last()), rows.last().1.totals())
    }
}

/// The totals of the selections named `ks`, added up.
pub open spec fn sum_keys(rs: Seq<Record>, ks: Seq<Seq<char>>, g: GroupBy) -> Totals
    decreases ks.len(),
{
    if ks.len() == 0 {
        zero_totals()
    } else {
        add_totals(sum_keys(rs, ks.drop_last(), g), sum_where(rs, key_filter(g, ks.last())))
    }
}

proof fn lemma_sum_keys_empty(ks: Seq<Seq<char>>, g: GroupBy)
    ensures
        sum_keys(Seq::<Record>::empty(), ks, g) == zero_totals(),
    decreases ks.len(),
{
    if ks.len() > 0 {
        lemma_sum_keys_empty(ks.drop_last(), g);
    }
}

proof fn lemma_sum_keys_push(rs: Seq<Record>, r: Record, ks: Seq<Seq<char>>, g: GroupBy)
    requires
        ks.no_duplicates(),
    ensures
        sum_keys(rs.push(r), ks, g) == (if ks.contains(group_key(g, r)) {
            plus(sum_keys(rs, ks, g), r.model, r.usage)
        } else {
            sum_keys(rs, ks, g)
        }),
    decreases ks.len(),
{
    if ks.len() > 0 {
        let k = ks.last();
        let init = ks.drop_last();
        assert(init.no_duplicates());
        lemma_sum_keys_push(rs, r, init, g);
        lemma_push(rs, r, key_filter(g, k));
        lemma_key_selects(g, k, r);
        if group_key(g, r) == k {
            assert(ks.contains(group_key(g, r))) by {
                assert(ks[ks.len() - 1] == k);
            }
            assert(!init.contains(k)) by {
                if init.contains(k) {
                    let i = choose|i: int| 0 <= i < init.len() && init[i] == k;
                    assert(ks[i] == ks[ks.len() - 1]);
                }
            }
        } else {
            assert(ks.contains(group_key(g, r)) == init.contains(group_key(g, r))) by {
                if ks.contains(group_key(g, r)) {
                    let i = choose|i: int| 0 <= i < ks.len() && ks[i] == group_key(g, r);
                    assert(i < init.len());
                    assert(init[i] == ks[i]);
                }
                if init.contains(group_key(g, r)) {
                    let i = choose|i: int| 0 <= i < init.len() && init[i] == group_key(g, r);
                    assert(ks[i] == init[i]);
                }
            }
        }
    }
}

/// Selections under distinct names that cover every message add up to the
/// totals of all messages.
proof fn lemma_sum_keys_total(rs: Seq<Record>, ks: Seq<Seq<char>>, g: GroupBy)
    requires
        ks.no_duplicates(),
        forall|k: int| 0 <= k < rs.len() ==> ks.contains(group_key(g, #[trigger] rs[k])),
    ensures
        sum_keys(rs, ks, g) == sum_all(rs),
    decreases rs.len(),
{
    if rs.len() == 0 {
        lemma_sum_keys_empty(ks, g);
    } else {
        let init = rs.drop_last();
        let r = rs.last();
        assert(init.push(r) =~= rs);
        assert forall|k: int| 0 <= k < init.len() implies ks.contains(
            group_key(g, #[trigger] init[k]),
        ) by {
            assert(init[k] == rs[k]);
        }
        lemma_sum_keys_total(init, ks, g);
        lemma_sum_keys_push(init, r, ks, g);
        assert(ks.contains(group_key(g, rs[rs.len() - 1])));
        lemma_push(init, r, Filter::All);
    }
}

proof fn lemma_sum_rows_keys(rows: Seq<(String, Aggregate)>, rs: Seq<Record>, g: GroupBy)
    requires
        forall|i: int|
            0 <= i < rows.len() ==> (#[trigger] rows[i]).1.totals() == sum_where(
                rs,
                key_filter(g, rows[i].0@),
            ),
    ensures
        sum_rows(rows) == sum_keys(rs, rows.map_values(|p: (String, Aggregate)| p.0@), g),
    decreases rows.len(),
{
    let ks = rows.map_values(|p: (String, Aggregate)| p.0@);
    if rows.len() > 0 {
        let init = rows.drop_last();
        assert forall|i: int| 0 <= i < init.len() implies (#[trigger] init[i]).1.totals()
            == sum_where(rs, key_filter(g, init[i].0@)) by {
            assert(init[i] == rows[i]);
        }
        lemma_sum_rows_keys(init, rs, g);
        assert(ks.drop_last() =~= init.map_values(|p: (String, Aggregate)| p.0@));
        assert(rows[rows.len() - 1] == rows.last());
    }
}

/// The rows of a breakdown add up to the totals of all messages: every
/// message is counted in exactly one row.
pub proof fn law_breakdown_adds_up(rows: Seq<(String, Aggregate)>, rs: Seq<Record>, g: GroupBy)
    requires
        groups_match(rows, rs, g),
    ensures
        sum_rows(rows) == sum_all(rs),
{
    reveal(groups_match);
    let ks = rows.map_values(|p: (String, Aggregate)| p.0@);
    lemma_sum_rows_keys(rows, rs, g);
    assert(ks.no_duplicates()) by {
        assert forall|i: int, j: int| 0 <= i < ks.len() && 0 <= j < ks.len() && i != j implies ks[i]
            != ks[j] by {
            assert(ks[i] == rows[i].0@);
            assert(ks[j] == rows[j].0@);
        }
    }
    assert forall|k: int| 0 <= k < rs.len() implies ks.contains(group_key(g, #[trigger] rs[k])) by {
        let i = choose|i: int| 0 <= i < rows.len() && (#[trigger] rows[i]).0@ == group_key(g, rs[k]);
        assert(ks[i] == rows[i].0@);
    }
    lemma_sum_keys_total(rs, ks, g);
}

} // verus!
