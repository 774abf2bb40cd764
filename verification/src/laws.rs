//! Laws of the differ: idempotence and completeness of the column-level
//! diff, stated over the same spec functions its contracts use.

use crate::alter_table::{AlterColumnAction, AlterColumnV, AlterTableActionV};
use crate::differ::{
    spec_column_delta, spec_column_delta_actions, spec_diff_table, spec_insert_column,
    spec_merge_columns, spec_sort_columns, spec_table_actions,
};
use crate::identifier::{
    lemma_name_lt_connected, lemma_name_lt_irreflexive, lemma_name_lt_transitive, name_lt,
};
use crate::table_definition::{ColumnV, TableV};
use vstd::prelude::*;

verus! {

// ---------------------------------------------------------------------------
// Idempotence.
// ---------------------------------------------------------------------------

/// Merging a name-sorted column list with itself yields no actions.
proof fn lemma_merge_columns_self(s: Seq<ColumnV>)
    ensures
        spec_merge_columns(s, s) == Seq::<AlterTableActionV>::empty(),
    decreases s.len(),
{
    if s.len() > 0 {
        lemma_name_lt_irreflexive(s[0].name);
        lemma_merge_columns_self(s.drop_first());
        assert(spec_column_delta_actions(s[0], s[0]) =~= Seq::<AlterColumnAction>::empty());
        assert(spec_merge_columns(s, s) =~= Seq::<AlterTableActionV>::empty());
    }
}

/// Idempotence: diffing any table generation against itself finds nothing.
/// With `diff_table`'s contract this makes `diff_table(t, t)` return
/// `Ok(None)` for every table definition `t`.
pub proof fn lemma_diff_table_idempotent(t: TableV)
    ensures
        spec_diff_table(t, t) is None,
{
    lemma_merge_columns_self(spec_sort_columns(t.columns));
}

// ---------------------------------------------------------------------------
// Counting columns and actions by name.
// ---------------------------------------------------------------------------

/// How many columns of `s` bear the name `n`.
pub open spec fn count_cols_named(s: Seq<ColumnV>, n: Seq<char>) -> nat
    decreases s.len(),
{
    if s.len() == 0 {
        0
    } else {
        (if s[0].name == n {
            1nat
        } else {
            0nat
        }) + count_cols_named(s.drop_first(), n)
    }
}

/// Whether some column of `s` bears the name `n`.
pub open spec fn has_col_named(s: Seq<ColumnV>, n: Seq<char>) -> bool {
    exists|i: int| 0 <= i < s.len() && s[i].name == n
}

/// The first column of `s` bearing the name `n`.
pub open spec fn col_named(s: Seq<ColumnV>, n: Seq<char>) -> ColumnV
    decreases s.len(),
{
    if s.len() == 0 {
        arbitrary()
    } else if s[0].name == n {
        s[0]
    } else {
        col_named(s.drop_first(), n)
    }
}

/// No two columns of `s` share a name.
pub open spec fn unique_col_names(s: Seq<ColumnV>) -> bool {
    forall|i: int, j: int|
        0 <= i < j < s.len() ==> (#[trigger] s[i].name) != (#[trigger] s[j].name)
}

/// Column names strictly ascending.
pub open spec fn cols_strictly_sorted(s: Seq<ColumnV>) -> bool {
    forall|i: int, j: int|
        0 <= i < j < s.len() ==> name_lt(#[trigger] s[i].name, #[trigger] s[j].name)
}

/// How many `DropColumn(n)` actions `acts` holds.
pub open spec fn count_drops_of(acts: Seq<AlterTableActionV>, n: Seq<char>) -> nat
    decreases acts.len(),
{
    if acts.len() == 0 {
        0
    } else {
        (match acts[0] {
            AlterTableActionV::DropColumn(m) => if m == n {
                1nat
            } else {
                0nat
            },
            _ => 0nat,
        }) + count_drops_of(acts.drop_first(), n)
    }
}

/// How many `AddColumn` actions for a column named `n` `acts` holds.
pub open spec fn count_adds_of(acts: Seq<AlterTableActionV>, n: Seq<char>) -> nat
    decreases acts.len(),
{
    if acts.len() == 0 {
        0
    } else {
        (match acts[0] {
            AlterTableActionV::AddColumn(c) => if c.name == n {
                1nat
            } else {
                0nat
            },
            _ => 0nat,
        }) + count_adds_of(acts.drop_first(), n)
    }
}

/// How many `AlterColumn` actions against the name `n` `acts` holds.
pub open spec fn count_alters_of(acts: Seq<AlterTableActionV>, n: Seq<char>) -> nat
    decreases acts.len(),
{
    if acts.len() == 0 {
        0
    } else {
        (match acts[0] {
            AlterTableActionV::AlterColumn(ac) => if ac.column_name == n {
                1nat
            } else {
                0nat
            },
            _ => 0nat,
        }) + count_alters_of(acts.drop_first(), n)
    }
}

/// Membership unfolds over the first element.
proof fn lemma_has_col_unfold(s: Seq<ColumnV>, n: Seq<char>)
    requires
        s.len() > 0,
    ensures
        has_col_named(s, n) <==> (s[0].name == n || has_col_named(s.drop_first(), n)),
{
    if has_col_named(s, n) {
        let i = choose|i: int| 0 <= i < s.len() && s[i].name == n;
        if i > 0 {
            assert(s.drop_first()[i - 1].name == n);
        }
    }
    if has_col_named(s.drop_first(), n) {
        let i = choose|i: int| 0 <= i < s.drop_first().len() && s.drop_first()[i].name == n;
        assert(s[i + 1].name == n);
    }
}

/// A name is present exactly when its count is positive.
proof fn lemma_count_pos_iff_has(s: Seq<ColumnV>, n: Seq<char>)
    ensures
        (count_cols_named(s, n) > 0) <==> has_col_named(s, n),
    decreases s.len(),
{
    if s.len() > 0 {
        lemma_count_pos_iff_has(s.drop_first(), n);
        lemma_has_col_unfold(s, n);
    }
}

/// Column counts distribute over concatenation.
proof fn lemma_count_cols_concat(x: Seq<ColumnV>, y: Seq<ColumnV>, n: Seq<char>)
    ensures
        count_cols_named(x + y, n) == count_cols_named(x, n) + count_cols_named(y, n),
    decreases x.len(),
{
    if x.len() == 0 {
        assert(x + y =~= y);
    } else {
        lemma_count_cols_concat(x.drop_first(), y, n);
        assert((x + y).drop_first() =~= x.drop_first() + y);
    }
}

/// Action counts distribute over concatenation.
proof fn lemma_count_actions_concat(
    x: Seq<AlterTableActionV>,
    y: Seq<AlterTableActionV>,
    n: Seq<char>,
)
    ensures
        count_drops_of(x + y, n) == count_drops_of(x, n) + count_drops_of(y, n),
        count_adds_of(x + y, n) == count_adds_of(x, n) + count_adds_of(y, n),
        count_alters_of(x + y, n) == count_alters_of(x, n) + count_alters_of(y, n),
    decreases x.len(),
{
    if x.len() == 0 {
        assert(x + y =~= y);
    } else {
        lemma_count_actions_concat(x.drop_first(), y, n);
        assert((x + y).drop_first() =~= x.drop_first() + y);
    }
}

/// Under unique names every count is at most one.
proof fn lemma_unique_count(s: Seq<ColumnV>, n: Seq<char>)
    requires
        unique_col_names(s),
    ensures
        count_cols_named(s, n) <= 1,
    decreases s.len(),
{
    if s.len() > 0 {
        let rest = s.drop_first();
        assert(unique_col_names(rest)) by {
            assert forall|i: int, j: int| 0 <= i < j < rest.len() implies (#[trigger] rest[i].name)
                != (#[trigger] rest[j].name) by {
                assert(rest[i] == s[i + 1]);
                assert(rest[j] == s[j + 1]);
            }
        }
        lemma_unique_count(rest, n);
        if s[0].name == n {
            lemma_count_pos_iff_has(rest, n);
            if count_cols_named(rest, n) > 0 {
                let i = choose|i: int| 0 <= i < rest.len() && rest[i].name == n;
                assert(s[i + 1].name == s[0].name);
                assert(false);
            }
        }
    }
}

/// `col_named` returns a member of the list, bearing the asked-for name.
proof fn lemma_col_named_is_member(s: Seq<ColumnV>, n: Seq<char>)
    requires
        has_col_named(s, n),
    ensures
        col_named(s, n).name == n,
        exists|i: int| 0 <= i < s.len() && s[i] == col_named(s, n),
    decreases s.len(),
{
    lemma_has_col_unfold(s, n);
    if s[0].name == n {
        assert(s[0] == col_named(s, n));
    } else {
        lemma_col_named_is_member(s.drop_first(), n);
        let i = choose|i: int|
            0 <= i < s.drop_first().len() && s.drop_first()[i] == col_named(s.drop_first(), n);
        assert(s[i + 1] == col_named(s, n));
    }
}

/// Under unique names, any member bearing the name `n` is `col_named(s, n)`.
proof fn lemma_member_named_unique(s: Seq<ColumnV>, n: Seq<char>, i: int)
    requires
        count_cols_named(s, n) <= 1,
        0 <= i < s.len(),
        s[i].name == n,
    ensures
        s[i] == col_named(s, n),
    decreases s.len(),
{
    if i == 0 {
    } else {
        assert(s.drop_first()[i - 1].name == n);
        lemma_count_pos_iff_has(s.drop_first(), n);
        if s[0].name == n {
            assert(false);
        }
        lemma_member_named_unique(s.drop_first(), n, i - 1);
    }
}

// ---------------------------------------------------------------------------
// What sorting preserves.
// ---------------------------------------------------------------------------

/// Inserting adds one element; every element of the result is the inserted
/// column or one of the old ones.
proof fn lemma_insert_column_elements(c: ColumnV, s: Seq<ColumnV>)
    ensures
        spec_insert_column(c, s).len() == s.len() + 1,
        forall|k: int|
            0 <= k < s.len() + 1 ==> (#[trigger] spec_insert_column(c, s)[k] == c || exists|m: int|
                0 <= m < s.len() && spec_insert_column(c, s)[k] == s[m]),
    decreases s.len(),
{
    let ins = spec_insert_column(c, s);
    if s.len() == 0 {
    } else if name_lt(s[0].name, c.name) {
        lemma_insert_column_elements(c, s.drop_first());
        let ins2 = spec_insert_column(c, s.drop_first());
        assert forall|k: int|
            0 <= k < s.len() + 1 implies (#[trigger] ins[k] == c || exists|m: int|
            0 <= m < s.len() && ins[k] == s[m]) by {
            if k == 0 {
                assert(ins[0] == s[0]);
            } else {
                assert(ins[k] == ins2[k - 1]);
                if ins2[k - 1] != c {
                    let m = choose|m: int|
                        0 <= m < s.drop_first().len() && ins2[k - 1] == s.drop_first()[m];
                    assert(ins[k] == s[m + 1]);
                }
            }
        }
    } else {
        assert forall|k: int|
            0 <= k < s.len() + 1 implies (#[trigger] ins[k] == c || exists|m: int|
            0 <= m < s.len() && ins[k] == s[m]) by {
            if k > 0 {
                assert(ins[k] == s[k - 1]);
            }
        }
    }
}

/// Inserting a fresh name into a strictly sorted list keeps it strictly
/// sorted.
proof fn lemma_insert_column_strict(c: ColumnV, s: Seq<ColumnV>)
    requires
        cols_strictly_sorted(s),
        !has_col_named(s, c.name),
    ensures
        cols_strictly_sorted(spec_insert_column(c, s)),
    decreases s.len(),
{
    let ins = spec_insert_column(c, s);
    if s.len() == 0 {
    } else if name_lt(s[0].name, c.name) {
        let rest = s.drop_first();
        assert(cols_strictly_sorted(rest)) by {
            assert forall|i: int, j: int| 0 <= i < j < rest.len() implies name_lt(
                #[trigger] rest[i].name,
                #[trigger] rest[j].name,
            ) by {
                assert(rest[i] == s[i + 1]);
                assert(rest[j] == s[j + 1]);
            }
        }
        lemma_has_col_unfold(s, c.name);
        lemma_insert_column_strict(c, rest);
        lemma_insert_column_elements(c, rest);
        let ins2 = spec_insert_column(c, rest);
        assert forall|i: int, j: int| 0 <= i < j < ins.len() implies name_lt(
            #[trigger] ins[i].name,
            #[trigger] ins[j].name,
        ) by {
            if i == 0 {
                assert(ins[0] == s[0]);
                assert(ins[j] == ins2[j - 1]);
                if ins2[j - 1] == c {
                } else {
                    let m = choose|m: int| 0 <= m < rest.len() && ins2[j - 1] == rest[m];
                    assert(rest[m] == s[m + 1]);
                }
            } else {
                assert(ins[i] == ins2[i - 1]);
                assert(ins[j] == ins2[j - 1]);
            }
        }
    } else {
        lemma_name_lt_connected(s[0].name, c.name);
        assert(s[0].name != c.name);
        assert(name_lt(c.name, s[0].name));
        assert forall|i: int, j: int| 0 <= i < j < ins.len() implies name_lt(
            #[trigger] ins[i].name,
            #[trigger] ins[j].name,
        ) by {
            if i == 0 {
                assert(ins[j] == s[j - 1]);
                if j - 1 > 0 {
                    lemma_name_lt_transitive(c.name, s[0].name, s[j - 1].name);
                }
            } else {
                assert(ins[i] == s[i - 1]);
                assert(ins[j] == s[j - 1]);
            }
        }
    }
}

/// Inserting adds exactly one occurrence of the inserted name.
proof fn lemma_insert_column_count(c: ColumnV, s: Seq<ColumnV>, n: Seq<char>)
    ensures
        count_cols_named(spec_insert_column(c, s), n) == count_cols_named(s, n) + (if c.name
            == n {
            1nat
        } else {
            0nat
        }),
    decreases s.len(),
{
    let ins = spec_insert_column(c, s);
    if s.len() == 0 {
        assert(ins.len() == 1 && ins[0] == c);
        assert(ins.drop_first() =~= Seq::<ColumnV>::empty());
        assert(count_cols_named(ins.drop_first(), n) == 0);
    } else if name_lt(s[0].name, c.name) {
        lemma_insert_column_count(c, s.drop_first(), n);
        let ins2 = spec_insert_column(c, s.drop_first());
        assert(ins.len() == ins2.len() + 1 && ins[0] == s[0]);
        assert(ins.drop_first() =~= ins2);
        assert(count_cols_named(ins, n) == (if s[0].name == n {
            1nat
        } else {
            0nat
        }) + count_cols_named(ins2, n));
    } else {
        assert(ins.len() == s.len() + 1 && ins[0] == c);
        assert(ins.drop_first() =~= s);
        assert(count_cols_named(ins, n) == (if c.name == n {
            1nat
        } else {
            0nat
        }) + count_cols_named(s, n));
    }
}

/// Sorting preserves every name count.
proof fn lemma_sort_columns_count(s: Seq<ColumnV>, n: Seq<char>)
    ensures
        count_cols_named(spec_sort_columns(s), n) == count_cols_named(s, n),
    decreases s.len(),
{
    if s.len() > 0 {
        lemma_sort_columns_count(s.drop_last(), n);
        lemma_insert_column_count(s.last(), spec_sort_columns(s.drop_last()), n);
        assert(s =~= s.drop_last() + seq![s.last()]);
        lemma_count_cols_concat(s.drop_last(), seq![s.last()], n);
        let single = seq![s.last()];
        assert(single.len() == 1 && single[0] == s.last());
        assert(single.drop_first() =~= Seq::<ColumnV>::empty());
        assert(count_cols_named(single, n) == (if s.last().name == n {
            1nat
        } else {
            0nat
        }) + count_cols_named(single.drop_first(), n));
    }
}

/// Every element of the sorted list is an element of the original.
proof fn lemma_sort_columns_elements(s: Seq<ColumnV>)
    ensures
        spec_sort_columns(s).len() == s.len(),
        forall|k: int|
            0 <= k < s.len() ==> exists|m: int|
                0 <= m < s.len() && #[trigger] spec_sort_columns(s)[k] == s[m],
    decreases s.len(),
{
    let srt = spec_sort_columns(s);
    if s.len() > 0 {
        lemma_sort_columns_elements(s.drop_last());
        let srt2 = spec_sort_columns(s.drop_last());
        lemma_insert_column_elements(s.last(), srt2);
        assert forall|k: int| 0 <= k < s.len() implies exists|m: int|
            0 <= m < s.len() && #[trigger] srt[k] == s[m] by {
            if srt[k] == s.last() {
                assert(srt[k] == s[s.len() - 1]);
            } else {
                let m2 = choose|m2: int| 0 <= m2 < srt2.len() && srt[k] == srt2[m2];
                let m = choose|m: int| 0 <= m < s.drop_last().len() && srt2[m2] == s.drop_last()[m];
                assert(srt[k] == s[m]);
            }
        }
    }
}

/// Sorting a uniquely-named list yields strictly ascending names.
proof fn lemma_sort_columns_strict(s: Seq<ColumnV>)
    requires
        unique_col_names(s),
    ensures
        cols_strictly_sorted(spec_sort_columns(s)),
    decreases s.len(),
{
    if s.len() > 0 {
        let init = s.drop_last();
        assert(unique_col_names(init)) by {
            assert forall|i: int, j: int| 0 <= i < j < init.len() implies (#[trigger] init[i].name)
                != (#[trigger] init[j].name) by {
                assert(init[i] == s[i]);
                assert(init[j] == s[j]);
            }
        }
        lemma_sort_columns_strict(init);
        assert(count_cols_named(init, s.last().name) == 0) by {
            lemma_count_pos_iff_has(init, s.last().name);
            if has_col_named(init, s.last().name) {
                let i = choose|i: int| 0 <= i < init.len() && init[i].name == s.last().name;
                assert(s[i].name == s[s.len() - 1].name);
                assert(false);
            }
        }
        lemma_sort_columns_count(init, s.last().name);
        lemma_count_pos_iff_has(spec_sort_columns(init), s.last().name);
        lemma_insert_column_strict(s.last(), spec_sort_columns(init));
    }
}

/// Under unique names, sorting does not change which column a name denotes.
proof fn lemma_col_named_sort(s: Seq<ColumnV>, n: Seq<char>)
    requires
        unique_col_names(s),
        has_col_named(s, n),
    ensures
        has_col_named(spec_sort_columns(s), n),
        col_named(spec_sort_columns(s), n) == col_named(s, n),
{
    let srt = spec_sort_columns(s);
    lemma_count_pos_iff_has(s, n);
    lemma_sort_columns_count(s, n);
    lemma_count_pos_iff_has(srt, n);
    lemma_col_named_is_member(srt, n);
    let k = choose|k: int| 0 <= k < srt.len() && srt[k] == col_named(srt, n);
    lemma_sort_columns_elements(s);
    let m = choose|m: int| 0 <= m < s.len() && srt[k] == s[m];
    lemma_unique_count(s, n);
    lemma_member_named_unique(s, n, m);
}

// ---------------------------------------------------------------------------
// What the merge walk emits, name by name.
// ---------------------------------------------------------------------------

/// Strict sortedness survives dropping the first element.
proof fn lemma_strict_drop_first(s: Seq<ColumnV>)
    requires
        cols_strictly_sorted(s),
        s.len() > 0,
    ensures
        cols_strictly_sorted(s.drop_first()),
{
    let rest = s.drop_first();
    assert forall|i: int, j: int| 0 <= i < j < rest.len() implies name_lt(
        #[trigger] rest[i].name,
        #[trigger] rest[j].name,
    ) by {
        assert(rest[i] == s[i + 1]);
        assert(rest[j] == s[j + 1]);
    }
}

/// In a strictly sorted list the first name never recurs.
proof fn lemma_strict_head_not_in_rest(s: Seq<ColumnV>)
    requires
        cols_strictly_sorted(s),
        s.len() > 0,
    ensures
        !has_col_named(s.drop_first(), s[0].name),
{
    let rest = s.drop_first();
    if has_col_named(rest, s[0].name) {
        let i = choose|i: int| 0 <= i < rest.len() && rest[i].name == s[0].name;
        assert(rest[i] == s[i + 1]);
        assert(name_lt(s[0].name, s[i + 1].name));
        lemma_name_lt_irreflexive(s[0].name);
    }
}

/// A name below the first of a strictly sorted list occurs nowhere in it.
proof fn lemma_small_name_not_in(s: Seq<ColumnV>, n: Seq<char>)
    requires
        cols_strictly_sorted(s),
        s.len() > 0,
        name_lt(n, s[0].name),
    ensures
        !has_col_named(s, n),
{
    if has_col_named(s, n) {
        let i = choose|i: int| 0 <= i < s.len() && s[i].name == n;
        if i > 0 {
            lemma_name_lt_transitive(n, s[0].name, s[i].name);
        }
        lemma_name_lt_irreflexive(n);
    }
}

/// Over strictly sorted inputs the merge emits, for each name, exactly one
/// `DropColumn` when only the old generation has it, exactly one `AddColumn`
/// when only the new one has it, and exactly one `AlterColumn` when both
/// have it and something about it changed; otherwise nothing.
proof fn lemma_merge_columns_counts(b: Seq<ColumnV>, a: Seq<ColumnV>, n: Seq<char>)
    requires
        cols_strictly_sorted(b),
        cols_strictly_sorted(a),
    ensures
        count_drops_of(spec_merge_columns(b, a), n) == (if has_col_named(b, n)
            && !has_col_named(a, n) {
            1nat
        } else {
            0nat
        }),
        count_adds_of(spec_merge_columns(b, a), n) == (if has_col_named(a, n)
            && !has_col_named(b, n) {
            1nat
        } else {
            0nat
        }),
        count_alters_of(spec_merge_columns(b, a), n) == (if has_col_named(b, n)
            && has_col_named(a, n) && spec_column_delta_actions(
            col_named(b, n),
            col_named(a, n),
        ).len() > 0 {
            1nat
        } else {
            0nat
        }),
    decreases b.len() + a.len(),
{
    let acts = spec_merge_columns(b, a);
    if b.len() == 0 && a.len() == 0 {
        assert(!has_col_named(b, n));
        assert(!has_col_named(a, n));
    } else if b.len() == 0 {
        lemma_strict_drop_first(a);
        lemma_merge_columns_counts(b, a.drop_first(), n);
        lemma_has_col_unfold(a, n);
        assert(!has_col_named(b, n));
        let rest = spec_merge_columns(b, a.drop_first());
        assert(acts[0] == AlterTableActionV::AddColumn(a[0]));
        assert(acts.drop_first() =~= rest);
        assert(count_drops_of(acts, n) == count_drops_of(rest, n));
        assert(count_alters_of(acts, n) == count_alters_of(rest, n));
        assert(count_adds_of(acts, n) == (if a[0].name == n {
            1nat
        } else {
            0nat
        }) + count_adds_of(rest, n));
        if a[0].name == n {
            lemma_strict_head_not_in_rest(a);
        }
    } else if a.len() == 0 {
        lemma_strict_drop_first(b);
        lemma_merge_columns_counts(b.drop_first(), a, n);
        lemma_has_col_unfold(b, n);
        assert(!has_col_named(a, n));
        let rest = spec_merge_columns(b.drop_first(), a);
        assert(acts[0] == AlterTableActionV::DropColumn(b[0].name));
        assert(acts.drop_first() =~= rest);
        assert(count_adds_of(acts, n) == count_adds_of(rest, n));
        assert(count_alters_of(acts, n) == count_alters_of(rest, n));
        assert(count_drops_of(acts, n) == (if b[0].name == n {
            1nat
        } else {
            0nat
        }) + count_drops_of(rest, n));
        if b[0].name == n {
            lemma_strict_head_not_in_rest(b);
        }
    } else if name_lt(b[0].name, a[0].name) {
        lemma_strict_drop_first(b);
        lemma_merge_columns_counts(b.drop_first(), a, n);
        lemma_has_col_unfold(b, n);
        let rest = spec_merge_columns(b.drop_first(), a);
        assert(acts[0] == AlterTableActionV::DropColumn(b[0].name));
        assert(acts.drop_first() =~= rest);
        assert(count_adds_of(acts, n) == count_adds_of(rest, n));
        assert(count_alters_of(acts, n) == count_alters_of(rest, n));
        assert(count_drops_of(acts, n) == (if b[0].name == n {
            1nat
        } else {
            0nat
        }) + count_drops_of(rest, n));
        if b[0].name == n {
            lemma_strict_head_not_in_rest(b);
            lemma_small_name_not_in(a, n);
        }
    } else if name_lt(a[0].name, b[0].name) {
        lemma_strict_drop_first(a);
        lemma_merge_columns_counts(b, a.drop_first(), n);
        lemma_has_col_unfold(a, n);
        let rest = spec_merge_columns(b, a.drop_first());
        assert(acts[0] == AlterTableActionV::AddColumn(a[0]));
        assert(acts.drop_first() =~= rest);
        assert(count_drops_of(acts, n) == count_drops_of(rest, n));
        assert(count_alters_of(acts, n) == count_alters_of(rest, n));
        assert(count_adds_of(acts, n) == (if a[0].name == n {
            1nat
        } else {
            0nat
        }) + count_adds_of(rest, n));
        if a[0].name == n {
            lemma_strict_head_not_in_rest(a);
            lemma_small_name_not_in(b, n);
        }
    } else {
        lemma_name_lt_connected(b[0].name, a[0].name);
        assert(b[0].name == a[0].name);
        lemma_strict_drop_first(b);
        lemma_strict_drop_first(a);
        lemma_merge_columns_counts(b.drop_first(), a.drop_first(), n);
        lemma_has_col_unfold(b, n);
        lemma_has_col_unfold(a, n);
        let delta = spec_column_delta(b[0], a[0]);
        let rest = spec_merge_columns(b.drop_first(), a.drop_first());
        lemma_count_actions_concat(delta, rest, n);
        let changes = spec_column_delta_actions(b[0], a[0]);
        if changes.len() > 0 {
            assert(delta.len() == 1);
            assert(delta[0] == AlterTableActionV::AlterColumn(
                AlterColumnV { column_name: a[0].name, actions: changes },
            ));
            assert(delta.drop_first() =~= Seq::<AlterTableActionV>::empty());
            assert(count_drops_of(delta.drop_first(), n) == 0);
            assert(count_adds_of(delta.drop_first(), n) == 0);
            assert(count_alters_of(delta.drop_first(), n) == 0);
            assert(count_drops_of(delta, n) == 0);
            assert(count_adds_of(delta, n) == 0);
            assert(count_alters_of(delta, n) == (if a[0].name == n {
                1nat
            } else {
                0nat
            }));
        } else {
            assert(delta =~= Seq::<AlterTableActionV>::empty());
            assert(count_drops_of(delta, n) == 0);
            assert(count_adds_of(delta, n) == 0);
            assert(count_alters_of(delta, n) == 0);
        }
        if b[0].name == n {
            lemma_strict_head_not_in_rest(b);
            lemma_strict_head_not_in_rest(a);
            assert(col_named(b, n) == b[0]);
            assert(col_named(a, n) == a[0]);
        }
    }
}

/// One merge action, held against the two column lists it came from: an
/// added column is the new generation's column wholesale, a dropped name is
/// one only the old generation has, and an `AlterColumn` carries exactly the
/// changed sub-actions of the matched pair. The merge never renames.
pub open spec fn column_action_sound(
    b: Seq<ColumnV>,
    a: Seq<ColumnV>,
    act: AlterTableActionV,
) -> bool {
    match act {
        AlterTableActionV::Rename(_) => false,
        AlterTableActionV::AddColumn(c) => has_col_named(a, c.name) && !has_col_named(b, c.name)
            && c == col_named(a, c.name),
        AlterTableActionV::DropColumn(m) => has_col_named(b, m) && !has_col_named(a, m),
        AlterTableActionV::AlterColumn(ac) => has_col_named(b, ac.column_name) && has_col_named(
            a,
            ac.column_name,
        ) && ac.actions == spec_column_delta_actions(
            col_named(b, ac.column_name),
            col_named(a, ac.column_name),
        ) && ac.actions.len() > 0,
    }
}

/// Every action the merge emits is sound for the lists it was computed from.
proof fn lemma_merge_columns_content(b: Seq<ColumnV>, a: Seq<ColumnV>)
    requires
        cols_strictly_sorted(b),
        cols_strictly_sorted(a),
    ensures
        forall|k: int|
            0 <= k < spec_merge_columns(b, a).len() ==> column_action_sound(
                b,
                a,
                #[trigger] spec_merge_columns(b, a)[k],
            ),
    decreases b.len() + a.len(),
{
    let acts = spec_merge_columns(b, a);
    if b.len() == 0 && a.len() == 0 {
    } else if b.len() == 0 {
        lemma_strict_drop_first(a);
        lemma_merge_columns_content(b, a.drop_first());
        lemma_strict_head_not_in_rest(a);
        let rest = spec_merge_columns(b, a.drop_first());
        assert(acts[0] == AlterTableActionV::AddColumn(a[0]));
        assert(acts.drop_first() =~= rest);
        assert forall|k: int| 0 <= k < acts.len() implies column_action_sound(
            b,
            a,
            #[trigger] acts[k],
        ) by {
            if k == 0 {
                assert(a[0].name == a[0].name && 0 < a.len());
            } else {
                assert(acts[k] == rest[k - 1]);
                lift_action(b, a, acts[k], true);
            }
        }
    } else if a.len() == 0 {
        lemma_strict_drop_first(b);
        lemma_merge_columns_content(b.drop_first(), a);
        lemma_strict_head_not_in_rest(b);
        let rest = spec_merge_columns(b.drop_first(), a);
        assert(acts[0] == AlterTableActionV::DropColumn(b[0].name));
        assert(acts.drop_first() =~= rest);
        assert forall|k: int| 0 <= k < acts.len() implies column_action_sound(
            b,
            a,
            #[trigger] acts[k],
        ) by {
            if k == 0 {
            } else {
                assert(acts[k] == rest[k - 1]);
                lift_action(b, a, acts[k], false);
            }
        }
    } else if name_lt(b[0].name, a[0].name) {
        lemma_strict_drop_first(b);
        lemma_merge_columns_content(b.drop_first(), a);
        lemma_strict_head_not_in_rest(b);
        lemma_small_name_not_in(a, b[0].name);
        let rest = spec_merge_columns(b.drop_first(), a);
        assert(acts[0] == AlterTableActionV::DropColumn(b[0].name));
        assert(acts.drop_first() =~= rest);
        assert forall|k: int| 0 <= k < acts.len() implies column_action_sound(
            b,
            a,
            #[trigger] acts[k],
        ) by {
            if k == 0 {
            } else {
                assert(acts[k] == rest[k - 1]);
                lift_action(b, a, acts[k], false);
            }
        }
    } else if name_lt(a[0].name, b[0].name) {
        lemma_strict_drop_first(a);
        lemma_merge_columns_content(b, a.drop_first());
        lemma_strict_head_not_in_rest(a);
        lemma_small_name_not_in(b, a[0].name);
        let rest = spec_merge_columns(b, a.drop_first());
        assert(acts[0] == AlterTableActionV::AddColumn(a[0]));
        assert(acts.drop_first() =~= rest);
        assert forall|k: int| 0 <= k < acts.len() implies column_action_sound(
            b,
            a,
            #[trigger] acts[k],
        ) by {
            if k == 0 {
                assert(a[0].name == a[0].name && 0 < a.len());
            } else {
                assert(acts[k] == rest[k - 1]);
                lift_action(b, a, acts[k], true);
            }
        }
    } else {
        lemma_name_lt_connected(b[0].name, a[0].name);
        assert(b[0].name == a[0].name);
        lemma_strict_drop_first(b);
        lemma_strict_drop_first(a);
        lemma_merge_columns_content(b.drop_first(), a.drop_first());
        lemma_strict_head_not_in_rest(b);
        lemma_strict_head_not_in_rest(a);
        let delta = spec_column_delta(b[0], a[0]);
        let rest = spec_merge_columns(b.drop_first(), a.drop_first());
        let changes = spec_column_delta_actions(b[0], a[0]);
        assert forall|k: int| 0 <= k < acts.len() implies column_action_sound(
            b,
            a,
            #[trigger] acts[k],
        ) by {
            if changes.len() > 0 && k == 0 {
                assert(acts[0] == AlterTableActionV::AlterColumn(
                    AlterColumnV { column_name: a[0].name, actions: changes },
                ));
                assert(b[0].name == b[0].name && 0 < b.len());
                assert(a[0].name == a[0].name && 0 < a.len());
                assert(col_named(b, a[0].name) == b[0]);
                assert(col_named(a, a[0].name) == a[0]);
            } else {
                let k2: int = if changes.len() > 0 {
                    k - 1
                } else {
                    k
                };
                assert(acts[k] == rest[k2]) by {
                    if changes.len() > 0 {
                        assert(delta.len() == 1);
                        assert(acts.drop_first() =~= rest);
                    } else {
                        assert(acts =~= rest);
                    }
                }
                lift_both(b, a, acts[k]);
            }
        }
    }
}

/// Lifts the soundness of one action from `merge(b', a)` (or `merge(b, a')`)
/// back to the full lists, when the head of the shortened side cannot occur
/// in the action. `dropped_right` says which side lost its head.
proof fn lift_action(b: Seq<ColumnV>, a: Seq<ColumnV>, act: AlterTableActionV, dropped_right: bool)
    requires
        dropped_right ==> a.len() > 0 && column_action_sound(b, a.drop_first(), act)
            && !has_col_named(a.drop_first(), a[0].name) && (b.len() == 0 || !has_col_named(
            b,
            a[0].name,
        )),
        !dropped_right ==> b.len() > 0 && column_action_sound(b.drop_first(), a, act)
            && !has_col_named(b.drop_first(), b[0].name) && (a.len() == 0 || !has_col_named(
            a,
            b[0].name,
        )),
    ensures
        column_action_sound(b, a, act),
{
    if dropped_right {
        let a2 = a.drop_first();
        match act {
            AlterTableActionV::Rename(_) => {},
            AlterTableActionV::AddColumn(c) => {
                lemma_has_col_unfold(a, c.name);
                assert(c.name != a[0].name);
            },
            AlterTableActionV::DropColumn(m) => {
                assert(m != a[0].name) by {
                    if m == a[0].name {
                        assert(has_col_named(b, m));
                    }
                }
                lemma_has_col_unfold(a, m);
            },
            AlterTableActionV::AlterColumn(ac) => {
                let m = ac.column_name;
                assert(m != a[0].name);
                lemma_has_col_unfold(a, m);
                assert(col_named(a, m) == col_named(a2, m));
            },
        }
    } else {
        let b2 = b.drop_first();
        match act {
            AlterTableActionV::Rename(_) => {},
            AlterTableActionV::AddColumn(c) => {
                assert(c.name != b[0].name) by {
                    if c.name == b[0].name {
                        assert(has_col_named(a, c.name));
                    }
                }
                lemma_has_col_unfold(b, c.name);
            },
            AlterTableActionV::DropColumn(m) => {
                assert(m != b[0].name);
                lemma_has_col_unfold(b, m);
            },
            AlterTableActionV::AlterColumn(ac) => {
                let m = ac.column_name;
                assert(m != b[0].name);
                lemma_has_col_unfold(b, m);
                assert(col_named(b, m) == col_named(b2, m));
            },
        }
    }
}

/// Lifts the soundness of one action from `merge(b', a')` back to the full
/// lists, when both heads bear the same name and neither name recurs.
proof fn lift_both(b: Seq<ColumnV>, a: Seq<ColumnV>, act: AlterTableActionV)
    requires
        b.len() > 0,
        a.len() > 0,
        b[0].name == a[0].name,
        column_action_sound(b.drop_first(), a.drop_first(), act),
        !has_col_named(b.drop_first(), b[0].name),
        !has_col_named(a.drop_first(), a[0].name),
    ensures
        column_action_sound(b, a, act),
{
    let b2 = b.drop_first();
    let a2 = a.drop_first();
    match act {
        AlterTableActionV::Rename(_) => {},
        AlterTableActionV::AddColumn(c) => {
            assert(c.name != a[0].name);
            lemma_has_col_unfold(a, c.name);
            lemma_has_col_unfold(b, c.name);
            assert(col_named(a, c.name) == col_named(a2, c.name));
        },
        AlterTableActionV::DropColumn(m) => {
            assert(m != b[0].name);
            lemma_has_col_unfold(b, m);
            lemma_has_col_unfold(a, m);
        },
        AlterTableActionV::AlterColumn(ac) => {
            let m = ac.column_name;
            assert(m != b[0].name);
            lemma_has_col_unfold(b, m);
            lemma_has_col_unfold(a, m);
            assert(col_named(b, m) == col_named(b2, m));
            assert(col_named(a, m) == col_named(a2, m));
        },
    }
}

/// Sorting changes no name's presence.
proof fn lemma_has_sort_iff(s: Seq<ColumnV>, n: Seq<char>)
    ensures
        has_col_named(spec_sort_columns(s), n) <==> has_col_named(s, n),
{
    lemma_sort_columns_count(s, n);
    lemma_count_pos_iff_has(s, n);
    lemma_count_pos_iff_has(spec_sort_columns(s), n);
}

/// Soundness of an action against the sorted lists carries back to the
/// original lists.
proof fn lemma_transfer_sound(bc: Seq<ColumnV>, ac: Seq<ColumnV>, act: AlterTableActionV)
    requires
        unique_col_names(bc),
        unique_col_names(ac),
        column_action_sound(spec_sort_columns(bc), spec_sort_columns(ac), act),
    ensures
        column_action_sound(bc, ac, act),
{
    match act {
        AlterTableActionV::Rename(_) => {},
        AlterTableActionV::AddColumn(c) => {
            lemma_has_sort_iff(ac, c.name);
            lemma_has_sort_iff(bc, c.name);
            lemma_col_named_sort(ac, c.name);
        },
        AlterTableActionV::DropColumn(m) => {
            lemma_has_sort_iff(bc, m);
            lemma_has_sort_iff(ac, m);
        },
        AlterTableActionV::AlterColumn(alter) => {
            lemma_has_sort_iff(bc, alter.column_name);
            lemma_has_sort_iff(ac, alter.column_name);
            lemma_col_named_sort(bc, alter.column_name);
            lemma_col_named_sort(ac, alter.column_name);
        },
    }
}

/// Completeness of the table diff. For any name `n`, the action list of
/// `spec_table_actions(b, a)` holds exactly one `DropColumn(n)` when only
/// `b` has a column named `n`, exactly one `AddColumn` of `a`'s column when
/// only `a` has one, and exactly one `AlterColumn` carrying exactly the
/// changed sub-actions when both have one and its type or nullability
/// changed; otherwise no action touches `n`. Every emitted action is sound
/// for the two generations, and a rename appears only first, only when the
/// table name changed, and only with the new name.
pub proof fn lemma_diff_table_complete(b: TableV, a: TableV, n: Seq<char>)
    requires
        unique_col_names(b.columns),
        unique_col_names(a.columns),
    ensures
        ({
            let acts = spec_table_actions(b, a);
            &&& count_drops_of(acts, n) == (if has_col_named(b.columns, n) && !has_col_named(
                a.columns,
                n,
            ) {
                1nat
            } else {
                0nat
            })
            &&& count_adds_of(acts, n) == (if has_col_named(a.columns, n) && !has_col_named(
                b.columns,
                n,
            ) {
                1nat
            } else {
                0nat
            })
            &&& count_alters_of(acts, n) == (if has_col_named(b.columns, n) && has_col_named(
                a.columns,
                n,
            ) && spec_column_delta_actions(
                col_named(b.columns, n),
                col_named(a.columns, n),
            ).len() > 0 {
                1nat
            } else {
                0nat
            })
            &&& forall|k: int|
                0 <= k < acts.len() && !(#[trigger] acts[k] is Rename) ==> column_action_sound(
                    b.columns,
                    a.columns,
                    acts[k],
                )
            &&& forall|k: int|
                0 <= k < acts.len() && (#[trigger] acts[k] is Rename) ==> k == 0 && b.name
                    != a.name && acts[k] == AlterTableActionV::Rename(a.name)
        }),
{
    let sb = spec_sort_columns(b.columns);
    let sa = spec_sort_columns(a.columns);
    lemma_sort_columns_strict(b.columns);
    lemma_sort_columns_strict(a.columns);
    lemma_merge_columns_counts(sb, sa, n);
    lemma_merge_columns_content(sb, sa);
    lemma_has_sort_iff(b.columns, n);
    lemma_has_sort_iff(a.columns, n);
    if has_col_named(b.columns, n) {
        lemma_col_named_sort(b.columns, n);
    }
    if has_col_named(a.columns, n) {
        lemma_col_named_sort(a.columns, n);
    }
    let merged = spec_merge_columns(sb, sa);
    let acts = spec_table_actions(b, a);
    if b.name == a.name {
        assert(acts == merged);
        assert forall|k: int|
            0 <= k < acts.len() && !(#[trigger] acts[k] is Rename) implies column_action_sound(
            b.columns,
            a.columns,
            acts[k],
        ) by {
            lemma_transfer_sound(b.columns, a.columns, acts[k]);
        }
        assert forall|k: int| 0 <= k < acts.len() implies !(#[trigger] acts[k] is Rename) by {
            assert(column_action_sound(sb, sa, acts[k]));
        }
    } else {
        let ren = seq![AlterTableActionV::Rename(a.name)];
        assert(acts == ren + merged);
        lemma_count_actions_concat(ren, merged, n);
        assert(ren.drop_first() =~= Seq::<AlterTableActionV>::empty());
        assert(count_drops_of(ren.drop_first(), n) == 0);
        assert(count_adds_of(ren.drop_first(), n) == 0);
        assert(count_alters_of(ren.drop_first(), n) == 0);
        assert(count_drops_of(ren, n) == 0);
        assert(count_adds_of(ren, n) == 0);
        assert(count_alters_of(ren, n) == 0);
        assert(acts.drop_first() =~= merged);
        assert forall|k: int|
            0 <= k < acts.len() && !(#[trigger] acts[k] is Rename) implies column_action_sound(
            b.columns,
            a.columns,
            acts[k],
        ) by {
            assert(k > 0);
            assert(acts[k] == merged[k - 1]);
            lemma_transfer_sound(b.columns, a.columns, acts[k]);
        }
        assert forall|k: int|
            0 <= k < acts.len() && (#[trigger] acts[k] is Rename) implies k == 0 && b.name
            != a.name && acts[k] == AlterTableActionV::Rename(a.name) by {
            if k > 0 {
                assert(acts[k] == merged[k - 1]);
                assert(column_action_sound(sb, sa, acts[k]));
            }
        }
    }
}

} // verus!
