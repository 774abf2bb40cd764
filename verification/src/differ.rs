//! The schema differ: a linear sorted-merge diff, applied once to the
//! columns of a table pair and once to the tables of a database pair.

use crate::alter_table::{
    action_views, AlterColumn, AlterColumnAction, AlterColumnV, AlterTable, AlterTableAction,
    AlterTableActionV, AlterTableV,
};
use crate::create_table::CreateTable;
use crate::identifier::name_lt;
use crate::migration::{migration_action_views, Migration, MigrationAction, MigrationActionV};
use crate::table_definition::{
    column_views, table_views, ColumnV, DatabaseDefinition, DatabaseTableDefinition, DatabaseV,
    TableColumn, TableV,
};
use crate::SchemaError;
use vstd::prelude::*;

verus! {

// ---------------------------------------------------------------------------
// Sorting columns by name (insertion sort, fixed as a spec-level function so
// that the diff is a mathematical function of its inputs).
// ---------------------------------------------------------------------------

/// Inserts `c` before the first element whose name does not sort strictly
/// below `c`'s.
pub open spec fn spec_insert_column(c: ColumnV, s: Seq<ColumnV>) -> Seq<ColumnV>
    decreases s.len(),
{
    if s.len() == 0 {
        seq![c]
    } else if name_lt(s[0].name, c.name) {
        seq![s[0]] + spec_insert_column(c, s.drop_first())
    } else {
        seq![c] + s
    }
}

/// The columns re-sorted by name, ascending.
pub open spec fn spec_sort_columns(s: Seq<ColumnV>) -> Seq<ColumnV>
    decreases s.len(),
{
    if s.len() == 0 {
        Seq::empty()
    } else {
        spec_insert_column(s.last(), spec_sort_columns(s.drop_last()))
    }
}

/// Where the first `p` elements sort strictly below `c` and the element at
/// `p` (if any) does not, the insertion lands exactly at position `p`.
proof fn lemma_insert_column_at(c: ColumnV, s: Seq<ColumnV>, p: int)
    requires
        0 <= p <= s.len(),
        forall|j: int| 0 <= j < p ==> name_lt(#[trigger] s[j].name, c.name),
        p < s.len() ==> !name_lt(s[p].name, c.name),
    ensures
        spec_insert_column(c, s) == s.subrange(0, p) + seq![c] + s.subrange(p, s.len() as int),
    decreases p,
{
    if p == 0 {
        assert(spec_insert_column(c, s) =~= s.subrange(0, 0) + seq![c] + s.subrange(
            0,
            s.len() as int,
        ));
    } else {
        lemma_insert_column_at(c, s.drop_first(), p - 1);
        assert(spec_insert_column(c, s) =~= s.subrange(0, p) + seq![c] + s.subrange(
            p,
            s.len() as int,
        ));
    }
}

/// Inserts `c` into the name-sorted vector `out`, keeping it sorted exactly
/// as `spec_insert_column` says.
fn insert_column_sorted(out: &mut Vec<TableColumn>, c: TableColumn)
    ensures
        column_views(final(out)@) == spec_insert_column(c@, column_views(old(out)@)),
{
    let mut p: usize = 0;
    while p < out.len() && out[p].column_name.precedes(&c.column_name)
        invariant
            p <= out@.len(),
            out@ == old(out)@,
            forall|j: int| 0 <= j < p ==> name_lt(
                #[trigger] column_views(out@)[j].name,
                c@.name,
            ),
        decreases out@.len() - p,
    {
        p += 1;
    }
    let ghost s = column_views(out@);
    out.insert(p, c);
    proof {
        lemma_insert_column_at(c@, s, p as int);
        assert(column_views(out@) =~= s.subrange(0, p as int) + seq![c@] + s.subrange(
            p as int,
            s.len() as int,
        ));
    }
}

/// Returns the columns re-sorted by name, ascending, as
/// `spec_sort_columns` says.
fn sort_columns_by_name(cols: &Vec<TableColumn>) -> (r: Vec<TableColumn>)
    ensures
        column_views(r@) == spec_sort_columns(column_views(cols@)),
{
    let mut out: Vec<TableColumn> = Vec::new();
    let mut i: usize = 0;
    proof {
        assert(column_views(cols@).subrange(0, 0) =~= Seq::<ColumnV>::empty());
        assert(column_views(out@) =~= Seq::<ColumnV>::empty());
    }
    while i < cols.len()
        invariant
            i <= cols@.len(),
            column_views(out@) == spec_sort_columns(column_views(cols@).subrange(0, i as int)),
        decreases cols@.len() - i,
    {
        insert_column_sorted(&mut out, cols[i].clone());
        proof {
            let views = column_views(cols@);
            let pre = views.subrange(0, i as int);
            let post = views.subrange(0, i as int + 1);
            assert(post.drop_last() =~= pre);
            assert(post.last() == views[i as int]);
        }
        i += 1;
    }
    proof {
        assert(column_views(cols@).subrange(0, cols@.len() as int) =~= column_views(cols@));
    }
    out
}

// ---------------------------------------------------------------------------
// The column-level diff.
// ---------------------------------------------------------------------------

/// The changes a matched column pair asks for: a type change first, then a
/// nullability change.
pub open spec fn spec_column_delta_actions(b: ColumnV, a: ColumnV) -> Seq<AlterColumnAction> {
    (if b.column_type != a.column_type {
        seq![AlterColumnAction::SetType(a.column_type)]
    } else {
        Seq::empty()
    }) + (if b.is_nullable != a.is_nullable {
        seq![AlterColumnAction::SetNullability(a.is_nullable)]
    } else {
        Seq::empty()
    })
}

/// The table actions a matched column pair produces: nothing when nothing
/// changed, else a single `AlterColumn` bundling the changes.
pub open spec fn spec_column_delta(b: ColumnV, a: ColumnV) -> Seq<AlterTableActionV> {
    let changes = spec_column_delta_actions(b, a);
    if changes.len() == 0 {
        Seq::empty()
    } else {
        seq![
            AlterTableActionV::AlterColumn(
                AlterColumnV { column_name: a.name, actions: changes },
            ),
        ]
    }
}

/// The sorted-merge walk over two name-sorted column lists: a name only on
/// the left drops the column, a name only on the right adds it, a matched
/// name contributes its delta.
pub open spec fn spec_merge_columns(b: Seq<ColumnV>, a: Seq<ColumnV>) -> Seq<AlterTableActionV>
    decreases b.len() + a.len(),
{
    if b.len() == 0 && a.len() == 0 {
        Seq::empty()
    } else if b.len() == 0 {
        seq![AlterTableActionV::AddColumn(a[0])] + spec_merge_columns(b, a.drop_first())
    } else if a.len() == 0 {
        seq![AlterTableActionV::DropColumn(b[0].name)] + spec_merge_columns(b.drop_first(), a)
    } else if name_lt(b[0].name, a[0].name) {
        seq![AlterTableActionV::DropColumn(b[0].name)] + spec_merge_columns(b.drop_first(), a)
    } else if name_lt(a[0].name, b[0].name) {
        seq![AlterTableActionV::AddColumn(a[0])] + spec_merge_columns(b, a.drop_first())
    } else {
        spec_column_delta(b[0], a[0]) + spec_merge_columns(b.drop_first(), a.drop_first())
    }
}

/// Every action the diff of a table pair produces: the rename first if the
/// name changed, then the column actions in column-name-sorted merge order.
pub open spec fn spec_table_actions(b: TableV, a: TableV) -> Seq<AlterTableActionV> {
    let col_actions = spec_merge_columns(
        spec_sort_columns(b.columns),
        spec_sort_columns(a.columns),
    );
    if b.name == a.name {
        col_actions
    } else {
        seq![AlterTableActionV::Rename(a.name)] + col_actions
    }
}

/// The diff of a table pair: `None` when nothing changed, else the actions
/// bundled against the table's original name.
pub open spec fn spec_diff_table(b: TableV, a: TableV) -> Option<AlterTableV> {
    let actions = spec_table_actions(b, a);
    if actions.len() == 0 {
        None
    } else {
        Some(AlterTableV { table_name: b.name, actions })
    }
}

/// Computes the actions that carry table generation `before` to `after`:
/// `Ok(None)` exactly when the two generations are identical under the diff,
/// else `Ok(Some(alter))` with the rename (if any) first and the column
/// actions in column-name order. The result is a function of the two
/// definitions alone, so repeated calls return structurally identical
/// action lists. Identifiers are valid by construction, so the
/// re-validation this result type allows for never fails.
pub fn diff_table(before: &DatabaseTableDefinition, after: &DatabaseTableDefinition) -> (r: Result<
    Option<AlterTable>,
    SchemaError,
>)
    ensures
        r matches Ok(opt) && (match (opt, spec_diff_table(before@, after@)) {
            (Some(at), Some(v)) => at@ == v,
            (None, None) => true,
            _ => false,
        }),
{
    let mut actions: Vec<AlterTableAction> = Vec::new();
    if !before.table_name.same_name(&after.table_name) {
        actions.push(AlterTableAction::Rename(after.table_name.clone()));
    }
    let ghost rename_part = action_views(actions@);
    let bs = sort_columns_by_name(&before.columns);
    let asc = sort_columns_by_name(&after.columns);
    let ghost bsv = column_views(bs@);
    let ghost asv = column_views(asc@);
    proof {
        assert(bsv.skip(0) =~= bsv);
        assert(asv.skip(0) =~= asv);
    }
    let mut i: usize = 0;
    let mut j: usize = 0;
    while i < bs.len() || j < asc.len()
        invariant
            i <= bs@.len(),
            j <= asc@.len(),
            bsv == column_views(bs@),
            asv == column_views(asc@),
            action_views(actions@) + spec_merge_columns(bsv.skip(i as int), asv.skip(j as int))
                == rename_part + spec_merge_columns(bsv, asv),
        decreases bs@.len() - i + asc@.len() - j,
    {
        let ghost prev = actions@;
        let ghost b_rem = bsv.skip(i as int);
        let ghost a_rem = asv.skip(j as int);
        if i >= bs.len() {
            actions.push(AlterTableAction::AddColumn(asc[j].clone()));
            proof {
                assert(b_rem.len() == 0);
                assert(a_rem[0] == asv[j as int]);
                assert(a_rem.drop_first() =~= asv.skip(j as int + 1));
                assert(action_views(actions@) =~= action_views(prev) + seq![
                    AlterTableActionV::AddColumn(asv[j as int]),
                ]);
                assert(action_views(actions@) + spec_merge_columns(
                    bsv.skip(i as int),
                    asv.skip(j as int + 1),
                ) =~= action_views(prev) + spec_merge_columns(b_rem, a_rem));
            }
            j += 1;
        } else if j >= asc.len() {
            actions.push(AlterTableAction::DropColumn(bs[i].column_name.clone()));
            proof {
                assert(a_rem.len() == 0);
                assert(b_rem[0] == bsv[i as int]);
                assert(b_rem.drop_first() =~= bsv.skip(i as int + 1));
                assert(action_views(actions@) =~= action_views(prev) + seq![
                    AlterTableActionV::DropColumn(bsv[i as int].name),
                ]);
                assert(action_views(actions@) + spec_merge_columns(
                    bsv.skip(i as int + 1),
                    asv.skip(j as int),
                ) =~= action_views(prev) + spec_merge_columns(b_rem, a_rem));
            }
            i += 1;
        } else if bs[i].column_name.precedes(&asc[j].column_name) {
            actions.push(AlterTableAction::DropColumn(bs[i].column_name.clone()));
            proof {
                assert(b_rem[0] == bsv[i as int]);
                assert(a_rem[0] == asv[j as int]);
                assert(name_lt(b_rem[0].name, a_rem[0].name));
                assert(b_rem.drop_first() =~= bsv.skip(i as int + 1));
                assert(action_views(actions@) =~= action_views(prev) + seq![
                    AlterTableActionV::DropColumn(bsv[i as int].name),
                ]);
                assert(action_views(actions@) + spec_merge_columns(
                    bsv.skip(i as int + 1),
                    asv.skip(j as int),
                ) =~= action_views(prev) + spec_merge_columns(b_rem, a_rem));
            }
            i += 1;
        } else if asc[j].column_name.precedes(&bs[i].column_name) {
            actions.push(AlterTableAction::AddColumn(asc[j].clone()));
            proof {
                assert(b_rem[0] == bsv[i as int]);
                assert(a_rem[0] == asv[j as int]);
                assert(name_lt(a_rem[0].name, b_rem[0].name));
                assert(a_rem.drop_first() =~= asv.skip(j as int + 1));
                assert(action_views(actions@) =~= action_views(prev) + seq![
                    AlterTableActionV::AddColumn(asv[j as int]),
                ]);
                assert(action_views(actions@) + spec_merge_columns(
                    bsv.skip(i as int),
                    asv.skip(j as int + 1),
                ) =~= action_views(prev) + spec_merge_columns(b_rem, a_rem));
            }
            j += 1;
        } else {
            let mut changes: Vec<AlterColumnAction> = Vec::new();
            if !(bs[i].column_type == asc[j].column_type) {
                changes.push(AlterColumnAction::SetType(asc[j].column_type));
            }
            if bs[i].is_nullable != asc[j].is_nullable {
                changes.push(AlterColumnAction::SetNullability(asc[j].is_nullable));
            }
            proof {
                assert(changes@ =~= spec_column_delta_actions(bsv[i as int], asv[j as int]));
            }
            if changes.len() > 0 {
                actions.push(
                    AlterTableAction::AlterColumn(
                        AlterColumn { column_name: asc[j].column_name.clone(), actions: changes },
                    ),
                );
                proof {
                    assert(action_views(actions@) =~= action_views(prev) + spec_column_delta(
                        bsv[i as int],
                        asv[j as int],
                    ));
                }
            } else {
                proof {
                    assert(action_views(actions@) =~= action_views(prev) + spec_column_delta(
                        bsv[i as int],
                        asv[j as int],
                    ));
                }
            }
            proof {
                assert(b_rem[0] == bsv[i as int]);
                assert(a_rem[0] == asv[j as int]);
                assert(!name_lt(b_rem[0].name, a_rem[0].name));
                assert(!name_lt(a_rem[0].name, b_rem[0].name));
                assert(b_rem.drop_first() =~= bsv.skip(i as int + 1));
                assert(a_rem.drop_first() =~= asv.skip(j as int + 1));
                assert(action_views(actions@) + spec_merge_columns(
                    bsv.skip(i as int + 1),
                    asv.skip(j as int + 1),
                ) =~= action_views(prev) + spec_column_delta(bsv[i as int], asv[j as int])
                    + spec_merge_columns(b_rem.drop_first(), a_rem.drop_first()));
                assert(action_views(prev) + spec_column_delta(bsv[i as int], asv[j as int])
                    + spec_merge_columns(b_rem.drop_first(), a_rem.drop_first()) =~= action_views(
                    prev,
                ) + spec_merge_columns(b_rem, a_rem));
            }
            i += 1;
            j += 1;
        }
    }
    proof {
        assert(bsv.skip(i as int).len() == 0);
        assert(asv.skip(j as int).len() == 0);
        assert(action_views(actions@) =~= action_views(actions@) + spec_merge_columns(
            bsv.skip(i as int),
            asv.skip(j as int),
        ));
        assert(bsv == spec_sort_columns(before@.columns));
        assert(asv == spec_sort_columns(after@.columns));
        assert(action_views(actions@) == spec_table_actions(before@, after@));
    }
    if actions.len() == 0 {
        Ok(None)
    } else {
        let r = AlterTable { table_name: before.table_name.clone(), actions };
        proof {
            assert(spec_table_actions(before@, after@).len() > 0);
        }
        Ok(Some(r))
    }
}

// ---------------------------------------------------------------------------
// Sorting tables by name.
// ---------------------------------------------------------------------------

/// Inserts `t` before the first table whose name does not sort strictly
/// below `t`'s.
pub open spec fn spec_insert_table(t: TableV, s: Seq<TableV>) -> Seq<TableV>
    decreases s.len(),
{
    if s.len() == 0 {
        seq![t]
    } else if name_lt(s[0].name, t.name) {
        seq![s[0]] + spec_insert_table(t, s.drop_first())
    } else {
        seq![t] + s
    }
}

/// The tables re-sorted by name, ascending.
pub open spec fn spec_sort_tables(s: Seq<TableV>) -> Seq<TableV>
    decreases s.len(),
{
    if s.len() == 0 {
        Seq::empty()
    } else {
        spec_insert_table(s.last(), spec_sort_tables(s.drop_last()))
    }
}

/// The insertion position of `t`, characterised as for columns.
proof fn lemma_insert_table_at(t: TableV, s: Seq<TableV>, p: int)
    requires
        0 <= p <= s.len(),
        forall|j: int| 0 <= j < p ==> name_lt(#[trigger] s[j].name, t.name),
        p < s.len() ==> !name_lt(s[p].name, t.name),
    ensures
        spec_insert_table(t, s) == s.subrange(0, p) + seq![t] + s.subrange(p, s.len() as int),
    decreases p,
{
    if p == 0 {
        assert(spec_insert_table(t, s) =~= s.subrange(0, 0) + seq![t] + s.subrange(
            0,
            s.len() as int,
        ));
    } else {
        lemma_insert_table_at(t, s.drop_first(), p - 1);
        assert(spec_insert_table(t, s) =~= s.subrange(0, p) + seq![t] + s.subrange(
            p,
            s.len() as int,
        ));
    }
}

/// Inserts `t` into the name-sorted vector `out`.
fn insert_table_sorted(out: &mut Vec<DatabaseTableDefinition>, t: DatabaseTableDefinition)
    ensures
        table_views(final(out)@) == spec_insert_table(t@, table_views(old(out)@)),
{
    let mut p: usize = 0;
    while p < out.len() && out[p].table_name.precedes(&t.table_name)
        invariant
            p <= out@.len(),
            out@ == old(out)@,
            forall|j: int| 0 <= j < p ==> name_lt(#[trigger] table_views(out@)[j].name, t@.name),
        decreases out@.len() - p,
    {
        p += 1;
    }
    let ghost s = table_views(out@);
    out.insert(p, t);
    proof {
        lemma_insert_table_at(t@, s, p as int);
        assert(table_views(out@) =~= s.subrange(0, p as int) + seq![t@] + s.subrange(
            p as int,
            s.len() as int,
        ));
    }
}

/// Returns the tables re-sorted by name, ascending.
fn sort_tables_by_name(tables: &Vec<DatabaseTableDefinition>) -> (r: Vec<DatabaseTableDefinition>)
    ensures
        table_views(r@) == spec_sort_tables(table_views(tables@)),
{
    let mut out: Vec<DatabaseTableDefinition> = Vec::new();
    let mut i: usize = 0;
    proof {
        assert(table_views(tables@).subrange(0, 0) =~= Seq::<TableV>::empty());
        assert(table_views(out@) =~= Seq::<TableV>::empty());
    }
    while i < tables.len()
        invariant
            i <= tables@.len(),
            table_views(out@) == spec_sort_tables(table_views(tables@).subrange(0, i as int)),
        decreases tables@.len() - i,
    {
        insert_table_sorted(&mut out, tables[i].clone());
        proof {
            let views = table_views(tables@);
            let pre = views.subrange(0, i as int);
            let post = views.subrange(0, i as int + 1);
            assert(post.drop_last() =~= pre);
            assert(post.last() == views[i as int]);
        }
        i += 1;
    }
    proof {
        assert(table_views(tables@).subrange(0, tables@.len() as int) =~= table_views(tables@));
    }
    out
}

// ---------------------------------------------------------------------------
// The table-level diff.
// ---------------------------------------------------------------------------

/// One `CreateTable` action per table, in the given order.
pub open spec fn spec_create_actions(tables: Seq<TableV>) -> Seq<MigrationActionV> {
    tables.map_values(|t: TableV| MigrationActionV::CreateTable(t))
}

/// The sorted-merge walk over two name-sorted table lists: a name only on
/// the left drops the table, a name only on the right creates it, a matched
/// name delegates to the column-level diff.
pub open spec fn spec_merge_tables(b: Seq<TableV>, a: Seq<TableV>) -> Seq<MigrationActionV>
    decreases b.len() + a.len(),
{
    if b.len() == 0 && a.len() == 0 {
        Seq::empty()
    } else if b.len() == 0 {
        seq![MigrationActionV::CreateTable(a[0])] + spec_merge_tables(b, a.drop_first())
    } else if a.len() == 0 {
        seq![MigrationActionV::DropTable(b[0].name)] + spec_merge_tables(b.drop_first(), a)
    } else if name_lt(b[0].name, a[0].name) {
        seq![MigrationActionV::DropTable(b[0].name)] + spec_merge_tables(b.drop_first(), a)
    } else if name_lt(a[0].name, b[0].name) {
        seq![MigrationActionV::CreateTable(a[0])] + spec_merge_tables(b, a.drop_first())
    } else {
        (match spec_diff_table(b[0], a[0]) {
            None => Seq::empty(),
            Some(at) => seq![MigrationActionV::AlterTable(at)],
        }) + spec_merge_tables(b.drop_first(), a.drop_first())
    }
}

/// The diff of a database pair. With no `before` generation every table of
/// `after` is created, in declared order; otherwise the sorted merge runs
/// keyed by table name, and the result keeps merge-discovery order.
pub open spec fn spec_diff_database(before: Option<DatabaseV>, after: DatabaseV) -> Seq<
    MigrationActionV,
> {
    match before {
        None => spec_create_actions(after.tables),
        Some(db) => spec_merge_tables(
            spec_sort_tables(db.tables),
            spec_sort_tables(after.tables),
        ),
    }
}

/// Computes the migration that carries database generation `before` to
/// `after`, as `spec_diff_database` says: tables only in `after` are
/// created, tables only in `before` are dropped, tables in both are altered
/// when their column-level diff is non-empty. Identifiers are valid by
/// construction, so this never fails.
pub fn diff_database(before: Option<&DatabaseDefinition>, after: &DatabaseDefinition) -> (r: Result<
    Migration,
    SchemaError,
>)
    ensures
        r matches Ok(m) && m@ == spec_diff_database(
            match before {
                Some(db) => Some(db@),
                None => None,
            },
            after@,
        ),
{
    let mut table_actions: Vec<MigrationAction> = Vec::new();
    match before {
        None => {
            let mut k: usize = 0;
            proof {
                assert(migration_action_views(table_actions@) =~= spec_create_actions(
                    after@.tables.subrange(0, 0),
                ));
            }
            while k < after.tables.len()
                invariant
                    k <= after.tables@.len(),
                    migration_action_views(table_actions@) == spec_create_actions(
                        after@.tables.subrange(0, k as int),
                    ),
                decreases after.tables@.len() - k,
            {
                let ghost prev = table_actions@;
                table_actions.push(
                    MigrationAction::CreateTable(CreateTable::new(after.tables[k].clone())),
                );
                proof {
                    let views = after@.tables;
                    assert(views[k as int] == after.tables@[k as int]@);
                    assert(migration_action_views(table_actions@) =~= migration_action_views(prev)
                        + seq![MigrationActionV::CreateTable(views[k as int])]);
                    assert(migration_action_views(table_actions@) =~= spec_create_actions(
                        views.subrange(0, k as int + 1),
                    ));
                }
                k += 1;
            }
            proof {
                assert(after@.tables.subrange(0, after@.tables.len() as int) =~= after@.tables);
            }
            Ok(Migration { table_actions })
        },
        Some(db) => {
            let bs = sort_tables_by_name(&db.tables);
            let asc = sort_tables_by_name(&after.tables);
            let ghost bsv = table_views(bs@);
            let ghost asv = table_views(asc@);
            proof {
                assert(bsv.skip(0) =~= bsv);
                assert(asv.skip(0) =~= asv);
            }
            let mut i: usize = 0;
            let mut j: usize = 0;
            while i < bs.len() || j < asc.len()
                invariant
                    i <= bs@.len(),
                    j <= asc@.len(),
                    bsv == table_views(bs@),
                    asv == table_views(asc@),
                    migration_action_views(table_actions@) + spec_merge_tables(
                        bsv.skip(i as int),
                        asv.skip(j as int),
                    ) == spec_merge_tables(bsv, asv),
                decreases bs@.len() - i + asc@.len() - j,
            {
                let ghost prev = table_actions@;
                let ghost b_rem = bsv.skip(i as int);
                let ghost a_rem = asv.skip(j as int);
                if i >= bs.len() {
                    table_actions.push(
                        MigrationAction::CreateTable(CreateTable::new(asc[j].clone())),
                    );
                    proof {
                        assert(b_rem.len() == 0);
                        assert(a_rem[0] == asv[j as int]);
                        assert(a_rem.drop_first() =~= asv.skip(j as int + 1));
                        assert(migration_action_views(table_actions@) =~= migration_action_views(
                            prev,
                        ) + seq![MigrationActionV::CreateTable(asv[j as int])]);
                        assert(migration_action_views(table_actions@) + spec_merge_tables(
                            bsv.skip(i as int),
                            asv.skip(j as int + 1),
                        ) =~= migration_action_views(prev) + spec_merge_tables(b_rem, a_rem));
                    }
                    j += 1;
                } else if j >= asc.len() {
                    table_actions.push(MigrationAction::DropTable(bs[i].table_name.clone()));
                    proof {
                        assert(a_rem.len() == 0);
                        assert(b_rem[0] == bsv[i as int]);
                        assert(b_rem.drop_first() =~= bsv.skip(i as int + 1));
                        assert(migration_action_views(table_actions@) =~= migration_action_views(
                            prev,
                        ) + seq![MigrationActionV::DropTable(bsv[i as int].name)]);
                        assert(migration_action_views(table_actions@) + spec_merge_tables(
                            bsv.skip(i as int + 1),
                            asv.skip(j as int),
                        ) =~= migration_action_views(prev) + spec_merge_tables(b_rem, a_rem));
                    }
                    i += 1;
                } else if bs[i].table_name.precedes(&asc[j].table_name) {
                    table_actions.push(MigrationAction::DropTable(bs[i].table_name.clone()));
                    proof {
                        assert(b_rem[0] == bsv[i as int]);
                        assert(a_rem[0] == asv[j as int]);
                        assert(name_lt(b_rem[0].name, a_rem[0].name));
                        assert(b_rem.drop_first() =~= bsv.skip(i as int + 1));
                        assert(migration_action_views(table_actions@) =~= migration_action_views(
                            prev,
                        ) + seq![MigrationActionV::DropTable(bsv[i as int].name)]);
                        assert(migration_action_views(table_actions@) + spec_merge_tables(
                            bsv.skip(i as int + 1),
                            asv.skip(j as int),
                        ) =~= migration_action_views(prev) + spec_merge_tables(b_rem, a_rem));
                    }
                    i += 1;
                } else if asc[j].table_name.precedes(&bs[i].table_name) {
                    table_actions.push(
                        MigrationAction::CreateTable(CreateTable::new(asc[j].clone())),
                    );
                    proof {
                        assert(b_rem[0] == bsv[i as int]);
                        assert(a_rem[0] == asv[j as int]);
                        assert(name_lt(a_rem[0].name, b_rem[0].name));
                        assert(a_rem.drop_first() =~= asv.skip(j as int + 1));
                        assert(migration_action_views(table_actions@) =~= migration_action_views(
                            prev,
                        ) + seq![MigrationActionV::CreateTable(asv[j as int])]);
                        assert(migration_action_views(table_actions@) + spec_merge_tables(
                            bsv.skip(i as int),
                            asv.skip(j as int + 1),
                        ) =~= migration_action_views(prev) + spec_merge_tables(b_rem, a_rem));
                    }
                    j += 1;
                } else {
                    match diff_table(&bs[i], &asc[j]) {
                        Ok(Some(alter)) => {
                            table_actions.push(MigrationAction::AlterTable(alter));
                            proof {
                                assert(migration_action_views(table_actions@)
                                    =~= migration_action_views(prev) + seq![
                                    MigrationActionV::AlterTable(
                                        spec_diff_table(bsv[i as int], asv[j as int])->Some_0,
                                    ),
                                ]);
                            }
                        },
                        Ok(None) => {
                            proof {
                                assert(migration_action_views(table_actions@)
                                    =~= migration_action_views(prev));
                            }
                        },
                        Err(e) => {
                            return Err(e);
                        },
                    }
                    proof {
                        assert(b_rem[0] == bsv[i as int]);
                        assert(a_rem[0] == asv[j as int]);
                        assert(!name_lt(b_rem[0].name, a_rem[0].name));
                        assert(!name_lt(a_rem[0].name, b_rem[0].name));
                        assert(b_rem.drop_first() =~= bsv.skip(i as int + 1));
                        assert(a_rem.drop_first() =~= asv.skip(j as int + 1));
                        let step = match spec_diff_table(b_rem[0], a_rem[0]) {
                            None => Seq::<MigrationActionV>::empty(),
                            Some(at) => seq![MigrationActionV::AlterTable(at)],
                        };
                        assert(migration_action_views(table_actions@) =~= migration_action_views(
                            prev,
                        ) + step);
                        assert(migration_action_views(table_actions@) + spec_merge_tables(
                            bsv.skip(i as int + 1),
                            asv.skip(j as int + 1),
                        ) =~= migration_action_views(prev) + step + spec_merge_tables(
                            b_rem.drop_first(),
                            a_rem.drop_first(),
                        ));
                        assert(migration_action_views(prev) + step + spec_merge_tables(
                            b_rem.drop_first(),
                            a_rem.drop_first(),
                        ) =~= migration_action_views(prev) + spec_merge_tables(b_rem, a_rem));
                    }
                    i += 1;
                    j += 1;
                }
            }
            proof {
                assert(bsv.skip(i as int).len() == 0);
                assert(asv.skip(j as int).len() == 0);
                assert(migration_action_views(table_actions@) =~= migration_action_views(
                    table_actions@,
                ) + spec_merge_tables(bsv.skip(i as int), asv.skip(j as int)));
                assert(bsv == spec_sort_tables(db@.tables));
                assert(asv == spec_sort_tables(after@.tables));
            }
            Ok(Migration { table_actions })
        },
    }
}

} // verus!
