//! Actions that alter one table, and their rendering into `ALTER TABLE`
//! statements.

use crate::identifier::{is_valid_name, valid_identifier, Identifier};
use crate::table_definition::{ColumnV, DatabaseColumnType, TableColumn};
use crate::{AsSql, SchemaError};
use vstd::prelude::*;
use vstd::string::StringExecFns;

verus! {

/// One change to an existing column.
#[derive(Clone, Copy, PartialEq, Eq, Structural, Debug)]
pub enum AlterColumnAction {
    /// Change the column type. `TYPE <keyword>`.
    SetType(DatabaseColumnType),
    /// Change nullability; `true` makes the column nullable (`DROP NOT
    /// NULL`), `false` makes it required (`SET NOT NULL`).
    SetNullability(bool),
}

/// The mathematical value of an [`AlterColumn`].
pub struct AlterColumnV {
    pub column_name: Seq<char>,
    pub actions: Seq<AlterColumnAction>,
}

/// The changes to one column, bundled under its name.
#[derive(Clone, PartialEq, Eq, Debug)]
pub struct AlterColumn {
    pub column_name: Identifier,
    pub actions: Vec<AlterColumnAction>,
}

impl View for AlterColumn {
    type V = AlterColumnV;

    open spec fn view(&self) -> AlterColumnV {
        AlterColumnV { column_name: self.column_name@, actions: self.actions@ }
    }
}

/// The mathematical value of an [`AlterTableAction`].
pub enum AlterTableActionV {
    Rename(Seq<char>),
    AddColumn(ColumnV),
    DropColumn(Seq<char>),
    AlterColumn(AlterColumnV),
}

/// One action against an existing table.
#[derive(Clone, PartialEq, Eq, Debug)]
pub enum AlterTableAction {
    /// Rename the table. `RENAME TO <new>`.
    Rename(Identifier),
    /// Add a column. `ADD COLUMN IF NOT EXISTS <column>`.
    AddColumn(TableColumn),
    /// Drop a column by name. `DROP COLUMN IF EXISTS <name>`.
    DropColumn(Identifier),
    /// Change an existing column.
    AlterColumn(AlterColumn),
}

impl View for AlterTableAction {
    type V = AlterTableActionV;

    open spec fn view(&self) -> AlterTableActionV {
        match self {
            AlterTableAction::Rename(id) => AlterTableActionV::Rename(id@),
            AlterTableAction::AddColumn(c) => AlterTableActionV::AddColumn(c@),
            AlterTableAction::DropColumn(id) => AlterTableActionV::DropColumn(id@),
            AlterTableAction::AlterColumn(ac) => AlterTableActionV::AlterColumn(ac@),
        }
    }
}

/// The mathematical values of a sequence of table actions.
pub open spec fn action_views(s: Seq<AlterTableAction>) -> Seq<AlterTableActionV> {
    s.map_values(|a: AlterTableAction| a@)
}

/// The mathematical value of an [`AlterTable`].
pub struct AlterTableV {
    pub table_name: Seq<char>,
    pub actions: Seq<AlterTableActionV>,
}

/// An ordered list of actions against one table. The table is always
/// addressed with `IF EXISTS`, so that field is not stored.
#[derive(Clone, PartialEq, Eq, Debug)]
pub struct AlterTable {
    pub table_name: Identifier,
    pub actions: Vec<AlterTableAction>,
}

impl View for AlterTable {
    type V = AlterTableV;

    open spec fn view(&self) -> AlterTableV {
        AlterTableV { table_name: self.table_name@, actions: action_views(self.actions@) }
    }
}

/// SQL text of one column: `<name> <TYPE>[ PRIMARY KEY][ NOT NULL]`.
pub open spec fn spec_column_sql(c: ColumnV) -> Seq<char> {
    c.name + " "@ + c.column_type.keyword() + (if c.is_primary_key {
        " PRIMARY KEY"@
    } else {
        Seq::<char>::empty()
    }) + (if c.is_nullable {
        Seq::<char>::empty()
    } else {
        " NOT NULL"@
    })
}

/// SQL text of one column change.
pub open spec fn spec_alter_column_action_sql(a: AlterColumnAction) -> Seq<char> {
    match a {
        AlterColumnAction::SetType(t) => "TYPE "@ + t.keyword(),
        AlterColumnAction::SetNullability(nullable) => if nullable {
            "DROP NOT NULL"@
        } else {
            "SET NOT NULL"@
        },
    }
}

/// One `ALTER COLUMN` clause.
pub open spec fn spec_alter_column_clause(name: Seq<char>, a: AlterColumnAction) -> Seq<char> {
    "ALTER COLUMN "@ + name + " "@ + spec_alter_column_action_sql(a)
}

/// The `ALTER COLUMN` clauses of one column, comma-joined on a single line.
pub open spec fn spec_alter_column_clauses(name: Seq<char>, actions: Seq<AlterColumnAction>) -> Seq<
    char,
>
    decreases actions.len(),
{
    if actions.len() == 0 {
        Seq::empty()
    } else if actions.len() == 1 {
        spec_alter_column_clause(name, actions[0])
    } else {
        spec_alter_column_clauses(name, actions.drop_last()) + ", "@ + spec_alter_column_clause(
            name,
            actions.last(),
        )
    }
}

/// SQL text of an [`AlterColumn`].
pub open spec fn spec_alter_column_sql(v: AlterColumnV) -> Seq<char> {
    spec_alter_column_clauses(v.column_name, v.actions)
}

/// SQL text of one table action.
pub open spec fn spec_alter_table_action_sql(a: AlterTableActionV) -> Seq<char> {
    match a {
        AlterTableActionV::Rename(name) => "RENAME TO "@ + name,
        AlterTableActionV::AddColumn(c) => "ADD COLUMN IF NOT EXISTS "@ + spec_column_sql(c),
        AlterTableActionV::DropColumn(name) => "DROP COLUMN IF EXISTS "@ + name,
        AlterTableActionV::AlterColumn(ac) => spec_alter_column_sql(ac),
    }
}

/// One full statement of an [`AlterTable`]: one statement per action.
pub open spec fn spec_alter_table_statement(name: Seq<char>, a: AlterTableActionV) -> Seq<char> {
    "ALTER TABLE IF EXISTS "@ + name + " "@ + spec_alter_table_action_sql(a) + ";"@
}

/// The statements of an [`AlterTable`], newline-joined.
pub open spec fn spec_alter_table_statements(
    name: Seq<char>,
    actions: Seq<AlterTableActionV>,
) -> Seq<char>
    decreases actions.len(),
{
    if actions.len() == 0 {
        Seq::empty()
    } else if actions.len() == 1 {
        spec_alter_table_statement(name, actions[0])
    } else {
        spec_alter_table_statements(name, actions.drop_last()) + "\n"@
            + spec_alter_table_statement(name, actions.last())
    }
}

/// SQL text of an [`AlterTable`]: the table name is re-validated defensively,
/// then one `ALTER TABLE IF EXISTS <name> <action>;` statement is emitted per
/// action, newline-joined.
pub open spec fn spec_alter_table_sql(v: AlterTableV) -> Result<Seq<char>, SchemaError> {
    if valid_identifier(v.table_name) {
        Ok(spec_alter_table_statements(v.table_name, v.actions))
    } else {
        Err(SchemaError::InvalidIdentifier)
    }
}

impl TableColumn {
    /// Renders this column for `CREATE TABLE` or `ADD COLUMN`.
    pub fn sql_string(&self) -> (r: String)
        ensures
            r@ == spec_column_sql(self@),
    {
        let mut s = String::new();
        s.append(self.column_name.value());
        s.append(" ");
        s.append(self.column_type.as_str());
        if self.is_primary_key {
            s.append(" PRIMARY KEY");
        }
        if !self.is_nullable {
            s.append(" NOT NULL");
        }
        proof {
            assert(s@ =~= spec_column_sql(self@));
        }
        s
    }
}

impl AsSql for TableColumn {
    open spec fn sql_spec(&self) -> Result<Seq<char>, SchemaError> {
        Ok(spec_column_sql(self@))
    }

    fn as_sql(&self) -> (r: Result<String, SchemaError>) {
        Ok(self.sql_string())
    }
}

impl AlterColumnAction {
    /// Renders this column change.
    pub fn sql_string(&self) -> (r: String)
        ensures
            r@ == spec_alter_column_action_sql(*self),
    {
        match self {
            AlterColumnAction::SetType(t) => {
                let mut s = String::from_str("TYPE ");
                s.append(t.as_str());
                s
            },
            AlterColumnAction::SetNullability(nullable) => {
                if *nullable {
                    String::from_str("DROP NOT NULL")
                } else {
                    String::from_str("SET NOT NULL")
                }
            },
        }
    }
}

impl AsSql for AlterColumnAction {
    open spec fn sql_spec(&self) -> Result<Seq<char>, SchemaError> {
        Ok(spec_alter_column_action_sql(*self))
    }

    fn as_sql(&self) -> (r: Result<String, SchemaError>) {
        Ok(self.sql_string())
    }
}

impl AlterColumn {
    /// Renders the changes of this column, one `ALTER COLUMN <name> <change>`
    /// clause per change, comma-joined on one line.
    pub fn sql_string(&self) -> (r: String)
        ensures
            r@ == spec_alter_column_sql(self@),
    {
        let mut s = String::new();
        let mut i: usize = 0;
        while i < self.actions.len()
            invariant
                i <= self.actions@.len(),
                s@ == spec_alter_column_clauses(
                    self.column_name@,
                    self.actions@.subrange(0, i as int),
                ),
            decreases self.actions@.len() - i,
        {
            if i > 0 {
                s.append(", ");
            }
            s.append("ALTER COLUMN ");
            s.append(self.column_name.value());
            s.append(" ");
            let action_sql = self.actions[i].sql_string();
            s.append(action_sql.as_str());
            proof {
                let pre = self.actions@.subrange(0, i as int);
                let post = self.actions@.subrange(0, i as int + 1);
                assert(post.drop_last() =~= pre);
                assert(post.last() == self.actions@[i as int]);
                assert(s@ =~= spec_alter_column_clauses(self.column_name@, post));
            }
            i += 1;
        }
        proof {
            assert(self.actions@.subrange(0, self.actions@.len() as int) =~= self.actions@);
        }
        s
    }
}

impl AsSql for AlterColumn {
    open spec fn sql_spec(&self) -> Result<Seq<char>, SchemaError> {
        Ok(spec_alter_column_sql(self@))
    }

    fn as_sql(&self) -> (r: Result<String, SchemaError>) {
        Ok(self.sql_string())
    }
}

impl AlterTableAction {
    /// Renders this table action (without the `ALTER TABLE` preamble).
    pub fn sql_string(&self) -> (r: String)
        ensures
            r@ == spec_alter_table_action_sql(self@),
    {
        match self {
            AlterTableAction::Rename(id) => {
                let mut s = String::from_str("RENAME TO ");
                s.append(id.value());
                s
            },
            AlterTableAction::AddColumn(c) => {
                let mut s = String::from_str("ADD COLUMN IF NOT EXISTS ");
                let col = c.sql_string();
                s.append(col.as_str());
                s
            },
            AlterTableAction::DropColumn(id) => {
                let mut s = String::from_str("DROP COLUMN IF EXISTS ");
                s.append(id.value());
                s
            },
            AlterTableAction::AlterColumn(ac) => ac.sql_string(),
        }
    }
}

impl AsSql for AlterTableAction {
    open spec fn sql_spec(&self) -> Result<Seq<char>, SchemaError> {
        Ok(spec_alter_table_action_sql(self@))
    }

    fn as_sql(&self) -> (r: Result<String, SchemaError>) {
        Ok(self.sql_string())
    }
}

impl AsSql for AlterTable {
    open spec fn sql_spec(&self) -> Result<Seq<char>, SchemaError> {
        spec_alter_table_sql(self@)
    }

    /// Re-validates the table name defensively, then emits one separate
    /// `ALTER TABLE IF EXISTS <name> <action>;` statement per action,
    /// newline-joined.
    fn as_sql(&self) -> (r: Result<String, SchemaError>) {
        if !is_valid_name(self.table_name.value()) {
            return Err(SchemaError::InvalidIdentifier);
        }
        let mut s = String::new();
        let mut i: usize = 0;
        while i < self.actions.len()
            invariant
                i <= self.actions@.len(),
                valid_identifier(self.table_name@),
                s@ == spec_alter_table_statements(
                    self.table_name@,
                    action_views(self.actions@).subrange(0, i as int),
                ),
            decreases self.actions@.len() - i,
        {
            if i > 0 {
                s.append("\n");
            }
            s.append("ALTER TABLE IF EXISTS ");
            s.append(self.table_name.value());
            s.append(" ");
            let action_sql = self.actions[i].sql_string();
            s.append(action_sql.as_str());
            s.append(";");
            proof {
                let views = action_views(self.actions@);
                let pre = views.subrange(0, i as int);
                let post = views.subrange(0, i as int + 1);
                assert(post.drop_last() =~= pre);
                assert(post.last() == views[i as int]);
                assert(views[i as int] == self.actions@[i as int]@);
                assert(s@ =~= spec_alter_table_statements(self.table_name@, post));
            }
            i += 1;
        }
        proof {
            let views = action_views(self.actions@);
            assert(views.subrange(0, views.len() as int) =~= views);
        }
        Ok(s)
    }
}

} // verus!
