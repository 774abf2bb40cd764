//! The migration aggregate: an ordered bundle of table-level actions,
//! rendered as one SQL script.

use crate::alter_table::{spec_alter_table_sql, AlterTable, AlterTableV};
use crate::create_table::{spec_create_table_sql, CreateTable};
use crate::differ::{diff_table, spec_diff_table};
use crate::identifier::Identifier;
use crate::table_definition::{DatabaseTableDefinition, TableV};
use crate::{AsSql, SchemaError};
use vstd::prelude::*;
use vstd::string::StringExecFns;

verus! {

/// The mathematical value of a [`MigrationAction`].
pub enum MigrationActionV {
    CreateTable(TableV),
    AlterTable(AlterTableV),
    DropTable(Seq<char>),
}

/// One table-level step of a migration.
#[derive(Clone, PartialEq, Eq, Debug)]
pub enum MigrationAction {
    /// Create a table that only the new schema has.
    CreateTable(CreateTable),
    /// Alter a table that both schemas have.
    AlterTable(AlterTable),
    /// Drop, by name, a table that only the old schema has.
    DropTable(Identifier),
}

impl View for MigrationAction {
    type V = MigrationActionV;

    open spec fn view(&self) -> MigrationActionV {
        match self {
            MigrationAction::CreateTable(ct) => MigrationActionV::CreateTable(ct@),
            MigrationAction::AlterTable(at) => MigrationActionV::AlterTable(at@),
            MigrationAction::DropTable(id) => MigrationActionV::DropTable(id@),
        }
    }
}

/// The mathematical values of a sequence of migration actions.
pub open spec fn migration_action_views(s: Seq<MigrationAction>) -> Seq<MigrationActionV> {
    s.map_values(|a: MigrationAction| a@)
}

/// SQL text of one migration action.
pub open spec fn spec_migration_action_sql(a: MigrationActionV) -> Result<Seq<char>, SchemaError> {
    match a {
        MigrationActionV::CreateTable(t) => Ok(spec_create_table_sql(t)),
        MigrationActionV::AlterTable(at) => spec_alter_table_sql(at),
        MigrationActionV::DropTable(name) => Ok("DROP TABLE IF EXISTS "@ + name + ";"@),
    }
}

/// SQL text of a whole migration: each action's statements in the order the
/// differ produced them, newline-joined; the first invalid identifier aborts
/// the whole rendering.
pub open spec fn spec_migration_sql(actions: Seq<MigrationActionV>) -> Result<
    Seq<char>,
    SchemaError,
>
    decreases actions.len(),
{
    if actions.len() == 0 {
        Ok(Seq::empty())
    } else if actions.len() == 1 {
        spec_migration_action_sql(actions[0])
    } else {
        match (spec_migration_sql(actions.drop_last()), spec_migration_action_sql(
            actions.last(),
        )) {
            (Ok(init), Ok(last)) => Ok(init + "\n"@ + last),
            _ => Err(SchemaError::InvalidIdentifier),
        }
    }
}

/// A failing action anywhere makes the whole script rendering fail.
proof fn lemma_migration_sql_err(actions: Seq<MigrationActionV>, i: int)
    requires
        0 <= i < actions.len(),
        spec_migration_action_sql(actions[i]) is Err,
    ensures
        spec_migration_sql(actions) is Err,
    decreases actions.len(),
{
    if actions.len() > 1 && i < actions.len() - 1 {
        lemma_migration_sql_err(actions.drop_last(), i);
    }
}

/// The ordered bundle of table-level actions that carries one schema
/// generation to the next.
#[derive(Clone, PartialEq, Eq, Debug)]
pub struct Migration {
    pub table_actions: Vec<MigrationAction>,
}

impl View for Migration {
    type V = Seq<MigrationActionV>;

    open spec fn view(&self) -> Seq<MigrationActionV> {
        migration_action_views(self.table_actions@)
    }
}

impl Migration {
    /// The steps that carry table generation `before` to `after`:
    /// `Ok(None)` when the diff finds no difference, else `Ok(Some(_))`
    /// holding the table's actions as a single-step migration.
    pub fn new_from_table_definitions(
        before: &DatabaseTableDefinition,
        after: &DatabaseTableDefinition,
    ) -> (r: Result<Option<Migration>, SchemaError>)
        ensures
            r matches Ok(opt) && (match (opt, spec_diff_table(before@, after@)) {
                (Some(m), Some(v)) => m@ == seq![MigrationActionV::AlterTable(v)],
                (None, None) => true,
                _ => false,
            }),
    {
        match diff_table(before, after) {
            Ok(None) => Ok(None),
            Ok(Some(alter)) => {
                let mut table_actions: Vec<MigrationAction> = Vec::new();
                table_actions.push(MigrationAction::AlterTable(alter));
                let m = Migration { table_actions };
                proof {
                    let v = spec_diff_table(before@, after@)->Some_0;
                    assert(m@ =~= seq![MigrationActionV::AlterTable(v)]);
                }
                Ok(Some(m))
            },
            Err(e) => Err(e),
        }
    }

    /// The same diff under its older name.
    pub fn from(
        before: &DatabaseTableDefinition,
        after: &DatabaseTableDefinition,
    ) -> (r: Result<Option<Migration>, SchemaError>)
        ensures
            r matches Ok(opt) && (match (opt, spec_diff_table(before@, after@)) {
                (Some(m), Some(v)) => m@ == seq![MigrationActionV::AlterTable(v)],
                (None, None) => true,
                _ => false,
            }),
    {
        Migration::new_from_table_definitions(before, after)
    }
}

impl AsSql for MigrationAction {
    open spec fn sql_spec(&self) -> Result<Seq<char>, SchemaError> {
        spec_migration_action_sql(self@)
    }

    fn as_sql(&self) -> (r: Result<String, SchemaError>) {
        match self {
            MigrationAction::CreateTable(ct) => Ok(ct.as_sql()),
            MigrationAction::AlterTable(at) => at.as_sql(),
            MigrationAction::DropTable(id) => {
                let mut s = String::from_str("DROP TABLE IF EXISTS ");
                s.append(id.value());
                s.append(";");
                Ok(s)
            },
        }
    }
}

impl AsSql for Migration {
    open spec fn sql_spec(&self) -> Result<Seq<char>, SchemaError> {
        spec_migration_sql(self@)
    }

    /// Renders the whole migration script: every action's statements,
    /// newline-joined, in the order the actions stand in the bundle.
    fn as_sql(&self) -> (r: Result<String, SchemaError>) {
        let mut s = String::new();
        let mut i: usize = 0;
        while i < self.table_actions.len()
            invariant
                i <= self.table_actions@.len(),
                spec_migration_sql(self@.subrange(0, i as int)) == Ok::<_, SchemaError>(s@),
            decreases self.table_actions@.len() - i,
        {
            match (&self.table_actions[i]).as_sql() {
                Ok(statement) => {
                    if i > 0 {
                        s.append("\n");
                    }
                    s.append(statement.as_str());
                },
                Err(e) => {
                    proof {
                        lemma_migration_sql_err(self@, i as int);
                    }
                    return Err(e);
                },
            }
            proof {
                let views = self@;
                let pre = views.subrange(0, i as int);
                let post = views.subrange(0, i as int + 1);
                assert(post.drop_last() =~= pre);
                assert(post.last() == views[i as int]);
                assert(views[i as int] == self.table_actions@[i as int]@);
                if i > 0 {
                    assert(spec_migration_sql(post) matches Ok(t) && t =~= s@);
                } else {
                    assert(spec_migration_sql(post) matches Ok(t) && t =~= s@);
                }
            }
            i += 1;
        }
        proof {
            assert(self@.subrange(0, self@.len() as int) =~= self@);
        }
        Ok(s)
    }
}

} // verus!
