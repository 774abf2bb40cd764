//! Creation of a fresh table, rendered as one `CREATE TABLE` statement.

use crate::alter_table::spec_column_sql;
use crate::table_definition::{ColumnV, DatabaseTableDefinition, TableV};
use vstd::prelude::*;
use vstd::string::StringExecFns;

verus! {

/// The column list of a `CREATE TABLE` statement, comma-joined in declared
/// order.
pub open spec fn spec_columns_joined(cols: Seq<ColumnV>) -> Seq<char>
    decreases cols.len(),
{
    if cols.len() == 0 {
        Seq::empty()
    } else if cols.len() == 1 {
        spec_column_sql(cols[0])
    } else {
        spec_columns_joined(cols.drop_last()) + ", "@ + spec_column_sql(cols.last())
    }
}

/// SQL text of a [`CreateTable`]:
/// `CREATE TABLE IF NOT EXISTS <name> ( <col1>, <col2>, ... );`.
pub open spec fn spec_create_table_sql(t: TableV) -> Seq<char> {
    "CREATE TABLE IF NOT EXISTS "@ + t.name + " ( "@ + spec_columns_joined(t.columns) + " );"@
}

/// Creation of one table from its full definition.
#[derive(Clone, PartialEq, Eq, Debug)]
pub struct CreateTable {
    table_definition: DatabaseTableDefinition,
}

impl View for CreateTable {
    type V = TableV;

    closed spec fn view(&self) -> TableV {
        self.table_definition@
    }
}

impl CreateTable {
    /// Wraps the definition of the table to create.
    pub fn new(table: DatabaseTableDefinition) -> (r: Self)
        ensures
            r@ == table@,
    {
        CreateTable { table_definition: table }
    }

    /// The definition of the table to create.
    pub fn table_definition(&self) -> (r: &DatabaseTableDefinition)
        ensures
            r@ == self@,
    {
        &self.table_definition
    }

    /// Renders the statement, columns in declared order, each as
    /// `<name> <TYPE>[ PRIMARY KEY][ NOT NULL]`.
    pub fn as_sql(&self) -> (r: String)
        ensures
            r@ == spec_create_table_sql(self@),
    {
        let mut s = String::from_str("CREATE TABLE IF NOT EXISTS ");
        s.append(self.table_definition.table_name.value());
        s.append(" ( ");
        let cols = &self.table_definition.columns;
        let mut i: usize = 0;
        proof {
            assert(s@ =~= "CREATE TABLE IF NOT EXISTS "@ + self.table_definition.table_name@
                + " ( "@ + spec_columns_joined(self@.columns.subrange(0, 0)));
        }
        while i < cols.len()
            invariant
                cols@ == self.table_definition.columns@,
                i <= cols@.len(),
                s@ == "CREATE TABLE IF NOT EXISTS "@ + self.table_definition.table_name@ + " ( "@
                    + spec_columns_joined(self@.columns.subrange(0, i as int)),
            decreases cols@.len() - i,
        {
            if i > 0 {
                s.append(", ");
            }
            let col_sql = cols[i].sql_string();
            s.append(col_sql.as_str());
            proof {
                let views = self@.columns;
                let pre = views.subrange(0, i as int);
                let post = views.subrange(0, i as int + 1);
                assert(post.drop_last() =~= pre);
                assert(post.last() == views[i as int]);
                assert(views[i as int] == cols@[i as int]@);
                assert(s@ =~= "CREATE TABLE IF NOT EXISTS "@ + self.table_definition.table_name@
                    + " ( "@ + spec_columns_joined(post));
            }
            i += 1;
        }
        s.append(" );");
        proof {
            assert(self@.columns.subrange(0, self@.columns.len() as int) =~= self@.columns);
            assert(s@ =~= spec_create_table_sql(self@));
        }
        s
    }
}

} // verus!
