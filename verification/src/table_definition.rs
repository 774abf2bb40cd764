//! The structural schema model: column types, columns, tables, databases.

use crate::identifier::Identifier;
use vstd::prelude::*;

verus! {

/// The closed set of supported column kinds. Each maps to exactly one
/// canonical SQL type keyword; two columns have the same type iff they carry
/// the same variant.
#[derive(Clone, Copy, PartialEq, Eq, Structural, Debug)]
pub enum DatabaseColumnType {
    Boolean,
    Int,
    Float,
    String,
    Timestamp,
    Uuid,
}

impl DatabaseColumnType {
    /// The canonical SQL keyword of this column type.
    pub open spec fn keyword(self) -> Seq<char> {
        match self {
            DatabaseColumnType::Boolean => "BOOL"@,
            DatabaseColumnType::Int => "INT"@,
            DatabaseColumnType::Float => "FLOAT"@,
            DatabaseColumnType::String => "VARCHAR"@,
            DatabaseColumnType::Timestamp => "TIMESTAMP"@,
            DatabaseColumnType::Uuid => "UUID"@,
        }
    }

    /// The canonical SQL keyword of this column type.
    pub fn as_str(&self) -> (r: &str)
        ensures
            r@ == self.keyword(),
    {
        match self {
            DatabaseColumnType::Boolean => "BOOL",
            DatabaseColumnType::Int => "INT",
            DatabaseColumnType::Float => "FLOAT",
            DatabaseColumnType::String => "VARCHAR",
            DatabaseColumnType::Timestamp => "TIMESTAMP",
            DatabaseColumnType::Uuid => "UUID",
        }
    }
}

/// The mathematical value of a [`TableColumn`]: its name as text, its type,
/// and its two flags.
pub struct ColumnV {
    pub name: Seq<char>,
    pub column_type: DatabaseColumnType,
    pub is_primary_key: bool,
    pub is_nullable: bool,
}

/// One column of a table.
#[derive(Debug, PartialEq, Eq)]
pub struct TableColumn {
    pub column_name: Identifier,
    pub column_type: DatabaseColumnType,
    pub is_primary_key: bool,
    pub is_nullable: bool,
}

impl View for TableColumn {
    type V = ColumnV;

    open spec fn view(&self) -> ColumnV {
        ColumnV {
            name: self.column_name@,
            column_type: self.column_type,
            is_primary_key: self.is_primary_key,
            is_nullable: self.is_nullable,
        }
    }
}

impl Clone for TableColumn {
    fn clone(&self) -> (r: Self)
        ensures
            r == *self,
    {
        TableColumn {
            column_name: self.column_name.clone(),
            column_type: self.column_type,
            is_primary_key: self.is_primary_key,
            is_nullable: self.is_nullable,
        }
    }
}

/// The mathematical values of a sequence of columns.
pub open spec fn column_views(s: Seq<TableColumn>) -> Seq<ColumnV> {
    s.map_values(|c: TableColumn| c@)
}

/// The mathematical value of a [`DatabaseTableDefinition`].
pub struct TableV {
    pub name: Seq<char>,
    pub columns: Seq<ColumnV>,
}

/// One generation of a table: its name and its columns in declaration order.
/// Column order matters only to `CREATE TABLE` rendering; the differ sorts
/// independently by column name.
#[derive(Debug, PartialEq, Eq)]
pub struct DatabaseTableDefinition {
    pub table_name: Identifier,
    pub columns: Vec<TableColumn>,
}

impl View for DatabaseTableDefinition {
    type V = TableV;

    open spec fn view(&self) -> TableV {
        TableV { name: self.table_name@, columns: column_views(self.columns@) }
    }
}

impl Clone for DatabaseTableDefinition {
    fn clone(&self) -> (r: Self)
        ensures
            r@ == self@,
            r.table_name == self.table_name,
            r.columns@ == self.columns@,
    {
        let columns = self.columns.clone();
        proof {
            assert forall|i: int| 0 <= i < self.columns@.len() implies columns@[i]
                == self.columns@[i] by {
                assert(cloned::<TableColumn>(self.columns@[i], columns@[i]));
            }
            assert(columns@ =~= self.columns@);
        }
        DatabaseTableDefinition { table_name: self.table_name.clone(), columns }
    }
}

/// The mathematical values of a sequence of tables.
pub open spec fn table_views(s: Seq<DatabaseTableDefinition>) -> Seq<TableV> {
    s.map_values(|t: DatabaseTableDefinition| t@)
}

/// The mathematical value of a [`DatabaseDefinition`].
pub struct DatabaseV {
    pub name: Seq<char>,
    pub tables: Seq<TableV>,
}

/// One generation of a whole database: a name and the tables it holds.
#[derive(Debug)]
pub struct DatabaseDefinition {
    pub name: String,
    pub tables: Vec<DatabaseTableDefinition>,
}

impl View for DatabaseDefinition {
    type V = DatabaseV;

    open spec fn view(&self) -> DatabaseV {
        DatabaseV { name: self.name@, tables: table_views(self.tables@) }
    }
}

impl DatabaseDefinition {
    /// Bundles a database name with its tables.
    pub fn new(name: String, tables: Vec<DatabaseTableDefinition>) -> (r: Self)
        ensures
            r.name@ == name@,
            r.tables@ == tables@,
    {
        DatabaseDefinition { name, tables }
    }
}

} // verus!
