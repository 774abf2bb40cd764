use schema_migration::create_table::CreateTable;
use schema_migration::identifier::Identifier;
use schema_migration::table_definition::{
    DatabaseColumnType, DatabaseTableDefinition, TableColumn,
};

fn column(name: &str, ty: DatabaseColumnType, pk: bool, nullable: bool) -> TableColumn {
    TableColumn {
        column_name: Identifier::new(name.to_string()).unwrap(),
        column_type: ty,
        is_primary_key: pk,
        is_nullable: nullable,
    }
}

#[test]
fn as_sql_works() {
    let table_definition = DatabaseTableDefinition {
        table_name: Identifier::new("new_table".to_string()).unwrap(),
        columns: vec![
            column("uuid_pk_nonnull", DatabaseColumnType::Uuid, true, false),
            column("string", DatabaseColumnType::String, false, true),
            column("bool_nonnull", DatabaseColumnType::Boolean, false, false),
            column("float_nonnull", DatabaseColumnType::Float, false, false),
            column("int", DatabaseColumnType::Int, false, true),
            column("create_timestamp", DatabaseColumnType::Timestamp, false, true),
        ],
    };

    let create_table = CreateTable::new(table_definition);

    let queries = create_table.as_sql();

    let expected_query = [
        "CREATE TABLE IF NOT EXISTS new_table (",
        " uuid_pk_nonnull UUID PRIMARY KEY NOT NULL,",
        " string VARCHAR,",
        " bool_nonnull BOOL NOT NULL,",
        " float_nonnull FLOAT NOT NULL,",
        " int INT,",
        " create_timestamp TIMESTAMP );",
    ]
    .join("");

    assert_eq!(queries, expected_query);
}

#[test]
fn create_table_renders_uuid_primary_key() {
    let table = DatabaseTableDefinition {
        table_name: Identifier::new("t".to_string()).unwrap(),
        columns: vec![column("id", DatabaseColumnType::Uuid, true, false)],
    };
    let sql = CreateTable::new(table).as_sql();
    assert_eq!(sql, "CREATE TABLE IF NOT EXISTS t ( id UUID PRIMARY KEY NOT NULL );");
}

#[test]
fn create_table_rendering_is_pure() {
    let table = DatabaseTableDefinition {
        table_name: Identifier::new("t".to_string()).unwrap(),
        columns: vec![
            column("id", DatabaseColumnType::Uuid, true, false),
            column("name", DatabaseColumnType::String, false, true),
        ],
    };
    let create = CreateTable::new(table);
    let first = create.as_sql();
    let second = create.as_sql();
    assert_eq!(first.as_bytes(), second.as_bytes());
}

#[test]
fn create_table_keeps_declared_column_order() {
    let table = DatabaseTableDefinition {
        table_name: Identifier::new("ordered".to_string()).unwrap(),
        columns: vec![
            column("zeta", DatabaseColumnType::Int, false, false),
            column("alpha", DatabaseColumnType::Boolean, false, true),
        ],
    };
    let sql = CreateTable::new(table).as_sql();
    assert_eq!(sql, "CREATE TABLE IF NOT EXISTS ordered ( zeta INT NOT NULL, alpha BOOL );");
}

#[test]
fn table_definition_accessor_returns_the_wrapped_table() {
    let table = DatabaseTableDefinition {
        table_name: Identifier::new("t".to_string()).unwrap(),
        columns: vec![column("id", DatabaseColumnType::Int, true, false)],
    };
    let create = CreateTable::new(table.clone());
    assert_eq!(create.table_definition(), &table);
}
