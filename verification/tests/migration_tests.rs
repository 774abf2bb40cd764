use schema_migration::alter_table::{
    AlterColumn, AlterColumnAction, AlterTable, AlterTableAction,
};
use schema_migration::identifier::Identifier;
use schema_migration::migration::{Migration, MigrationAction};
use schema_migration::table_definition::{
    DatabaseColumnType, DatabaseTableDefinition, TableColumn,
};
use schema_migration::AsSql;

fn ident(name: &str) -> Identifier {
    Identifier::new(name.to_string()).unwrap()
}

fn column(name: &str, ty: DatabaseColumnType, pk: bool, nullable: bool) -> TableColumn {
    TableColumn {
        column_name: ident(name),
        column_type: ty,
        is_primary_key: pk,
        is_nullable: nullable,
    }
}

fn get_before() -> DatabaseTableDefinition {
    DatabaseTableDefinition {
        table_name: ident("my_table"),
        columns: vec![
            column("string_nullable", DatabaseColumnType::String, false, true),
            column("bool", DatabaseColumnType::Boolean, false, false),
            column("int", DatabaseColumnType::Int, false, false),
            column("float", DatabaseColumnType::Float, false, false),
            column("timestamp", DatabaseColumnType::Timestamp, false, false),
            column("uuid", DatabaseColumnType::Uuid, false, false),
        ],
    }
}

#[test]
fn as_sql_generates_sql_script() {
    let migration = Migration {
        table_actions: vec![MigrationAction::AlterTable(AlterTable {
            table_name: ident("my_table"),
            actions: vec![
                AlterTableAction::AlterColumn(AlterColumn {
                    column_name: ident("bool"),
                    actions: vec![
                        AlterColumnAction::SetType(DatabaseColumnType::String),
                        AlterColumnAction::SetNullability(true),
                    ],
                }),
                AlterTableAction::AlterColumn(AlterColumn {
                    column_name: ident("int"),
                    actions: vec![AlterColumnAction::SetType(DatabaseColumnType::Float)],
                }),
                AlterTableAction::AddColumn(column(
                    "new_column",
                    DatabaseColumnType::String,
                    false,
                    false,
                )),
                AlterTableAction::AlterColumn(AlterColumn {
                    column_name: ident("string_nullable"),
                    actions: vec![AlterColumnAction::SetNullability(false)],
                }),
                AlterTableAction::DropColumn(ident("timestamp")),
            ],
        })],
    };

    let result_sql = migration.as_sql().unwrap();

    let mut queries = result_sql.split("\n").collect::<Vec<&str>>();
    let mut expected_queries: Vec<&str> = vec![
        "ALTER TABLE IF EXISTS my_table ALTER COLUMN bool TYPE VARCHAR, ALTER COLUMN bool DROP NOT NULL;",
        "ALTER TABLE IF EXISTS my_table ALTER COLUMN int TYPE FLOAT;",
        "ALTER TABLE IF EXISTS my_table ADD COLUMN IF NOT EXISTS new_column VARCHAR NOT NULL;",
        "ALTER TABLE IF EXISTS my_table ALTER COLUMN string_nullable SET NOT NULL;",
        "ALTER TABLE IF EXISTS my_table DROP COLUMN IF EXISTS timestamp;",
    ];

    while !queries.is_empty() && !expected_queries.is_empty() {
        assert_eq!(queries.pop(), expected_queries.pop());
    }

    assert!(
        queries.is_empty() && expected_queries.is_empty(),
        "Number of queries did not match."
    );
}

#[test]
fn new_from_table_definitions_modifies() {
    let before = get_before();
    let mut after = before.clone();
    after
        .columns
        .iter_mut()
        .find(|c| c.column_name.value().eq("int"))
        .map(|c| c.column_type = DatabaseColumnType::Float);
    after
        .columns
        .iter_mut()
        .find(|c| c.column_name.value().eq("string_nullable"))
        .map(|c| {
            c.is_nullable = false;
        });
    after
        .columns
        .iter_mut()
        .find(|c| c.column_name.value().eq("bool"))
        .map(|c| {
            c.column_type = DatabaseColumnType::String;
            c.is_nullable = true;
        });
    after.columns.push(column("new_column", DatabaseColumnType::String, false, false));
    after.columns = after
        .columns
        .into_iter()
        .filter(|c| !c.column_name.value().eq("timestamp"))
        .collect();

    let migration = Migration::new_from_table_definitions(&before, &after).unwrap().unwrap();

    assert_eq!(
        migration,
        Migration {
            table_actions: vec![MigrationAction::AlterTable(AlterTable {
                table_name: ident("my_table"),
                actions: vec![
                    AlterTableAction::AlterColumn(AlterColumn {
                        column_name: ident("bool"),
                        actions: vec![
                            AlterColumnAction::SetType(DatabaseColumnType::String),
                            AlterColumnAction::SetNullability(true),
                        ],
                    }),
                    AlterTableAction::AlterColumn(AlterColumn {
                        column_name: ident("int"),
                        actions: vec![AlterColumnAction::SetType(DatabaseColumnType::Float)],
                    }),
                    AlterTableAction::AddColumn(column(
                        "new_column",
                        DatabaseColumnType::String,
                        false,
                        false,
                    )),
                    AlterTableAction::AlterColumn(AlterColumn {
                        column_name: ident("string_nullable"),
                        actions: vec![AlterColumnAction::SetNullability(false)],
                    }),
                    AlterTableAction::DropColumn(ident("timestamp")),
                ],
            })],
        }
    );
}

#[test]
fn from_agrees_with_new_from_table_definitions() {
    let before = get_before();
    let mut after = before.clone();
    after.columns.push(column("extra", DatabaseColumnType::Int, false, true));
    assert_eq!(
        Migration::from(&before, &after).unwrap(),
        Migration::new_from_table_definitions(&before, &after).unwrap(),
    );
}

#[test]
fn unchanged_table_yields_no_migration() {
    let before = get_before();
    let after = before.clone();
    assert_eq!(Migration::new_from_table_definitions(&before, &after).unwrap(), None);
}

#[test]
fn migration_rendering_is_pure() {
    let before = get_before();
    let mut after = before.clone();
    after.columns.push(column("extra", DatabaseColumnType::Int, false, true));
    let migration = Migration::new_from_table_definitions(&before, &after).unwrap().unwrap();
    assert_eq!(
        migration.as_sql().unwrap().as_bytes(),
        migration.as_sql().unwrap().as_bytes()
    );
}
