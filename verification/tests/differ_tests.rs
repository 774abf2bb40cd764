use schema_migration::alter_table::{
    AlterColumn, AlterColumnAction, AlterTable, AlterTableAction,
};
use schema_migration::differ::{diff_database, diff_table};
use schema_migration::identifier::Identifier;
use schema_migration::migration::MigrationAction;
use schema_migration::table_definition::{
    DatabaseColumnType, DatabaseDefinition, DatabaseTableDefinition, TableColumn,
};
use schema_migration::AsSql;

fn ident(name: &str) -> Identifier {
    Identifier::new(name.to_string()).unwrap()
}

fn column(name: &str, ty: DatabaseColumnType, pk: bool, nullable: bool) -> TableColumn {
    TableColumn {
        column_name: ident(name),
        column_type: ty,
        is_primary_key: pk,
        is_nullable: nullable,
    }
}

fn scenario_before() -> DatabaseTableDefinition {
    DatabaseTableDefinition {
        table_name: ident("t"),
        columns: vec![
            column("bool", DatabaseColumnType::Boolean, false, false),
            column("int", DatabaseColumnType::Int, false, false),
            column("string_nullable", DatabaseColumnType::String, false, true),
            column("timestamp", DatabaseColumnType::Timestamp, false, false),
        ],
    }
}

fn scenario_after() -> DatabaseTableDefinition {
    DatabaseTableDefinition {
        table_name: ident("t"),
        columns: vec![
            column("bool", DatabaseColumnType::String, false, true),
            column("int", DatabaseColumnType::Float, false, false),
            column("string_nullable", DatabaseColumnType::String, false, false),
            column("new_column", DatabaseColumnType::String, false, false),
        ],
    }
}

#[test]
fn unchanged_table_diffs_to_none() {
    let t = scenario_before();
    assert_eq!(diff_table(&t, &t).unwrap(), None);
}

#[test]
fn empty_table_diffs_to_none() {
    let t = DatabaseTableDefinition { table_name: ident("empty"), columns: vec![] };
    assert_eq!(diff_table(&t, &t).unwrap(), None);
}

#[test]
fn mixed_changes_come_out_in_column_name_order() {
    let before = scenario_before();
    let after = scenario_after();

    let alter = diff_table(&before, &after).unwrap().unwrap();

    assert_eq!(
        alter,
        AlterTable {
            table_name: ident("t"),
            actions: vec![
                AlterTableAction::AlterColumn(AlterColumn {
                    column_name: ident("bool"),
                    actions: vec![
                        AlterColumnAction::SetType(DatabaseColumnType::String),
                        AlterColumnAction::SetNullability(true),
                    ],
                }),
                AlterTableAction::AlterColumn(AlterColumn {
                    column_name: ident("int"),
                    actions: vec![AlterColumnAction::SetType(DatabaseColumnType::Float)],
                }),
                AlterTableAction::AddColumn(column(
                    "new_column",
                    DatabaseColumnType::String,
                    false,
                    false,
                )),
                AlterTableAction::AlterColumn(AlterColumn {
                    column_name: ident("string_nullable"),
                    actions: vec![AlterColumnAction::SetNullability(false)],
                }),
                AlterTableAction::DropColumn(ident("timestamp")),
            ],
        }
    );

    let sql = alter.as_sql().unwrap();
    let lines = sql.split('\n').collect::<Vec<&str>>();
    assert_eq!(
        lines,
        vec![
            "ALTER TABLE IF EXISTS t ALTER COLUMN bool TYPE VARCHAR, ALTER COLUMN bool DROP NOT NULL;",
            "ALTER TABLE IF EXISTS t ALTER COLUMN int TYPE FLOAT;",
            "ALTER TABLE IF EXISTS t ADD COLUMN IF NOT EXISTS new_column VARCHAR NOT NULL;",
            "ALTER TABLE IF EXISTS t ALTER COLUMN string_nullable SET NOT NULL;",
            "ALTER TABLE IF EXISTS t DROP COLUMN IF EXISTS timestamp;",
        ]
    );
}

#[test]
fn rename_only_emits_one_rename_statement() {
    let before = DatabaseTableDefinition {
        table_name: ident("old"),
        columns: vec![column("id", DatabaseColumnType::Int, true, false)],
    };
    let after = DatabaseTableDefinition {
        table_name: ident("new"),
        columns: vec![column("id", DatabaseColumnType::Int, true, false)],
    };

    let alter = diff_table(&before, &after).unwrap().unwrap();
    assert_eq!(
        alter,
        AlterTable {
            table_name: ident("old"),
            actions: vec![AlterTableAction::Rename(ident("new"))],
        }
    );
    assert_eq!(alter.as_sql().unwrap(), "ALTER TABLE IF EXISTS old RENAME TO new;");
}

#[test]
fn diff_table_is_deterministic() {
    let before = scenario_before();
    let after = scenario_after();
    assert_eq!(
        diff_table(&before, &after).unwrap(),
        diff_table(&before, &after).unwrap()
    );
}

#[test]
fn every_removed_column_is_dropped_exactly_once() {
    let before = DatabaseTableDefinition {
        table_name: ident("t"),
        columns: vec![
            column("a", DatabaseColumnType::Int, false, false),
            column("b", DatabaseColumnType::Int, false, false),
            column("c", DatabaseColumnType::Int, false, false),
        ],
    };
    let after = DatabaseTableDefinition {
        table_name: ident("t"),
        columns: vec![column("b", DatabaseColumnType::Int, false, false)],
    };
    let alter = diff_table(&before, &after).unwrap().unwrap();
    let drops_of = |name: &str| {
        alter
            .actions
            .iter()
            .filter(|action| matches!(action, AlterTableAction::DropColumn(id) if id.value() == name))
            .count()
    };
    assert_eq!(drops_of("a"), 1);
    assert_eq!(drops_of("b"), 0);
    assert_eq!(drops_of("c"), 1);
    assert_eq!(alter.actions.len(), 2);
}

#[test]
fn first_migration_creates_every_table() {
    let after = DatabaseDefinition::new(
        "shop".to_string(),
        vec![
            DatabaseTableDefinition {
                table_name: ident("orders"),
                columns: vec![column("id", DatabaseColumnType::Uuid, true, false)],
            },
            DatabaseTableDefinition {
                table_name: ident("customers"),
                columns: vec![column("id", DatabaseColumnType::Uuid, true, false)],
            },
        ],
    );
    let migration = diff_database(None, &after).unwrap();
    assert_eq!(migration.table_actions.len(), 2);
    assert!(matches!(&migration.table_actions[0], MigrationAction::CreateTable(ct)
        if ct.table_definition().table_name.value() == "orders"));
    assert!(matches!(&migration.table_actions[1], MigrationAction::CreateTable(ct)
        if ct.table_definition().table_name.value() == "customers"));
}

#[test]
fn database_diff_creates_drops_and_alters() {
    let before = DatabaseDefinition::new(
        "shop".to_string(),
        vec![
            DatabaseTableDefinition {
                table_name: ident("gone"),
                columns: vec![column("id", DatabaseColumnType::Int, true, false)],
            },
            DatabaseTableDefinition {
                table_name: ident("kept"),
                columns: vec![column("id", DatabaseColumnType::Int, true, false)],
            },
        ],
    );
    let after = DatabaseDefinition::new(
        "shop".to_string(),
        vec![
            DatabaseTableDefinition {
                table_name: ident("kept"),
                columns: vec![
                    column("id", DatabaseColumnType::Int, true, false),
                    column("note", DatabaseColumnType::String, false, true),
                ],
            },
            DatabaseTableDefinition {
                table_name: ident("fresh"),
                columns: vec![column("id", DatabaseColumnType::Int, true, false)],
            },
        ],
    );

    let migration = diff_database(Some(&before), &after).unwrap();
    let sql = migration.as_sql().unwrap();
    let lines = sql.split('\n').collect::<Vec<&str>>();
    assert_eq!(
        lines,
        vec![
            "CREATE TABLE IF NOT EXISTS fresh ( id INT PRIMARY KEY NOT NULL );",
            "DROP TABLE IF EXISTS gone;",
            "ALTER TABLE IF EXISTS kept ADD COLUMN IF NOT EXISTS note VARCHAR;",
        ]
    );
}

#[test]
fn unchanged_database_diffs_to_empty_migration() {
    let db = DatabaseDefinition::new(
        "shop".to_string(),
        vec![DatabaseTableDefinition {
            table_name: ident("kept"),
            columns: vec![column("id", DatabaseColumnType::Int, true, false)],
        }],
    );
    let migration = diff_database(Some(&db), &db).unwrap();
    assert!(migration.table_actions.is_empty());
    assert_eq!(migration.as_sql().unwrap(), "");
}
