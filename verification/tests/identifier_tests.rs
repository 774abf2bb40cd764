use schema_migration::alter_table::{AlterColumnAction, AlterTable, AlterTableAction};
use schema_migration::identifier::Identifier;
use schema_migration::migration::MigrationAction;
use schema_migration::table_definition::DatabaseColumnType;
use schema_migration::{AsSql, SchemaError};

#[test]
fn it_works() {
    assert_eq!(1 + 1, 2);
}

#[test]
fn invalid_characters_are_rejected() {
    assert_eq!(
        Identifier::new("bad-name!".to_string()),
        Err(SchemaError::InvalidIdentifier)
    );
}

#[test]
fn valid_name_is_accepted() {
    let id = Identifier::new("valid_name_1".to_string()).unwrap();
    assert_eq!(id.value(), "valid_name_1");
}

#[test]
fn empty_name_is_rejected() {
    assert_eq!(Identifier::new(String::new()), Err(SchemaError::InvalidIdentifier));
}

#[test]
fn spaces_and_quotes_are_rejected() {
    assert_eq!(
        Identifier::new("na me".to_string()),
        Err(SchemaError::InvalidIdentifier)
    );
    assert_eq!(
        Identifier::new("name;drop".to_string()),
        Err(SchemaError::InvalidIdentifier)
    );
    assert_eq!(
        Identifier::new("\"name\"".to_string()),
        Err(SchemaError::InvalidIdentifier)
    );
}

#[test]
fn every_column_type_has_its_keyword() {
    assert_eq!(DatabaseColumnType::Boolean.as_str(), "BOOL");
    assert_eq!(DatabaseColumnType::Int.as_str(), "INT");
    assert_eq!(DatabaseColumnType::Float.as_str(), "FLOAT");
    assert_eq!(DatabaseColumnType::String.as_str(), "VARCHAR");
    assert_eq!(DatabaseColumnType::Timestamp.as_str(), "TIMESTAMP");
    assert_eq!(DatabaseColumnType::Uuid.as_str(), "UUID");
}

#[test]
fn nullability_changes_render_as_drop_or_set() {
    assert_eq!(
        AlterColumnAction::SetNullability(true).as_sql().unwrap(),
        "DROP NOT NULL"
    );
    assert_eq!(
        AlterColumnAction::SetNullability(false).as_sql().unwrap(),
        "SET NOT NULL"
    );
    assert_eq!(
        AlterColumnAction::SetType(DatabaseColumnType::Uuid).as_sql().unwrap(),
        "TYPE UUID"
    );
}

#[test]
fn drop_table_and_drop_column_render_with_if_exists() {
    let drop_table = MigrationAction::DropTable(Identifier::new("t".to_string()).unwrap());
    assert_eq!(drop_table.as_sql().unwrap(), "DROP TABLE IF EXISTS t;");
    let drop_column = AlterTableAction::DropColumn(Identifier::new("c".to_string()).unwrap());
    assert_eq!(drop_column.as_sql().unwrap(), "DROP COLUMN IF EXISTS c");
}

#[test]
fn alter_table_with_no_actions_renders_empty() {
    let alter = AlterTable {
        table_name: Identifier::new("t".to_string()).unwrap(),
        actions: vec![],
    };
    assert_eq!(alter.as_sql().unwrap(), "");
}
