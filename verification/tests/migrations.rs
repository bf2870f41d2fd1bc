use plugdeck::db_migrations::{
    current_version, migrate, Schema, SlotRecord, LATEST_SCHEMA_VERSION,
};

fn slot(id: i64, name: &str) -> SlotRecord {
    SlotRecord {
        id,
        name: name.to_string(),
        has_messages: false,
        has_attachments: false,
        has_session: false,
    }
}

fn names(schema: &Schema) -> Vec<&str> {
    schema.slots.iter().map(|slot| slot.name.as_str()).collect()
}

#[test]
fn migrate_records_latest_schema_version() {
    let mut schema = Schema::new();
    migrate(&mut schema);
    assert_eq!(current_version(&schema.versions), LATEST_SCHEMA_VERSION);
    assert!(schema.has_base_tables);
    assert_eq!(schema.versions, vec![1, 2]);
}

#[test]
fn migration_two_renames_a_and_removes_only_empty_legacy_slots() {
    let mut kept = slot(3, "c");
    kept.has_messages = true;
    let mut schema = Schema {
        versions: vec![1],
        has_base_tables: true,
        slots: vec![slot(1, "a"), slot(2, "b"), kept],
    };

    migrate(&mut schema);

    assert_eq!(names(&schema), vec!["codex", "c"]);
    assert_eq!(current_version(&schema.versions), LATEST_SCHEMA_VERSION);
}

#[test]
fn a_lane_that_exists_keeps_its_name() {
    let mut used = slot(1, "A");
    used.has_session = true;
    let mut schema = Schema {
        versions: vec![1],
        has_base_tables: true,
        slots: vec![used, slot(2, "Codex"), slot(3, "E"), slot(4, "f")],
    };
    migrate(&mut schema);
    assert_eq!(names(&schema), vec!["A", "Codex", "f"]);
    assert_eq!(schema.slots[0].id, 1);
}

#[test]
fn a_second_migration_changes_nothing() {
    let mut schema = Schema {
        versions: vec![2, 1],
        has_base_tables: true,
        slots: vec![slot(1, "a"), slot(2, "b")],
    };
    migrate(&mut schema);
    assert_eq!(names(&schema), vec!["a", "b"]);
    assert_eq!(schema.versions, vec![2, 1]);
}

#[test]
fn later_versions_are_left_alone() {
    let mut schema = Schema {
        versions: vec![7],
        has_base_tables: true,
        slots: vec![slot(1, "b")],
    };
    migrate(&mut schema);
    assert_eq!(schema.versions, vec![7]);
    assert_eq!(names(&schema), vec!["b"]);
}

#[test]
fn no_version_counts_as_zero() {
    assert_eq!(current_version(&Vec::new()), 0);
    assert_eq!(current_version(&vec![-4]), -4);
}
