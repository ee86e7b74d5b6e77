use lexwisp::storage_rules::{checkpoint_applies, checkpoint_replaces, schema_plan, SchemaPlan};

#[test]
fn opening_the_database_plans_its_schema_work() {
    assert_eq!(schema_plan(None), Ok(SchemaPlan::Create));
    assert_eq!(schema_plan(Some(7)), Ok(SchemaPlan::Recover));
    assert_eq!(
        schema_plan(Some(2)),
        Ok(SchemaPlan::Upgrade { add_model_preference: true, add_favorite_note: true, add_plugin_kind: false })
    );
    assert_eq!(
        schema_plan(Some(5)),
        Ok(SchemaPlan::Upgrade { add_model_preference: false, add_favorite_note: false, add_plugin_kind: true })
    );
    assert_eq!(schema_plan(Some(8)), Err("database schema version 8 is not supported".to_string()));
    assert_eq!(schema_plan(Some(-1)), Err("database schema version -1 is not supported".to_string()));
}

#[test]
fn late_or_stale_checkpoints_are_not_written() {
    assert!(checkpoint_applies(3, 3, false, false));
    assert!(!checkpoint_applies(4, 3, false, false));
    assert!(!checkpoint_applies(3, 3, true, false));
    assert!(!checkpoint_applies(3, 3, false, true));
    assert!(checkpoint_replaces(5, 3, 4, 3));
    assert!(!checkpoint_replaces(4, 3, 4, 3));
    assert!(!checkpoint_replaces(6, 2, 4, 3));
}
