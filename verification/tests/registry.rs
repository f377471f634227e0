use bevy_simplesave::{LoadAction, SaveError, SaveRegistry, SaveTiming};

fn s(x: &str) -> String {
    x.to_string()
}

#[test]
fn latest_registration_path_is_kept() {
    let mut registry = SaveRegistry::new();
    registry.set_save_path(s("Settings"), s("first.ron"));
    registry.set_save_path(s("Settings"), s("second.ron"));
    registry.set_save_path(s("Other"), s("other.ron"));
    assert_eq!(registry.save_path(&s("Settings")), Some(s("second.ron")));
    assert_eq!(registry.save_path(&s("Other")), Some(s("other.ron")));
    assert_eq!(registry.save_path(&s("Missing")), None);
}

#[test]
fn auto_save_is_claimed_only_once() {
    let mut registry = SaveRegistry::new();
    assert!(registry.claim_auto_save(&s("Settings"), SaveTiming::Auto));
    assert!(!registry.claim_auto_save(&s("Settings"), SaveTiming::Auto));
    assert!(!registry.claim_auto_save(&s("Settings"), SaveTiming::Manual));
    assert!(!registry.claim_auto_save(&s("Other"), SaveTiming::Manual));
    assert!(registry.claim_auto_save(&s("Other"), SaveTiming::Auto));
}

#[test]
fn save_path_for_unregistered_resource_is_missing() {
    let mut registry = SaveRegistry::new();
    let err = registry
        .path_for_save(&s("Settings"), &s("SavePath<Settings>"))
        .expect_err("nothing registered");
    assert_eq!(err, SaveError::ResourceMissing(s("SavePath<Settings>")));
    registry.set_save_path(s("Settings"), s("settings.ron"));
    assert_eq!(
        registry.path_for_save(&s("Settings"), &s("SavePath<Settings>")),
        Ok(s("settings.ron"))
    );
}

#[test]
fn save_group_errors_when_group_was_never_registered() {
    let mut registry = SaveRegistry::new();
    let err = registry
        .members_of(&s("NeverRegisteredGroup"))
        .expect_err("saving an unregistered group should fail");
    assert!(matches!(err, SaveError::UnknownGroup { .. }));
    registry.add_group_member(&s("SlotGroup"), &s("Position"));
    let err = registry
        .members_of(&s("NeverRegisteredGroup"))
        .expect_err("another group does not make this one known");
    assert_eq!(err, SaveError::UnknownGroup(s("NeverRegisteredGroup")));
}

#[test]
fn group_members_are_kept_once_in_registration_order() {
    let mut registry = SaveRegistry::new();
    assert!(registry.add_group_member(&s("SlotGroup"), &s("Position")));
    assert!(!registry.add_group_member(&s("SlotGroup"), &s("Position")));
    assert!(registry.add_group_member(&s("SlotGroup"), &s("Health")));
    assert!(registry.add_group_member(&s("OtherGroup"), &s("Position")));
    assert_eq!(
        registry.members_of(&s("SlotGroup")),
        Ok(vec![s("Position"), s("Health")])
    );
    assert_eq!(registry.members_of(&s("OtherGroup")), Ok(vec![s("Position")]));
}

#[test]
fn registering_a_resource_records_path_timing_and_load_outcome() {
    let mut registry = SaveRegistry::new();
    let (action, install) =
        registry.register_resource(s("Settings"), s("first.ron"), SaveTiming::Auto, Ok(false));
    assert_eq!(action, LoadAction::InsertDefault);
    assert!(install);
    let err = SaveError::Deserialize(s("bad"));
    let (action, install) = registry.register_resource(
        s("Settings"),
        s("second.ron"),
        SaveTiming::Auto,
        Err(err.clone()),
    );
    assert_eq!(action, LoadAction::InsertDefaultAndReport(err));
    assert!(!install);
    assert_eq!(registry.save_path(&s("Settings")), Some(s("second.ron")));
    let (action, install) =
        registry.register_resource(s("Manual"), s("m.ron"), SaveTiming::Manual, Ok(true));
    assert_eq!(action, LoadAction::Keep);
    assert!(!install);
}
