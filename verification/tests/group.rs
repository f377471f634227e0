use bevy_simplesave::{
    IoErrorKind, IoFailure, LoadAction, MemberDecode, MemberSnapshot, SaveEntry, SaveError,
    SaveGroup, SaveRegistry, load_group_bag, member_action, save_group_bag,
};
use std::collections::BTreeMap;

const POSITION: &str = "bevy_simplesave::plugin::group_ext::tests::Position";
const HEALTH: &str = "bevy_simplesave::plugin::group_ext::tests::Health";

fn s(x: &str) -> String {
    x.to_string()
}

fn written(text: &str) -> MemberSnapshot {
    MemberSnapshot::Written(s(text))
}

fn with_snapshots(members: &[String], snapshots: Vec<MemberSnapshot>) -> Vec<(String, MemberSnapshot)> {
    members.iter().cloned().zip(snapshots).collect()
}

/// Reads a stored member value back into a field map, as a member's type would.
fn decode<T: serde::de::DeserializeOwned>(value: Option<ron::Value>) -> (Option<BTreeMap<String, T>>, LoadAction) {
    match value {
        None => (None, member_action(MemberDecode::Absent)),
        Some(v) => match v.into_rust::<BTreeMap<String, T>>() {
            Ok(fields) => (Some(fields), member_action(MemberDecode::Decoded)),
            Err(e) => (None, member_action(MemberDecode::Undecodable(e.to_string()))),
        },
    }
}

#[test]
fn group_round_trip_with_two_resource_types() {
    let members = vec![s(POSITION), s(HEALTH)];
    let text = save_group_bag(&with_snapshots(&members, vec![written("(x: 3.0)"), written("(hp: 42)")]), "\n")
        .expect("save should succeed");

    let values = load_group_bag(&members, &s("slot_1.ron"), Ok(text.into_bytes()))
        .expect("load should succeed");
    let mut values = values.into_iter();
    let (position, action) = decode::<f32>(values.next().unwrap());
    assert_eq!(action, LoadAction::InsertLoaded);
    assert_eq!(position.unwrap()["x"], 3.0);
    let (health, action) = decode::<u32>(values.next().unwrap());
    assert_eq!(action, LoadAction::InsertLoaded);
    assert_eq!(health.unwrap()["hp"], 42);
}

#[test]
fn load_group_defaults_newly_added_member_when_key_missing() {
    let old_members = vec![s(POSITION)];
    let text = save_group_bag(&with_snapshots(&old_members, vec![written("(x: 7.0)")]), "\n").unwrap();

    let new_members = vec![s(POSITION), s(HEALTH)];
    let values = load_group_bag(&new_members, &s("slot_1.ron"), Ok(text.into_bytes()))
        .expect("load should succeed");
    let mut values = values.into_iter();
    let (position, _) = decode::<f32>(values.next().unwrap());
    assert_eq!(position.unwrap()["x"], 7.0);
    let (health, action) = decode::<u32>(values.next().unwrap());
    assert_eq!(health, None);
    assert_eq!(action, LoadAction::InsertDefault);
}

#[test]
fn register_same_resource_twice_preserves_loaded_value() {
    let mut registry = SaveRegistry::new();
    registry.add_group_member(&s("SlotGroup"), &s(POSITION));
    registry.add_group_member(&s("SlotGroup"), &s(POSITION));
    let members = registry.members_of(&s("SlotGroup")).unwrap();
    assert_eq!(members.len(), 1);

    let text = save_group_bag(&with_snapshots(&members, vec![written("(x: 42.0)")]), "\n").expect("save should succeed");
    let values = load_group_bag(&members, &s("slot_duplicate.ron"), Ok(text.into_bytes()))
        .expect("load should succeed");
    let (position, _) = decode::<f32>(values.into_iter().next().unwrap());
    assert_eq!(position.unwrap()["x"], 42.0);
}

#[test]
fn load_group_propagates_error_for_corrupt_bag_file() {
    let members = vec![s(POSITION)];
    let err = load_group_bag(&members, &s("slot_1.ron"), Ok(b"not valid ron {{{".to_vec()))
        .expect_err("corrupt bag file should be an error");
    assert!(matches!(err, SaveError::Deserialize(_)));
}

#[test]
fn load_group_defaults_one_corrupt_member_but_loads_others() {
    let bag_ron = format!(r#"{{"{POSITION}": (x: "not_a_number"), "{HEALTH}": (hp: 42)}}"#);
    let members = vec![s(POSITION), s(HEALTH)];
    let values = load_group_bag(&members, &s("slot_1.ron"), Ok(bag_ron.into_bytes()))
        .expect("load should succeed overall");
    let mut values = values.into_iter();
    let (position, action) = decode::<f32>(values.next().unwrap());
    assert_eq!(position, None);
    assert!(matches!(
        action,
        LoadAction::InsertDefaultAndReport(SaveError::GroupMemberDeserialize(_))
    ));
    let (health, action) = decode::<u32>(values.next().unwrap());
    assert_eq!(action, LoadAction::InsertLoaded);
    assert_eq!(health.unwrap()["hp"], 42);
}

#[test]
fn save_group_errors_when_a_member_resource_is_missing() {
    let members = vec![s(POSITION), s(HEALTH)];
    let err = save_group_bag(&with_snapshots(&members, vec![MemberSnapshot::Missing, written("(hp: 1)")]), "\n")
        .expect_err("save should fail when a member resource is missing");
    assert!(matches!(err, SaveError::ResourceMissing { .. }));
    assert_eq!(err, SaveError::ResourceMissing(s(POSITION)));
}

#[test]
fn first_failing_member_decides_the_save_error() {
    let members = vec![s(POSITION), s(HEALTH)];
    let err = save_group_bag(&with_snapshots(&members, vec![MemberSnapshot::Unwritable(s("no floats")), MemberSnapshot::Missing]), "\n",
    )
    .unwrap_err();
    assert_eq!(
        err,
        SaveError::Serialize {
            resource_type: s(POSITION),
            message: s("no floats"),
        }
    );
    let err = save_group_bag(&with_snapshots(&members, vec![written("(x: 1.0)"), written("not valid ron {{{")]), "\n")
        .unwrap_err();
    assert!(matches!(err, SaveError::Internal(m) if m.starts_with(&format!("re-parsing RON produced for `{HEALTH}` failed: "))));
}

#[test]
fn missing_group_file_defaults_every_member() {
    let members = vec![s(POSITION), s(HEALTH)];
    let missing = IoFailure {
        kind: IoErrorKind::NotFound,
        message: s("No such file or directory (os error 2)"),
    };
    let values = load_group_bag(&members, &s("slot_9.ron"), Err(missing)).expect("missing file is fine");
    assert_eq!(values.len(), 2);
    assert!(values.iter().all(|v| v.is_none()));
}

#[test]
fn unreadable_or_non_utf8_group_file_is_an_error() {
    let members = vec![s(POSITION)];
    let failure = IoFailure {
        kind: IoErrorKind::Other,
        message: s("denied"),
    };
    let err = load_group_bag(&members, &s("slot.ron"), Err(failure)).unwrap_err();
    assert_eq!(
        err,
        SaveError::Io {
            path: s("slot.ron"),
            kind: IoErrorKind::Other,
            message: s("denied"),
        }
    );
    let err = load_group_bag(&members, &s("slot.ron"), Ok(vec![b'{', 0xc3, b'}'])).unwrap_err();
    assert!(matches!(err, SaveError::InvalidUtf8(_)));
}

#[test]
fn member_listed_twice_gets_the_value_once() {
    let text = format!(r#"{{"{POSITION}": (x: 1.0)}}"#);
    let members = vec![s(POSITION), s(POSITION)];
    let values = load_group_bag(&members, &s("slot.ron"), Ok(text.into_bytes())).unwrap();
    assert!(values[0].is_some());
    assert!(values[1].is_none());
}

struct SlotGroup;

impl SaveGroup for SlotGroup {}

fn is_group<G: SaveGroup>(_group: G) -> bool {
    true
}

fn is_send_and_sync<T: Send + Sync>() -> bool {
    true
}

#[test]
fn save_entry_is_send_and_sync_whatever_the_resource() {
    assert!(is_send_and_sync::<SaveEntry<u32>>());
    assert!(is_send_and_sync::<SaveEntry<std::rc::Rc<u32>>>());
    assert!(is_send_and_sync::<SaveEntry<std::cell::Cell<u8>>>());
}

#[test]
fn groups_and_entries_stand_for_types() {
    let _entry: SaveEntry<u32> = SaveEntry::new();
    assert!(is_group(SlotGroup));
}

#[test]
fn group_file_lines_end_as_asked() {
    let members = vec![s(POSITION), s(HEALTH)];
    let snapshots = with_snapshots(&members, vec![written("(x: 3.0)"), written("(hp: 42)")]);
    let unix = save_group_bag(&snapshots, "\n").unwrap();
    let windows = save_group_bag(&snapshots, "\r\n").unwrap();
    assert!(!unix.contains('\r'));
    assert!(windows.contains("\r\n"));
    assert_eq!(windows.replace("\r\n", "\n"), unix);
    let values = load_group_bag(&members, &s("slot.ron"), Ok(windows.into_bytes())).unwrap();
    assert!(values.iter().all(|v| v.is_some()));
}
