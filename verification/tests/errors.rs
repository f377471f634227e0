use bevy_simplesave::{IoErrorKind, IoFailure, SaveError};

#[test]
fn save_write_error_serialize_display_formats_resource_type_and_source() {
    let err = SaveError::Serialize {
        resource_type: "MyResource".to_string(),
        message: ron::Error::Message("custom ron error".to_string()).to_string(),
    };
    assert_eq!(
        err.describe(),
        "failed to serialize `MyResource` to RON: custom ron error"
    );
}

#[test]
fn every_error_has_its_message() {
    let cases = [
        (
            SaveError::Io {
                path: "a.ron".to_string(),
                kind: IoErrorKind::Other,
                message: "denied".to_string(),
            },
            "io error at a.ron: denied",
        ),
        (SaveError::Deserialize("bad".to_string()), "failed to deserialize from RON: bad"),
        (
            SaveError::LocationUnavailable("no home".to_string()),
            "could not resolve save location: no home",
        ),
        (
            SaveError::InvalidSubPath("../x".to_string()),
            "sub path `../x` must be relative (no root or drive prefix)",
        ),
        (
            SaveError::ResourceMissing("Settings".to_string()),
            "resource `Settings` was not found in the world",
        ),
        (SaveError::InvalidUtf8("x".to_string()), "saved file is not valid UTF-8: x"),
        (
            SaveError::GroupMemberDeserialize("y".to_string()),
            "failed to deserialize group member from RON: y",
        ),
        (SaveError::UnknownGroup("Slots".to_string()), "unknown save group: Slots"),
        (SaveError::Internal("z".to_string()), "internal error: z"),
    ];
    for (err, text) in cases {
        assert_eq!(err.describe(), text);
    }
}

#[test]
fn io_error_keeps_path_kind_and_message() {
    let failure = IoFailure {
        kind: IoErrorKind::NotFound,
        message: "gone".to_string(),
    };
    let err = SaveError::io(&"saves/a.ron".to_string(), &failure);
    assert_eq!(
        err,
        SaveError::Io {
            path: "saves/a.ron".to_string(),
            kind: IoErrorKind::NotFound,
            message: "gone".to_string(),
        }
    );
}
