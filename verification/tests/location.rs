use bevy_simplesave::{
    IoErrorKind, IoFailure, PathStyle, SaveError, SaveLocation, join_path, resolve_app_data_dir,
    validate_sub_path,
};
use directories::ProjectDirs;
use std::path::PathBuf;

fn exe_dir() -> Result<Option<String>, IoFailure> {
    Ok(Some("/opt/game/bin".to_string()))
}

fn app_data_dir() -> Option<String> {
    ProjectDirs::from("dev", "ExampleStudio", "ExampleGame")
        .map(|dirs| dirs.data_dir().to_string_lossy().into_owned())
}

#[test]
fn custom_returns_path_as_is() {
    let location = SaveLocation::Custom("/tmp/my-game/save.ron".to_string());
    let resolved = location
        .resolve(&exe_dir(), PathStyle::Unix)
        .expect("custom path should always resolve");
    assert_eq!(PathBuf::from(resolved), PathBuf::from("/tmp/my-game/save.ron"));
}

#[test]
fn exe_relative_joins_sub_path_to_given_exe_dir() {
    let location = SaveLocation::ExeRelative("saves/settings.ron".to_string());
    let resolved = location.resolve(&exe_dir(), PathStyle::Unix).expect("exe dir is known");
    assert_eq!(resolved, "/opt/game/bin/saves/settings.ron");
    assert_eq!(
        PathBuf::from(&resolved),
        PathBuf::from("/opt/game/bin").join("saves/settings.ron")
    );
}

#[test]
fn exe_relative_reports_failed_exe_lookup() {
    let location = SaveLocation::ExeRelative("settings.ron".to_string());
    let failure = IoFailure {
        kind: IoErrorKind::Other,
        message: "no exe".to_string(),
    };
    let err = location.resolve(&Err(failure), PathStyle::Unix).expect_err("lookup failed");
    assert_eq!(
        err,
        SaveError::Io {
            path: "<current_exe>".to_string(),
            kind: IoErrorKind::Other,
            message: "no exe".to_string(),
        }
    );
}

#[test]
fn exe_relative_without_parent_is_unavailable() {
    let location = SaveLocation::ExeRelative("settings.ron".to_string());
    let err = location.resolve(&Ok(None), PathStyle::Unix).expect_err("no parent");
    assert_eq!(
        err,
        SaveError::LocationUnavailable("executable path has no parent directory".to_string())
    );
}

#[test]
fn app_data_resolves_to_project_dirs_data_dir_when_available() {
    let dirs = ProjectDirs::from("dev", "ExampleStudio", "ExampleGame")
        .expect("this environment must have a resolvable home directory");
    let data_dir = dirs.data_dir().to_string_lossy().into_owned();
    let sub = "settings.ron".to_string();

    let resolved = resolve_app_data_dir(Some(data_dir), &sub, PathStyle::Unix)
        .expect("resolve must succeed when ProjectDirs is Some");

    assert_eq!(PathBuf::from(resolved), dirs.data_dir().join("settings.ron"));
}

#[test]
fn app_data_returns_err_when_project_dirs_is_none() {
    let sub = "settings.ron".to_string();
    let err = resolve_app_data_dir(None, &sub, PathStyle::Unix).expect_err("resolve must fail when ProjectDirs is None");
    assert!(matches!(err, SaveError::LocationUnavailable(_)));
}

#[test]
fn app_data_location_resolves_under_the_data_dir() {
    let location = SaveLocation::AppData {
        qualifier: "dev".to_string(),
        organization: "ExampleStudio".to_string(),
        application: "ExampleGame".to_string(),
        sub: "settings.ron".to_string(),
    };
    let resolved = location.resolve(&exe_dir(), PathStyle::Unix).expect("home directory is available");
    let expected = app_data_dir().expect("home directory is available");
    assert_eq!(PathBuf::from(resolved), PathBuf::from(expected).join("settings.ron"));
}

#[test]
fn exe_relative_rejects_parent_dir() {
    let sub = "../save.ron".to_string();
    let location = SaveLocation::ExeRelative(sub.clone());
    let err = location.resolve(&exe_dir(), PathStyle::Unix).expect_err("parent dir subpath must fail");
    assert!(matches!(err, SaveError::InvalidSubPath(p) if p == sub));
}

#[test]
fn app_data_rejects_parent_dir() {
    let sub = "../save.ron".to_string();
    let err = resolve_app_data_dir(app_data_dir(), &sub, PathStyle::Unix).expect_err("parent dir subpath must fail");
    assert!(matches!(err, SaveError::InvalidSubPath(p) if p == sub));
}

#[test]
fn exe_relative_rejects_rooted_sub_path_unix() {
    let sub = "/root/save.ron".to_string();
    let location = SaveLocation::ExeRelative(sub.clone());
    let err = location.resolve(&exe_dir(), PathStyle::Unix).expect_err("rooted subpath must fail");
    assert!(matches!(err, SaveError::InvalidSubPath(p) if p == sub));
}

#[test]
fn app_data_rejects_rooted_sub_path_unix() {
    let sub = "/root/save.ron".to_string();
    let err = resolve_app_data_dir(app_data_dir(), &sub, PathStyle::Unix).expect_err("rooted subpath must fail");
    assert!(matches!(err, SaveError::InvalidSubPath(p) if p == sub));
}

#[test]
fn exe_relative_rejects_rooted_sub_path_windows() {
    for invalid in [
        r"C:\saves\settings.ron",
        r"C:saves\settings.ron",
        r"\saves\settings.ron",
        r"\\server\share\settings.ron",
    ] {
        let sub = invalid.to_string();
        let location = SaveLocation::ExeRelative(sub.clone());
        let err = location
            .resolve(&exe_dir(), PathStyle::Windows)
            .expect_err("rooted/prefixed subpath must fail on Windows");
        assert!(matches!(err, SaveError::InvalidSubPath(p) if p == sub));
    }
}

#[test]
fn app_data_rejects_rooted_sub_path_windows() {
    for invalid in [
        r"C:\saves\settings.ron",
        r"C:saves\settings.ron",
        r"\saves\settings.ron",
        r"\\server\share\settings.ron",
    ] {
        let sub = invalid.to_string();
        let err = resolve_app_data_dir(app_data_dir(), &sub, PathStyle::Windows)
            .expect_err("rooted/prefixed subpath must fail on Windows");
        assert!(matches!(err, SaveError::InvalidSubPath(p) if p == sub));
    }
}

#[test]
fn sub_path_rules_on_edge_cases() {
    for ok in ["", "settings.ron", "saves/slot_1.ron", "...", "a/..b", "a/b../c", "./x", "1:x"] {
        for style in [PathStyle::Unix, PathStyle::Windows] {
            assert_eq!(validate_sub_path(&ok.to_string(), style), Ok(()), "{ok} must be accepted");
        }
    }
    for bad in ["..", "a/..", "a/../b", "../", "/", "/x"] {
        for style in [PathStyle::Unix, PathStyle::Windows] {
            assert_eq!(
                validate_sub_path(&bad.to_string(), style),
                Err(SaveError::InvalidSubPath(bad.to_string())),
                "{bad} must be refused"
            );
        }
    }
}

#[test]
fn backslashes_and_drives_are_plain_names_on_unix() {
    for ok in ["C:x", r"\x", r"a\..\b", "z:"] {
        assert_eq!(validate_sub_path(&ok.to_string(), PathStyle::Unix), Ok(()), "{ok} is relative on Unix");
        assert_eq!(
            validate_sub_path(&ok.to_string(), PathStyle::Windows),
            Err(SaveError::InvalidSubPath(ok.to_string())),
            "{ok} is not relative on Windows"
        );
    }
}

#[test]
fn join_path_follows_pathbuf_join_on_unix() {
    for (base, sub) in [("a", "b.ron"), ("a/", "b.ron"), ("a\\", "b.ron"), ("", "b.ron"), ("a", ""), ("/opt/x", "s/t.ron")] {
        let expected = PathBuf::from(base).join(sub).to_string_lossy().into_owned();
        assert_eq!(join_path(&base.to_string(), &sub.to_string(), PathStyle::Unix), expected);
    }
}

#[test]
fn join_path_on_windows_inserts_backslash() {
    let j = |base: &str, sub: &str| join_path(&base.to_string(), &sub.to_string(), PathStyle::Windows);
    assert_eq!(j(r"C:\Users\me", "b.ron"), r"C:\Users\me\b.ron");
    assert_eq!(j(r"C:\Users\me\", "b.ron"), r"C:\Users\me\b.ron");
    assert_eq!(j("C:/Users/", "b.ron"), "C:/Users/b.ron");
    assert_eq!(j("C:", "b.ron"), "C:b.ron");
    assert_eq!(j("", "b.ron"), "b.ron");
}

#[test]
fn join_path_on_verbatim_windows_base_rebuilds_components() {
    let j = |base: &str, sub: &str| join_path(&base.to_string(), &sub.to_string(), PathStyle::Windows);
    assert_eq!(j(r"\\?\C:\Games\", "saves/./x.ron"), r"\\?\C:\Games\saves\x.ron");
    assert_eq!(j(r"\\?\C:\Games", "saves/x.ron"), r"\\?\C:\Games\saves\x.ron");
    assert_eq!(j(r"\\?\C:\", "x.ron"), r"\\?\C:\x.ron");
    assert_eq!(j(r"\\?\C:\Games\\", r"a\\b"), r"\\?\C:\Games\a\b");
    assert_eq!(j(r"\\?\UNC\server\share", "./x.ron"), r"\\?\UNC\server\share\x.ron");
    // Only a Windows path can be verbatim.
    let u = join_path(&r"\\?\C:\Games".to_string(), &"saves/x.ron".to_string(), PathStyle::Unix);
    assert_eq!(u, r"\\?\C:\Games/saves/x.ron");
}

#[test]
fn exe_relative_on_windows_joins_with_backslash() {
    let location = SaveLocation::ExeRelative("saves/settings.ron".to_string());
    let resolved = location
        .resolve(&Ok(Some(r"C:\Games\x".to_string())), PathStyle::Windows)
        .expect("exe dir is known");
    assert_eq!(resolved, r"C:\Games\x\saves/settings.ron");
}
