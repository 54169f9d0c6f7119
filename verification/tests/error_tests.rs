use rustow::error::{ConfigError, FsError, IgnoreError, IoKind, StowError};

#[test]
fn test_config_error_display() {
    let err = ConfigError::InvalidTargetDir("/invalid/path".to_string());
    assert_eq!(err.message(), "Invalid target directory: /invalid/path");
}

#[test]
fn test_stow_error_display() {
    let err = StowError::PackageNotFound("mypackage".to_string());
    assert_eq!(err.message(), "Package not found: mypackage");
}

#[test]
fn test_ignore_error_display() {
    let err = IgnoreError::InvalidPattern("*[invalid".to_string());
    assert_eq!(err.message(), "Invalid ignore pattern: *[invalid");
}

#[test]
fn test_fs_error_partial_eq() {
    let p1 = "/test/path1".to_string();
    let p2 = "/test/path2".to_string();
    let err_kind = IoKind::NotFound;

    assert_eq!(
        FsError::Io { path: p1.clone(), kind: err_kind },
        FsError::Io { path: p1.clone(), kind: err_kind }
    );
    assert_ne!(
        FsError::Io { path: p1.clone(), kind: err_kind },
        FsError::Io { path: p2.clone(), kind: err_kind }
    );
    assert_ne!(
        FsError::Io { path: p1.clone(), kind: err_kind },
        FsError::Io { path: p1.clone(), kind: IoKind::PermissionDenied }
    );

    assert_eq!(FsError::NotFound(p1.clone()), FsError::NotFound(p1.clone()));
    assert_ne!(FsError::NotFound(p1.clone()), FsError::NotFound(p2.clone()));

    assert_ne!(
        FsError::Io { path: p1.clone(), kind: err_kind },
        FsError::NotFound(p1.clone())
    );
}

#[test]
fn test_fs_error_path_accessor() {
    let err = FsError::CreateSymlink {
        link_path: "/link".to_string(),
        target_path: "/target".to_string(),
        kind: IoKind::PermissionDenied,
    };
    assert_eq!(err.path(), "/link");
}

#[test]
fn test_config_error_verbosity_message_spells_the_number() {
    let err = ConfigError::InvalidVerbosityLevel(42);
    assert_eq!(err.message(), "Invalid verbosity level: 42");
    let zero = ConfigError::InvalidVerbosityLevel(0);
    assert_eq!(zero.message(), "Invalid verbosity level: 0");
    let max = ConfigError::InvalidVerbosityLevel(255);
    assert_eq!(max.message(), "Invalid verbosity level: 255");
}

#[test]
fn test_stow_error_messages_cover_variants() {
    assert_eq!(
        StowError::Conflict("a clash".to_string()).message(),
        "Conflict detected: a clash"
    );
    assert_eq!(
        StowError::InvalidPackageStructure("odd".to_string()).message(),
        "Invalid package structure: odd"
    );
    assert_eq!(
        StowError::OperationFailed("why".to_string()).message(),
        "Operation failed: why"
    );
}
