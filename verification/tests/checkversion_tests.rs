use std::cmp::Ordering;
use tondi_seeder::checkversion::VersionChecker;
use tondi_seeder::errors::TondiSeederError;

#[test]
fn test_version_comparison() {
    assert!(VersionChecker::check_version("1.0.0", "1.0.1").is_ok());
    assert!(VersionChecker::check_version("1.0.1", "1.0.0").is_err());
    assert!(VersionChecker::check_version("1.0.0", "1.0.0").is_ok());
}

#[test]
fn test_protocol_version_check() {
    assert!(VersionChecker::check_protocol_version(5, 4).is_ok());
    assert!(VersionChecker::check_protocol_version(3, 4).is_err());
    assert!(VersionChecker::check_protocol_version(5, 0).is_ok());
}

#[test]
fn test_semantic_version_comparison() {
    let result = VersionChecker::compare_semantic_versions("1.2.3", "1.2.4");
    assert!(result.is_ok());
    assert_eq!(result.unwrap(), Ordering::Less);

    let result = VersionChecker::compare_semantic_versions("2.0.0", "1.9.9");
    assert!(result.is_ok());
    assert_eq!(result.unwrap(), Ordering::Greater);
}

#[test]
fn version_missing_parts_count_as_zero() {
    assert_eq!(VersionChecker::compare_semantic_versions("1.2", "1.2.0").unwrap(), Ordering::Equal);
    assert_eq!(VersionChecker::compare_semantic_versions("1.2", "1.2.1").unwrap(), Ordering::Less);
    assert_eq!(VersionChecker::compare_semantic_versions("10.0", "9.99").unwrap(), Ordering::Greater);
}

#[test]
fn version_non_numeric_parts_are_dropped() {
    // "1.x.3" reads as [1, 3], "1.3" as [1, 3].
    assert_eq!(VersionChecker::compare_semantic_versions("1.x.3", "1.3").unwrap(), Ordering::Equal);
    assert_eq!(VersionChecker::compare_semantic_versions("+2", "2").unwrap(), Ordering::Equal);
}

#[test]
fn version_without_numbers_is_an_error() {
    match VersionChecker::compare_semantic_versions("abc", "1.0") {
        Err(TondiSeederError::Validation(m)) => assert_eq!(m, "Invalid version format"),
        other => panic!("unexpected {:?}", other),
    }
    // A version that cannot be compared is accepted.
    assert!(VersionChecker::check_version("abc", "1.0").is_ok());
    assert!(VersionChecker::check_version("", "0.0.1").is_ok());
    assert!(VersionChecker::check_version("1.0", "").is_ok());
}

#[test]
fn version_refusal_message() {
    match VersionChecker::check_version("1.0.1", "1.0.0") {
        Err(TondiSeederError::Validation(m)) => {
            assert_eq!(m, "User agent version 1.0.0 is below minimum required version 1.0.1")
        }
        other => panic!("unexpected {:?}", other),
    }
}

#[test]
fn protocol_version_bounds_and_messages() {
    assert!(VersionChecker::check_protocol_version(100, 4).is_ok());
    assert!(VersionChecker::check_protocol_version(4, 4).is_ok());
    match VersionChecker::check_protocol_version(101, 4) {
        Err(TondiSeederError::Validation(m)) => assert_eq!(m, "Protocol version 101 seems unreasonably high"),
        other => panic!("unexpected {:?}", other),
    }
    match VersionChecker::check_protocol_version(3, 7) {
        Err(TondiSeederError::Validation(m)) => {
            assert_eq!(m, "Protocol version 3 is below minimum required version 7")
        }
        other => panic!("unexpected {:?}", other),
    }
    // No minimum: anything goes, even an implausible version.
    assert!(VersionChecker::check_protocol_version(1000, 0).is_ok());
}

#[test]
fn error_messages() {
    assert_eq!(TondiSeederError::Dns("Not a query message".to_string()).message(), "DNS error: Not a query message");
    assert_eq!(TondiSeederError::InvalidPort(80).message(), "Invalid port number: 80");
    assert_eq!(
        TondiSeederError::InvalidConfigValue {
            field: "profile".to_string(),
            value: "x".to_string(),
            expected: "valid port number".to_string(),
        }
        .message(),
        "Invalid configuration value: profile = x, expected: valid port number"
    );
    let io = TondiSeederError::Io(std::io::Error::new(std::io::ErrorKind::Other, "disk full"));
    assert_eq!(io.message(), "IO error: disk full");
}
