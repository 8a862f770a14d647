use tarah::aur::{aur_git_url, aur_info_url, get_aur_version, version_in_reply, AurVersionError};
use tarah::json::Json;

#[test]
fn urls() {
    assert_eq!(aur_git_url("yay"), "https://aur.archlinux.org/yay.git");
    assert_eq!(aur_info_url("yay"), "https://aur.archlinux.org/rpc/v5/info/yay");
}

#[test]
fn version_is_read_from_the_first_result() {
    let body = r#"{"resultcount":2,"results":[{"Name":"yay","Version":"12.4.2-1"},{"Version":"0"}],"type":"multiinfo","version":5}"#;
    assert_eq!(get_aur_version(body.as_bytes()), Ok("12.4.2-1".to_string()));
}

#[test]
fn missing_versions() {
    assert_eq!(get_aur_version(r#"{"results":[]}"#.as_bytes()), Err(AurVersionError::VersionNotFound));
    assert_eq!(get_aur_version(r#"{"results":[{"Version":12}]}"#.as_bytes()), Err(AurVersionError::VersionNotFound));
    assert_eq!(get_aur_version(r#"{"results":{"Version":"1"}}"#.as_bytes()), Err(AurVersionError::VersionNotFound));
    assert_eq!(get_aur_version(r#"[{"results":[]}]"#.as_bytes()), Err(AurVersionError::VersionNotFound));
    assert_eq!(get_aur_version(r#"{"error":"Incorrect request type specified."}"#.as_bytes()), Err(AurVersionError::VersionNotFound));
}

#[test]
fn malformed_reply() {
    assert_eq!(get_aur_version(b"<html>"), Err(AurVersionError::Malformed));
    assert_eq!(get_aur_version(b""), Err(AurVersionError::Malformed));
    assert_eq!(AurVersionError::Malformed.message(), "error decoding response body");
    assert_eq!(AurVersionError::VersionNotFound.message(), "Version nut fundz");
}

#[test]
fn version_in_plain_reply() {
    let reply = Json::Object(vec![(
        "results".to_string(),
        Json::Array(vec![Json::Object(vec![
            ("Name".to_string(), Json::Str("x".to_string())),
            ("Version".to_string(), Json::Str("1.0-2".to_string())),
        ])]),
    )]);
    assert_eq!(version_in_reply(&reply), Some("1.0-2".to_string()));
    assert_eq!(version_in_reply(&Json::Null), None);
}

#[test]
fn reply_that_is_not_utf8_is_malformed() {
    assert_eq!(get_aur_version(&[b'{', 0xff, b'}']), Err(AurVersionError::Malformed));
}
