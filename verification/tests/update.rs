use tarah::update::{parse_foreign_packages, UpdateDecision, UpdateProgress};

fn pairs(v: &[(&str, &str)]) -> Vec<(String, String)> {
    v.iter().map(|(a, b)| (a.to_string(), b.to_string())).collect()
}

#[test]
fn foreign_packages_are_read() {
    let listing = "yay 12.3.5-1\nparu-bin 2.0.3-1\n\nyay 12.4.0-1\n   \nlonely\n";
    assert_eq!(
        parse_foreign_packages(listing),
        pairs(&[("yay", "12.4.0-1"), ("paru-bin", "2.0.3-1"), ("", ""), ("lonely", "")])
    );
    assert_eq!(parse_foreign_packages(""), pairs(&[]));
}

#[test]
fn update_decisions() {
    let mut p = UpdateProgress::new();
    assert!(p.nothing_to_update());
    assert_eq!(p.record("yay", "1.0", Ok("1.0".to_string())), UpdateDecision::UpToDate);
    assert!(p.nothing_to_update());
    assert_eq!(
        p.record("paru", "1.0", Err("Version nut fundz".to_string())),
        UpdateDecision::LookupFailed("Faildz to get vershunz for packag paru: Version nut fundz".to_string())
    );
    assert!(p.nothing_to_update());
    assert_eq!(p.record("yay", "1.0", Ok("1.1".to_string())), UpdateDecision::Install);
    assert!(!p.nothing_to_update());
    assert_eq!(p.record("z", "2", Ok("2".to_string())), UpdateDecision::UpToDate);
    assert!(!p.nothing_to_update());
}
