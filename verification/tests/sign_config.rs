use apcert_util::sign_config_ini::{
    previous_cluster, sign_config_text, update_sign_config_text, SignConfigError,
};

fn groups(g: &[Option<&str>]) -> Option<Vec<Option<String>>> {
    Some(g.iter().map(|x| x.map(|s| s.to_string())).collect())
}

fn previous(name: &str) -> (String, String) {
    let u = update_sign_config_text("", name, "VE").unwrap();
    (u.previous.name, u.previous.prefix)
}

#[test]
fn previous_cluster_names() {
    assert_eq!(previous("CYS21P"), ("CYS20P".to_string(), "CYS".to_string()));
    assert_eq!(previous("BN4P"), ("BN3P".to_string(), "BN3".to_string()));
    assert_eq!(previous("BN01P"), ("BN00P".to_string(), "BN".to_string()));
    assert_eq!(previous("BN0P"), ("BN00P".to_string(), "BN00".to_string()));
    assert_eq!(previous("BN10P"), ("BN09P".to_string(), "BN0".to_string()));
    assert_eq!(previous("BN05P"), ("BN04P".to_string(), "BN0".to_string()));
    assert_eq!(previous("ABCP"), (String::new(), String::new()));
    assert_eq!(previous("12P"), (String::new(), String::new()));
}

#[test]
fn previous_cluster_errors() {
    assert_eq!(
        previous_cluster(&groups(&[Some("x"), Some("A")])).err(),
        Some(SignConfigError::MissingGroup)
    );
    assert_eq!(
        previous_cluster(&groups(&[Some("x"), Some("A"), Some("9999999999"), Some("P")])).err(),
        Some(SignConfigError::InvalidNumber)
    );
    assert_eq!(
        update_sign_config_text("", "AB99999999999P", "VE").err(),
        Some(SignConfigError::InvalidNumber)
    );
}

#[test]
fn previous_cluster_from_groups() {
    let p = previous_cluster(&groups(&[Some("x"), Some("AB"), Some("-3"), Some("P")])).unwrap();
    assert_eq!(p.name, "None");
    assert_eq!(p.prefix, "AB");
    let p = previous_cluster(&None).unwrap();
    assert_eq!(p.name, "");
}

#[test]
fn places_after_previous_cluster_line() {
    let contents = "[VE]\r\nVE-ROOT/Autopilot/ApPki-CYS20P=1\r\nVE-ROOT/Autopilot/ApPki-XYZ=1\r\n";
    let u = update_sign_config_text(contents, "CYS21P", "VE-ROOT/Autopilot/ApPki-CYS21P=1").unwrap();
    assert_eq!(
        u.content,
        Some(
            "[VE]\r\nVE-ROOT/Autopilot/ApPki-CYS20P=1\nVE-ROOT/Autopilot/ApPki-CYS21P=1\r\nVE-ROOT/Autopilot/ApPki-XYZ=1"
                .to_string()
        )
    );
}

#[test]
fn appends_when_no_previous_line() {
    let contents = "[VE]\nVE-ROOT/Autopilot/ApPki-XYZ=1";
    let u = sign_config_text(contents, "VE-ROOT/Autopilot/ApPki-NEW01P=1", "NEW00P");
    assert_eq!(
        u,
        Some("[VE]\r\nVE-ROOT/Autopilot/ApPki-XYZ=1\r\nVE-ROOT/Autopilot/ApPki-NEW01P=1".to_string())
    );
}

#[test]
fn already_registered_is_left_alone() {
    let contents = "VE-ROOT/Autopilot/ApPki-NEW01P=1\r\n";
    assert_eq!(sign_config_text(contents, "VE-ROOT/Autopilot/ApPki-NEW01P=1", "X"), None);
}

#[test]
fn second_update_changes_nothing() {
    let contents = "VE-ROOT/Autopilot/ApPki-AB1P=1";
    let first = sign_config_text(contents, "VE-ROOT/Autopilot/ApPki-AB2P=1", "AB1P").unwrap();
    assert!(first.contains("VE-ROOT/Autopilot/ApPki-AB2P=1"));
    assert_eq!(sign_config_text(&first, "VE-ROOT/Autopilot/ApPki-AB2P=1", "other"), None);
}

#[test]
fn empty_previous_name_matches_first_ve_root_line() {
    let contents = "X\r\nVE-ROOT/Autopilot/A=1\r\nVE-ROOT/Autopilot/B=1";
    let u = update_sign_config_text(contents, "NODIGITS", "VE-ROOT/Autopilot/N=1").unwrap();
    assert_eq!(
        u.content,
        Some("X\r\nVE-ROOT/Autopilot/A=1\nVE-ROOT/Autopilot/N=1\r\nVE-ROOT/Autopilot/B=1".to_string())
    );
}
