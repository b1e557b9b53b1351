use apcert_util::mk_ini_manager::{key_ring_plan, update_key_rings, KeyRingError, MAX_CLUSTERS_PER_LINE};

fn content(lines: &[&str]) -> String {
    lines.join("\r\n")
}

#[test]
fn joins_key_ring_with_room() {
    let input = content(&[
        "[Keys]",
        "PilotfishAll=AAA01P",
        "Autopilot_Internal_Pilotfish_1=AAA01P,BBB01P,CCC01P,DDD01P,EEE01P",
        "Autopilot_Internal_Pilotfish_2=FFF01P,GGG01P",
        "Other=1",
    ]);
    let u = update_key_rings(&input, "PilotfishAll", "NEW01P", 1).unwrap();
    assert_eq!(
        u.content,
        content(&[
            "[Keys]",
            "PilotfishAll=AAA01P,NEW01P",
            "Autopilot_Internal_Pilotfish_1=AAA01P,BBB01P,CCC01P,DDD01P,EEE01P",
            "Autopilot_Internal_Pilotfish_2=FFF01P,GGG01P,NEW01P",
            "Other=1",
        ])
    );
    assert_eq!(
        u.added,
        Some(("Autopilot_Internal_Pilotfish_2".to_string(), "FFF01P".to_string()))
    );
    assert!(!u.found_home);
}

#[test]
fn adds_new_key_ring_after_full_ones() {
    let input = content(&[
        "PilotfishAll=AAA01P",
        "Autopilot_Internal_Pilotfish_3=A,B,C,D,E",
        "",
        "Autopilot_Internal_Pilotfish_7 = F,G,H,I,J",
        "Other=1",
    ]);
    let u = update_key_rings(&input, "PilotfishAll", "NEW01P", 1).unwrap();
    assert_eq!(
        u.content,
        content(&[
            "PilotfishAll=AAA01P,NEW01P",
            "Autopilot_Internal_Pilotfish_3=A,B,C,D,E",
            "",
            "Autopilot_Internal_Pilotfish_7 = F,G,H,I,J",
            "Autopilot_Internal_Pilotfish_8=DM2P,NEW01P",
            "Other=1",
        ])
    );
    assert_eq!(
        u.added,
        Some(("Autopilot_Internal_Pilotfish_8".to_string(), "DM2P".to_string()))
    );
}

#[test]
fn room_must_hold_all_clusters_still_to_come() {
    let input = content(&["Autopilot_Internal_Fairfax_1=BN1N,SN5N,CY01N", "X=1"]);
    let u = update_key_rings(&input, "FairfaxAll", "AAA01FGN", 3).unwrap();
    assert_eq!(
        u.content,
        content(&[
            "Autopilot_Internal_Fairfax_1=BN1N,SN5N,CY01N",
            "Autopilot_Internal_Fairfax_2=BN1N,AAA01FGN",
            "X=1",
        ])
    );
    let u = update_key_rings(&input, "FairfaxAll", "AAA01FGN", 2).unwrap();
    assert_eq!(
        u.content,
        content(&["Autopilot_Internal_Fairfax_1=BN1N,SN5N,CY01N,AAA01FGN", "X=1"])
    );
    assert_eq!(MAX_CLUSTERS_PER_LINE, 5);
}

#[test]
fn key_ring_at_end_of_file() {
    let input = content(&["Autopilot_Internal_Mooncake_4=A,B,C,D,E"]);
    let u = update_key_rings(&input, "MooncakeAll", "ZZZ01MCN", 1).unwrap();
    assert_eq!(
        u.content,
        content(&["Autopilot_Internal_Mooncake_4=A,B,C,D,E", "Autopilot_Internal_Mooncake_5=BJ1N,ZZZ01MCN"])
    );
}

#[test]
fn cluster_already_in_key_ring() {
    let input = content(&["Autopilot_Internal_USNat_1=GRN01N,NEW01EXN", "X=1"]);
    let u = update_key_rings(&input, "USNatAll", "NEW01EXN", 1).unwrap();
    assert_eq!(u.added, None);
    assert!(u.found_home);
    assert_eq!(u.content, input);
}

#[test]
fn no_key_ring_lines() {
    let input = content(&["A=1", "B=2"]);
    let u = update_key_rings(&input, "USSecAll", "NEW01RXN", 1).unwrap();
    assert_eq!(u.added, None);
    assert!(!u.found_home);
    // Past the last line an empty line is written while no key ring was seen.
    assert_eq!(u.content, "A=1\r\nB=2\r\n");
}

#[test]
fn lf_line_endings_become_crlf() {
    let input = "PilotfishAll=X\nAutopilot_Internal_Pilotfish_1=A\nZ\n";
    let u = update_key_rings(input, "PilotfishAll", "NEW01P", 1).unwrap();
    assert_eq!(
        u.content,
        "PilotfishAll=X,NEW01P\r\nAutopilot_Internal_Pilotfish_1=A,NEW01P\r\nZ"
    );
}

#[test]
fn section_line_without_value() {
    let input = content(&["PilotfishAll", "Autopilot_Internal_Pilotfish_1=A"]);
    assert_eq!(
        update_key_rings(&input, "PilotfishAll", "NEW01P", 1).err(),
        Some(KeyRingError::SectionLineWithoutValue)
    );
}

#[test]
fn empty_key_ring_has_no_donor() {
    let input = content(&["Autopilot_Internal_Pilotfish_1=", "X"]);
    assert_eq!(
        update_key_rings(&input, "PilotfishAll", "NEW01P", 1).err(),
        Some(KeyRingError::EmptyKeyRing)
    );
}

#[test]
fn key_ring_number_too_large() {
    let input = content(&["Autopilot_Internal_Pilotfish_99999999999999999999999=A", "X"]);
    assert_eq!(
        update_key_rings(&input, "PilotfishAll", "NEW01P", 1).err(),
        Some(KeyRingError::InvalidGroupNumber)
    );
}

fn groups(g: &[Option<&str>]) -> Option<Vec<Option<String>>> {
    Some(g.iter().map(|x| x.map(|s| s.to_string())).collect())
}

#[test]
fn plan_from_given_matches() {
    let lines = vec!["K_1=A,B".to_string(), "tail".to_string()];
    let matches = vec![groups(&[Some("K_1=A,B"), Some("K_1"), Some("1"), Some("A,B")]), None];
    let u = key_ring_plan(&lines, &matches, "PilotfishAll", "NEW", 1).unwrap();
    assert_eq!(u.content, "K_1=A,B,NEW\r\ntail");
    assert_eq!(u.added, Some(("K_1".to_string(), "A".to_string())));
}

#[test]
fn plan_errors_from_given_matches() {
    let lines = vec!["K".to_string(), "tail".to_string()];
    let missing = vec![groups(&[Some("K"), Some("K")]), None];
    assert_eq!(
        key_ring_plan(&lines, &missing, "PilotfishAll", "NEW", 1).err(),
        Some(KeyRingError::MissingGroup)
    );
    let not_number = vec![groups(&[Some("K"), Some("K"), Some("x1"), Some("A")]), None];
    assert_eq!(
        key_ring_plan(&lines, &not_number, "PilotfishAll", "NEW", 1).err(),
        Some(KeyRingError::InvalidGroupNumber)
    );
    let max = usize::MAX.to_string();
    let full = vec![
        groups(&[Some("K"), Some("K"), Some(max.as_str()), Some("A,B,C,D,E")]),
        None,
    ];
    assert_eq!(
        key_ring_plan(&lines, &full, "PilotfishAll", "NEW", 1).err(),
        Some(KeyRingError::GroupNumberOverflow)
    );
}

#[test]
fn joined_key_ring_reaches_five() {
    let input = content(&["Autopilot_Internal_USSec_1=A, B,C,D", "X"]);
    let u = update_key_rings(&input, "USSecAll", "NEW01RXN", 1).unwrap();
    assert_eq!(u.content, content(&["Autopilot_Internal_USSec_1=A, B,C,D,NEW01RXN", "X"]));
    assert_eq!(u.added, Some(("Autopilot_Internal_USSec_1".to_string(), "A".to_string())));
    let full = content(&["Autopilot_Internal_USSec_1=A, B,C,D,E", "X"]);
    let u = update_key_rings(&full, "USSecAll", "NEW01RXN", 1).unwrap();
    assert_eq!(
        u.content,
        content(&["Autopilot_Internal_USSec_1=A, B,C,D,E", "Autopilot_Internal_USSec_2=SAT01N,NEW01RXN", "X"])
    );
}
