use apcert_util::get_ini_section::{find_ini_section, run};
use apcert_util::get_island::{
    ap_classic, classify_island, find_island, run as island_run, find_nat_cloud_island, publicpf_fn, try_find_island,
    xbox_pf, Archipelago,
};

#[test]
fn ini_sections_of_the_six_islands() {
    assert_eq!(find_ini_section("PublicPilotfish"), "PilotfishAll");
    assert_eq!(find_ini_section("FairFax"), "FairfaxAll");
    assert_eq!(find_ini_section("FairFaxDod"), "FairfaxDodAll");
    assert_eq!(find_ini_section("USNat"), "USNatAll");
    assert_eq!(find_ini_section("USSec"), "USSecAll");
    assert_eq!(find_ini_section("Mooncake"), "MooncakeAll");
}

#[test]
fn islands_without_ini_section() {
    assert_eq!(run("Xbox"), None);
    assert_eq!(run("ApClassic"), None);
    assert_eq!(run("BlackForest"), None);
    assert_eq!(run("publicpilotfish"), None);
    assert_eq!(run(""), None);
}

#[test]
fn island_names() {
    assert_eq!(Archipelago::PublicPilotfish.to_string(), "PublicPilotfish");
    assert_eq!(Archipelago::Xbox.to_string(), "Xbox");
    assert_eq!(Archipelago::ApClassic.to_string(), "ApClassic");
    assert_eq!(Archipelago::FairFax.to_string(), "FairFax");
    assert_eq!(Archipelago::FairFaxDod.to_string(), "FairFaxDod");
    assert_eq!(Archipelago::USNat.to_string(), "USNat");
    assert_eq!(Archipelago::USSec.to_string(), "USSec");
    assert_eq!(Archipelago::BlackForest.to_string(), "BlackForest");
    assert_eq!(Archipelago::Mooncake.to_string(), "Mooncake");
    assert_eq!(Archipelago::NotFound.to_string(), "No Island Found.");
}

#[test]
fn clusters_ending_in_p_are_public_pilotfish() {
    assert_eq!(find_island("DM2P".to_string()), "PublicPilotfish");
    assert_eq!(find_island("cluster01p".to_string()), "PublicPilotfish");
    assert_eq!(try_find_island("BN4P".to_string()), Some("PublicPilotfish".to_string()));
}

#[test]
fn listed_public_pilotfish_clusters() {
    assert!(publicpf_fn("STG01S"));
    assert!(publicpf_fn("BN4Q"));
    assert!(!publicpf_fn("stg01s"));
    assert_eq!(find_island("ZZZ00Z".to_string()), "PublicPilotfish");
}

#[test]
fn national_cloud_suffixes() {
    assert_eq!(find_nat_cloud_island("BN01FGN"), Some(Archipelago::FairFax));
    assert_eq!(find_nat_cloud_island("AAA01FDN"), Some(Archipelago::FairFaxDod));
    assert_eq!(find_nat_cloud_island("AAA01EXN"), Some(Archipelago::USNat));
    assert_eq!(find_nat_cloud_island("AAA01RXN"), Some(Archipelago::USSec));
    assert_eq!(find_nat_cloud_island("AAA01BFN"), Some(Archipelago::BlackForest));
    assert_eq!(find_nat_cloud_island("AAA01MCN"), Some(Archipelago::Mooncake));
    assert_eq!(find_nat_cloud_island("AAA01ZZN"), None);
}

#[test]
fn national_cloud_legacy_names() {
    assert_eq!(find_nat_cloud_island("BN1N"), Some(Archipelago::FairFax));
    assert_eq!(find_nat_cloud_island("DM3N"), Some(Archipelago::FairFaxDod));
    assert_eq!(find_nat_cloud_island("RED01N"), Some(Archipelago::USNat));
    assert_eq!(find_nat_cloud_island("CYX01N"), Some(Archipelago::USSec));
    assert_eq!(find_nat_cloud_island("LG1N"), Some(Archipelago::BlackForest));
    assert_eq!(find_nat_cloud_island("SHA01N"), Some(Archipelago::Mooncake));
    assert_eq!(find_island("BJS01N".to_string()), "Mooncake");
}

#[test]
fn national_cloud_lookup_uses_uppercase_last_char() {
    // "bn1n" ends in 'n', whose uppercase is 'N', but the listed names are
    // compared as given, so no island is found.
    assert_eq!(try_find_island("bn1n".to_string()), None);
    assert_eq!(try_find_island("xx01fgn".to_string()), None);
    assert_eq!(try_find_island("XX01FGN".to_string()), Some("FairFax".to_string()));
}

#[test]
fn xbox_and_ap_classic_clusters() {
    assert!(xbox_pf("CY1PPE"));
    assert!(!xbox_pf("CY1ppe"));
    assert!(ap_classic("co3c"));
    assert!(ap_classic("ApSingleBox"));
    assert!(!ap_classic("CO3C"));
    assert_eq!(find_island("BN1Lab".to_string()), "Xbox");
    assert_eq!(find_island("Ch1b".to_string()), "ApClassic");
}

#[test]
fn unknown_clusters_have_no_island() {
    assert_eq!(try_find_island("ABC01X".to_string()), None);
    assert_eq!(try_find_island(String::new()), None);
    // A name ending in N that is no national-cloud name is not looked up
    // among the other lists.
    assert_eq!(classify_island("CO1Prod", 'N'), None);
    assert_eq!(classify_island("CO1Prod", 'D'), Some(Archipelago::Xbox));
    assert_eq!(classify_island("anything", 'p'), Some(Archipelago::PublicPilotfish));
}

#[test]
fn island_lookup() {
    assert_eq!(island_run("BN1N".to_string()), Some(Archipelago::FairFax));
    assert_eq!(island_run("QQQ".to_string()), None);
    assert_eq!(island_run("\u{df}".to_string()), None);
    assert_eq!(island_run("stg01\u{e9}p".to_string()), Some(Archipelago::PublicPilotfish));
}
