//! The island (cloud) that a cluster belongs to, decided from its name.
//!
//! National-cloud clusters follow the naming pattern `aaannXYZ`, where the
//! suffix names the island; clusters named before that convention are
//! listed by name.

use vstd::prelude::*;
use crate::text::{all_ascii, ascii_upper_char, chars_of, ends_with, ends_with_exec, str_eq, to_uppercase, uppercase};

verus! {

/// The islands.
#[derive(Debug, Eq, PartialEq, Structural)]
pub enum Archipelago {
    PublicPilotfish,
    Xbox,
    ApClassic,
    FairFax,
    FairFaxDod,
    USNat,
    USSec,
    BlackForest,
    Mooncake,
    NotFound,
}

/// The text that names each island.
pub open spec fn archipelago_name(a: Archipelago) -> Seq<char> {
    match a {
        Archipelago::PublicPilotfish => "PublicPilotfish"@,
        Archipelago::Xbox => "Xbox"@,
        Archipelago::ApClassic => "ApClassic"@,
        Archipelago::FairFax => "FairFax"@,
        Archipelago::FairFaxDod => "FairFaxDod"@,
        Archipelago::USNat => "USNat"@,
        Archipelago::USSec => "USSec"@,
        Archipelago::BlackForest => "BlackForest"@,
        Archipelago::Mooncake => "Mooncake"@,
        Archipelago::NotFound => "No Island Found."@,
    }
}

impl Archipelago {
    /// The name of the island.
    pub fn to_string(&self) -> (s: String)
        ensures
            s@ == archipelago_name(*self),
    {
        match self {
            Archipelago::PublicPilotfish => "PublicPilotfish".to_string(),
            Archipelago::Xbox => "Xbox".to_string(),
            Archipelago::ApClassic => "ApClassic".to_string(),
            Archipelago::FairFax => "FairFax".to_string(),
            Archipelago::FairFaxDod => "FairFaxDod".to_string(),
            Archipelago::USNat => "USNat".to_string(),
            Archipelago::USSec => "USSec".to_string(),
            Archipelago::BlackForest => "BlackForest".to_string(),
            Archipelago::Mooncake => "Mooncake".to_string(),
            Archipelago::NotFound => "No Island Found.".to_string(),
        }
    }
}

/// The views of a list of string literals.
pub open spec fn views(list: Seq<&str>) -> Seq<Seq<char>> {
    list.map_values(|s: &str| s@)
}

/// Whether `name` is one of `list`.
fn listed(list: &Vec<&str>, name: &str) -> (r: bool)
    ensures
        r == views(list@).contains(name@),
{
    let mut i: usize = 0;
    while i < list.len()
        invariant
            i <= list.len(),
            forall|k: int| 0 <= k < i ==> list@[k]@ != name@,
        decreases list.len() - i,
    {
        if str_eq(list[i], name) {
            assert(views(list@)[i as int] == name@);
            return true;
        }
        i = i + 1;
    }
    assert forall|k: int| 0 <= k < views(list@).len() implies views(list@)[k] != name@ by {
        assert(views(list@)[k] == list@[k]@);
    }
    false
}

/// Public Pilotfish clusters whose names do not end in `P`.
pub open spec fn public_pilotfish_names() -> Seq<Seq<char>> {
    seq!["STG01S"@, "STG02S"@, "STG03S"@, "BNZ02C"@, "CBN03C"@, "ZZZ00Z"@, "BN4Q"@]
}

/// The Xbox clusters.
pub open spec fn xbox_names() -> Seq<Seq<char>> {
    seq!["BN1Lab"@, "BN1Prod"@, "CO1Prod"@, "CO1bProd"@, "CY1Prod"@, "CY1PPE"@]
}

/// The ApClassic clusters (complete: no new ones are created).
pub open spec fn ap_classic_names() -> Seq<Seq<char>> {
    seq![
        "BJ1"@, "Bn1"@, "Bn2"@, "BN2B"@, "CH01"@, "Ch1"@, "Ch1b"@, "Ch1d"@, "Co3"@, "Co3b"@,
        "co3c"@, "CO4"@, "CO4C"@, "cy2"@, "CY2B"@, "CY4"@, "Db3"@, "Db4"@, "db5"@, "DM3"@,
        "HK2"@, "MW1"@, "Sg1"@, "Sn2"@, "MWH01"@, "HKG01"@, "DUB01"@, "BN01"@, "CHI02"@,
        "CO01"@, "DUB02"@, "BJS01"@, "CY2Test01"@, "CY2Test02"@, "CY2Test03"@, "BLDEV01"@,
        "BNZE01"@, "CHIE01"@, "CYSE01"@, "DSME01"@, "DUBE01"@, "HKGE01"@, "MWHE01"@,
        "PUSE01"@, "SATE01"@, "BN4C"@, "CO1C"@, "DM2C"@, "ApSingleBox"@,
    ]
}

/// Whether `cluster_name` is a Public Pilotfish cluster listed by name.
pub fn publicpf_fn(cluster_name: &str) -> (r: bool)
    ensures
        r == public_pilotfish_names().contains(cluster_name@),
{
    let publicpf_clusters: Vec<&str> = vec![
        "STG01S", "STG02S", "STG03S", "BNZ02C", "CBN03C", "ZZZ00Z", "BN4Q",
    ];
    assert(views(publicpf_clusters@) =~= public_pilotfish_names());
    listed(&publicpf_clusters, cluster_name)
}


/// Whether `cluster_name` is an Xbox cluster.
pub fn xbox_pf(cluster_name: &str) -> (r: bool)
    ensures
        r == xbox_names().contains(cluster_name@),
{
    let xbox_clusters: Vec<&str> = vec![
        "BN1Lab", "BN1Prod", "CO1Prod", "CO1bProd", "CY1Prod", "CY1PPE",
    ];
    assert(views(xbox_clusters@) =~= xbox_names());
    listed(&xbox_clusters, cluster_name)
}

/// Whether `cluster_name` is an ApClassic cluster.
pub fn ap_classic(cluster_name: &str) -> (r: bool)
    ensures
        r == ap_classic_names().contains(cluster_name@),
{
    let ap_classic_clusters: Vec<&str> = vec![
        "BJ1",
        "Bn1",
        "Bn2",
        "BN2B",
        "CH01",
        "Ch1",
        "Ch1b",
        "Ch1d",
        "Co3",
        "Co3b",
        "co3c",
        "CO4",
        "CO4C",
        "cy2",
        "CY2B",
        "CY4",
        "Db3",
        "Db4",
        "db5",
        "DM3",
        "HK2",
        "MW1",
        "Sg1",
        "Sn2",
        "MWH01",
        "HKG01",
        "DUB01",
        "BN01",
        "CHI02",
        "CO01",
        "DUB02",
        "BJS01",
        "CY2Test01",
        "CY2Test02",
        "CY2Test03",
        "BLDEV01",
        "BNZE01",
        "CHIE01",
        "CYSE01",
        "DSME01",
        "DUBE01",
        "HKGE01",
        "MWHE01",
        "PUSE01",
        "SATE01",
        "BN4C",
        "CO1C",
        "DM2C",
        "ApSingleBox",
    ];
    assert(views(ap_classic_clusters@) =~= ap_classic_names());
    listed(&ap_classic_clusters, cluster_name)
}

/// The island of a national-cloud cluster (a name ending in `N`): by the
/// suffix of the naming convention, else by the names that predate it.
pub open spec fn nat_cloud_island(v: Seq<char>) -> Option<Archipelago> {
    if ends_with(v, "FGN"@) {
        Some(Archipelago::FairFax)
    } else if seq!["BN1N"@, "SN5N"@, "CY01N"@, "PHX01N"@, "DM2N"@, "BGZ01N"@, "BNZ02N"@].contains(v) {
        Some(Archipelago::FairFax)
    } else if ends_with(v, "FDN"@) {
        Some(Archipelago::FairFaxDod)
    } else if seq!["BN3N"@, "DM3N"@].contains(v) {
        Some(Archipelago::FairFaxDod)
    } else if ends_with(v, "EXN"@) {
        Some(Archipelago::USNat)
    } else if seq!["GRN01N"@, "RED01N"@].contains(v) {
        Some(Archipelago::USNat)
    } else if ends_with(v, "RXN"@) {
        Some(Archipelago::USSec)
    } else if seq!["MNZ01N"@, "SAT01N"@, "CYX01N"@].contains(v) {
        Some(Archipelago::USSec)
    } else if ends_with(v, "BFN"@) {
        Some(Archipelago::BlackForest)
    } else if seq!["FR1N"@, "LG1N"@].contains(v) {
        Some(Archipelago::BlackForest)
    } else if ends_with(v, "MCN"@) {
        Some(Archipelago::Mooncake)
    } else if seq!["BJ1N"@, "SH1N"@, "BJS01N"@, "SHA01N"@].contains(v) {
        Some(Archipelago::Mooncake)
    } else {
        None
    }
}

/// Whether `v` ends with `suffix`.
fn has_suffix(v: &str, suffix: &str) -> (r: bool)
    ensures
        r == ends_with(v@, suffix@),
{
    let a = chars_of(v);
    let b = chars_of(suffix);
    ends_with_exec(&a, &b)
}

/// Whether `v` is one of the names in `list`.
fn named(v: &str, list: Vec<&str>) -> (r: bool)
    ensures
        r == views(list@).contains(v@),
{
    listed(&list, v)
}

/// The island of a national-cloud cluster.
pub fn find_nat_cloud_island(val: &str) -> (r: Option<Archipelago>)
    ensures
        r == nat_cloud_island(val@),
{
    proof {
        assert(views(seq!["BN1N", "SN5N", "CY01N", "PHX01N", "DM2N", "BGZ01N", "BNZ02N"])
            =~= seq!["BN1N"@, "SN5N"@, "CY01N"@, "PHX01N"@, "DM2N"@, "BGZ01N"@, "BNZ02N"@]);
        assert(views(seq!["BN3N", "DM3N"]) =~= seq!["BN3N"@, "DM3N"@]);
        assert(views(seq!["GRN01N", "RED01N"]) =~= seq!["GRN01N"@, "RED01N"@]);
        assert(views(seq!["MNZ01N", "SAT01N", "CYX01N"]) =~= seq!["MNZ01N"@, "SAT01N"@, "CYX01N"@]);
        assert(views(seq!["FR1N", "LG1N"]) =~= seq!["FR1N"@, "LG1N"@]);
        assert(views(seq!["BJ1N", "SH1N", "BJS01N", "SHA01N"]) =~= seq!["BJ1N"@, "SH1N"@, "BJS01N"@, "SHA01N"@]);
    }
    if has_suffix(val, "FGN") {
        Some(Archipelago::FairFax)
    } else if named(val, vec!["BN1N", "SN5N", "CY01N", "PHX01N", "DM2N", "BGZ01N", "BNZ02N"]) {
        Some(Archipelago::FairFax)
    } else if has_suffix(val, "FDN") {
        Some(Archipelago::FairFaxDod)
    } else if named(val, vec!["BN3N", "DM3N"]) {
        Some(Archipelago::FairFaxDod)
    } else if has_suffix(val, "EXN") {
        Some(Archipelago::USNat)
    } else if named(val, vec!["GRN01N", "RED01N"]) {
        Some(Archipelago::USNat)
    } else if has_suffix(val, "RXN") {
        Some(Archipelago::USSec)
    } else if named(val, vec!["MNZ01N", "SAT01N", "CYX01N"]) {
        Some(Archipelago::USSec)
    } else if has_suffix(val, "BFN") {
        Some(Archipelago::BlackForest)
    } else if named(val, vec!["FR1N", "LG1N"]) {
        // Deprecated by end of 2020.
        Some(Archipelago::BlackForest)
    } else if has_suffix(val, "MCN") {
        Some(Archipelago::Mooncake)
    } else if named(val, vec!["BJ1N", "SH1N", "BJS01N", "SHA01N"]) {
        Some(Archipelago::Mooncake)
    } else {
        None
    }
}

/// The island of `name`, given the last character of its uppercase form:
/// names ending in `P` are Public Pilotfish, so are a few listed by name;
/// names ending in `N` are national-cloud clusters; then come the Xbox and
/// the ApClassic clusters.
pub open spec fn classify(name: Seq<char>, upper_last: char) -> Option<Archipelago> {
    if upper_last == 'P' || upper_last == 'p' {
        Some(Archipelago::PublicPilotfish)
    } else if public_pilotfish_names().contains(name) {
        Some(Archipelago::PublicPilotfish)
    } else if upper_last == 'N' {
        nat_cloud_island(name)
    } else if xbox_names().contains(name) {
        Some(Archipelago::Xbox)
    } else if ap_classic_names().contains(name) {
        Some(Archipelago::ApClassic)
    } else {
        None
    }
}

/// The island of `name`, decided from the last character of its uppercase
/// form and from the name itself; `None` where there is none. An empty name
/// has no last character and no island.
pub open spec fn island_of(name: Seq<char>) -> Option<Archipelago> {
    if name.len() == 0 {
        None
    } else {
        classify(name, uppercase(name).last())
    }
}

/// The island of `cluster_name`, given the last character of the name in
/// uppercase.
pub fn classify_island(cluster_name: &str, upper_last: char) -> (r: Option<Archipelago>)
    ensures
        r == classify(cluster_name@, upper_last),
{
    if upper_last == 'P' || upper_last == 'p' {
        Some(Archipelago::PublicPilotfish)
    } else if publicpf_fn(cluster_name) {
        Some(Archipelago::PublicPilotfish)
    } else if upper_last == 'N' {
        find_nat_cloud_island(cluster_name)
    } else if xbox_pf(cluster_name) {
        Some(Archipelago::Xbox)
    } else if ap_classic(cluster_name) {
        Some(Archipelago::ApClassic)
    } else {
        None
    }
}

/// The last character of the uppercase form of `cluster_name`, if any.
fn upper_last_char(cluster_name: &str) -> (r: Option<char>)
    ensures
        r matches Some(c) ==> uppercase(cluster_name@).len() > 0 && c == uppercase(
            cluster_name@,
        ).last(),
        r is None ==> uppercase(cluster_name@).len() == 0,
        cluster_name@.len() > 0 ==> r is Some,
        all_ascii(cluster_name@) && cluster_name@.len() > 0 ==> r == Some(
            ascii_upper_char(cluster_name@.last()),
        ),
{
    let up = to_uppercase(cluster_name);
    let chars = chars_of(up.as_str());
    if chars.len() == 0 {
        None
    } else {
        Some(chars[chars.len() - 1])
    }
}

/// The island of `cluster_name`.
pub fn run(cluster_name: String) -> (r: Option<Archipelago>)
    requires
        cluster_name@.len() > 0,
    ensures
        r == island_of(cluster_name@),
{
    match upper_last_char(cluster_name.as_str()) {
        Some(last_char) => classify_island(cluster_name.as_str(), last_char),
        None => None,
    }
}

/// No cluster name is classified as the not-found marker: a name without an
/// island gives `None`.
pub proof fn lemma_island_never_not_found(name: Seq<char>)
    ensures
        island_of(name) != Some(Archipelago::NotFound),
{
}

/// The clusters named before the national-cloud naming convention keep
/// their islands: each of them, classified as a name ending in `N`, is in
/// the island that the cluster was created in (Fairfax: BN1N, SN5N, CY01N,
/// PHX01N, DM2N, BGZ01N, BNZ02N; Fairfax DoD: BN3N, DM3N; USNat: GRN01N,
/// RED01N; USSec: MNZ01N, SAT01N, CYX01N; Black Forest: FR1N, LG1N;
/// Mooncake: BJ1N, SH1N, BJS01N, SHA01N).
pub proof fn lemma_legacy_national_clusters()
    ensures
        classify("BN1N"@, 'N') == Some(Archipelago::FairFax),
        classify("SN5N"@, 'N') == Some(Archipelago::FairFax),
        classify("CY01N"@, 'N') == Some(Archipelago::FairFax),
        classify("PHX01N"@, 'N') == Some(Archipelago::FairFax),
        classify("DM2N"@, 'N') == Some(Archipelago::FairFax),
        classify("BGZ01N"@, 'N') == Some(Archipelago::FairFax),
        classify("BNZ02N"@, 'N') == Some(Archipelago::FairFax),
        classify("BN3N"@, 'N') == Some(Archipelago::FairFaxDod),
        classify("DM3N"@, 'N') == Some(Archipelago::FairFaxDod),
        classify("GRN01N"@, 'N') == Some(Archipelago::USNat),
        classify("RED01N"@, 'N') == Some(Archipelago::USNat),
        classify("MNZ01N"@, 'N') == Some(Archipelago::USSec),
        classify("SAT01N"@, 'N') == Some(Archipelago::USSec),
        classify("CYX01N"@, 'N') == Some(Archipelago::USSec),
        classify("FR1N"@, 'N') == Some(Archipelago::BlackForest),
        classify("LG1N"@, 'N') == Some(Archipelago::BlackForest),
        classify("BJ1N"@, 'N') == Some(Archipelago::Mooncake),
        classify("SH1N"@, 'N') == Some(Archipelago::Mooncake),
        classify("BJS01N"@, 'N') == Some(Archipelago::Mooncake),
        classify("SHA01N"@, 'N') == Some(Archipelago::Mooncake),
{
    lemma_legacy_fairfax();
    lemma_legacy_fairfax_dod();
    lemma_legacy_us_gov();
    lemma_legacy_black_forest_mooncake();
}

/// A name whose last character is not that of any Public Pilotfish name
/// listed by name (`S`, `C`, `Z`, `Q`) is not one of them.
proof fn lemma_not_public_pilotfish_name(v: Seq<char>)
    requires
        v.len() > 0,
        v.last() != 'S' && v.last() != 'C' && v.last() != 'Z' && v.last() != 'Q',
    ensures
        !public_pilotfish_names().contains(v),
{
    reveal_strlit("STG01S");
    reveal_strlit("STG02S");
    reveal_strlit("STG03S");
    reveal_strlit("BNZ02C");
    reveal_strlit("CBN03C");
    reveal_strlit("ZZZ00Z");
    reveal_strlit("BN4Q");
    let l = public_pilotfish_names();
    if l.contains(v) {
        let k = choose|k: int| 0 <= k < l.len() && l[k] == v;
        if k == 0 {
            assert(l[0].last() == 'S');
        } else if k == 1 {
            assert(l[1].last() == 'S');
        } else if k == 2 {
            assert(l[2].last() == 'S');
        } else if k == 3 {
            assert(l[3].last() == 'C');
        } else if k == 4 {
            assert(l[4].last() == 'C');
        } else if k == 5 {
            assert(l[5].last() == 'Z');
        } else {
            assert(l[6].last() == 'Q');
        }
    }
}

/// The suffix of the naming convention, revealed.
proof fn reveal_suffixes()
    ensures
        "FGN"@ == seq!['F', 'G', 'N'],
        "FDN"@ == seq!['F', 'D', 'N'],
        "EXN"@ == seq!['E', 'X', 'N'],
        "RXN"@ == seq!['R', 'X', 'N'],
        "BFN"@ == seq!['B', 'F', 'N'],
        "MCN"@ == seq!['M', 'C', 'N'],
{
    reveal_strlit("FGN");
    reveal_strlit("FDN");
    reveal_strlit("EXN");
    reveal_strlit("RXN");
    reveal_strlit("BFN");
    reveal_strlit("MCN");
    assert("FGN"@ =~= seq!['F', 'G', 'N']);
    assert("FDN"@ =~= seq!['F', 'D', 'N']);
    assert("EXN"@ =~= seq!['E', 'X', 'N']);
    assert("RXN"@ =~= seq!['R', 'X', 'N']);
    assert("BFN"@ =~= seq!['B', 'F', 'N']);
    assert("MCN"@ =~= seq!['M', 'C', 'N']);
}

/// A name whose last character but one is a digit ends with none of the
/// suffixes of the naming convention.
proof fn lemma_no_convention_suffix(v: Seq<char>)
    requires
        v.len() >= 2,
        '0' <= v[v.len() - 2] <= '9',
    ensures
        !ends_with(v, "FGN"@),
        !ends_with(v, "FDN"@),
        !ends_with(v, "EXN"@),
        !ends_with(v, "RXN"@),
        !ends_with(v, "BFN"@),
        !ends_with(v, "MCN"@),
{
    reveal_suffixes();
    assert forall|p: Seq<char>| p.len() == 3 && !('0' <= p[1] <= '9') implies !ends_with(v, p) by {
        if ends_with(v, p) {
            assert(v.subrange(v.len() - 3, v.len() as int)[1] == v[v.len() - 2]);
        }
    }
}

/// The Fairfax clusters named before the convention.
proof fn lemma_legacy_fairfax()
    ensures
        classify("BN1N"@, 'N') == Some(Archipelago::FairFax),
        classify("SN5N"@, 'N') == Some(Archipelago::FairFax),
        classify("CY01N"@, 'N') == Some(Archipelago::FairFax),
        classify("PHX01N"@, 'N') == Some(Archipelago::FairFax),
        classify("DM2N"@, 'N') == Some(Archipelago::FairFax),
        classify("BGZ01N"@, 'N') == Some(Archipelago::FairFax),
        classify("BNZ02N"@, 'N') == Some(Archipelago::FairFax),
{
    reveal_strlit("BN1N");
    reveal_strlit("SN5N");
    reveal_strlit("CY01N");
    reveal_strlit("PHX01N");
    reveal_strlit("DM2N");
    reveal_strlit("BGZ01N");
    reveal_strlit("BNZ02N");
    let l = seq!["BN1N"@, "SN5N"@, "CY01N"@, "PHX01N"@, "DM2N"@, "BGZ01N"@, "BNZ02N"@];
    assert forall|k: int| 0 <= k < l.len() implies classify(#[trigger] l[k], 'N') == Some(Archipelago::FairFax) by {
        lemma_not_public_pilotfish_name(l[k]);
        lemma_no_convention_suffix(l[k]);
        assert(l.contains(l[k]));
    }
    assert(classify(l[0], 'N') == Some(Archipelago::FairFax));
    assert(classify(l[1], 'N') == Some(Archipelago::FairFax));
    assert(classify(l[2], 'N') == Some(Archipelago::FairFax));
    assert(classify(l[3], 'N') == Some(Archipelago::FairFax));
    assert(classify(l[4], 'N') == Some(Archipelago::FairFax));
    assert(classify(l[5], 'N') == Some(Archipelago::FairFax));
    assert(classify(l[6], 'N') == Some(Archipelago::FairFax));
}

/// The Fairfax DoD clusters named before the convention.
proof fn lemma_legacy_fairfax_dod()
    ensures
        classify("BN3N"@, 'N') == Some(Archipelago::FairFaxDod),
        classify("DM3N"@, 'N') == Some(Archipelago::FairFaxDod),
{
    reveal_strlit("BN1N");
    reveal_strlit("SN5N");
    reveal_strlit("CY01N");
    reveal_strlit("PHX01N");
    reveal_strlit("DM2N");
    reveal_strlit("BGZ01N");
    reveal_strlit("BNZ02N");
    reveal_strlit("BN3N");
    reveal_strlit("DM3N");
    reveal_strlit("GRN01N");
    reveal_strlit("RED01N");
    reveal_strlit("MNZ01N");
    reveal_strlit("SAT01N");
    reveal_strlit("CYX01N");
    reveal_strlit("FR1N");
    reveal_strlit("LG1N");
    reveal_strlit("BJ1N");
    reveal_strlit("SH1N");
    reveal_strlit("BJS01N");
    reveal_strlit("SHA01N");
    lemma_not_public_pilotfish_name("BN3N"@);
    lemma_no_convention_suffix("BN3N"@);
    assert("BN1N"@[2] != "BN3N"@[2]);
    assert("SN5N"@[0] != "BN3N"@[0]);
    assert("DM2N"@[0] != "BN3N"@[0]);
    assert(seq!["BN3N"@, "DM3N"@][0] == "BN3N"@);
    lemma_not_public_pilotfish_name("DM3N"@);
    lemma_no_convention_suffix("DM3N"@);
    assert("BN1N"@[0] != "DM3N"@[0]);
    assert("SN5N"@[0] != "DM3N"@[0]);
    assert("DM2N"@[2] != "DM3N"@[2]);
    assert(seq!["BN3N"@, "DM3N"@][1] == "DM3N"@);
}

/// The USNat and USSec clusters named before the convention.
proof fn lemma_legacy_us_gov()
    ensures
        classify("GRN01N"@, 'N') == Some(Archipelago::USNat),
        classify("RED01N"@, 'N') == Some(Archipelago::USNat),
        classify("MNZ01N"@, 'N') == Some(Archipelago::USSec),
        classify("SAT01N"@, 'N') == Some(Archipelago::USSec),
        classify("CYX01N"@, 'N') == Some(Archipelago::USSec),
{
    reveal_strlit("BN1N");
    reveal_strlit("SN5N");
    reveal_strlit("CY01N");
    reveal_strlit("PHX01N");
    reveal_strlit("DM2N");
    reveal_strlit("BGZ01N");
    reveal_strlit("BNZ02N");
    reveal_strlit("BN3N");
    reveal_strlit("DM3N");
    reveal_strlit("GRN01N");
    reveal_strlit("RED01N");
    reveal_strlit("MNZ01N");
    reveal_strlit("SAT01N");
    reveal_strlit("CYX01N");
    reveal_strlit("FR1N");
    reveal_strlit("LG1N");
    reveal_strlit("BJ1N");
    reveal_strlit("SH1N");
    reveal_strlit("BJS01N");
    reveal_strlit("SHA01N");
    lemma_not_public_pilotfish_name("GRN01N"@);
    lemma_no_convention_suffix("GRN01N"@);
    assert("PHX01N"@[0] != "GRN01N"@[0]);
    assert("BGZ01N"@[0] != "GRN01N"@[0]);
    assert("BNZ02N"@[0] != "GRN01N"@[0]);
    assert(seq!["GRN01N"@, "RED01N"@][0] == "GRN01N"@);
    lemma_not_public_pilotfish_name("RED01N"@);
    lemma_no_convention_suffix("RED01N"@);
    assert("PHX01N"@[0] != "RED01N"@[0]);
    assert("BGZ01N"@[0] != "RED01N"@[0]);
    assert("BNZ02N"@[0] != "RED01N"@[0]);
    assert(seq!["GRN01N"@, "RED01N"@][1] == "RED01N"@);
    lemma_not_public_pilotfish_name("MNZ01N"@);
    lemma_no_convention_suffix("MNZ01N"@);
    assert("PHX01N"@[0] != "MNZ01N"@[0]);
    assert("BGZ01N"@[0] != "MNZ01N"@[0]);
    assert("BNZ02N"@[0] != "MNZ01N"@[0]);
    assert("GRN01N"@[0] != "MNZ01N"@[0]);
    assert("RED01N"@[0] != "MNZ01N"@[0]);
    assert(seq!["MNZ01N"@, "SAT01N"@, "CYX01N"@][0] == "MNZ01N"@);
    lemma_not_public_pilotfish_name("SAT01N"@);
    lemma_no_convention_suffix("SAT01N"@);
    assert("PHX01N"@[0] != "SAT01N"@[0]);
    assert("BGZ01N"@[0] != "SAT01N"@[0]);
    assert("BNZ02N"@[0] != "SAT01N"@[0]);
    assert("GRN01N"@[0] != "SAT01N"@[0]);
    assert("RED01N"@[0] != "SAT01N"@[0]);
    assert(seq!["MNZ01N"@, "SAT01N"@, "CYX01N"@][1] == "SAT01N"@);
    lemma_not_public_pilotfish_name("CYX01N"@);
    lemma_no_convention_suffix("CYX01N"@);
    assert("PHX01N"@[0] != "CYX01N"@[0]);
    assert("BGZ01N"@[0] != "CYX01N"@[0]);
    assert("BNZ02N"@[0] != "CYX01N"@[0]);
    assert("GRN01N"@[0] != "CYX01N"@[0]);
    assert("RED01N"@[0] != "CYX01N"@[0]);
    assert(seq!["MNZ01N"@, "SAT01N"@, "CYX01N"@][2] == "CYX01N"@);
}

/// The Black Forest and Mooncake clusters named before the convention.
proof fn lemma_legacy_black_forest_mooncake()
    ensures
        classify("FR1N"@, 'N') == Some(Archipelago::BlackForest),
        classify("LG1N"@, 'N') == Some(Archipelago::BlackForest),
        classify("BJ1N"@, 'N') == Some(Archipelago::Mooncake),
        classify("SH1N"@, 'N') == Some(Archipelago::Mooncake),
        classify("BJS01N"@, 'N') == Some(Archipelago::Mooncake),
        classify("SHA01N"@, 'N') == Some(Archipelago::Mooncake),
{
    reveal_strlit("BN1N");
    reveal_strlit("SN5N");
    reveal_strlit("CY01N");
    reveal_strlit("PHX01N");
    reveal_strlit("DM2N");
    reveal_strlit("BGZ01N");
    reveal_strlit("BNZ02N");
    reveal_strlit("BN3N");
    reveal_strlit("DM3N");
    reveal_strlit("GRN01N");
    reveal_strlit("RED01N");
    reveal_strlit("MNZ01N");
    reveal_strlit("SAT01N");
    reveal_strlit("CYX01N");
    reveal_strlit("FR1N");
    reveal_strlit("LG1N");
    reveal_strlit("BJ1N");
    reveal_strlit("SH1N");
    reveal_strlit("BJS01N");
    reveal_strlit("SHA01N");
    lemma_not_public_pilotfish_name("FR1N"@);
    lemma_no_convention_suffix("FR1N"@);
    assert("BN1N"@[0] != "FR1N"@[0]);
    assert("SN5N"@[0] != "FR1N"@[0]);
    assert("DM2N"@[0] != "FR1N"@[0]);
    assert("BN3N"@[0] != "FR1N"@[0]);
    assert("DM3N"@[0] != "FR1N"@[0]);
    assert(seq!["FR1N"@, "LG1N"@][0] == "FR1N"@);
    lemma_not_public_pilotfish_name("LG1N"@);
    lemma_no_convention_suffix("LG1N"@);
    assert("BN1N"@[0] != "LG1N"@[0]);
    assert("SN5N"@[0] != "LG1N"@[0]);
    assert("DM2N"@[0] != "LG1N"@[0]);
    assert("BN3N"@[0] != "LG1N"@[0]);
    assert("DM3N"@[0] != "LG1N"@[0]);
    assert(seq!["FR1N"@, "LG1N"@][1] == "LG1N"@);
    lemma_not_public_pilotfish_name("BJ1N"@);
    lemma_no_convention_suffix("BJ1N"@);
    assert("BN1N"@[1] != "BJ1N"@[1]);
    assert("SN5N"@[0] != "BJ1N"@[0]);
    assert("DM2N"@[0] != "BJ1N"@[0]);
    assert("BN3N"@[1] != "BJ1N"@[1]);
    assert("DM3N"@[0] != "BJ1N"@[0]);
    assert("FR1N"@[0] != "BJ1N"@[0]);
    assert("LG1N"@[0] != "BJ1N"@[0]);
    assert(seq!["BJ1N"@, "SH1N"@, "BJS01N"@, "SHA01N"@][0] == "BJ1N"@);
    lemma_not_public_pilotfish_name("SH1N"@);
    lemma_no_convention_suffix("SH1N"@);
    assert("BN1N"@[0] != "SH1N"@[0]);
    assert("SN5N"@[1] != "SH1N"@[1]);
    assert("DM2N"@[0] != "SH1N"@[0]);
    assert("BN3N"@[0] != "SH1N"@[0]);
    assert("DM3N"@[0] != "SH1N"@[0]);
    assert("FR1N"@[0] != "SH1N"@[0]);
    assert("LG1N"@[0] != "SH1N"@[0]);
    assert(seq!["BJ1N"@, "SH1N"@, "BJS01N"@, "SHA01N"@][1] == "SH1N"@);
    lemma_not_public_pilotfish_name("BJS01N"@);
    lemma_no_convention_suffix("BJS01N"@);
    assert("PHX01N"@[0] != "BJS01N"@[0]);
    assert("BGZ01N"@[1] != "BJS01N"@[1]);
    assert("BNZ02N"@[1] != "BJS01N"@[1]);
    assert("GRN01N"@[0] != "BJS01N"@[0]);
    assert("RED01N"@[0] != "BJS01N"@[0]);
    assert("MNZ01N"@[0] != "BJS01N"@[0]);
    assert("SAT01N"@[0] != "BJS01N"@[0]);
    assert("CYX01N"@[0] != "BJS01N"@[0]);
    assert(seq!["BJ1N"@, "SH1N"@, "BJS01N"@, "SHA01N"@][2] == "BJS01N"@);
    lemma_not_public_pilotfish_name("SHA01N"@);
    lemma_no_convention_suffix("SHA01N"@);
    assert("PHX01N"@[0] != "SHA01N"@[0]);
    assert("BGZ01N"@[0] != "SHA01N"@[0]);
    assert("BNZ02N"@[0] != "SHA01N"@[0]);
    assert("GRN01N"@[0] != "SHA01N"@[0]);
    assert("RED01N"@[0] != "SHA01N"@[0]);
    assert("MNZ01N"@[0] != "SHA01N"@[0]);
    assert("SAT01N"@[1] != "SHA01N"@[1]);
    assert("CYX01N"@[0] != "SHA01N"@[0]);
    assert(seq!["BJ1N"@, "SH1N"@, "BJS01N"@, "SHA01N"@][3] == "SHA01N"@);
}

/// A name whose last character but one is not a digit is none of the
/// names that predate the naming convention.
proof fn lemma_not_legacy_name(v: Seq<char>)
    requires
        v.len() >= 2,
        !('0' <= v[v.len() - 2] <= '9'),
    ensures
        !seq!["BN1N"@, "SN5N"@, "CY01N"@, "PHX01N"@, "DM2N"@, "BGZ01N"@, "BNZ02N"@].contains(v),
        !seq!["BN3N"@, "DM3N"@].contains(v),
        !seq!["GRN01N"@, "RED01N"@].contains(v),
        !seq!["MNZ01N"@, "SAT01N"@, "CYX01N"@].contains(v),
        !seq!["FR1N"@, "LG1N"@].contains(v),
        !seq!["BJ1N"@, "SH1N"@, "BJS01N"@, "SHA01N"@].contains(v),
{
    reveal_strlit("BN1N");
    reveal_strlit("SN5N");
    reveal_strlit("CY01N");
    reveal_strlit("PHX01N");
    reveal_strlit("DM2N");
    reveal_strlit("BGZ01N");
    reveal_strlit("BNZ02N");
    reveal_strlit("BN3N");
    reveal_strlit("DM3N");
    reveal_strlit("GRN01N");
    reveal_strlit("RED01N");
    reveal_strlit("MNZ01N");
    reveal_strlit("SAT01N");
    reveal_strlit("CYX01N");
    reveal_strlit("FR1N");
    reveal_strlit("LG1N");
    reveal_strlit("BJ1N");
    reveal_strlit("SH1N");
    reveal_strlit("BJS01N");
    reveal_strlit("SHA01N");
    assert('0' <= "BN1N"@[2] <= '9');
    assert('0' <= "SN5N"@[2] <= '9');
    assert('0' <= "CY01N"@[3] <= '9');
    assert('0' <= "PHX01N"@[4] <= '9');
    assert('0' <= "DM2N"@[2] <= '9');
    assert('0' <= "BGZ01N"@[4] <= '9');
    assert('0' <= "BNZ02N"@[4] <= '9');
    assert('0' <= "BN3N"@[2] <= '9');
    assert('0' <= "DM3N"@[2] <= '9');
    assert('0' <= "GRN01N"@[4] <= '9');
    assert('0' <= "RED01N"@[4] <= '9');
    assert('0' <= "MNZ01N"@[4] <= '9');
    assert('0' <= "SAT01N"@[4] <= '9');
    assert('0' <= "CYX01N"@[4] <= '9');
    assert('0' <= "FR1N"@[2] <= '9');
    assert('0' <= "LG1N"@[2] <= '9');
    assert('0' <= "BJ1N"@[2] <= '9');
    assert('0' <= "SH1N"@[2] <= '9');
    assert('0' <= "BJS01N"@[4] <= '9');
    assert('0' <= "SHA01N"@[4] <= '9');
}

/// The naming convention `aaannXYZ` decides the island of a national-cloud
/// cluster: a name ending in `FGN` is Fairfax, `FDN` Fairfax DoD, `EXN`
/// USNat, `RXN` USSec, `BFN` Black Forest and `MCN` Mooncake.
pub proof fn lemma_naming_convention(v: Seq<char>)
    ensures
        ends_with(v, "FGN"@) ==> classify(v, 'N') == Some(Archipelago::FairFax),
        ends_with(v, "FDN"@) ==> classify(v, 'N') == Some(Archipelago::FairFaxDod),
        ends_with(v, "EXN"@) ==> classify(v, 'N') == Some(Archipelago::USNat),
        ends_with(v, "RXN"@) ==> classify(v, 'N') == Some(Archipelago::USSec),
        ends_with(v, "BFN"@) ==> classify(v, 'N') == Some(Archipelago::BlackForest),
        ends_with(v, "MCN"@) ==> classify(v, 'N') == Some(Archipelago::Mooncake),
{
    reveal_suffixes();
    if v.len() >= 3 {
        let t = v.subrange(v.len() - 3, v.len() as int);
        assert(t[0] == v[v.len() - 3]);
        assert(t[1] == v[v.len() - 2]);
        assert(t[2] == v[v.len() - 1]);
        if ends_with(v, "FGN"@) || ends_with(v, "FDN"@) || ends_with(v, "EXN"@) || ends_with(v, "RXN"@)
            || ends_with(v, "BFN"@) || ends_with(v, "MCN"@) {
            assert(v.last() == 'N');
            lemma_not_public_pilotfish_name(v);
            lemma_not_legacy_name(v);
        }
    }
}

/// The name of the island of `cluster_name`, which must have one.
pub fn find_island(cluster_name: String) -> (r: String)
    requires
        island_of(cluster_name@) is Some,
    ensures
        r@ == archipelago_name(island_of(cluster_name@)->0),
{
    match run(cluster_name) {
        Some(c) => c.to_string(),
        None => {
            proof {
                assert(false);
            }
            String::new()
        },
    }
}

/// The name of the island of `cluster_name`, or `None` where it has none.
pub fn try_find_island(cluster_name: String) -> (r: Option<String>)
    ensures
        r matches Some(s) ==> island_of(cluster_name@) is Some && s@ == archipelago_name(
            island_of(cluster_name@)->0,
        ),
        r is None ==> island_of(cluster_name@) is None,
        all_ascii(cluster_name@) && cluster_name@.len() > 0 && (cluster_name@.last() == 'P'
            || cluster_name@.last() == 'p') ==> (r matches Some(s) && s@ == "PublicPilotfish"@),
{
    if cluster_name.as_str().is_empty() {
        return None;
    }
    match upper_last_char(cluster_name.as_str()) {
        None => None,
        Some(last_char) => {
            match classify_island(cluster_name.as_str(), last_char) {
                None => None,
                Some(_) => Some(find_island(cluster_name)),
            }
        },
    }
}

} // verus!
