//! The section of MasterKeys.ini that holds the key rings of an island.

use vstd::prelude::*;
use crate::get_island::{archipelago_name, Archipelago};
use crate::text::str_eq;

verus! {

/// The INI section of each island that has one.
pub open spec fn ini_section_of(island: Seq<char>) -> Option<Seq<char>> {
    if island == "PublicPilotfish"@ {
        Some("PilotfishAll"@)
    } else if island == "FairFax"@ {
        Some("FairfaxAll"@)
    } else if island == "FairFaxDod"@ {
        Some("FairfaxDodAll"@)
    } else if island == "USNat"@ {
        Some("USNatAll"@)
    } else if island == "USSec"@ {
        Some("USSecAll"@)
    } else if island == "Mooncake"@ {
        Some("MooncakeAll"@)
    } else {
        None
    }
}

/// The INI section of `cluster_island`, for the six islands that have one.
pub fn find_ini_section(cluster_island: &str) -> (r: &'static str)
    requires
        ini_section_of(cluster_island@) is Some,
    ensures
        ini_section_of(cluster_island@) == Some(r@),
{
    match run(cluster_island) {
        Some(section) => section,
        None => {
            proof {
                assert(false);
            }
            ""
        },
    }
}

/// The INI section of `cluster_island`, or `None` for an island without one.
pub fn run(cluster_island: &str) -> (r: Option<&'static str>)
    ensures
        r.deep_view() == ini_section_of(cluster_island@),
{
    if str_eq(cluster_island, "PublicPilotfish") {
        Some("PilotfishAll")
    } else if str_eq(cluster_island, "FairFax") {
        Some("FairfaxAll")
    } else if str_eq(cluster_island, "FairFaxDod") {
        Some("FairfaxDodAll")
    } else if str_eq(cluster_island, "USNat") {
        Some("USNatAll")
    } else if str_eq(cluster_island, "USSec") {
        Some("USSecAll")
    } else if str_eq(cluster_island, "Mooncake") {
        Some("MooncakeAll")
    } else {
        None
    }
}

/// The islands with a key-ring section are Public Pilotfish, Fairfax,
/// Fairfax DoD, USNat, USSec and Mooncake; Xbox, ApClassic and Black Forest
/// clusters have none.
pub proof fn lemma_islands_with_sections(a: Archipelago)
    ensures
        ini_section_of(archipelago_name(a)) is Some <==> (a == Archipelago::PublicPilotfish || a
            == Archipelago::FairFax || a == Archipelago::FairFaxDod || a == Archipelago::USNat || a
            == Archipelago::USSec || a == Archipelago::Mooncake),
{
    reveal_strlit("PublicPilotfish");
    reveal_strlit("FairFax");
    reveal_strlit("FairFaxDod");
    reveal_strlit("USNat");
    reveal_strlit("USSec");
    reveal_strlit("Mooncake");
    reveal_strlit("Xbox");
    reveal_strlit("ApClassic");
    reveal_strlit("BlackForest");
    reveal_strlit("No Island Found.");
    match a {
        Archipelago::Xbox => {
            assert("Xbox"@.len() == 4);
        },
        Archipelago::ApClassic => {
            assert("ApClassic"@.len() == 9);
        },
        Archipelago::BlackForest => {
            assert("BlackForest"@.len() == 11);
        },
        Archipelago::NotFound => {
            assert("No Island Found."@.len() == 16);
        },
        _ => {},
    }
}

} // verus!
