//! Adding a cluster to the key rings of MasterKeys.ini.
//!
//! The update has two passes over the lines of the file:
//! 1. each line of the island's INI section (such as `PilotfishAll=...`)
//!    gets `,CLUSTER` appended unless its value already names the cluster;
//! 2. the key-ring lines of the island (`Autopilot_Internal_<Island>_<n>=...`)
//!    are scanned: the cluster joins the first key ring that has room for
//!    all clusters still to be added (at most five per line), taking its
//!    first member as donor; if none has room, a new key ring numbered one
//!    above the highest seen is inserted after the last key-ring line, with
//!    the island's default donor.
//!
//! Inputs on which the update cannot proceed (a section line without `=`,
//! a key ring without members, a key-ring number that is not a `usize`, a
//! match without the groups it should have) give a `KeyRingError` that says
//! which case it was.

use vstd::prelude::*;
use crate::get_ini_section::ini_section_of;
use crate::get_island::{archipelago_name, classify, lemma_legacy_national_clusters, Archipelago};
use crate::patterns::{captures_in, escape_text, regex_accepts, regex_captures, regex_escape, Pattern};
use crate::text::{
    all_ascii, ascii_upper_char, chars_of, concat, contains_exec, contains_text, decimal, decimal_chars, ends_with, is_ws,
    join, join_texts, lemma_contains_suffix, lemma_contains_transitive,
    lemma_join_contains_part, lemma_split_append, lemma_split_piece_found, lines,
    list_contains, occurs_at, parse_usize, parse_usize_text, push_all, push_str, split,
    split_at_char, split_lines, starts_with, starts_with_exec, str_eq, string_of, texts, trim,
    trim_chars, trim_end, trim_end_chars, trim_start,
};

verus! {

/// Key rings hold at most this many clusters.
pub const MAX_CLUSTERS_PER_LINE: usize = 5;

/// Why a key-ring update could not be made.
#[derive(Debug, PartialEq, Eq, Structural)]
pub enum KeyRingError {
    /// A line of the INI section has no `=`.
    SectionLineWithoutValue,
    /// The `regex` crate refused the key-ring pattern.
    PatternRejected,
    /// A key-ring match lacks a capture group that the update reads.
    MissingGroup,
    /// A key-ring number is not a `usize`.
    InvalidGroupNumber,
    /// The next key-ring number would not fit in a `usize`.
    GroupNumberOverflow,
    /// A key ring with room lists no cluster, so there is no donor.
    EmptyKeyRing,
}

/// The result of a key-ring update.
pub struct KeyRingUpdate {
    /// The new content of MasterKeys.ini, lines joined with CRLF.
    pub content: String,
    /// The key ring the cluster joined and its donor cluster, if it joined one.
    pub added: Option<(String, String)>,
    /// Whether the last key ring looked at already listed the cluster.
    pub found_home: bool,
}

/// Where the scan of the key-ring lines stands.
#[derive(Debug, Clone, Copy, PartialEq, Eq, Structural)]
pub enum Phase {
    /// No key-ring line seen yet.
    Initial,
    /// Key-ring lines seen, none with room yet.
    SeenSomeMatch,
    /// The cluster has been placed; the rest is copied.
    Done,
}

/// The state of the key-ring scan.
pub struct RingModel {
    pub phase: Phase,
    /// Index in `out` of the last key-ring line without room.
    pub last_idx: nat,
    /// Highest key-ring number seen.
    pub highest: nat,
    /// The key ring the cluster joined.
    pub added: Option<Seq<char>>,
    /// The lines written so far.
    pub out: Seq<Seq<char>>,
    pub donor: Seq<char>,
    pub found_home: bool,
}

pub open spec fn crlf() -> Seq<char> {
    seq!['\r', '\n']
}

/// The key-ring name prefix of each INI section.
pub open spec fn group_prefix(section: Seq<char>) -> Seq<char> {
    if section == "PilotfishAll"@ {
        "Autopilot_Internal_Pilotfish_"@
    } else if section == "BlackForestAll"@ {
        "Autopilot_Internal_BlackForest_"@
    } else if section == "MooncakeAll"@ {
        "Autopilot_Internal_Mooncake_"@
    } else if section == "FairfaxAll"@ {
        "Autopilot_Internal_Fairfax_"@
    } else if section == "FairfaxDodAll"@ {
        "Autopilot_Internal_FairfaxDod_"@
    } else if section == "USNatAll"@ {
        "Autopilot_Internal_USNat_"@
    } else if section == "USSecAll"@ {
        "Autopilot_Internal_USSec_"@
    } else {
        "None"@
    }
}

/// The donor of a new key ring, by key-ring prefix.
pub open spec fn default_donor(prefix: Seq<char>) -> Seq<char> {
    if prefix == "Autopilot_Internal_Pilotfish_"@ {
        "DM2P"@
    } else if prefix == "Autopilot_Internal_BlackForest_"@ {
        "FR1N"@
    } else if prefix == "Autopilot_Internal_Mooncake_"@ {
        "BJ1N"@
    } else if prefix == "Autopilot_Internal_Fairfax_"@ {
        "BN1N"@
    } else if prefix == "Autopilot_Internal_FairfaxDod_"@ {
        "DM3N"@
    } else if prefix == "Autopilot_Internal_USNat_"@ {
        "GRN01N"@
    } else if prefix == "Autopilot_Internal_USSec_"@ {
        "SAT01N"@
    } else {
        "None"@
    }
}

/// The pattern of a key-ring line: optional blanks, the prefix and a number
/// (group 1, the number alone is group 2), `=`, and the member list
/// (group 3) without surrounding blanks.
pub open spec fn key_ring_pattern(prefix: Seq<char>) -> Seq<char> {
    "^\\s*("@ + regex_escape(prefix) + "(\\d+))\\s*=\\s*(.*?)\\s*$"@
}

/// Capture group `i`, if there is one that took part in the match.
pub open spec fn group(caps: Seq<Option<Seq<char>>>, i: int) -> Option<Seq<char>> {
    if 0 <= i < caps.len() {
        caps[i]
    } else {
        None
    }
}

/// The trimmed pieces of `parts` that are not empty.
pub open spec fn nonempty_trimmed(parts: Seq<Seq<char>>) -> Seq<Seq<char>>
    decreases parts.len(),
{
    if parts.len() == 0 {
        seq![]
    } else {
        let front = nonempty_trimmed(parts.drop_last());
        if trim(parts.last()).len() > 0 {
            front.push(trim(parts.last()))
        } else {
            front
        }
    }
}

/// The clusters of a key-ring member list.
pub open spec fn members(list: Seq<char>) -> Seq<Seq<char>> {
    nonempty_trimmed(split(list, ','))
}

/// A line of the INI section with the cluster appended to its value, unless
/// the value (the text between the first and second `=`) names it already;
/// other lines unchanged. `None` for a section line without `=`.
pub open spec fn mark_section_line(line: Seq<char>, section: Seq<char>, cluster: Seq<char>) -> Option<
    Seq<char>,
> {
    if starts_with(line, section) {
        let parts = split(line, '=');
        if parts.len() < 2 {
            None
        } else if contains_text(parts[1], cluster) {
            Some(line)
        } else {
            Some(line + seq![','] + cluster)
        }
    } else {
        Some(line)
    }
}

/// `mark_section_line` on every line.
pub open spec fn mark_section_lines(ls: Seq<Seq<char>>, section: Seq<char>, cluster: Seq<char>) -> Option<
    Seq<Seq<char>>,
>
    decreases ls.len(),
{
    if ls.len() == 0 {
        Some(seq![])
    } else {
        match (
            mark_section_lines(ls.drop_last(), section, cluster),
            mark_section_line(ls.last(), section, cluster),
        ) {
            (Some(front), Some(l)) => Some(front.push(l)),
            _ => None,
        }
    }
}

/// The state before the first line.
pub open spec fn ring_start() -> RingModel {
    RingModel {
        phase: Phase::Initial,
        last_idx: 0,
        highest: 0,
        added: None,
        out: seq![],
        donor: seq![],
        found_home: false,
    }
}

/// The scan in phase `SeenSomeMatch` on one line (`eod`: past the last
/// line), given the line's match if the line was matched.
pub open spec fn ring_seen(
    st: RingModel,
    line: Seq<char>,
    eod: bool,
    blank: bool,
    caps: Option<Seq<Option<Seq<char>>>>,
    cluster: Seq<char>,
    count: nat,
    prefix: Seq<char>,
) -> Result<RingModel, KeyRingError> {
    match caps {
        Some(c) => match group(c, 3) {
            None => Err(KeyRingError::MissingGroup),
            Some(list) => {
                let clusters = members(list);
                let fh = clusters.contains(cluster);
                if clusters.len() < MAX_CLUSTERS_PER_LINE && !fh && clusters.len() + count
                    <= MAX_CLUSTERS_PER_LINE {
                    if clusters.len() == 0 {
                        Err(KeyRingError::EmptyKeyRing)
                    } else {
                        match group(c, 1) {
                            None => Err(KeyRingError::MissingGroup),
                            Some(g) => Ok(
                                RingModel {
                                    phase: Phase::Done,
                                    added: Some(g),
                                    out: st.out.push(trim_end(line) + seq![','] + cluster),
                                    donor: clusters[0],
                                    found_home: fh,
                                    ..st
                                },
                            ),
                        }
                    }
                } else {
                    Ok(RingModel { last_idx: st.out.len(), out: st.out.push(line), found_home: fh, ..st })
                }
            },
        },
        None => {
            if blank {
                Ok(RingModel { out: st.out.push(line), ..st })
            } else {
                let out1 = if !eod {
                    st.out.push(line)
                } else {
                    st.out
                };
                if !st.found_home {
                    if st.highest + 1 > usize::MAX {
                        Err(KeyRingError::GroupNumberOverflow)
                    } else {
                        let donor = default_donor(prefix);
                        let g = prefix + decimal(st.highest + 1);
                        let new_line = g + seq!['='] + donor + seq![','] + cluster;
                        Ok(
                            RingModel {
                                phase: Phase::Done,
                                added: Some(g),
                                out: out1.insert(st.last_idx + 1 as int, new_line),
                                donor: donor,
                                ..st
                            },
                        )
                    }
                } else {
                    Ok(RingModel { out: out1, ..st })
                }
            }
        },
    }
}

/// The scan on one line, after the line's key-ring number (if matched) has
/// been read.
pub open spec fn ring_dispatch(
    st: RingModel,
    line: Seq<char>,
    eod: bool,
    blank: bool,
    caps: Option<Seq<Option<Seq<char>>>>,
    cluster: Seq<char>,
    count: nat,
    prefix: Seq<char>,
) -> Result<RingModel, KeyRingError> {
    match st.phase {
        Phase::Initial => if caps is Some {
            ring_seen(
                RingModel { phase: Phase::SeenSomeMatch, ..st },
                line,
                eod,
                blank,
                caps,
                cluster,
                count,
                prefix,
            )
        } else {
            Ok(RingModel { out: st.out.push(line), ..st })
        },
        Phase::SeenSomeMatch => ring_seen(st, line, eod, blank, caps, cluster, count, prefix),
        Phase::Done => Ok(
            if !eod {
                RingModel { out: st.out.push(line), ..st }
            } else {
                st
            },
        ),
    }
}

/// The scan on one line (`eod`: past the last line); `m` is what the
/// key-ring pattern matched in the line. The match counts only before the
/// cluster is placed, and not for blank lines.
pub open spec fn ring_step(
    st: RingModel,
    line: Seq<char>,
    eod: bool,
    m: Option<Seq<Option<Seq<char>>>>,
    cluster: Seq<char>,
    count: nat,
    prefix: Seq<char>,
) -> Result<RingModel, KeyRingError> {
    let blank = !eod && trim(line).len() == 0;
    let caps = if st.phase != Phase::Done && !blank && !eod {
        m
    } else {
        None
    };
    match caps {
        None => ring_dispatch(st, line, eod, blank, None, cluster, count, prefix),
        Some(c) => match group(c, 2) {
            None => Err(KeyRingError::MissingGroup),
            Some(num) => match parse_usize_text(num) {
                None => Err(KeyRingError::InvalidGroupNumber),
                Some(k) => ring_dispatch(
                    RingModel {
                        highest: if st.highest < k {
                            k as nat
                        } else {
                            st.highest
                        },
                        ..st
                    },
                    line,
                    eod,
                    blank,
                    caps,
                    cluster,
                    count,
                    prefix,
                ),
            },
        },
    }
}

/// The scan over `ls`, with `ms[i]` the match of `ls[i]`.
pub open spec fn ring_fold(
    ls: Seq<Seq<char>>,
    ms: Seq<Option<Seq<Option<Seq<char>>>>>,
    cluster: Seq<char>,
    count: nat,
    prefix: Seq<char>,
) -> Result<RingModel, KeyRingError>
    decreases ls.len(),
{
    if ls.len() == 0 {
        Ok(ring_start())
    } else {
        match ring_fold(ls.drop_last(), ms.drop_last(), cluster, count, prefix) {
            Err(e) => Err(e),
            Ok(st) => ring_step(st, ls.last(), false, ms.last(), cluster, count, prefix),
        }
    }
}

/// The scan over all lines and past the last.
pub open spec fn ring_outcome(
    ls: Seq<Seq<char>>,
    ms: Seq<Option<Seq<Option<Seq<char>>>>>,
    cluster: Seq<char>,
    count: nat,
    prefix: Seq<char>,
) -> Result<RingModel, KeyRingError> {
    match ring_fold(ls, ms, cluster, count, prefix) {
        Err(e) => Err(e),
        Ok(st) => ring_step(st, seq![], true, None, cluster, count, prefix),
    }
}

/// What `update` holds of the scan's outcome.
pub open spec fn describes(u: KeyRingUpdate, m: RingModel) -> bool {
    &&& u.content@ == join(m.out, crlf())
    &&& u.found_home == m.found_home
    &&& match u.added {
        Some((g, d)) => m.added == Some(g@) && m.donor == d@,
        None => m.added is None,
    }
}

/// The outcome of the whole update of MasterKeys.ini content: the section
/// pass, then the key-ring scan over the lines of the result, each matched
/// with the key-ring pattern of the section.
pub open spec fn update_outcome(contents: Seq<char>, section: Seq<char>, cluster: Seq<char>, count: nat) -> Result<
    RingModel,
    KeyRingError,
> {
    match mark_section_lines(lines(contents), section, cluster) {
        None => Err(KeyRingError::SectionLineWithoutValue),
        Some(marked) => {
            let lines_in = lines(join(marked, crlf()));
            let prefix = group_prefix(section);
            let pattern = key_ring_pattern(prefix);
            if !regex_accepts(pattern) {
                Err(KeyRingError::PatternRejected)
            } else {
                ring_outcome(
                    lines_in,
                    lines_in.map_values(|l: Seq<char>| regex_captures(pattern, l)),
                    cluster,
                    count,
                    prefix,
                )
            }
        },
    }
}


/// After the section pass, every line of the INI section names the
/// cluster, and no line is added or removed.
pub proof fn lemma_section_lines_name_cluster(ls: Seq<Seq<char>>, section: Seq<char>, cluster: Seq<char>)
    ensures
        mark_section_lines(ls, section, cluster) matches Some(out) ==> {
            &&& out.len() == ls.len()
            &&& forall|k: int|
                0 <= k < ls.len() && starts_with(ls[k], section) ==> contains_text(
                    #[trigger] out[k],
                    cluster,
                )
        },
    decreases ls.len(),
{
    if ls.len() > 0 {
        lemma_section_lines_name_cluster(ls.drop_last(), section, cluster);
        let l = ls.last();
        if starts_with(l, section) && split(l, '=').len() >= 2 {
            if contains_text(split(l, '=')[1], cluster) {
                lemma_split_piece_found(l, '=', 1);
                lemma_contains_transitive(l, split(l, '=')[1], cluster);
            } else {
                lemma_contains_suffix(l + seq![','], cluster);
                assert(l + seq![','] + cluster =~= (l + seq![',']) + cluster);
            }
        }
        if let Some(out) = mark_section_lines(ls, section, cluster) {
            let front = mark_section_lines(ls.drop_last(), section, cluster)->0;
            assert forall|k: int|
                0 <= k < ls.len() && starts_with(ls[k], section) implies contains_text(
                #[trigger] out[k],
                cluster,
            ) by {
                if k < ls.len() - 1 {
                    assert(out[k] == front[k]);
                    assert(ls[k] == ls.drop_last()[k]);
                }
            }
        }
    }
}


/// The key-ring number that the scan reads from `line` in state `st`, if
/// any: only lines before the cluster is placed, and not blank ones.
pub open spec fn number_read(st: RingModel, line: Seq<char>, m: Option<Seq<Option<Seq<char>>>>) -> Option<nat> {
    if st.phase != Phase::Done && trim(line).len() != 0 {
        match m {
            Some(c) => match group(c, 2) {
                Some(num) => match parse_usize_text(num) {
                    Some(k) => Some(k as nat),
                    None => None,
                },
                None => None,
            },
            None => None,
        }
    } else {
        None
    }
}

/// One step never lowers the highest number and takes in the number read.
proof fn lemma_step_keeps_highest(
    st: RingModel,
    line: Seq<char>,
    m: Option<Seq<Option<Seq<char>>>>,
    cluster: Seq<char>,
    count: nat,
    prefix: Seq<char>,
)
    ensures
        ring_step(st, line, false, m, cluster, count, prefix) matches Ok(st2) ==> {
            &&& st2.highest >= st.highest
            &&& number_read(st, line, m) matches Some(k) ==> st2.highest >= k
        },
{
}

/// Every key-ring number read on the way is at most the highest number
/// after any later line: a new key ring, numbered one above the highest
/// (`ring_seen`), is numbered above every key ring read before it.
pub proof fn lemma_numbers_read_stay_below_highest(
    ls: Seq<Seq<char>>,
    ms: Seq<Option<Seq<Option<Seq<char>>>>>,
    cluster: Seq<char>,
    count: nat,
    prefix: Seq<char>,
    i: int,
    j: int,
)
    requires
        0 <= i < j <= ls.len(),
        ls.len() == ms.len(),
    ensures
        ({
            match (
                ring_fold(ls.take(i), ms.take(i), cluster, count, prefix),
                ring_fold(ls.take(j), ms.take(j), cluster, count, prefix),
            ) {
                (Ok(before), Ok(after)) => number_read(before, ls[i], ms[i]) matches Some(k) ==> k
                    <= after.highest,
                _ => true,
            }
        }),
    decreases j - i,
{
    assert(ls.take(j).drop_last() =~= ls.take(j - 1));
    assert(ms.take(j).drop_last() =~= ms.take(j - 1));
    assert(ls.take(j).last() == ls[j - 1]);
    assert(ms.take(j).last() == ms[j - 1]);
    match ring_fold(ls.take(j - 1), ms.take(j - 1), cluster, count, prefix) {
        Ok(prev) => {
            lemma_step_keeps_highest(prev, ls[j - 1], ms[j - 1], cluster, count, prefix);
            if j - 1 > i {
                lemma_numbers_read_stay_below_highest(ls, ms, cluster, count, prefix, i, j - 1);
            }
        },
        Err(_) => {},
    }
}


/// The member lists of a joined and of a new key ring, for cluster and donor
/// names without a comma.
proof fn lemma_member_lists(list: Seq<char>, cluster: Seq<char>, count: nat, donor: Seq<char>)
    requires
        !cluster.contains(','),
        trim(cluster).len() > 0,
        !donor.contains(','),
        trim(donor) == donor,
        donor.len() > 0,
    ensures
        ({
            let before = members(list);
            let after = members(list + seq![','] + cluster);
            before.len() < MAX_CLUSTERS_PER_LINE && !before.contains(cluster) && before.len()
                + count <= MAX_CLUSTERS_PER_LINE && before.len() > 0 ==> {
                &&& after == before.push(trim(cluster))
                &&& after.len() <= MAX_CLUSTERS_PER_LINE
                &&& after[0] == before[0]
                &&& after.last() == trim(cluster)
            }
        }),
        members(donor + seq![','] + cluster) == seq![donor, trim(cluster)],
{
    lemma_split_append(seq![], list, ',', cluster);
    let parts = split(list, ',');
    assert((parts + seq![cluster]).drop_last() =~= parts);
    assert(nonempty_trimmed(parts + seq![cluster]) == nonempty_trimmed(parts).push(trim(cluster)));
    lemma_split_append(seq![], donor, ',', cluster);
    crate::text::lemma_split_without_separator(seq![], donor, ',');
    assert(Seq::<char>::empty() + donor =~= donor);
    let dparts = seq![donor] + seq![cluster];
    assert(split(donor + seq![','] + cluster, ',') =~= dparts);
    assert(dparts.drop_last() =~= seq![donor]);
    assert(seq![donor].drop_last() =~= Seq::<Seq<char>>::empty());
    assert(nonempty_trimmed(Seq::<Seq<char>>::empty()) == Seq::<Seq<char>>::empty());
    assert(seq![donor].last() == donor);
    assert(nonempty_trimmed(seq![donor]) == nonempty_trimmed(Seq::<Seq<char>>::empty()).push(donor));
    assert(nonempty_trimmed(seq![donor]) =~= seq![donor]);
    assert(nonempty_trimmed(dparts) =~= seq![donor, trim(cluster)]);
}


/// A key ring has room for the cluster: it lists at least one cluster
/// (the donor), fewer than five, not this one, and at most five with the
/// clusters still to come.
pub open spec fn joins_with_room(list: Seq<char>, cluster: Seq<char>, count: nat) -> bool {
    let ms = members(list);
    &&& 0 < ms.len() < MAX_CLUSTERS_PER_LINE
    &&& ms.len() + count <= MAX_CLUSTERS_PER_LINE
    &&& !ms.contains(cluster)
}

/// The line that the key-ring line `line`, matched as `m`, becomes when the
/// cluster joins it; `None` where it has no room.
pub open spec fn joined_line(
    line: Seq<char>,
    m: Option<Seq<Option<Seq<char>>>>,
    cluster: Seq<char>,
    count: nat,
) -> Option<Seq<char>> {
    match m {
        Some(c) => match group(c, 3) {
            Some(list) => if joins_with_room(list, cluster, count) {
                Some(trim_end(line) + seq![','] + cluster)
            } else {
                None
            },
            None => None,
        },
        None => None,
    }
}

/// The key ring and donor reported when the cluster joins the key-ring
/// line matched as `m`: the ring's name and its first member.
pub open spec fn joined_key(m: Option<Seq<Option<Seq<char>>>>, cluster: Seq<char>, count: nat) -> Option<
    (Seq<char>, Seq<char>),
> {
    match m {
        Some(c) => match (group(c, 1), group(c, 3)) {
            (Some(g), Some(list)) => if joins_with_room(list, cluster, count) {
                Some((g, members(list)[0]))
            } else {
                None
            },
            _ => None,
        },
        None => None,
    }
}

/// A new key-ring line: the ring numbered `n`, its default donor, then the
/// cluster.
pub open spec fn new_ring_line(prefix: Seq<char>, n: nat, cluster: Seq<char>) -> Seq<char> {
    prefix + decimal(n) + seq!['='] + default_donor(prefix) + seq![','] + cluster
}

/// What a written line can be: empty, a line of the input, a key ring of
/// the input that the cluster joined with room for it, or a new key ring.
pub open spec fn written_line_ok(
    l: Seq<char>,
    ls: Seq<Seq<char>>,
    ms: Seq<Option<Seq<Option<Seq<char>>>>>,
    cluster: Seq<char>,
    count: nat,
    prefix: Seq<char>,
) -> bool {
    ||| l.len() == 0
    ||| exists|j: int| 0 <= j < ls.len() && #[trigger] ls[j] == l
    ||| exists|j: int|
        0 <= j < ls.len() && #[trigger] joined_line(ls[j], ms[j], cluster, count) == Some(l)
    ||| exists|n: nat| l == #[trigger] new_ring_line(prefix, n, cluster)
}

/// Where a reported key ring and donor come from: a key ring of the input
/// with room (its name and first member), or a new key ring with the
/// island's default donor.
pub open spec fn key_ring_origin(
    g: Seq<char>,
    d: Seq<char>,
    ms: Seq<Option<Seq<Option<Seq<char>>>>>,
    cluster: Seq<char>,
    count: nat,
    prefix: Seq<char>,
) -> bool {
    ||| exists|j: int|
        0 <= j < ms.len() && #[trigger] joined_key(ms[j], cluster, count) == Some((g, d))
    ||| exists|n: nat| g == #[trigger] (prefix + decimal(n)) && d == default_donor(prefix)
}

/// The scan's outcome keeps the capacity of key rings: every written line
/// is an input line, empty, a joined key ring (with room for the cluster),
/// or a new key ring; a reported key ring comes from one of the last two.
pub open spec fn outcome_traced(
    m: RingModel,
    ls: Seq<Seq<char>>,
    ms: Seq<Option<Seq<Option<Seq<char>>>>>,
    cluster: Seq<char>,
    count: nat,
    prefix: Seq<char>,
) -> bool {
    &&& forall|k: int|
        0 <= k < m.out.len() ==> written_line_ok(#[trigger] m.out[k], ls, ms, cluster, count, prefix)
    &&& m.added matches Some(g) ==> key_ring_origin(g, m.donor, ms, cluster, count, prefix)
}


/// The update's scan keeps the capacity of key rings (`outcome_traced`),
/// traced to the lines it scanned and what the key-ring pattern found in
/// them.
pub open spec fn update_traced(contents: Seq<char>, section: Seq<char>, cluster: Seq<char>, count: nat) -> bool {
    match mark_section_lines(lines(contents), section, cluster) {
        None => false,
        Some(marked) => {
            let lines_in = lines(join(marked, crlf()));
            let prefix = group_prefix(section);
            let pattern = key_ring_pattern(prefix);
            let ms = lines_in.map_values(|l: Seq<char>| regex_captures(pattern, l));
            ring_outcome(lines_in, ms, cluster, count, prefix) matches Ok(m) && outcome_traced(
                m,
                lines_in,
                ms,
                cluster,
                count,
                prefix,
            )
        },
    }
}


/// The key-ring prefix of each island's INI section is built from the
/// section's name: `Autopilot_Internal_`, the name without its `All`, and
/// `_`. Any other section gets the prefix `None`.
pub proof fn lemma_key_ring_prefix_names_section(section: Seq<char>)
    ensures
        (section == "PilotfishAll"@ || section == "BlackForestAll"@ || section == "MooncakeAll"@
            || section == "FairfaxAll"@ || section == "FairfaxDodAll"@ || section == "USNatAll"@
            || section == "USSecAll"@) ==> group_prefix(section) == "Autopilot_Internal_"@
            + section.take(section.len() - 3) + "_"@,
        !(section == "PilotfishAll"@ || section == "BlackForestAll"@ || section == "MooncakeAll"@
            || section == "FairfaxAll"@ || section == "FairfaxDodAll"@ || section == "USNatAll"@
            || section == "USSecAll"@) ==> group_prefix(section) == "None"@,
{
    reveal_strlit("PilotfishAll");
    reveal_strlit("BlackForestAll");
    reveal_strlit("MooncakeAll");
    reveal_strlit("FairfaxAll");
    reveal_strlit("FairfaxDodAll");
    reveal_strlit("USNatAll");
    reveal_strlit("USSecAll");
    reveal_strlit("Autopilot_Internal_");
    reveal_strlit("_");
    reveal_strlit("Autopilot_Internal_Pilotfish_");
    reveal_strlit("Autopilot_Internal_BlackForest_");
    reveal_strlit("Autopilot_Internal_Mooncake_");
    reveal_strlit("Autopilot_Internal_Fairfax_");
    reveal_strlit("Autopilot_Internal_FairfaxDod_");
    reveal_strlit("Autopilot_Internal_USNat_");
    reveal_strlit("Autopilot_Internal_USSec_");
    let t = "Autopilot_Internal_"@ + section.take(section.len() - 3) + "_"@;
    if section == "PilotfishAll"@ {
        assert(t =~= "Autopilot_Internal_Pilotfish_"@);
    } else if section == "BlackForestAll"@ {
        assert(t =~= "Autopilot_Internal_BlackForest_"@);
    } else if section == "MooncakeAll"@ {
        assert(t =~= "Autopilot_Internal_Mooncake_"@);
    } else if section == "FairfaxAll"@ {
        assert(t =~= "Autopilot_Internal_Fairfax_"@);
    } else if section == "FairfaxDodAll"@ {
        assert(t =~= "Autopilot_Internal_FairfaxDod_"@);
    } else if section == "USNatAll"@ {
        assert(t =~= "Autopilot_Internal_USNat_"@);
    } else if section == "USSecAll"@ {
        assert(t =~= "Autopilot_Internal_USSec_"@);
    }
}

/// The inputs of a scan, for tracing where written lines come from.
pub struct RingTrace {
    pub lines: Seq<Seq<char>>,
    pub matches: Seq<Option<Seq<Option<Seq<char>>>>>,
    pub cluster: Seq<char>,
    pub count: nat,
    pub prefix: Seq<char>,
}

/// `line` is input line `i` (or, past the last line, empty).
pub open spec fn line_from(t: RingTrace, i: int, line: Seq<char>, eod: bool) -> bool {
    &&& eod ==> line.len() == 0
    &&& !eod ==> 0 <= i < t.lines.len() && t.lines[i] == line
}

/// A line taken from the input may be written.
proof fn lemma_input_line_ok(t: RingTrace, i: int, line: Seq<char>, eod: bool)
    requires
        line_from(t, i, line, eod),
    ensures
        written_line_ok(line, t.lines, t.matches, t.cluster, t.count, t.prefix),
{
    if !eod {
        assert(t.lines[i] == line);
    }
}


/// A new key ring gets a donor from the ring's own island: for each island
/// with an INI section, and for Black Forest, whose section is
/// `BlackForestAll`, the default donor of the section's key-ring prefix is
/// an uppercase ASCII cluster name that the island classifier puts in that
/// island.
pub proof fn lemma_default_donor_island(a: Archipelago)
    ensures
        ini_section_of(archipelago_name(a)) is Some ==> donor_in_island(
            default_donor(group_prefix(ini_section_of(archipelago_name(a))->0)),
            a,
        ),
        donor_in_island(default_donor(group_prefix("BlackForestAll"@)), Archipelago::BlackForest),
{
    reveal_strlit("PublicPilotfish");
    reveal_strlit("FairFax");
    reveal_strlit("FairFaxDod");
    reveal_strlit("USNat");
    reveal_strlit("USSec");
    reveal_strlit("Mooncake");
    reveal_strlit("Xbox");
    reveal_strlit("ApClassic");
    reveal_strlit("BlackForest");
    reveal_strlit("No Island Found.");
    reveal_strlit("PilotfishAll");
    reveal_strlit("BlackForestAll");
    reveal_strlit("MooncakeAll");
    reveal_strlit("FairfaxAll");
    reveal_strlit("FairfaxDodAll");
    reveal_strlit("USNatAll");
    reveal_strlit("USSecAll");
    reveal_strlit("Autopilot_Internal_Pilotfish_");
    reveal_strlit("Autopilot_Internal_BlackForest_");
    reveal_strlit("Autopilot_Internal_Mooncake_");
    reveal_strlit("Autopilot_Internal_Fairfax_");
    reveal_strlit("Autopilot_Internal_FairfaxDod_");
    reveal_strlit("Autopilot_Internal_USNat_");
    reveal_strlit("Autopilot_Internal_USSec_");
    reveal_strlit("DM2P");
    reveal_strlit("FR1N");
    reveal_strlit("BJ1N");
    reveal_strlit("BN1N");
    reveal_strlit("DM3N");
    reveal_strlit("GRN01N");
    reveal_strlit("SAT01N");
    lemma_legacy_national_clusters();
    lemma_uppercase_name("DM2P"@);
    lemma_uppercase_name("FR1N"@);
    lemma_uppercase_name("BJ1N"@);
    lemma_uppercase_name("BN1N"@);
    lemma_uppercase_name("DM3N"@);
    lemma_uppercase_name("GRN01N"@);
    lemma_uppercase_name("SAT01N"@);
    assert("PublicPilotfish"@.len() == 15);
    assert("FairFax"@.len() == 7);
    assert("FairFaxDod"@.len() == 10);
    assert("USNat"@.len() == 5);
    assert("USSec"@.len() == 5);
    assert("Mooncake"@.len() == 8);
    assert("Autopilot_Internal_Pilotfish_"@.len() == 29);
    assert("Autopilot_Internal_BlackForest_"@.len() == 31);
    assert("Autopilot_Internal_Mooncake_"@.len() == 28);
    assert("Autopilot_Internal_Fairfax_"@.len() == 27);
    assert("Autopilot_Internal_FairfaxDod_"@.len() == 30);
    assert("Autopilot_Internal_USNat_"@.len() == 25);
    assert("Autopilot_Internal_USSec_"@.len() == 25);
    assert("USNat"@[2] != "USSec"@[2]);
    assert("USNatAll"@[2] != "USSecAll"@[2]);
    assert("Autopilot_Internal_USNat_"@[21] != "Autopilot_Internal_USSec_"@[21]);
    assert("PilotfishAll"@.len() == 12);
    assert("BlackForestAll"@.len() == 14);
    assert("MooncakeAll"@.len() == 11);
    assert("FairfaxAll"@.len() == 10);
    assert("FairfaxDodAll"@.len() == 13);
    assert("USNatAll"@.len() == 8);
    assert("USSecAll"@.len() == 8);
    assert(group_prefix("BlackForestAll"@) == "Autopilot_Internal_BlackForest_"@);
    assert(default_donor("Autopilot_Internal_BlackForest_"@) == "FR1N"@);
    assert("FR1N"@.last() == 'N');
    match a {
        Archipelago::PublicPilotfish => {
            assert(ini_section_of(archipelago_name(a)) == Some("PilotfishAll"@));
            assert(group_prefix("PilotfishAll"@) == "Autopilot_Internal_Pilotfish_"@);
            assert(default_donor("Autopilot_Internal_Pilotfish_"@) == "DM2P"@);
            assert("DM2P"@.last() == 'P');
        },
        Archipelago::FairFax => {
            assert(ini_section_of(archipelago_name(a)) == Some("FairfaxAll"@));
            assert(group_prefix("FairfaxAll"@) == "Autopilot_Internal_Fairfax_"@);
            assert(default_donor("Autopilot_Internal_Fairfax_"@) == "BN1N"@);
            assert("BN1N"@.last() == 'N');
        },
        Archipelago::FairFaxDod => {
            assert(ini_section_of(archipelago_name(a)) == Some("FairfaxDodAll"@));
            assert(group_prefix("FairfaxDodAll"@) == "Autopilot_Internal_FairfaxDod_"@);
            assert(default_donor("Autopilot_Internal_FairfaxDod_"@) == "DM3N"@);
            assert("DM3N"@.last() == 'N');
        },
        Archipelago::USNat => {
            assert(ini_section_of(archipelago_name(a)) == Some("USNatAll"@));
            assert(group_prefix("USNatAll"@) == "Autopilot_Internal_USNat_"@);
            assert(default_donor("Autopilot_Internal_USNat_"@) == "GRN01N"@);
            assert("GRN01N"@.last() == 'N');
        },
        Archipelago::USSec => {
            assert(ini_section_of(archipelago_name(a)) == Some("USSecAll"@));
            assert(group_prefix("USSecAll"@) == "Autopilot_Internal_USSec_"@);
            assert(default_donor("Autopilot_Internal_USSec_"@) == "SAT01N"@);
            assert("SAT01N"@.last() == 'N');
        },
        Archipelago::Mooncake => {
            assert(ini_section_of(archipelago_name(a)) == Some("MooncakeAll"@));
            assert(group_prefix("MooncakeAll"@) == "Autopilot_Internal_Mooncake_"@);
            assert(default_donor("Autopilot_Internal_Mooncake_"@) == "BJ1N"@);
            assert("BJ1N"@.last() == 'N');
        },
        Archipelago::Xbox => {
            assert("Xbox"@.len() == 4);
        },
        Archipelago::ApClassic => {
            assert("ApClassic"@.len() == 9);
        },
        Archipelago::BlackForest => {
            assert("BlackForest"@.len() == 11);
        },
        Archipelago::NotFound => {
            assert("No Island Found."@.len() == 16);
        },
    }
}

/// `d` is a cluster name of island `a`: uppercase ASCII, not empty, and
/// classified (by its last character) in `a`.
pub open spec fn donor_in_island(d: Seq<char>, a: Archipelago) -> bool {
    &&& d.len() > 0
    &&& all_ascii(d)
    &&& d.map_values(|c: char| ascii_upper_char(c)) == d
    &&& classify(d, d.last()) == Some(a)
}

/// A name made of digits and uppercase ASCII letters is its own ASCII
/// uppercase form.
proof fn lemma_uppercase_name(d: Seq<char>)
    requires
        forall|i: int| 0 <= i < d.len() ==> ('0' <= #[trigger] d[i] <= '9' || 'A' <= d[i] <= 'Z'),
    ensures
        all_ascii(d),
        d.map_values(|c: char| ascii_upper_char(c)) == d,
{
    assert(d.map_values(|c: char| ascii_upper_char(c)) =~= d);
}

/// The default donors are single names: no comma, no surrounding blanks,
/// not empty.
proof fn lemma_default_donor_plain(prefix: Seq<char>)
    ensures
        !default_donor(prefix).contains(','),
        trim(default_donor(prefix)) == default_donor(prefix),
        default_donor(prefix).len() > 0,
{
    reveal_strlit("Autopilot_Internal_Pilotfish_");
    reveal_strlit("Autopilot_Internal_BlackForest_");
    reveal_strlit("Autopilot_Internal_Mooncake_");
    reveal_strlit("Autopilot_Internal_Fairfax_");
    reveal_strlit("Autopilot_Internal_FairfaxDod_");
    reveal_strlit("Autopilot_Internal_USNat_");
    reveal_strlit("Autopilot_Internal_USSec_");
    reveal_strlit("DM2P");
    reveal_strlit("FR1N");
    reveal_strlit("BJ1N");
    reveal_strlit("BN1N");
    reveal_strlit("DM3N");
    reveal_strlit("GRN01N");
    reveal_strlit("SAT01N");
    reveal_strlit("None");
    let d = default_donor(prefix);
    assert(d.len() > 0);
    assert(!is_ws(d[0]));
    assert(!is_ws(d.last()));
    assert(trim_start(d) == d);
    assert(trim_end(d) == d);
    assert(!d.contains(',')) by {
        if d.contains(',') {
            let k = choose|k: int| 0 <= k < d.len() && d[k] == ',';
        }
    }
}

/// Key rings keep their capacity, for a cluster name without a comma: a
/// key-ring line the cluster joins (one with room for it and the clusters
/// still to come) is written as the line with `,CLUSTER` appended, and its
/// members become the old ones and then the cluster, at most five, the
/// reported donor first; a new key ring lists its default donor and then
/// the cluster.
pub proof fn lemma_key_ring_capacity(
    line: Seq<char>,
    m: Option<Seq<Option<Seq<char>>>>,
    cluster: Seq<char>,
    count: nat,
    prefix: Seq<char>,
)
    requires
        !cluster.contains(','),
        trim(cluster).len() > 0,
    ensures
        joined_line(line, m, cluster, count) matches Some(l) ==> {
            let list = group(m->0, 3)->0;
            let after = members(list + seq![','] + cluster);
            &&& l == trim_end(line) + seq![','] + cluster
            &&& after == members(list).push(trim(cluster))
            &&& after.len() <= MAX_CLUSTERS_PER_LINE
            &&& after[0] == members(list)[0]
            &&& after.last() == trim(cluster)
        },
        joined_key(m, cluster, count) matches Some((g, d)) ==> d == members(group(m->0, 3)->0)[0]
            && joined_line(line, m, cluster, count) is Some,
        members(default_donor(prefix) + seq![','] + cluster) == seq![
            default_donor(prefix),
            trim(cluster),
        ],
{
    lemma_default_donor_plain(prefix);
    let donor = default_donor(prefix);
    if let Some(c) = m {
        if let Some(list) = group(c, 3) {
            lemma_member_lists(list, cluster, count, donor);
        } else {
            lemma_member_lists(seq![], cluster, count, donor);
        }
    } else {
        lemma_member_lists(seq![], cluster, count, donor);
    }
}

/// Some written line ends with `,CLUSTER`.
pub open spec fn names_cluster_at_end(out: Seq<Seq<char>>, cluster: Seq<char>) -> bool {
    exists|k: int| 0 <= k < out.len() && ends_with(#[trigger] out[k], seq![','] + cluster)
}

// ---------------------------------------------------------------------------
// Executable update
// ---------------------------------------------------------------------------

/// Whether `v` is the text `lit`.
fn is_text(v: &Vec<char>, lit: &str) -> (r: bool)
    ensures
        r == (v@ == lit@),
{
    let w = chars_of(lit);
    crate::text::same_text(v, &w)
}

/// The key-ring name prefix of `section`.
pub fn key_ring_prefix(section: &str) -> (r: &'static str)
    ensures
        r@ == group_prefix(section@),
{
    if str_eq(section, "PilotfishAll") {
        "Autopilot_Internal_Pilotfish_"
    } else if str_eq(section, "BlackForestAll") {
        "Autopilot_Internal_BlackForest_"
    } else if str_eq(section, "MooncakeAll") {
        "Autopilot_Internal_Mooncake_"
    } else if str_eq(section, "FairfaxAll") {
        "Autopilot_Internal_Fairfax_"
    } else if str_eq(section, "FairfaxDodAll") {
        "Autopilot_Internal_FairfaxDod_"
    } else if str_eq(section, "USNatAll") {
        "Autopilot_Internal_USNat_"
    } else if str_eq(section, "USSecAll") {
        "Autopilot_Internal_USSec_"
    } else {
        "None"
    }
}

/// The donor of a new key ring with key-ring prefix `prefix`.
fn donor_for(prefix: &Vec<char>) -> (r: Vec<char>)
    ensures
        r@ == default_donor(prefix@),
{
    let name = if is_text(prefix, "Autopilot_Internal_Pilotfish_") {
        "DM2P"
    } else if is_text(prefix, "Autopilot_Internal_BlackForest_") {
        "FR1N"
    } else if is_text(prefix, "Autopilot_Internal_Mooncake_") {
        "BJ1N"
    } else if is_text(prefix, "Autopilot_Internal_Fairfax_") {
        "BN1N"
    } else if is_text(prefix, "Autopilot_Internal_FairfaxDod_") {
        "DM3N"
    } else if is_text(prefix, "Autopilot_Internal_USNat_") {
        "GRN01N"
    } else if is_text(prefix, "Autopilot_Internal_USSec_") {
        "SAT01N"
    } else {
        "None"
    };
    chars_of(name)
}

/// Capture group `i` of a match.
fn group_text(c: &Vec<Option<String>>, i: usize) -> (r: Option<Vec<char>>)
    ensures
        r matches Some(v) ==> group(c.deep_view(), i as int) == Some(v@),
        r is None ==> group(c.deep_view(), i as int) is None,
{
    if i < c.len() {
        match &c[i] {
            Some(s) => Some(chars_of(s.as_str())),
            None => None,
        }
    } else {
        None
    }
}

/// The clusters of a key-ring member list.
fn members_of(list: &Vec<char>) -> (r: Vec<Vec<char>>)
    ensures
        texts(r@) == members(list@),
{
    let parts = split_at_char(list, ',');
    let mut r: Vec<Vec<char>> = Vec::new();
    let mut i: usize = 0;
    while i < parts.len()
        invariant
            i <= parts.len(),
            texts(r@) == nonempty_trimmed(texts(parts@).take(i as int)),
        decreases parts.len() - i,
    {
        let ghost before = texts(parts@).take(i as int);
        assert(texts(parts@).take(i + 1).drop_last() =~= before);
        let t = trim_chars(&parts[i]);
        if t.len() > 0 {
            let ghost old_r = r@;
            r.push(t);
            assert(texts(r@) =~= texts(old_r).push(t@));
        }
        i = i + 1;
    }
    assert(texts(parts@).take(i as int) =~= texts(parts@));
    r
}

/// The executable state of the key-ring scan.
struct RingRun {
    phase: Phase,
    last_idx: usize,
    highest: usize,
    added: Option<Vec<char>>,
    out: Vec<Vec<char>>,
    donor: Vec<char>,
    found_home: bool,
}

impl RingRun {
    spec fn model(&self) -> RingModel {
        RingModel {
            phase: self.phase,
            last_idx: self.last_idx as nat,
            highest: self.highest as nat,
            added: match self.added {
                Some(g) => Some(g@),
                None => None,
            },
            out: texts(self.out@),
            donor: self.donor@,
            found_home: self.found_home,
        }
    }

    /// While key-ring lines are being seen, the last one without room is
    /// among the lines written.
    spec fn inv(&self) -> bool {
        self.phase == Phase::SeenSomeMatch ==> self.last_idx < self.out.len()
    }

    /// Before the cluster is placed no key ring is reported; once it is,
    /// a written line ends with `,CLUSTER`.
    spec fn placed(&self, cluster: Seq<char>) -> bool {
        &&& self.phase != Phase::Done ==> self.added is None
        &&& self.added is Some ==> names_cluster_at_end(texts(self.out@), cluster)
    }

    /// Every written line and the reported key ring are traced to the
    /// inputs `t`.
    spec fn traced(&self, t: RingTrace) -> bool {
        outcome_traced(self.model(), t.lines, t.matches, t.cluster, t.count, t.prefix)
    }

    fn push_line(&mut self, line: Vec<char>, Ghost(t): Ghost<RingTrace>)
        requires
            old(self).traced(t),
            written_line_ok(line@, t.lines, t.matches, t.cluster, t.count, t.prefix),
        ensures
            final(self).traced(t),
            final(self).model() == (RingModel { out: old(self).model().out.push(line@), ..old(self).model() }),
            final(self).out.len() == old(self).out.len() + 1,
            final(self).phase == old(self).phase,
            final(self).last_idx == old(self).last_idx,
            final(self).added == old(self).added,
            forall|k: int| 0 <= k < old(self).out.len() ==> #[trigger] texts(final(self).out@)[k] == texts(old(self).out@)[k],
            texts(final(self).out@)[old(self).out.len() as int] == line@,
    {
        let ghost old_out = self.out@;
        let ghost l = line@;
        self.out.push(line);
        assert(texts(self.out@) =~= texts(old_out).push(l));
        assert forall|k: int| 0 <= k < texts(self.out@).len() implies written_line_ok(
            #[trigger] texts(self.out@)[k],
            t.lines,
            t.matches,
            t.cluster,
            t.count,
            t.prefix,
        ) by {
            if k < old_out.len() {
                assert(texts(self.out@)[k] == texts(old_out)[k]);
            }
        }
    }

    /// One line in phase `SeenSomeMatch`.
    fn seen(
        &mut self,
        line: &Vec<char>,
        eod: bool,
        blank: bool,
        caps: Option<&Vec<Option<String>>>,
        cluster: &Vec<char>,
        count: usize,
        prefix: &Vec<char>,
        Ghost(t): Ghost<RingTrace>,
        Ghost(i): Ghost<int>,
    ) -> (r: Result<(), KeyRingError>)
        requires
            old(self).phase == Phase::SeenSomeMatch,
            caps is Some || old(self).inv(),
            old(self).placed(cluster@),
            old(self).traced(t),
            t.cluster == cluster@,
            t.count == count as nat,
            t.prefix == prefix@,
            line_from(t, i, line@, eod),
            t.matches.len() == t.lines.len(),
            caps is Some ==> !eod && t.matches[i] == caps.deep_view(),
        ensures
            r is Ok ==> final(self).placed(cluster@),
            r is Ok ==> final(self).traced(t),
            r matches Ok(_) ==> ring_seen(
                old(self).model(),
                line@,
                eod,
                blank,
                caps.deep_view(),
                cluster@,
                count as nat,
                prefix@,
            ) == Ok::<RingModel, KeyRingError>(final(self).model()) && final(self).inv(),
            r matches Err(e) ==> ring_seen(
                old(self).model(),
                line@,
                eod,
                blank,
                caps.deep_view(),
                cluster@,
                count as nat,
                prefix@,
            ) == Err::<RingModel, KeyRingError>(e),
    {
        match caps {
            Some(c) => {
                let list = match group_text(c, 3) {
                    None => {
                        return Err(KeyRingError::MissingGroup);
                    },
                    Some(list) => list,
                };
                let clusters = members_of(&list);
                let fh = list_contains(&clusters, cluster);
                if clusters.len() < MAX_CLUSTERS_PER_LINE && !fh && count <= MAX_CLUSTERS_PER_LINE
                    - clusters.len() {
                    if clusters.len() == 0 {
                        return Err(KeyRingError::EmptyKeyRing);
                    }
                    let g = match group_text(c, 1) {
                        None => {
                            return Err(KeyRingError::MissingGroup);
                        },
                        Some(g) => g,
                    };
                    assert(texts(clusters@)[0] == clusters@[0]@);
                    let donor = clusters[0].clone();
                    let mut revised = trim_end_chars(line);
                    revised.push(',');
                    push_all(&mut revised, cluster);
                    assert(revised@ =~= trim_end(line@) + seq![','] + cluster@);
                    proof {
                        assert(joined_line(t.lines[i], t.matches[i], t.cluster, t.count) == Some(revised@));
                        assert(joined_key(t.matches[i], t.cluster, t.count) == Some((g@, donor@)));
                    }
                    self.donor = donor;
                    self.added = Some(g);
                    self.found_home = fh;
                    self.phase = Phase::Done;
                    let ghost at = self.out.len() as int;
                    let ghost rv = revised@;
                    self.push_line(revised, Ghost(t));
                    proof {
                        assert(rv.subrange(rv.len() - (cluster@.len() + 1), rv.len() as int) =~= seq![','] + cluster@);
                        assert(ends_with(texts(self.out@)[at], seq![','] + cluster@));
                    }
                    Ok(())
                } else {
                    self.last_idx = self.out.len();
                    self.found_home = fh;
                    proof {
                        lemma_input_line_ok(t, i, line@, eod);
                    }
                    self.push_line(line.clone(), Ghost(t));
                    Ok(())
                }
            },
            None => {
                proof {
                    lemma_input_line_ok(t, i, line@, eod);
                }
                if blank {
                    self.push_line(line.clone(), Ghost(t));
                    return Ok(());
                }
                if !eod {
                    self.push_line(line.clone(), Ghost(t));
                }
                if !self.found_home {
                    if self.highest == usize::MAX {
                        return Err(KeyRingError::GroupNumberOverflow);
                    }
                    let donor = donor_for(prefix);
                    let number = decimal_chars((self.highest + 1) as u64);
                    let g = concat(prefix, &number);
                    let mut new_line = g.clone();
                    new_line.push('=');
                    push_all(&mut new_line, &donor);
                    new_line.push(',');
                    push_all(&mut new_line, cluster);
                    assert(new_line@ =~= g@ + seq!['='] + donor@ + seq![','] + cluster@);
                    let ghost old_out = self.out@;
                    let ghost n: nat = (self.highest + 1) as nat;
                    let at = self.last_idx + 1;
                    proof {
                        assert(new_line@ == new_ring_line(t.prefix, n, t.cluster));
                        assert(g@ == t.prefix + decimal(n));
                    }
                    self.out.insert(at, new_line);
                    assert(texts(self.out@) =~= texts(old_out).insert(at as int, new_line@));
                    assert forall|k: int| 0 <= k < texts(self.out@).len() implies written_line_ok(
                        #[trigger] texts(self.out@)[k],
                        t.lines,
                        t.matches,
                        t.cluster,
                        t.count,
                        t.prefix,
                    ) by {
                        if k < at {
                            assert(texts(self.out@)[k] == texts(old_out)[k]);
                        } else if k > at {
                            assert(texts(self.out@)[k] == texts(old_out)[k - 1]);
                        }
                    }
                    proof {
                        let nl = new_line@;
                        assert(nl.subrange(nl.len() - (cluster@.len() + 1), nl.len() as int) =~= seq![','] + cluster@);
                        assert(ends_with(texts(self.out@)[at as int], seq![','] + cluster@));
                    }
                    self.donor = donor;
                    self.added = Some(g);
                    self.phase = Phase::Done;
                    Ok(())
                } else {
                    Ok(())
                }
            },
        }
    }

    /// One line, after its key-ring number has been read.
    fn dispatch(
        &mut self,
        line: &Vec<char>,
        eod: bool,
        blank: bool,
        caps: Option<&Vec<Option<String>>>,
        cluster: &Vec<char>,
        count: usize,
        prefix: &Vec<char>,
        Ghost(t): Ghost<RingTrace>,
        Ghost(i): Ghost<int>,
    ) -> (r: Result<(), KeyRingError>)
        requires
            old(self).inv(),
            old(self).placed(cluster@),
            old(self).traced(t),
            t.cluster == cluster@,
            t.count == count as nat,
            t.prefix == prefix@,
            line_from(t, i, line@, eod),
            t.matches.len() == t.lines.len(),
            caps is Some ==> !eod && t.matches[i] == caps.deep_view(),
        ensures
            r is Ok ==> final(self).placed(cluster@),
            r is Ok ==> final(self).traced(t),
            r matches Ok(_) ==> ring_dispatch(
                old(self).model(),
                line@,
                eod,
                blank,
                caps.deep_view(),
                cluster@,
                count as nat,
                prefix@,
            ) == Ok::<RingModel, KeyRingError>(final(self).model()) && final(self).inv(),
            r matches Err(e) ==> ring_dispatch(
                old(self).model(),
                line@,
                eod,
                blank,
                caps.deep_view(),
                cluster@,
                count as nat,
                prefix@,
            ) == Err::<RingModel, KeyRingError>(e),
    {
        match self.phase {
            Phase::Initial => {
                if caps.is_some() {
                    self.phase = Phase::SeenSomeMatch;
                    self.seen(line, eod, blank, caps, cluster, count, prefix, Ghost(t), Ghost(i))
                } else {
                    proof {
                        lemma_input_line_ok(t, i, line@, eod);
                    }
                    self.push_line(line.clone(), Ghost(t));
                    Ok(())
                }
            },
            Phase::SeenSomeMatch => self.seen(line, eod, blank, caps, cluster, count, prefix, Ghost(t), Ghost(i)),
            Phase::Done => {
                if !eod {
                    let ghost before = texts(self.out@);
                    proof {
                        lemma_input_line_ok(t, i, line@, eod);
                    }
                    self.push_line(line.clone(), Ghost(t));
                    proof {
                        if self.added is Some {
                            let k = choose|k: int| 0 <= k < before.len() && ends_with(#[trigger] before[k], seq![','] + cluster@);
                            assert(texts(self.out@)[k] == before[k]);
                        }
                    }
                }
                Ok(())
            },
        }
    }

    /// One line (`eod`: past the last line), with its match `m`.
    fn step(
        &mut self,
        line: &Vec<char>,
        eod: bool,
        m: Option<&Vec<Option<String>>>,
        cluster: &Vec<char>,
        count: usize,
        prefix: &Vec<char>,
        Ghost(t): Ghost<RingTrace>,
        Ghost(i): Ghost<int>,
    ) -> (r: Result<(), KeyRingError>)
        requires
            old(self).inv(),
            old(self).placed(cluster@),
            old(self).traced(t),
            t.cluster == cluster@,
            t.count == count as nat,
            t.prefix == prefix@,
            line_from(t, i, line@, eod),
            t.matches.len() == t.lines.len(),
            eod ==> m is None,
            !eod ==> t.matches[i] == m.deep_view(),
        ensures
            r is Ok ==> final(self).placed(cluster@),
            r is Ok ==> final(self).traced(t),
            r matches Ok(_) ==> ring_step(
                old(self).model(),
                line@,
                eod,
                m.deep_view(),
                cluster@,
                count as nat,
                prefix@,
            ) == Ok::<RingModel, KeyRingError>(final(self).model()) && final(self).inv(),
            r matches Err(e) ==> ring_step(
                old(self).model(),
                line@,
                eod,
                m.deep_view(),
                cluster@,
                count as nat,
                prefix@,
            ) == Err::<RingModel, KeyRingError>(e),
    {
        let blank = !eod && trim_chars(line).len() == 0;
        let caps = if self.phase != Phase::Done && !blank && !eod {
            m
        } else {
            None
        };
        match caps {
            None => self.dispatch(line, eod, blank, None, cluster, count, prefix, Ghost(t), Ghost(i)),
            Some(c) => {
                let num = match group_text(c, 2) {
                    None => {
                        return Err(KeyRingError::MissingGroup);
                    },
                    Some(num) => num,
                };
                match parse_usize(&num) {
                    None => Err(KeyRingError::InvalidGroupNumber),
                    Some(k) => {
                        if self.highest < k {
                            self.highest = k;
                        }
                        self.dispatch(line, eod, blank, caps, cluster, count, prefix, Ghost(t), Ghost(i))
                    },
                }
            },
        }
    }
}

/// `r` reports the outcome `o` of the key-ring update.
pub open spec fn reports(r: Result<KeyRingUpdate, KeyRingError>, o: Result<RingModel, KeyRingError>) -> bool {
    match (r, o) {
        (Ok(u), Ok(m)) => describes(u, m),
        (Err(e), Err(f)) => e == f,
        _ => false,
    }
}

/// Once the scan has failed on a line, it fails the same way on any longer
/// list of lines.
proof fn lemma_fold_error_sticks(
    ls: Seq<Seq<char>>,
    ms: Seq<Option<Seq<Option<Seq<char>>>>>,
    k: int,
    cluster: Seq<char>,
    count: nat,
    prefix: Seq<char>,
)
    requires
        0 <= k <= ls.len(),
        ls.len() == ms.len(),
        ring_fold(ls.take(k), ms.take(k), cluster, count, prefix) is Err,
    ensures
        ring_fold(ls, ms, cluster, count, prefix) == ring_fold(
            ls.take(k),
            ms.take(k),
            cluster,
            count,
            prefix,
        ),
    decreases ls.len() - k,
{
    if k < ls.len() {
        assert(ls.take(k + 1).drop_last() =~= ls.take(k));
        assert(ms.take(k + 1).drop_last() =~= ms.take(k));
        lemma_fold_error_sticks(ls, ms, k + 1, cluster, count, prefix);
    } else {
        assert(ls.take(k) =~= ls);
        assert(ms.take(k) =~= ms);
    }
}

/// The key-ring scan over `lines`, where `matches[i]` is what the key-ring
/// pattern of `ini_section` found in `lines[i]`: the cluster joins the
/// first key ring with room for it and the clusters still to come, else a
/// new key ring is added after the last key-ring line.
pub fn key_ring_plan(
    lines: &Vec<String>,
    matches: &Vec<Option<Vec<Option<String>>>>,
    ini_section: &str,
    cluster_name: &str,
    cluster_count: usize,
) -> (r: Result<KeyRingUpdate, KeyRingError>)
    requires
        matches.len() == lines.len(),
    ensures
        reports(
            r,
            ring_outcome(
                lines.deep_view(),
                matches.deep_view(),
                cluster_name@,
                cluster_count as nat,
                group_prefix(ini_section@),
            ),
        ),
        r matches Ok(u) ==> (u.added is Some ==> contains_text(u.content@, seq![','] + cluster_name@)),
        r is Ok ==> (ring_outcome(
            lines.deep_view(),
            matches.deep_view(),
            cluster_name@,
            cluster_count as nat,
            group_prefix(ini_section@),
        ) matches Ok(m) && outcome_traced(
            m,
            lines.deep_view(),
            matches.deep_view(),
            cluster_name@,
            cluster_count as nat,
            group_prefix(ini_section@),
        )),
{
    let cluster = chars_of(cluster_name);
    let prefix = chars_of(key_ring_prefix(ini_section));
    let ghost ls = lines.deep_view();
    let ghost ms = matches.deep_view();
    let mut run = RingRun {
        phase: Phase::Initial,
        last_idx: 0,
        highest: 0,
        added: None,
        out: Vec::new(),
        donor: Vec::new(),
        found_home: false,
    };
    assert(run.model() == ring_start()) by {
        assert(texts(run.out@) =~= Seq::<Seq<char>>::empty());
        assert(run.donor@ =~= Seq::<char>::empty());
    }
    assert(ls.take(0) =~= Seq::<Seq<char>>::empty());
    let ghost trace = RingTrace {
        lines: ls,
        matches: ms,
        cluster: cluster@,
        count: cluster_count as nat,
        prefix: prefix@,
    };
    let mut i: usize = 0;
    while i < lines.len()
        invariant
            i <= lines.len(),
            matches.len() == lines.len(),
            ls == lines.deep_view(),
            ms == matches.deep_view(),
            cluster@ == cluster_name@,
            prefix@ == group_prefix(ini_section@),
            ring_fold(ls.take(i as int), ms.take(i as int), cluster@, cluster_count as nat, prefix@)
                == Ok::<RingModel, KeyRingError>(run.model()),
            run.inv(),
            run.placed(cluster@),
            run.traced(trace),
            trace == (RingTrace { lines: ls, matches: ms, cluster: cluster@, count: cluster_count as nat, prefix: prefix@ }),
        decreases lines.len() - i,
    {
        assert(ls.take(i + 1).drop_last() =~= ls.take(i as int));
        assert(ms.take(i + 1).drop_last() =~= ms.take(i as int));
        let line = chars_of(lines[i].as_str());
        let m: Option<&Vec<Option<String>>> = match &matches[i] {
            Some(c) => Some(c),
            None => None,
        };
        assert(m.deep_view() == ms[i as int]);
        match run.step(&line, false, m, &cluster, cluster_count, &prefix, Ghost(trace), Ghost(i as int)) {
            Err(e) => {
                proof {
                    lemma_fold_error_sticks(
                        ls,
                        ms,
                        i + 1,
                        cluster@,
                        cluster_count as nat,
                        prefix@,
                    );
                }
                return Err(e);
            },
            Ok(()) => {},
        }
        i = i + 1;
    }
    assert(ls.take(i as int) =~= ls);
    assert(ms.take(i as int) =~= ms);
    let eod_line: Vec<char> = Vec::new();
    assert(eod_line@ =~= Seq::<char>::empty());
    match run.step(&eod_line, true, None, &cluster, cluster_count, &prefix, Ghost(trace), Ghost(0int)) {
        Err(e) => Err(e),
        Ok(()) => {
            let mut sep: Vec<char> = Vec::new();
            sep.push('\r');
            sep.push('\n');
            assert(sep@ =~= crlf());
            let joined = join_texts(&run.out, &sep);
            proof {
                if run.added is Some {
                    let out = texts(run.out@);
                    let p = seq![','] + cluster@;
                    let k = choose|k: int| 0 <= k < out.len() && ends_with(#[trigger] out[k], p);
                    assert(occurs_at(out[k], p, out[k].len() - p.len()));
                    lemma_join_contains_part(out, crlf(), k);
                    lemma_contains_transitive(joined@, out[k], p);
                }
            }
            let content = string_of(&joined);
            let added = match &run.added {
                Some(g) => Some((string_of(g), string_of(&run.donor))),
                None => None,
            };
            Ok(KeyRingUpdate { content, added, found_home: run.found_home })
        },
    }
}

/// One line of the section pass.
fn mark_line(line: &Vec<char>, section: &Vec<char>, cluster: &Vec<char>) -> (r: Option<Vec<char>>)
    ensures
        r matches Some(v) ==> mark_section_line(line@, section@, cluster@) == Some(v@),
        r is None ==> mark_section_line(line@, section@, cluster@) is None,
{
    if starts_with_exec(line, section) {
        let parts = split_at_char(line, '=');
        if parts.len() < 2 {
            return None;
        }
        assert(texts(parts@)[1] == parts@[1]@);
        if contains_exec(&parts[1], cluster) {
            Some(line.clone())
        } else {
            let mut v = line.clone();
            v.push(',');
            push_all(&mut v, cluster);
            assert(v@ =~= line@ + seq![','] + cluster@);
            Some(v)
        }
    } else {
        Some(line.clone())
    }
}

/// The section pass over all lines.
fn mark_lines(ls: &Vec<Vec<char>>, section: &Vec<char>, cluster: &Vec<char>) -> (r: Option<
    Vec<Vec<char>>,
>)
    ensures
        r matches Some(v) ==> mark_section_lines(texts(ls@), section@, cluster@) == Some(
            texts(v@),
        ),
        r is None ==> mark_section_lines(texts(ls@), section@, cluster@) is None,
{
    let mut out: Vec<Vec<char>> = Vec::new();
    let mut i: usize = 0;
    assert(texts(ls@).take(0) =~= Seq::<Seq<char>>::empty());
    assert(texts(out@) =~= Seq::<Seq<char>>::empty());
    while i < ls.len()
        invariant
            i <= ls.len(),
            mark_section_lines(texts(ls@).take(i as int), section@, cluster@) == Some(texts(out@)),
        decreases ls.len() - i,
    {
        let ghost pre = texts(ls@).take(i as int);
        let ghost next = texts(ls@).take(i + 1);
        assert(next.drop_last() =~= pre);
        assert(next.last() == ls@[i as int]@);
        match mark_line(&ls[i], section, cluster) {
            None => {
                proof {
                    lemma_marking_fails_onward(texts(ls@), i + 1, section@, cluster@);
                }
                return None;
            },
            Some(v) => {
                let ghost old_out = out@;
                out.push(v);
                assert(texts(out@) =~= texts(old_out).push(v@));
            },
        }
        i = i + 1;
    }
    assert(texts(ls@).take(i as int) =~= texts(ls@));
    Some(out)
}

/// Once a section line without `=` has been met, the whole pass fails.
proof fn lemma_marking_fails_onward(ls: Seq<Seq<char>>, k: int, section: Seq<char>, cluster: Seq<char>)
    requires
        0 <= k <= ls.len(),
        mark_section_lines(ls.take(k), section, cluster) is None,
    ensures
        mark_section_lines(ls, section, cluster) is None,
    decreases ls.len() - k,
{
    if k < ls.len() {
        assert(ls.take(k + 1).drop_last() =~= ls.take(k));
        lemma_marking_fails_onward(ls, k + 1, section, cluster);
    } else {
        assert(ls.take(k) =~= ls);
    }
}

/// The update of MasterKeys.ini content `contents` for `cluster_name` in
/// `ini_section`, with `cluster_count` clusters (this one included) still
/// to be added: the section pass, then the key-ring scan, each line of
/// which is matched with the key-ring pattern by the `regex` crate.
pub fn update_key_rings(
    contents: &str,
    ini_section: &str,
    cluster_name: &str,
    cluster_count: usize,
) -> (r: Result<KeyRingUpdate, KeyRingError>)
    ensures
        reports(r, update_outcome(contents@, ini_section@, cluster_name@, cluster_count as nat)),
        r matches Ok(u) ==> (u.added is Some ==> contains_text(u.content@, seq![','] + cluster_name@)),
        r is Ok ==> update_traced(contents@, ini_section@, cluster_name@, cluster_count as nat),
{
    let text = chars_of(contents);
    let section = chars_of(ini_section);
    let cluster = chars_of(cluster_name);
    let ls = split_lines(&text);
    let marked = match mark_lines(&ls, &section, &cluster) {
        None => {
            return Err(KeyRingError::SectionLineWithoutValue);
        },
        Some(m) => m,
    };
    let mut sep: Vec<char> = Vec::new();
    sep.push('\r');
    sep.push('\n');
    assert(sep@ =~= crlf());
    let joined = join_texts(&marked, &sep);
    let lines_in = split_lines(&joined);
    let prefix = key_ring_prefix(ini_section);
    let escaped = escape_text(prefix);
    let mut pv = chars_of("^\\s*(");
    push_str(&mut pv, escaped.as_str());
    push_str(&mut pv, "(\\d+))\\s*=\\s*(.*?)\\s*$");
    let pattern_text = string_of(&pv);
    assert(pattern_text@ == key_ring_pattern(group_prefix(ini_section@)));
    let pattern = match Pattern::compile(pattern_text.as_str()) {
        None => {
            return Err(KeyRingError::PatternRejected);
        },
        Some(p) => p,
    };
    let ghost lsi = texts(lines_in@);
    let mut line_strings: Vec<String> = Vec::new();
    let mut matches: Vec<Option<Vec<Option<String>>>> = Vec::new();
    let mut i: usize = 0;
    while i < lines_in.len()
        invariant
            i <= lines_in.len(),
            lsi == texts(lines_in@),
            line_strings.len() == i,
            matches.len() == i,
            pattern@ == key_ring_pattern(group_prefix(ini_section@)),
            forall|k: int| 0 <= k < i ==> #[trigger] line_strings@[k]@ == lsi[k],
            forall|k: int|
                0 <= k < i ==> #[trigger] matches@[k].deep_view() == regex_captures(
                    pattern@,
                    lsi[k],
                ),
        decreases lines_in.len() - i,
    {
        let s = string_of(&lines_in[i]);
        let m = captures_in(&pattern, s.as_str());
        line_strings.push(s);
        matches.push(m);
        i = i + 1;
    }
    assert(line_strings.deep_view() =~= lsi);
    assert(matches.deep_view() =~= lsi.map_values(
        |l: Seq<char>| regex_captures(key_ring_pattern(group_prefix(ini_section@)), l),
    ));
    key_ring_plan(&line_strings, &matches, ini_section, cluster_name, cluster_count)
}

} // verus!
