//! Registering a new cluster's virtual environment in SigningConfig.ini.
//!
//! The line `VE-ROOT/Autopilot/ApPki-CLUSTER=1` goes right after the first
//! `VE-ROOT/Autopilot` line that names the preceding cluster, or at the end
//! of the file if there is none; a file that already holds the line is left
//! as it is.
//!
//! The preceding cluster's name is made from the new name's letters `L`,
//! number `n` and following character `S`: `L00S` for `n` of 0 or 1; else
//! `L0<n-1>S` where the digits of `n` hold a `0` (so `L20S` gives `L019S`);
//! else `L<n-1>S`. A name without that shape gives an empty name, which the
//! first `VE-ROOT/Autopilot` line matches.

use vstd::prelude::*;
use crate::mk_ini_manager::{crlf, group};
use crate::patterns::{captures_in, regex_accepts, regex_captures, Pattern};
use crate::text::{
    chars_of, contains_char, contains_exec, lemma_contains_suffix,
    lemma_contains_transitive, lemma_join_contains_part, contains_text, int_decimal, int_decimal_chars, join, join_texts,
    lines, parse_i32, parse_i32_text, push_all, push_str, split_lines, starts_with,
    starts_with_exec, string_of, texts,
};

verus! {

/// Why the signing configuration could not be updated.
#[derive(Debug, PartialEq, Eq, Structural)]
pub enum SignConfigError {
    /// The `regex` crate refused the cluster-name pattern.
    PatternRejected,
    /// A match of the cluster name lacks one of its three groups.
    MissingGroup,
    /// The number in the cluster name is not an `i32`, or is `i32::MIN`.
    InvalidNumber,
}

/// The cluster that precedes a new one, by name.
pub struct PreviousCluster {
    /// The name of the preceding cluster (empty where the new cluster's
    /// name has no number).
    pub name: String,
    /// The name prefix shared with it.
    pub prefix: String,
}

/// The result of a signing-configuration update.
pub struct SignConfigUpdate {
    pub previous: PreviousCluster,
    /// The new file content; `None` where the file already holds the line.
    pub content: Option<String>,
}

/// The pattern that splits a cluster name into its leading non-digits, its
/// number and the character after the number.
pub open spec fn cluster_name_pattern() -> Seq<char> {
    "(^\\D+)(\\d+)(\\D)"@
}

/// The preceding cluster's name and the shared prefix, from the groups of
/// the cluster-name match (letters, number, following character): the
/// number is decreased by one, keeping its zero padding.
pub open spec fn previous_cluster_of(caps: Option<Seq<Option<Seq<char>>>>) -> Result<
    (Seq<char>, Seq<char>),
    SignConfigError,
> {
    match caps {
        None => Ok((seq![], seq![])),
        Some(c) => {
            if group(c, 1) is None || group(c, 2) is None || group(c, 3) is None {
                Err(SignConfigError::MissingGroup)
            } else {
                let g1 = group(c, 1)->0;
                let g2 = group(c, 2)->0;
                let g3 = group(c, 3)->0;
                match parse_i32_text(g2) {
                    None => Err(SignConfigError::InvalidNumber),
                    Some(v) => if v == i32::MIN {
                        Err(SignConfigError::InvalidNumber)
                    } else {
                        let n = int_decimal(v - 1);
                        if v == 1 {
                            Ok((g1 + "00"@ + g3, g1))
                        } else if v == 0 {
                            Ok((g1 + "00"@ + g3, g1 + "00"@))
                        } else if g2.contains('0') {
                            Ok((g1 + "0"@ + n + g3, g1 + "0"@))
                        } else if g2.len() == 1 {
                            Ok((g1 + n + g3, g1 + n))
                        } else if v > 1 {
                            Ok((g1 + n + g3, g1))
                        } else {
                            Ok(("None"@, g1))
                        }
                    },
                }
            }
        },
    }
}

/// The lines with the VE root line placed after the first `VE-ROOT/Autopilot`
/// line that names `old`, and whether there was one.
pub open spec fn place_ve_root(ls: Seq<Seq<char>>, ve_root: Seq<char>, old: Seq<char>) -> (
    Seq<Seq<char>>,
    bool,
)
    decreases ls.len(),
{
    if ls.len() == 0 {
        (seq![], false)
    } else {
        let (front, found) = place_ve_root(ls.drop_last(), ve_root, old);
        let l = ls.last();
        if starts_with(l, "VE-ROOT/Autopilot"@) && contains_text(l, old) && !found {
            (front.push(l + seq!['\n'] + ve_root), true)
        } else {
            (front.push(l), found)
        }
    }
}

/// The new SigningConfig.ini content, or `None` where `contents` already
/// holds `ve_root`: lines joined with CRLF, the VE root after the line of
/// the preceding cluster, or appended on a line of its own.
pub open spec fn sign_config_content(contents: Seq<char>, ve_root: Seq<char>, old: Seq<char>) -> Option<
    Seq<char>,
> {
    if contains_text(contents, ve_root) {
        None
    } else {
        let (ls, found) = place_ve_root(lines(contents), ve_root, old);
        if found {
            Some(join(ls, crlf()))
        } else {
            Some(join(ls, crlf()) + crlf() + ve_root)
        }
    }
}

/// The preceding cluster, from what the cluster-name pattern matched.
pub fn previous_cluster(caps: &Option<Vec<Option<String>>>) -> (r: Result<
    PreviousCluster,
    SignConfigError,
>)
    ensures
        match (r, previous_cluster_of(caps.deep_view())) {
            (Ok(p), Ok((name, prefix))) => p.name@ == name && p.prefix@ == prefix,
            (Err(e), Err(f)) => e == f,
            _ => false,
        },
{
    let c = match caps {
        None => {
            return Ok(PreviousCluster { name: String::new(), prefix: String::new() });
        },
        Some(c) => c,
    };
    let ghost cv = c.deep_view();
    if c.len() < 4 {
        return Err(SignConfigError::MissingGroup);
    }
    let (g1, g2, g3) = match (&c[1], &c[2], &c[3]) {
        (Some(a), Some(b), Some(d)) => (chars_of(a.as_str()), chars_of(b.as_str()), chars_of(d.as_str())),
        _ => {
            return Err(SignConfigError::MissingGroup);
        },
    };
    assert(group(cv, 1) == Some(g1@) && group(cv, 2) == Some(g2@) && group(cv, 3) == Some(g3@));
    let v = match parse_i32(&g2) {
        None => {
            return Err(SignConfigError::InvalidNumber);
        },
        Some(v) => v,
    };
    if v == i32::MIN {
        return Err(SignConfigError::InvalidNumber);
    }
    let n = int_decimal_chars((v - 1) as i64);
    let mut name: Vec<char> = g1.clone();
    let mut prefix: Vec<char> = g1.clone();
    if v == 1 {
        push_str(&mut name, "00");
        push_all(&mut name, &g3);
    } else if v == 0 {
        push_str(&mut name, "00");
        push_all(&mut name, &g3);
        push_str(&mut prefix, "00");
    } else if contains_char(&g2, '0') {
        push_str(&mut name, "0");
        push_all(&mut name, &n);
        push_all(&mut name, &g3);
        push_str(&mut prefix, "0");
    } else if g2.len() == 1 {
        push_all(&mut name, &n);
        push_all(&mut name, &g3);
        push_all(&mut prefix, &n);
    } else if v > 1 {
        push_all(&mut name, &n);
        push_all(&mut name, &g3);
    } else {
        name = chars_of("None");
    }
    Ok(PreviousCluster { name: string_of(&name), prefix: string_of(&prefix) })
}

/// The new SigningConfig.ini content for `ve_root_val`, placed after the
/// line of `old_cluster`; `None` where the content already holds it.
pub fn sign_config_text(contents: &str, ve_root_val: &str, old_cluster: &str) -> (r: Option<String>)
    ensures
        r.deep_view() == sign_config_content(contents@, ve_root_val@, old_cluster@),
{
    let text = chars_of(contents);
    let ve_root = chars_of(ve_root_val);
    let old = chars_of(old_cluster);
    if contains_exec(&text, &ve_root) {
        return None;
    }
    let ls = split_lines(&text);
    let marker = chars_of("VE-ROOT/Autopilot");
    let mut out: Vec<Vec<char>> = Vec::new();
    let mut found = false;
    let mut i: usize = 0;
    assert(texts(ls@).take(0) =~= Seq::<Seq<char>>::empty());
    assert(texts(out@) =~= Seq::<Seq<char>>::empty());
    while i < ls.len()
        invariant
            i <= ls.len(),
            marker@ == "VE-ROOT/Autopilot"@,
            place_ve_root(texts(ls@).take(i as int), ve_root@, old@) == (texts(out@), found),
        decreases ls.len() - i,
    {
        let ghost pre = texts(ls@).take(i as int);
        let ghost next = texts(ls@).take(i + 1);
        assert(next.drop_last() =~= pre);
        assert(next.last() == ls@[i as int]@);
        let line = &ls[i];
        let ghost old_out = out@;
        if starts_with_exec(line, &marker) && contains_exec(line, &old) && !found {
            let mut v = line.clone();
            v.push('\n');
            push_all(&mut v, &ve_root);
            assert(v@ =~= line@ + seq!['\n'] + ve_root@);
            out.push(v);
            assert(texts(out@) =~= texts(old_out).push(v@));
            found = true;
        } else {
            out.push(line.clone());
            assert(texts(out@) =~= texts(old_out).push(line@));
        }
        i = i + 1;
    }
    assert(texts(ls@).take(i as int) =~= texts(ls@));
    let mut sep: Vec<char> = Vec::new();
    sep.push('\r');
    sep.push('\n');
    assert(sep@ =~= crlf());
    let mut joined = join_texts(&out, &sep);
    if !found {
        push_all(&mut joined, &sep);
        push_all(&mut joined, &ve_root);
    }
    Some(string_of(&joined))
}

/// The signing-configuration update for the new cluster `cluster_name`:
/// the preceding cluster is found from the cluster name with the `regex`
/// crate, then the VE root line is placed after its line.
pub fn update_sign_config_text(contents: &str, cluster_name: &str, ve_root_val: &str) -> (r: Result<
    SignConfigUpdate,
    SignConfigError,
>)
    ensures
        !regex_accepts(cluster_name_pattern()) ==> r == Err::<SignConfigUpdate, SignConfigError>(
            SignConfigError::PatternRejected,
        ),
        regex_accepts(cluster_name_pattern()) ==> match (
            r,
            previous_cluster_of(regex_captures(cluster_name_pattern(), cluster_name@)),
        ) {
            (Ok(u), Ok((name, prefix))) => u.previous.name@ == name && u.previous.prefix@
                == prefix && u.content.deep_view() == sign_config_content(
                contents@,
                ve_root_val@,
                name,
            ),
            (Err(e), Err(f)) => e == f,
            _ => false,
        },
{
    let pattern = match Pattern::compile("(^\\D+)(\\d+)(\\D)") {
        None => {
            return Err(SignConfigError::PatternRejected);
        },
        Some(p) => p,
    };
    let caps = captures_in(&pattern, cluster_name);
    let previous = match previous_cluster(&caps) {
        Err(e) => {
            return Err(e);
        },
        Ok(p) => p,
    };
    let content = sign_config_text(contents, ve_root_val, previous.name.as_str());
    Ok(SignConfigUpdate { previous, content })
}

/// Line `l` is a `VE-ROOT/Autopilot` line that names `old`.
pub open spec fn names_cluster_ve_line(l: Seq<char>, old: Seq<char>) -> bool {
    starts_with(l, "VE-ROOT/Autopilot"@) && contains_text(l, old)
}

/// Without a `VE-ROOT/Autopilot` line that names `old`, no line changes and
/// nothing is placed.
proof fn lemma_no_home_line(ls: Seq<Seq<char>>, ve_root: Seq<char>, old: Seq<char>)
    requires
        forall|j: int| 0 <= j < ls.len() ==> !names_cluster_ve_line(#[trigger] ls[j], old),
    ensures
        place_ve_root(ls, ve_root, old) == (ls, false),
    decreases ls.len(),
{
    if ls.len() > 0 {
        let dl = ls.drop_last();
        assert forall|j: int| 0 <= j < dl.len() implies !names_cluster_ve_line(#[trigger] dl[j], old) by {
            assert(dl[j] == ls[j]);
        }
        lemma_no_home_line(dl, ve_root, old);
        assert(!names_cluster_ve_line(ls[ls.len() - 1], old));
        assert(dl.push(ls.last()) =~= ls);
    }
}

/// The VE root goes right after the first `VE-ROOT/Autopilot` line that
/// names `old` (line `k`), whatever `VE-ROOT` lines come before it; every
/// other line stays as it is.
proof fn lemma_home_line(ls: Seq<Seq<char>>, ve_root: Seq<char>, old: Seq<char>, k: int)
    requires
        0 <= k < ls.len(),
        names_cluster_ve_line(ls[k], old),
        forall|j: int| 0 <= j < k ==> !names_cluster_ve_line(#[trigger] ls[j], old),
    ensures
        place_ve_root(ls, ve_root, old) == (ls.update(k, ls[k] + seq!['\n'] + ve_root), true),
    decreases ls.len(),
{
    let dl = ls.drop_last();
    let n = ls.len() - 1;
    if k < n {
        assert forall|j: int| 0 <= j < k implies !names_cluster_ve_line(#[trigger] dl[j], old) by {
            assert(dl[j] == ls[j]);
        }
        assert(dl[k] == ls[k]);
        lemma_home_line(dl, ve_root, old, k);
        assert(dl.update(k, ls[k] + seq!['\n'] + ve_root).push(ls.last()) =~= ls.update(
            k,
            ls[k] + seq!['\n'] + ve_root,
        ));
    } else {
        assert forall|j: int| 0 <= j < dl.len() implies !names_cluster_ve_line(#[trigger] dl[j], old) by {
            assert(dl[j] == ls[j]);
        }
        lemma_no_home_line(dl, ve_root, old);
        assert(dl.push(ls.last() + seq!['\n'] + ve_root) =~= ls.update(k, ls[k] + seq!['\n'] + ve_root));
    }
}

/// Where the VE root is placed: for content that does not hold it yet, the
/// new content is its lines, joined with CRLF, with the VE root put on a
/// line of its own right after the first `VE-ROOT/Autopilot` line that
/// names the preceding cluster (whatever `VE-ROOT` lines come before it,
/// and with nothing appended at the end); where no line names it, the lines
/// stay as they are and the VE root is appended after a CRLF.
pub proof fn lemma_ve_root_placement(contents: Seq<char>, ve_root: Seq<char>, old: Seq<char>, k: int)
    requires
        !contains_text(contents, ve_root),
    ensures
        0 <= k < lines(contents).len() && names_cluster_ve_line(lines(contents)[k], old) && (forall|j: int|
            0 <= j < k ==> !names_cluster_ve_line(#[trigger] lines(contents)[j], old))
            ==> sign_config_content(contents, ve_root, old) == Some(
            join(lines(contents).update(k, lines(contents)[k] + seq!['\n'] + ve_root), crlf()),
        ),
        (forall|j: int| 0 <= j < lines(contents).len() ==> !names_cluster_ve_line(
            #[trigger] lines(contents)[j],
            old,
        )) ==> sign_config_content(contents, ve_root, old) == Some(
            join(lines(contents), crlf()) + crlf() + ve_root,
        ),
{
    let ls = lines(contents);
    if 0 <= k < ls.len() && names_cluster_ve_line(ls[k], old) && (forall|j: int|
        0 <= j < k ==> !names_cluster_ve_line(#[trigger] ls[j], old)) {
        lemma_home_line(ls, ve_root, old, k);
    }
    if forall|j: int| 0 <= j < ls.len() ==> !names_cluster_ve_line(#[trigger] ls[j], old) {
        lemma_no_home_line(ls, ve_root, old);
    }
}

/// Where the VE root was placed, one of the lines holds it.
proof fn lemma_placed_line_holds(ls: Seq<Seq<char>>, ve_root: Seq<char>, old: Seq<char>)
    ensures
        place_ve_root(ls, ve_root, old).0.len() == ls.len(),
        place_ve_root(ls, ve_root, old).1 ==> exists|k: int|
            0 <= k < ls.len() && contains_text(#[trigger] place_ve_root(ls, ve_root, old).0[k], ve_root),
    decreases ls.len(),
{
    if ls.len() > 0 {
        lemma_placed_line_holds(ls.drop_last(), ve_root, old);
        let (front, found) = place_ve_root(ls.drop_last(), ve_root, old);
        let l = ls.last();
        let out = place_ve_root(ls, ve_root, old).0;
        if starts_with(l, "VE-ROOT/Autopilot"@) && contains_text(l, old) && !found {
            lemma_contains_suffix(l + seq!['\n'], ve_root);
            assert(contains_text(out[ls.len() - 1], ve_root));
        } else if found {
            let k = choose|k: int| 0 <= k < front.len() && contains_text(#[trigger] front[k], ve_root);
            assert(out[k] == front[k]);
        }
    }
}

/// After an update the content holds the VE root line, so a second update
/// changes nothing, whatever the preceding cluster.
pub proof fn lemma_update_holds_ve_root(contents: Seq<char>, ve_root: Seq<char>, old: Seq<char>, later_old: Seq<char>)
    ensures
        sign_config_content(contents, ve_root, old) matches Some(n) ==> contains_text(n, ve_root)
            && sign_config_content(n, ve_root, later_old) is None,
{
    if !contains_text(contents, ve_root) {
        let (ls, found) = place_ve_root(lines(contents), ve_root, old);
        lemma_placed_line_holds(lines(contents), ve_root, old);
        if found {
            let k = choose|k: int| 0 <= k < ls.len() && contains_text(#[trigger] ls[k], ve_root);
            lemma_join_contains_part(ls, crlf(), k);
            lemma_contains_transitive(join(ls, crlf()), ls[k], ve_root);
        } else {
            lemma_contains_suffix(join(ls, crlf()) + crlf(), ve_root);
        }
    }
}

} // verus!
