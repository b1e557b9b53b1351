//! The artifacts of a new cluster certificate: where they go in the PFGold
//! enlistment, what the new configuration files hold, the PkiCmd command
//! line, and the status file that records all of it.

use vstd::prelude::*;
use crate::text::{
    chars_of, contains_char, decimal, decimal_chars, int_decimal, int_decimal_chars, join,
    lemma_split_without_separator, push_all, push_str, split, split_at_char, string_of, texts,
    to_uppercase, trim, trim_chars, uppercase,
};

verus! {

/// An I/O error of the standard library.
#[verifier::external_type_specification]
#[verifier::external_body]
pub struct ExIoError(std::io::Error);

/// A date and time of the `time` crate.
#[verifier::external_type_specification]
#[verifier::external_body]
pub struct ExOffsetDateTime(time::OffsetDateTime);

/// Why creating the artifacts failed.
#[derive(Debug)]
pub enum Error {
    Io(std::io::Error),
    Other(String),
}

/// The error for an enlistment variable missing from the environment;
/// `detail` describes why it could not be read.
pub fn enlistment_missing(variable: &str, detail: &str) -> (e: Error)
    ensures
        e matches Error::Other(m) && m@ == "Enlistment is not defined in the environment."@
            + variable@ + ": "@ + detail@,
{
    let mut v = chars_of("Enlistment is not defined in the environment.");
    push_str(&mut v, variable);
    push_str(&mut v, ": ");
    push_str(&mut v, detail);
    Error::Other(string_of(&v))
}

/// The error for the branch variable missing from the environment.
pub fn branch_missing(variable: &str, detail: &str) -> (e: Error)
    ensures
        e matches Error::Other(m) && m@ == variable@ + " is not defined in the environment. Error: "@
            + detail@,
{
    let mut v = chars_of(variable);
    push_str(&mut v, " is not defined in the environment. Error: ");
    push_str(&mut v, detail);
    Error::Other(string_of(&v))
}

/// The clusters named in a command-line argument: the argument without
/// surrounding whitespace, split at commas.
pub open spec fn cluster_list(arg: Seq<char>) -> Seq<Seq<char>> {
    split(trim(arg), ',')
}

/// The clusters named in `cluster_name`, a comma-separated list.
pub fn split_cluster_list(cluster_name: &str) -> (r: Vec<String>)
    ensures
        r.deep_view() == cluster_list(cluster_name@),
        !cluster_name@.contains(',') ==> r.deep_view() == seq![trim(cluster_name@)],
{
    let text = chars_of(cluster_name);
    let trimmed = trim_chars(&text);
    let pieces = if contains_char(&text, ',') {
        split_at_char(&trimmed, ',')
    } else {
        proof {
            let (a, b) = choose|a: int, b: int|
                0 <= a <= b <= text@.len() && trimmed@ == text@.subrange(a, b);
            assert(!trimmed@.contains(',')) by {
                if trimmed@.contains(',') {
                    let k = choose|k: int| 0 <= k < trimmed@.len() && trimmed@[k] == ',';
                    assert(text@[a + k] == ',');
                }
            }
            lemma_split_without_separator(seq![], trimmed@, ',');
            assert(Seq::<char>::empty() + trimmed@ =~= trimmed@);
        }
        let mut one: Vec<Vec<char>> = Vec::new();
        one.push(trimmed);
        assert(texts(one@) =~= seq![trim(text@)]);
        one
    };
    let mut r: Vec<String> = Vec::new();
    let mut i: usize = 0;
    while i < pieces.len()
        invariant
            i <= pieces.len(),
            r.len() == i,
            forall|k: int| 0 <= k < i ==> #[trigger] r@[k]@ == pieces@[k]@,
        decreases pieces.len() - i,
    {
        r.push(string_of(&pieces[i]));
        i = i + 1;
    }
    assert(r.deep_view() =~= texts(pieces@));
    r
}

/// The two enlistment files that every new cluster updates.
pub struct EnlistmentFiles {
    pub master_keys_file: String,
    pub sign_config_file: String,
}

pub open spec fn master_keys_path(pfgold: Seq<char>) -> Seq<char> {
    pfgold + "\\data\\Autopilot\\SecretStoreMasterKeys\\masterkeys.ini"@
}

pub open spec fn pf_sign_config_path(pfgold: Seq<char>) -> Seq<char> {
    pfgold + "\\autopilotservice\\Global\\VirtualEnvironments\\Autopilot\\SigningConfig.ini"@
}

/// The MasterKeys.ini and SigningConfig.ini files of the enlistment at
/// `pfgold`.
pub fn enlistment_files(pfgold: &str) -> (r: EnlistmentFiles)
    ensures
        r.master_keys_file@ == master_keys_path(pfgold@),
        r.sign_config_file@ == pf_sign_config_path(pfgold@),
{
    let mut m = chars_of(pfgold);
    push_str(&mut m, "\\data\\Autopilot\\SecretStoreMasterKeys\\masterkeys.ini");
    let mut s = chars_of(pfgold);
    push_str(&mut s, "\\autopilotservice\\Global\\VirtualEnvironments\\Autopilot\\SigningConfig.ini");
    EnlistmentFiles { master_keys_file: string_of(&m), sign_config_file: string_of(&s) }
}

/// Where the artifacts of one cluster go.
pub struct ClusterPaths {
    /// The cluster name in uppercase.
    pub cluster: String,
    /// The cluster's virtual-environment folder.
    pub ve_path: String,
    pub sign_config_file: String,
    pub secret_config_file: String,
    /// The line that registers the virtual environment in SigningConfig.ini.
    pub ve_root_text: String,
    /// The cluster's autopilotservice folder.
    pub ap_svc_path: String,
    /// The status file in the working folder, holding the cluster's record
    /// as JSON.
    pub status_file: String,
    /// The empty marker file of a new cluster.
    pub new_cluster_file: String,
}

pub open spec fn ve_path_of(pfgold: Seq<char>, cluster: Seq<char>) -> Seq<char> {
    pfgold + "\\autopilotservice\\Global\\VirtualEnvironments\\Autopilot\\ApPki-"@ + cluster
}

pub open spec fn ap_svc_path_of(pfgold: Seq<char>, cluster: Seq<char>) -> Seq<char> {
    pfgold + "\\autopilotservice\\"@ + cluster
}

/// What `cluster_paths` gives for a cluster already in uppercase.
pub open spec fn paths_agree(r: ClusterPaths, pfgold: Seq<char>, working_folder: Seq<char>, cluster: Seq<char>) -> bool {
    &&& r.cluster@ == cluster
    &&& r.ve_path@ == ve_path_of(pfgold, cluster)
    &&& r.sign_config_file@ == ve_path_of(pfgold, cluster) + "\\SigningConfig.ini"@
    &&& r.secret_config_file@ == ve_path_of(pfgold, cluster) + "\\SecretStoreConfig.ini"@
    &&& r.ve_root_text@ == "VE-ROOT/Autopilot/ApPki-"@ + cluster + "=1"@
    &&& r.ap_svc_path@ == ap_svc_path_of(pfgold, cluster)
    &&& r.status_file@ == working_folder + "\\"@ + cluster + ".json"@
    &&& r.new_cluster_file@ == ap_svc_path_of(pfgold, cluster) + "\\NewCluster.txt"@
}

/// The artifact paths of the cluster `cluster_item` (taken in uppercase),
/// in the enlistment at `pfgold`, with its status file in `working_folder`.
pub fn cluster_paths(pfgold: &str, working_folder: &str, cluster_item: &str) -> (r: ClusterPaths)
    ensures
        paths_agree(r, pfgold@, working_folder@, uppercase(cluster_item@)),
{
    let cluster = to_uppercase(cluster_item);
    let c = chars_of(cluster.as_str());
    let mut ve = chars_of(pfgold);
    push_str(&mut ve, "\\autopilotservice\\Global\\VirtualEnvironments\\Autopilot\\ApPki-");
    push_all(&mut ve, &c);
    let mut sign = ve.clone();
    push_str(&mut sign, "\\SigningConfig.ini");
    let mut secret = ve.clone();
    push_str(&mut secret, "\\SecretStoreConfig.ini");
    let mut root = chars_of("VE-ROOT/Autopilot/ApPki-");
    push_all(&mut root, &c);
    push_str(&mut root, "=1");
    let mut svc = chars_of(pfgold);
    push_str(&mut svc, "\\autopilotservice\\");
    push_all(&mut svc, &c);
    let mut status = chars_of(working_folder);
    push_str(&mut status, "\\");
    push_all(&mut status, &c);
    push_str(&mut status, ".json");
    let mut marker = svc.clone();
    push_str(&mut marker, "\\NewCluster.txt");
    ClusterPaths {
        cluster,
        ve_path: string_of(&ve),
        sign_config_file: string_of(&sign),
        secret_config_file: string_of(&secret),
        ve_root_text: string_of(&root),
        ap_svc_path: string_of(&svc),
        status_file: string_of(&status),
        new_cluster_file: string_of(&marker),
    }
}

/// The content of a new cluster's SigningConfig.ini.
pub fn signing_config_content() -> (r: String)
    ensures
        r@ == "[Metadata]\r\nServiceTreeIds=1bd5fd01-0565-4c8e-affe-ec1b21c96529"@,
{
    "[Metadata]\r\nServiceTreeIds=1bd5fd01-0565-4c8e-affe-ec1b21c96529".to_string()
}

/// The content of a new cluster's SecretStoreConfig.ini, granting the
/// cluster's security group access with the master key set `key_set`.
pub fn secret_store_config(cluster: &str, key_set: &str) -> (r: String)
    ensures
        r@ == "[KeyAccess]\r\nPrivateKeyApAcl=APMF\\SEC.AutopilotSecurity."@ + cluster@
            + "\r\nMasterKeySet="@ + key_set@ + "\r\n"@,
{
    let mut v = chars_of("[KeyAccess]\r\nPrivateKeyApAcl=APMF\\SEC.AutopilotSecurity.");
    push_str(&mut v, cluster);
    push_str(&mut v, "\r\nMasterKeySet=");
    push_str(&mut v, key_set);
    push_str(&mut v, "\r\n");
    string_of(&v)
}

/// The PkiCmd command line that generates the cluster's key pair.
pub open spec fn pki_command_of(cluster: Seq<char>, donor: Seq<char>, island: Seq<char>, folder: Seq<char>) -> Seq<char> {
    "PkiCmd -c -b -t "@ + cluster + " "@ + "-p apca.autopilot."@ + donor + ".ap.gbl -d "@ + island
        + " -g "@ + "autopilot\\ApPki -r "@ + folder + "\\"@ + cluster + ".csr -l "@ + folder
        + "\\"@ + cluster + ".xml -k "@ + folder + "\\APCA-"@ + cluster + "_0.key.encr --ame"@
}

/// The PkiCmd command line for `cluster`, whose donor cluster is `donor`,
/// on `island`, with its files in `working_folder`.
pub fn pki_command(cluster: &str, donor: &str, island: &str, working_folder: &str) -> (r: String)
    ensures
        r@ == pki_command_of(cluster@, donor@, island@, working_folder@),
{
    let mut v = chars_of("PkiCmd -c -b -t ");
    push_str(&mut v, cluster);
    push_str(&mut v, " ");
    push_str(&mut v, "-p apca.autopilot.");
    push_str(&mut v, donor);
    push_str(&mut v, ".ap.gbl -d ");
    push_str(&mut v, island);
    push_str(&mut v, " -g ");
    push_str(&mut v, "autopilot\\ApPki -r ");
    push_str(&mut v, working_folder);
    push_str(&mut v, "\\");
    push_str(&mut v, cluster);
    push_str(&mut v, ".csr -l ");
    push_str(&mut v, working_folder);
    push_str(&mut v, "\\");
    push_str(&mut v, cluster);
    push_str(&mut v, ".xml -k ");
    push_str(&mut v, working_folder);
    push_str(&mut v, "\\APCA-");
    push_str(&mut v, cluster);
    push_str(&mut v, "_0.key.encr --ame");
    string_of(&v)
}

/// The record of a new cluster at its first stage.
pub struct Cluster {
    pub date: String,
    pub stage: String,
    pub cluster_name: String,
    pub cluster_island: String,
    pub branch_name: String,
    pub working_dir: String,
    pub pfgold_path: String,
    pub virtual_env_path: String,
    pub cluster_path: String,
    pub master_key_file: String,
    pub sconfig_file: String,
    pub secstore_file: String,
    pub pfgold_sign_config: String,
    pub donor: String,
    pub ve_root_value: String,
    pub ap_internal_value: String,
    pub new_cluster_file: String,
    pub pki_cmd: String,
}

/// The status-file text of a cluster record: one `Label: value` line per
/// field.
pub open spec fn status_text_of(c: Cluster) -> Seq<char> {
    "Date: "@ + c.date@ + "\nStage: "@ + c.stage@ + "\nCluster_Name: "@ + c.cluster_name@
        + "\nCluster_Island: "@ + c.cluster_island@ + "\nBranch_Name: "@ + c.branch_name@
        + "\nWorking_Dir: "@ + c.working_dir@ + "\nPFGold_Path: "@ + c.pfgold_path@
        + "\nVirtual_Env_Path: "@ + c.virtual_env_path@ + "\nCluster_Path: "@ + c.cluster_path@
        + "\nMaskter_Key_File: "@ + c.master_key_file@ + "\nSConfig_File: "@ + c.sconfig_file@
        + "\nSecret_Store: "@ + c.secstore_file@ + "\nPFGold_Sign_Config: "@
        + c.pfgold_sign_config@ + "\nDonor: "@ + c.donor@ + "\nVE_Root_Value: "@
        + c.ve_root_value@ + "\nAP_Internal_Value: "@ + c.ap_internal_value@
        + "\nNew_Cluster_File: "@ + c.new_cluster_file@ + "\nPKI_CMD: "@ + c.pki_cmd@
}

impl Cluster {
    /// The status-file text of the record.
    pub fn to_string(&self) -> (s: String)
        ensures
            s@ == status_text_of(*self),
    {
        let mut v = chars_of("Date: ");
        push_str(&mut v, self.date.as_str());
        push_str(&mut v, "\nStage: ");
        push_str(&mut v, self.stage.as_str());
        push_str(&mut v, "\nCluster_Name: ");
        push_str(&mut v, self.cluster_name.as_str());
        push_str(&mut v, "\nCluster_Island: ");
        push_str(&mut v, self.cluster_island.as_str());
        push_str(&mut v, "\nBranch_Name: ");
        push_str(&mut v, self.branch_name.as_str());
        push_str(&mut v, "\nWorking_Dir: ");
        push_str(&mut v, self.working_dir.as_str());
        push_str(&mut v, "\nPFGold_Path: ");
        push_str(&mut v, self.pfgold_path.as_str());
        push_str(&mut v, "\nVirtual_Env_Path: ");
        push_str(&mut v, self.virtual_env_path.as_str());
        push_str(&mut v, "\nCluster_Path: ");
        push_str(&mut v, self.cluster_path.as_str());
        push_str(&mut v, "\nMaskter_Key_File: ");
        push_str(&mut v, self.master_key_file.as_str());
        push_str(&mut v, "\nSConfig_File: ");
        push_str(&mut v, self.sconfig_file.as_str());
        push_str(&mut v, "\nSecret_Store: ");
        push_str(&mut v, self.secstore_file.as_str());
        push_str(&mut v, "\nPFGold_Sign_Config: ");
        push_str(&mut v, self.pfgold_sign_config.as_str());
        push_str(&mut v, "\nDonor: ");
        push_str(&mut v, self.donor.as_str());
        push_str(&mut v, "\nVE_Root_Value: ");
        push_str(&mut v, self.ve_root_value.as_str());
        push_str(&mut v, "\nAP_Internal_Value: ");
        push_str(&mut v, self.ap_internal_value.as_str());
        push_str(&mut v, "\nNew_Cluster_File: ");
        push_str(&mut v, self.new_cluster_file.as_str());
        push_str(&mut v, "\nPKI_CMD: ");
        push_str(&mut v, self.pki_cmd.as_str());
        string_of(&v)
    }
}

/// An ASCII hexadecimal digit (lowercase) for `d < 16`.
pub open spec fn hex_digit(d: nat) -> char {
    if d < 10 {
        (('0' as u32) + d) as char
    } else {
        (('a' as u32) + (d - 10)) as char
    }
}

/// How a character is written inside a JSON string: `"` and `\` and the
/// control characters below U+0020 are escaped (`\b`, `\t`, `\n`, `\f`,
/// `\r`, else `\u00XX` in lowercase hex); every other character stands as
/// it is.
pub open spec fn json_escape_char(c: char) -> Seq<char> {
    let u = c as u32;
    if c == '"' {
        seq!['\\', '"']
    } else if c == '\\' {
        seq!['\\', '\\']
    } else if u == 0x08 {
        seq!['\\', 'b']
    } else if u == 0x09 {
        seq!['\\', 't']
    } else if u == 0x0A {
        seq!['\\', 'n']
    } else if u == 0x0C {
        seq!['\\', 'f']
    } else if u == 0x0D {
        seq!['\\', 'r']
    } else if u < 0x20 {
        seq!['\\', 'u', '0', '0', hex_digit((u / 16) as nat), hex_digit((u % 16) as nat)]
    } else {
        seq![c]
    }
}

/// The characters of `s`, each written as in a JSON string.
pub open spec fn json_escape(s: Seq<char>) -> Seq<char>
    decreases s.len(),
{
    if s.len() == 0 {
        seq![]
    } else {
        json_escape(s.drop_last()) + json_escape_char(s.last())
    }
}

/// `s` as a JSON string literal.
pub open spec fn json_string(s: Seq<char>) -> Seq<char> {
    seq!['"'] + json_escape(s) + seq!['"']
}

/// The record as a JSON object: one member per field, in field order, each
/// value a JSON string, without whitespace between tokens.
pub open spec fn cluster_json(c: Cluster) -> Seq<char> {
    "{\"date\":"@ + json_string(c.date@) + ",\"stage\":"@ + json_string(c.stage@)
        + ",\"cluster_name\":"@ + json_string(c.cluster_name@) + ",\"cluster_island\":"@
        + json_string(c.cluster_island@) + ",\"branch_name\":"@ + json_string(c.branch_name@)
        + ",\"working_dir\":"@ + json_string(c.working_dir@) + ",\"pfgold_path\":"@
        + json_string(c.pfgold_path@) + ",\"virtual_env_path\":"@ + json_string(
        c.virtual_env_path@,
    ) + ",\"cluster_path\":"@ + json_string(c.cluster_path@) + ",\"master_key_file\":"@
        + json_string(c.master_key_file@) + ",\"sconfig_file\":"@ + json_string(c.sconfig_file@)
        + ",\"secstore_file\":"@ + json_string(c.secstore_file@) + ",\"pfgold_sign_config\":"@
        + json_string(c.pfgold_sign_config@) + ",\"donor\":"@ + json_string(c.donor@)
        + ",\"ve_root_value\":"@ + json_string(c.ve_root_value@) + ",\"ap_internal_value\":"@
        + json_string(c.ap_internal_value@) + ",\"new_cluster_file\":"@ + json_string(
        c.new_cluster_file@,
    ) + ",\"pki_cmd\":"@ + json_string(c.pki_cmd@) + "}"@
}

/// The hexadecimal digit for `d < 16`.
fn hex_digit_char(d: u32) -> (c: char)
    requires
        d < 16,
    ensures
        c == hex_digit(d as nat),
{
    if d < 10 {
        ((d as u8) + 48u8) as char
    } else {
        ((d as u8) + 87u8) as char
    }
}

/// Appends `c` as written inside a JSON string.
fn push_json_char(v: &mut Vec<char>, c: char)
    ensures
        final(v)@ == old(v)@ + json_escape_char(c),
{
    let u = c as u32;
    if c == '"' {
        v.push('\\');
        v.push('"');
    } else if c == '\\' {
        v.push('\\');
        v.push('\\');
    } else if u == 0x08 {
        v.push('\\');
        v.push('b');
    } else if u == 0x09 {
        v.push('\\');
        v.push('t');
    } else if u == 0x0A {
        v.push('\\');
        v.push('n');
    } else if u == 0x0C {
        v.push('\\');
        v.push('f');
    } else if u == 0x0D {
        v.push('\\');
        v.push('r');
    } else if u < 0x20 {
        v.push('\\');
        v.push('u');
        v.push('0');
        v.push('0');
        v.push(hex_digit_char(u / 16));
        v.push(hex_digit_char(u % 16));
    } else {
        v.push(c);
    }
    assert(v@ =~= old(v)@ + json_escape_char(c));
}

/// Appends `s` as a JSON string literal.
fn push_json_string(v: &mut Vec<char>, s: &str)
    ensures
        final(v)@ == old(v)@ + json_string(s@),
{
    let cs = chars_of(s);
    let ghost start = v@;
    v.push('"');
    let mut i: usize = 0;
    assert(cs@.take(0) =~= Seq::<char>::empty());
    assert(v@ =~= start + seq!['"'] + json_escape(cs@.take(0)));
    while i < cs.len()
        invariant
            i <= cs.len(),
            v@ == start + seq!['"'] + json_escape(cs@.take(i as int)),
        decreases cs.len() - i,
    {
        assert(cs@.take(i + 1).drop_last() =~= cs@.take(i as int));
        assert(cs@.take(i + 1).last() == cs@[i as int]);
        push_json_char(v, cs[i]);
        i = i + 1;
    }
    assert(cs@.take(i as int) =~= s@);
    v.push('"');
    assert(v@ =~= start + json_string(s@));
}

impl Cluster {
    /// The record as a JSON object.
    pub fn to_json(&self) -> (s: String)
        ensures
            s@ == cluster_json(*self),
    {
        let mut v = chars_of("{\"date\":");
        push_json_string(&mut v, self.date.as_str());
        push_str(&mut v, ",\"stage\":");
        push_json_string(&mut v, self.stage.as_str());
        push_str(&mut v, ",\"cluster_name\":");
        push_json_string(&mut v, self.cluster_name.as_str());
        push_str(&mut v, ",\"cluster_island\":");
        push_json_string(&mut v, self.cluster_island.as_str());
        push_str(&mut v, ",\"branch_name\":");
        push_json_string(&mut v, self.branch_name.as_str());
        push_str(&mut v, ",\"working_dir\":");
        push_json_string(&mut v, self.working_dir.as_str());
        push_str(&mut v, ",\"pfgold_path\":");
        push_json_string(&mut v, self.pfgold_path.as_str());
        push_str(&mut v, ",\"virtual_env_path\":");
        push_json_string(&mut v, self.virtual_env_path.as_str());
        push_str(&mut v, ",\"cluster_path\":");
        push_json_string(&mut v, self.cluster_path.as_str());
        push_str(&mut v, ",\"master_key_file\":");
        push_json_string(&mut v, self.master_key_file.as_str());
        push_str(&mut v, ",\"sconfig_file\":");
        push_json_string(&mut v, self.sconfig_file.as_str());
        push_str(&mut v, ",\"secstore_file\":");
        push_json_string(&mut v, self.secstore_file.as_str());
        push_str(&mut v, ",\"pfgold_sign_config\":");
        push_json_string(&mut v, self.pfgold_sign_config.as_str());
        push_str(&mut v, ",\"donor\":");
        push_json_string(&mut v, self.donor.as_str());
        push_str(&mut v, ",\"ve_root_value\":");
        push_json_string(&mut v, self.ve_root_value.as_str());
        push_str(&mut v, ",\"ap_internal_value\":");
        push_json_string(&mut v, self.ap_internal_value.as_str());
        push_str(&mut v, ",\"new_cluster_file\":");
        push_json_string(&mut v, self.new_cluster_file.as_str());
        push_str(&mut v, ",\"pki_cmd\":");
        push_json_string(&mut v, self.pki_cmd.as_str());
        push_str(&mut v, "}");
        string_of(&v)
    }
}

/// The record of a new cluster at its first stage (`Stage1`), from its
/// paths, island, key set and donor; its status file is the one of
/// `paths`, and it carries the PkiCmd line to run next.
pub fn first_stage_record(
    date: &str,
    island: &str,
    branch: &str,
    working_folder: &str,
    pfgold: &str,
    files: &EnlistmentFiles,
    paths: &ClusterPaths,
    donor: &str,
    key_set: &str,
) -> (c: Cluster)
    ensures
        c.date@ == date@,
        c.stage@ == "Stage1"@,
        c.cluster_name@ == paths.cluster@,
        c.cluster_island@ == island@,
        c.branch_name@ == branch@,
        c.working_dir@ == working_folder@,
        c.pfgold_path@ == pfgold@,
        c.virtual_env_path@ == paths.ve_path@,
        c.cluster_path@ == paths.ap_svc_path@,
        c.master_key_file@ == files.master_keys_file@,
        c.sconfig_file@ == paths.sign_config_file@,
        c.secstore_file@ == paths.secret_config_file@,
        c.pfgold_sign_config@ == files.sign_config_file@,
        c.donor@ == donor@,
        c.ve_root_value@ == paths.ve_root_text@,
        c.ap_internal_value@ == key_set@,
        c.new_cluster_file@ == paths.status_file@,
        c.pki_cmd@ == pki_command_of(paths.cluster@, donor@, island@, working_folder@),
{
    Cluster {
        date: date.to_string(),
        stage: "Stage1".to_string(),
        cluster_name: paths.cluster.clone(),
        cluster_island: island.to_string(),
        branch_name: branch.to_string(),
        working_dir: working_folder.to_string(),
        pfgold_path: pfgold.to_string(),
        virtual_env_path: paths.ve_path.clone(),
        cluster_path: paths.ap_svc_path.clone(),
        master_key_file: files.master_keys_file.clone(),
        sconfig_file: paths.sign_config_file.clone(),
        secstore_file: paths.secret_config_file.clone(),
        pfgold_sign_config: files.sign_config_file.clone(),
        donor: donor.to_string(),
        ve_root_value: paths.ve_root_text.clone(),
        ap_internal_value: key_set.to_string(),
        new_cluster_file: paths.status_file.clone(),
        pki_cmd: pki_command(paths.cluster.as_str(), donor, island, working_folder),
    }
}

/// The working folder: the folder given on the command line, else a folder
/// named by the date in the temporary folder (`%TEMP%\<date>`).
pub open spec fn working_folder_of(given: Option<Seq<char>>, temp_dir: Seq<char>, date_folder: Seq<char>) -> Seq<char> {
    match given {
        Some(d) => d,
        None => temp_dir + "\\"@ + trim(date_folder),
    }
}

/// The working folder for the given folder, if any, the temporary folder
/// and the date folder name.
pub fn working_folder_path(given: Option<&str>, temp_dir: &str, date_folder: &str) -> (r: String)
    ensures
        r@ == working_folder_of(
            match given {
                Some(d) => Some(d@),
                None => None,
            },
            temp_dir@,
            date_folder@,
        ),
{
    match given {
        Some(d) => d.to_string(),
        None => {
            let mut v = chars_of(temp_dir);
            push_str(&mut v, "\\");
            let date = trim_chars(&chars_of(date_folder));
            push_all(&mut v, &date);
            string_of(&v)
        },
    }
}

/// The English name of month `m` (1 to 12), as `time::Month` displays it.
pub open spec fn month_name_of(m: nat) -> Seq<char> {
    if m == 1 {
        "January"@
    } else if m == 2 {
        "February"@
    } else if m == 3 {
        "March"@
    } else if m == 4 {
        "April"@
    } else if m == 5 {
        "May"@
    } else if m == 6 {
        "June"@
    } else if m == 7 {
        "July"@
    } else if m == 8 {
        "August"@
    } else if m == 9 {
        "September"@
    } else if m == 10 {
        "October"@
    } else if m == 11 {
        "November"@
    } else {
        "December"@
    }
}


/// The month names in calendar order, January first.
pub open spec fn calendar_months() -> Seq<Seq<char>> {
    seq![
        "January"@, "February"@, "March"@, "April"@, "May"@, "June"@, "July"@, "August"@,
        "September"@, "October"@, "November"@, "December"@,
    ]
}

/// Month `m` is named by the `m`-th name of the calendar, as `time::Month`
/// displays it, so a working folder carries the right month.
pub proof fn lemma_month_names_follow_calendar(m: nat)
    requires
        1 <= m <= 12,
    ensures
        month_name_of(m) == calendar_months()[m - 1],
{
}

/// The English name of month `m`.
pub fn month_name(m: u8) -> (r: &'static str)
    requires
        1 <= m <= 12,
    ensures
        r@ == month_name_of(m as nat),
{
    match m {
        1 => "January",
        2 => "February",
        3 => "March",
        4 => "April",
        5 => "May",
        6 => "June",
        7 => "July",
        8 => "August",
        9 => "September",
        10 => "October",
        11 => "November",
        _ => "December",
    }
}

/// The name of the dated working folder: month name, day and year joined
/// by `-` (such as `October-28-2020`).
pub open spec fn date_folder_of(month: nat, day: nat, year: int) -> Seq<char> {
    month_name_of(month) + "-"@ + decimal(day) + "-"@ + int_decimal(year)
}

/// The name of the working folder of the given date.
pub fn date_folder_name(month: u8, day: u8, year: i32) -> (r: String)
    requires
        1 <= month <= 12,
    ensures
        r@ == date_folder_of(month as nat, day as nat, year as int),
{
    let mut v = chars_of(month_name(month));
    push_str(&mut v, "-");
    push_all(&mut v, &decimal_chars(day as u64));
    push_str(&mut v, "-");
    push_all(&mut v, &int_decimal_chars(year as i64));
    string_of(&v)
}

/// `time::OffsetDateTime::now_utc`: the current date and time in UTC. What
/// it returns depends on the clock; nothing is stated of it.
#[verifier::external_body]
fn utc_now() -> time::OffsetDateTime {
    time::OffsetDateTime::now_utc()
}

/// `time::OffsetDateTime::month`, as the month's number: the `time` crate
/// numbers January as 1 and December as 12.
#[verifier::external_body]
fn month_of(d: &time::OffsetDateTime) -> (r: u8)
    ensures
        1 <= r <= 12,
{
    u8::from(d.month())
}

/// `time::OffsetDateTime::day`: the day of the month, in `1..=31` as its
/// documentation states.
#[verifier::external_body]
fn day_of(d: &time::OffsetDateTime) -> (r: u8)
    ensures
        1 <= r <= 31,
{
    d.day()
}

/// `time::OffsetDateTime::year`: the year; nothing is stated of its range.
#[verifier::external_body]
fn year_of(d: &time::OffsetDateTime) -> (r: i32) {
    d.year()
}

/// The name of today's working folder, from the clock in UTC (read once for
/// each of month, day and year).
pub fn today_folder_name() -> (r: String)
    ensures
        exists|m: nat, d: nat, y: int| 1 <= m <= 12 && 1 <= d <= 31 && r@ == date_folder_of(m, d, y),
{
    let month = month_of(&utc_now());
    let day = day_of(&utc_now());
    let year = year_of(&utc_now());
    let r = date_folder_name(month, day, year);
    assert(r@ == date_folder_of(month as nat, day as nat, year as int));
    r
}

/// Joining the clusters of an argument with commas gives back the trimmed
/// argument.
pub proof fn lemma_cluster_list_round_trip(arg: Seq<char>)
    ensures
        join(cluster_list(arg), seq![',']) == trim(arg),
{
    crate::text::lemma_join_split(seq![], trim(arg), ',');
    assert(Seq::<char>::empty() + trim(arg) =~= trim(arg));
}

} // verus!
