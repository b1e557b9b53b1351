use apcert_util::create_artifacts::{
    branch_missing, cluster_paths, date_folder_name, enlistment_files, enlistment_missing,
    first_stage_record, month_name, pki_command, secret_store_config, signing_config_content,
    split_cluster_list, today_folder_name, working_folder_path, Cluster, Error,
};

#[test]
fn cluster_lists() {
    assert_eq!(split_cluster_list(" a,b ,c "), vec!["a", "b ", "c"]);
    assert_eq!(split_cluster_list("  one  "), vec!["one"]);
    assert_eq!(split_cluster_list("a,,b"), vec!["a", "", "b"]);
    assert_eq!(split_cluster_list(""), vec![""]);
    assert_eq!(split_cluster_list(" x,y ").join(","), "x,y");
}

#[test]
fn enlistment_file_paths() {
    let f = enlistment_files("C:\\pf");
    assert_eq!(f.master_keys_file, "C:\\pf\\data\\Autopilot\\SecretStoreMasterKeys\\masterkeys.ini");
    assert_eq!(
        f.sign_config_file,
        "C:\\pf\\autopilotservice\\Global\\VirtualEnvironments\\Autopilot\\SigningConfig.ini"
    );
}

#[test]
fn cluster_artifact_paths() {
    let p = cluster_paths("C:\\pf", "D:\\work\\ApCertUtil\\October-28-2020", "cys21p");
    assert_eq!(p.cluster, "CYS21P");
    assert_eq!(p.ve_path, "C:\\pf\\autopilotservice\\Global\\VirtualEnvironments\\Autopilot\\ApPki-CYS21P");
    assert_eq!(
        p.sign_config_file,
        "C:\\pf\\autopilotservice\\Global\\VirtualEnvironments\\Autopilot\\ApPki-CYS21P\\SigningConfig.ini"
    );
    assert_eq!(
        p.secret_config_file,
        "C:\\pf\\autopilotservice\\Global\\VirtualEnvironments\\Autopilot\\ApPki-CYS21P\\SecretStoreConfig.ini"
    );
    assert_eq!(p.ve_root_text, "VE-ROOT/Autopilot/ApPki-CYS21P=1");
    assert_eq!(p.ap_svc_path, "C:\\pf\\autopilotservice\\CYS21P");
    assert_eq!(p.status_file, "D:\\work\\ApCertUtil\\October-28-2020\\CYS21P.json");
    assert_eq!(p.new_cluster_file, "C:\\pf\\autopilotservice\\CYS21P\\NewCluster.txt");
}

#[test]
fn configuration_file_contents() {
    assert_eq!(
        signing_config_content(),
        "[Metadata]\r\nServiceTreeIds=1bd5fd01-0565-4c8e-affe-ec1b21c96529"
    );
    assert_eq!(
        secret_store_config("CYS21P", "Autopilot_Internal_Pilotfish_2"),
        "[KeyAccess]\r\nPrivateKeyApAcl=APMF\\SEC.AutopilotSecurity.CYS21P\r\nMasterKeySet=Autopilot_Internal_Pilotfish_2\r\n"
    );
}

#[test]
fn pki_command_line() {
    assert_eq!(
        pki_command("CYS21P", "DM2P", "PublicPilotfish", "D:\\w"),
        "PkiCmd -c -b -t CYS21P -p apca.autopilot.DM2P.ap.gbl -d PublicPilotfish -g autopilot\\ApPki -r D:\\w\\CYS21P.csr -l D:\\w\\CYS21P.xml -k D:\\w\\APCA-CYS21P_0.key.encr --ame"
    );
}

#[test]
fn status_text() {
    let s = |x: &str| x.to_string();
    let c = Cluster {
        date: s("d"),
        stage: s("Stage1"),
        cluster_name: s("c"),
        cluster_island: s("i"),
        branch_name: s("b"),
        working_dir: s("w"),
        pfgold_path: s("p"),
        virtual_env_path: s("v"),
        cluster_path: s("cp"),
        master_key_file: s("m"),
        sconfig_file: s("sc"),
        secstore_file: s("ss"),
        pfgold_sign_config: s("ps"),
        donor: s("dn"),
        ve_root_value: s("vr"),
        ap_internal_value: s("ai"),
        new_cluster_file: s("nf"),
        pki_cmd: s("pk"),
    };
    assert_eq!(
        c.to_string(),
        "Date: d\nStage: Stage1\nCluster_Name: c\nCluster_Island: i\nBranch_Name: b\nWorking_Dir: w\nPFGold_Path: p\nVirtual_Env_Path: v\nCluster_Path: cp\nMaskter_Key_File: m\nSConfig_File: sc\nSecret_Store: ss\nPFGold_Sign_Config: ps\nDonor: dn\nVE_Root_Value: vr\nAP_Internal_Value: ai\nNew_Cluster_File: nf\nPKI_CMD: pk"
    );
}

#[test]
fn date_folders() {
    assert_eq!(date_folder_name(10, 28, 2020), "October-28-2020");
    assert_eq!(date_folder_name(1, 5, 2024), "January-5-2024");
    assert_eq!(date_folder_name(12, 31, -1), "December-31--1");
    assert_eq!(month_name(5), "May");
}

#[test]
fn today_folder_has_date_shape() {
    let name = today_folder_name();
    let parts: Vec<&str> = name.split('-').collect();
    assert_eq!(parts.len(), 3);
    let months = [
        "January", "February", "March", "April", "May", "June", "July", "August", "September",
        "October", "November", "December",
    ];
    assert!(months.contains(&parts[0]));
    let day: u32 = parts[1].parse().unwrap();
    assert!((1..=31).contains(&day));
    let year: i32 = parts[2].parse().unwrap();
    assert!(year >= 2024);
}

#[test]
fn missing_environment_messages() {
    match enlistment_missing("inetroot", "environment variable not found") {
        Error::Other(m) => assert_eq!(
            m,
            "Enlistment is not defined in the environment.inetroot: environment variable not found"
        ),
        _ => panic!("wrong variant"),
    }
    match branch_missing("_BUILDBRANCH", "gone") {
        Error::Other(m) => assert_eq!(m, "_BUILDBRANCH is not defined in the environment. Error: gone"),
        _ => panic!("wrong variant"),
    }
}

fn record() -> Cluster {
    let s = |x: &str| x.to_string();
    Cluster {
        date: s("October-28-2020"),
        stage: s("Stage1"),
        cluster_name: s("CYS21P"),
        cluster_island: s("PublicPilotfish"),
        branch_name: s("main"),
        working_dir: s("D:\\w"),
        pfgold_path: s("C:\\pf"),
        virtual_env_path: s("v"),
        cluster_path: s("cp"),
        master_key_file: s("m"),
        sconfig_file: s("sc"),
        secstore_file: s("ss"),
        pfgold_sign_config: s("ps"),
        donor: s("DM2P"),
        ve_root_value: s("VE-ROOT/Autopilot/ApPki-CYS21P=1"),
        ap_internal_value: s("K"),
        new_cluster_file: s("D:\\w\\CYS21P.json"),
        pki_cmd: s("PkiCmd \"x\"\ty\n\u{1}"),
    }
}

#[test]
fn record_as_json() {
    assert_eq!(
        record().to_json(),
        "{\"date\":\"October-28-2020\",\"stage\":\"Stage1\",\"cluster_name\":\"CYS21P\",\"cluster_island\":\"PublicPilotfish\",\"branch_name\":\"main\",\"working_dir\":\"D:\\\\w\",\"pfgold_path\":\"C:\\\\pf\",\"virtual_env_path\":\"v\",\"cluster_path\":\"cp\",\"master_key_file\":\"m\",\"sconfig_file\":\"sc\",\"secstore_file\":\"ss\",\"pfgold_sign_config\":\"ps\",\"donor\":\"DM2P\",\"ve_root_value\":\"VE-ROOT/Autopilot/ApPki-CYS21P=1\",\"ap_internal_value\":\"K\",\"new_cluster_file\":\"D:\\\\w\\\\CYS21P.json\",\"pki_cmd\":\"PkiCmd \\\"x\\\"\\ty\\n\\u0001\"}"
    );
}

#[test]
fn json_escapes_control_characters() {
    let mut c = record();
    c.donor = "\u{8}\u{c}\r\u{1f}\u{7f}/\u{e9}".to_string();
    let j = c.to_json();
    assert!(j.contains("\"donor\":\"\\b\\f\\r\\u001f\u{7f}/\u{e9}\""));
}

#[test]
fn working_folders() {
    assert_eq!(working_folder_path(Some("C:\\w"), "C:\\Temp", "October-28-2020"), "C:\\w");
    assert_eq!(
        working_folder_path(None, "C:\\Temp", "October-28-2020"),
        "C:\\Temp\\October-28-2020"
    );
}

#[test]
fn first_stage_records() {
    let files = enlistment_files("C:\\pf");
    let paths = cluster_paths("C:\\pf", "C:\\w", "cys21p");
    let c = first_stage_record(
        "October-28-2020",
        "PublicPilotfish",
        "main",
        "C:\\w",
        "C:\\pf",
        &files,
        &paths,
        "DM2P",
        "Autopilot_Internal_Pilotfish_2",
    );
    assert_eq!(c.stage, "Stage1");
    assert_eq!(c.cluster_name, "CYS21P");
    assert_eq!(c.new_cluster_file, "C:\\w\\CYS21P.json");
    assert_eq!(c.ap_internal_value, "Autopilot_Internal_Pilotfish_2");
    assert_eq!(c.master_key_file, files.master_keys_file);
    assert_eq!(c.pki_cmd, pki_command("CYS21P", "DM2P", "PublicPilotfish", "C:\\w"));
}
