use apcert_util::invocation::{
    fill_sign_command, output_words, parse_invocation, sign_tool_command, Invocation,
};

fn args(a: &[&str]) -> Vec<String> {
    a.iter().map(|s| s.to_string()).collect()
}

#[test]
fn invocations() {
    assert_eq!(parse_invocation(&args(&[])), Invocation::Help);
    assert_eq!(parse_invocation(&args(&["ab"])), Invocation::Help);
    assert_eq!(
        parse_invocation(&args(&["abc"])),
        Invocation::ClusterOnly("abc".to_string())
    );
    assert_eq!(
        parse_invocation(&args(&["c1,c2", "C:\\w"])),
        Invocation::ClusterAndDir("c1,c2".to_string(), "C:\\w".to_string())
    );
    assert_eq!(parse_invocation(&args(&["a", "b", "c"])), Invocation::Help);
    // Three bytes, one character.
    assert_eq!(parse_invocation(&args(&["\u{20ac}"])), Invocation::ClusterOnly("\u{20ac}".to_string()));
}

#[test]
fn change_list_number_is_second_word() {
    let w = output_words("Change 12345 created.\n");
    assert_eq!(w, vec!["Change", "12345", "created."]);
    assert_eq!(output_words("  \t "), Vec::<String>::new());
}

#[test]
fn sign_command() {
    assert_eq!(sign_tool_command("12345"), "apsigntool -a --2p -d ame -c 12345");
}

#[test]
fn fills_every_placeholder() {
    assert_eq!(
        fill_sign_command("a AP_SIGN_CMD b AP_SIGN_CMD", "X"),
        "a X b X"
    );
    assert_eq!(fill_sign_command("nothing here", "X"), "nothing here");
    assert_eq!(fill_sign_command("AP_SIGN_CMAP_SIGN_CMD", "!"), "AP_SIGN_CM!");
}
