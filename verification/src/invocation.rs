//! The command-line decisions of the utility: which arguments it takes, the
//! signing command for a Source Depot changelist, and how that command is
//! filled into the status files.

use vstd::prelude::*;
use vstd::utf8::encode_utf8;
use crate::text::{contains_text, occurs_at, starts_with, chars_of, push_str, replace_all, replace_exec, split_words, string_of, texts, words};

verus! {

/// What the command line asks for.
#[derive(Debug, PartialEq, Eq)]
pub enum Invocation {
    /// The usage text is shown (and the run stops).
    Help,
    /// One cluster name (or comma-separated list), default working folder.
    ClusterOnly(String),
    /// Cluster name(s) and a working folder.
    ClusterAndDir(String, String),
}

/// The invocation for the arguments `args` (program name excluded): one
/// argument of at least three bytes, or two arguments; anything else asks
/// for help.
pub fn parse_invocation(args: &Vec<String>) -> (r: Invocation)
    ensures
        args.len() == 1 && (encode_utf8(args@[0]@).len() as usize) >= 3 ==> (r matches Invocation::ClusterOnly(
            c,
        ) && c@ == args@[0]@),
        args.len() == 2 ==> (r matches Invocation::ClusterAndDir(c, d) && c@ == args@[0]@ && d@
            == args@[1]@),
        !(args.len() == 1 && (encode_utf8(args@[0]@).len() as usize) >= 3) && args.len() != 2 ==> r
            is Help,
{
    if args.len() == 1 {
        if args[0].as_str().len() < 3 {
            Invocation::Help
        } else {
            Invocation::ClusterOnly(args[0].clone())
        }
    } else if args.len() == 2 {
        Invocation::ClusterAndDir(args[0].clone(), args[1].clone())
    } else {
        Invocation::Help
    }
}

/// The whitespace-separated words of the output of a command (the second
/// word of `sd change` output is the changelist number).
pub fn output_words(output: &str) -> (r: Vec<String>)
    ensures
        r.deep_view() == words(output@),
{
    let w = split_words(&chars_of(output));
    let mut r: Vec<String> = Vec::new();
    let mut i: usize = 0;
    while i < w.len()
        invariant
            i <= w.len(),
            r.len() == i,
            forall|k: int| 0 <= k < i ==> #[trigger] r@[k]@ == w@[k]@,
        decreases w.len() - i,
    {
        r.push(string_of(&w[i]));
        i = i + 1;
    }
    assert(r.deep_view() =~= texts(w@));
    r
}

/// The command that signs the files of changelist `change_list`.
pub fn sign_tool_command(change_list: &str) -> (r: String)
    ensures
        r@ == "apsigntool -a --2p -d ame -c "@ + change_list@,
{
    let mut v = chars_of("apsigntool -a --2p -d ame -c ");
    push_str(&mut v, change_list);
    string_of(&v)
}

/// The placeholder of the signing command in a status file.
pub open spec fn sign_cmd_placeholder() -> Seq<char> {
    "AP_SIGN_CMD"@
}

/// A status file's content with each placeholder replaced by `command`.
pub fn fill_sign_command(contents: &str, command: &str) -> (r: String)
    ensures
        r@ == replace_all(contents@, sign_cmd_placeholder(), command@),
{
    let p = chars_of("AP_SIGN_CMD");
    proof {
        reveal_strlit("AP_SIGN_CMD");
    }
    let out = replace_exec(&chars_of(contents), &p, &chars_of(command));
    string_of(&out)
}

/// A text without the placeholder is left as it is.
pub proof fn lemma_fill_without_placeholder(contents: Seq<char>, command: Seq<char>)
    requires
        !contains_text(contents, sign_cmd_placeholder()),
    ensures
        replace_all(contents, sign_cmd_placeholder(), command) == contents,
    decreases contents.len(),
{
    let p = sign_cmd_placeholder();
    if contents.len() > 0 {
        assert(!starts_with(contents, p)) by {
            if starts_with(contents, p) {
                assert(occurs_at(contents, p, 0));
            }
        }
        let rest = contents.drop_first();
        assert(!contains_text(rest, p)) by {
            if contains_text(rest, p) {
                let i = choose|i: int| occurs_at(rest, p, i);
                assert(contents.subrange(i + 1, i + 1 + p.len()) =~= rest.subrange(i, i + p.len()));
                assert(occurs_at(contents, p, i + 1));
            }
        }
        lemma_fill_without_placeholder(rest, command);
        assert(seq![contents[0]] + rest =~= contents);
    }
}

} // verus!
