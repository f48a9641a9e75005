use fanout::command::prepare_invocation;
use fanout::prompt::{prompt_segment, prompt_segment_here, shortened_path};
use fanout::strutil::{
    all_space, contains_char, first_char_is, join_char, split_char, split_lines, starts_with,
};

#[test]
fn split_and_join() {
    let parts = split_char("a/bb/ccc", '/');
    assert_eq!(parts, vec!["a", "bb", "ccc"]);
    assert_eq!(join_char(&parts, '/'), "a/bb/ccc");

    assert_eq!(split_char("", '/'), vec![""]);
    assert_eq!(split_char("/x/", '/'), vec!["", "x", ""]);
    assert_eq!(join_char(&vec![], '/'), "");
}

#[test]
fn lines_are_split_and_cr_stripped() {
    assert_eq!(split_lines("a\nb"), vec!["a", "b"]);
    assert_eq!(split_lines("a\r\nb\r\n"), vec!["a", "b", ""]);
    assert_eq!(split_lines(""), vec![""]);
}

#[test]
fn scanning_predicates() {
    assert!(all_space("  \t "));
    assert!(all_space(""));
    assert!(!all_space(" x "));
    assert!(contains_char("a*b", '*'));
    assert!(!contains_char("ab", '*'));
    assert!(first_char_is("#note", '#'));
    assert!(!first_char_is("", '#'));
    assert!(starts_with("/home/me/src", "/home/me"));
    assert!(!starts_with("/home/m", "/home/me"));
}

#[test]
fn paths_are_shortened_keeping_the_last_three() {
    assert_eq!(
        shortened_path("/var/log/journal/system/current", ""),
        "/v/l/journal/system/current"
    );
    assert_eq!(shortened_path("/a/b/c", ""), "/a/b/c");
    assert_eq!(
        shortened_path("/home/me/src/tools/cli", "/home/me"),
        "~/src/tools/cli"
    );
    assert_eq!(shortened_path("/home/me", "/home/me"), "~/");
    assert_eq!(
        shortened_path("/home/me/.config/area/personal/deep", "/home/me"),
        "~/.c/area/personal/deep"
    );
}

#[test]
fn prompt_segment_layout() {
    assert_eq!(
        prompt_segment("/a/b", "", "<G>", "<R>", "<N>", false, "box"),
        "<G>/a/b<N>"
    );
    assert_eq!(
        prompt_segment("/a/b", "", "<G>", "<R>", "<N>", true, "box"),
        "<G><R>box: <N>/a/b<N>"
    );
}

#[test]
fn prompt_segment_reads_a_host_name() {
    let with_host = prompt_segment_here("/a/b", "", "", "[", "]", true);
    assert!(with_host.starts_with("["));
    assert!(with_host.ends_with("]/a/b]"));
    let without = prompt_segment_here("/a/b", "", "", "[", "]", false);
    assert_eq!(without, "/a/b]");
}

#[test]
fn prepared_arguments_for_recognized_commands() {
    let args = vec!["status".to_string()];
    let git = prepare_invocation("git", &args, "/repos/one", true, true);
    assert_eq!(git.args, vec!["-c", "color.status=always", "status"]);
    assert_eq!(git.workdir.as_deref(), Some("/repos/one"));

    let git_plain = prepare_invocation("git", &args, "/repos/one", false, true);
    assert_eq!(git_plain.args, vec!["status"]);

    let grep = prepare_invocation("grep", &vec!["todo".to_string()], "notes.txt", true, false);
    assert_eq!(grep.workdir, None);
    assert_eq!(grep.args[0], "--color=always");
    assert_eq!(grep.args[1], "--exclude-dir=.git");
    assert_eq!(grep.args.len(), 1 + 19 + 1 + 1);
    assert_eq!(grep.args.last().map(|s| s.as_str()), Some("notes.txt"));

    let other = prepare_invocation("make", &Vec::new(), "/repos/two", true, true);
    assert_eq!(other.args, Vec::<String>::new());
}
