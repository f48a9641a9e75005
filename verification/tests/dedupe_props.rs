use fanout::dedupe::{
    compile_pattern, is_kept, keep_oldest, kept_names, shared_name, FileEntry,
};

fn entry(name: &str, key: &str, ts: u64) -> FileEntry {
    FileEntry {
        name: name.to_string(),
        key: key.to_string(),
        ts,
    }
}

#[test]
fn shared_name_joins_the_selected_groups() {
    let re = compile_pattern(".*(Blocksberg|Tina).*(Folge [0-9]+).*").expect("the pattern compiles");
    let path = "/tmp/x/Bibi & Tina - Das sprechende Pferd (Folge 29) - HS.m4a";
    let name = shared_name(&re, path, &vec![1, 2]).expect("the pattern matches");
    assert_eq!(name, "Tina Folge 29");

    assert!(shared_name(&re, "unrelated recording.m4a", &vec![1, 2]).is_none());
}

#[test]
fn shared_name_skips_absent_and_out_of_range_groups() {
    let re = compile_pattern("(a)(z)?(c)").expect("the pattern compiles");
    let name = shared_name(&re, "ac", &vec![1, 2, 3, 9]).expect("the pattern matches");
    assert_eq!(name, "a c", "the optional group and the index out of range select nothing");
}

#[test]
fn pattern_matching_is_exposed() {
    let re = compile_pattern("Folge [0-9]+").expect("the pattern compiles");
    assert!(re.is_match("Tina (Folge 7)"));
    assert!(!re.is_match("Tina (Folge sieben)"));
    assert!(compile_pattern("(unclosed").is_none());
}

#[test]
fn the_oldest_file_per_shared_name_is_kept() {
    let re = compile_pattern("Folge [0-9]+").expect("the pattern compiles");
    let entries = vec![
        entry("/d/tina-7-recent.m4a", "Folge 7", 300),
        entry("/d/tina-7-old.m4a", "Folge 7", 100),
        entry("/d/tina-8.m4a", "Folge 8", 200),
        entry("/d/tina-7-middle.m4a", "Folge 7", 200),
    ];
    let kept = keep_oldest(entries, &re);
    let names = kept_names(&kept);
    assert_eq!(names.len(), 2);
    assert!(is_kept(&names, "/d/tina-7-old.m4a"), "the oldest of its group wins");
    assert!(is_kept(&names, "/d/tina-8.m4a"));
    assert!(!is_kept(&names, "/d/tina-7-recent.m4a"));
    assert!(!is_kept(&names, "/d/tina-7-middle.m4a"));
}

#[test]
fn a_newer_file_never_replaces_the_kept_one() {
    let re = compile_pattern(".*").expect("the pattern compiles");
    let entries = vec![entry("/d/a1", "a", 50), entry("/d/a2", "a", 60)];
    let kept = keep_oldest(entries, &re);
    let names = kept_names(&kept);
    assert_eq!(names.len(), 1);
    assert!(is_kept(&names, "/d/a1"));
}

#[test]
fn replacement_prunes_keys_the_pattern_no_longer_matches() {
    let re = compile_pattern("^keep").expect("the pattern compiles");
    let entries = vec![
        entry("/d/other", "drop-me", 10),
        entry("/d/keep-new", "keep-x", 90),
        entry("/d/keep-old", "keep-x", 20),
    ];
    let kept = keep_oldest(entries, &re);
    let names = kept_names(&kept);
    assert!(is_kept(&names, "/d/keep-old"));
    assert!(
        !is_kept(&names, "/d/other"),
        "a replacement prunes entries whose key the pattern does not match"
    );
    assert_eq!(names.len(), 1);
}
