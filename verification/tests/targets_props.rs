use fanout::settings::{chosen_section, read_setting, SettingEntry, SettingSection, SettingsMap};
use fanout::targets::{
    braces_balanced, concat_all, config_search_path, needs_expansion, resolve_expanded,
    resolve_line, resolve_lines, should_skip_line,
};

#[test]
fn comments_and_blank_lines_are_skipped() {
    assert!(should_skip_line("# a comment"));
    assert!(should_skip_line(""));
    assert!(should_skip_line("   \t"));
    assert!(!should_skip_line("/real/path"));
    assert!(!should_skip_line("  /indented/path"));
}

#[test]
fn expansion_is_needed_only_for_patterns() {
    assert!(needs_expansion("/src/*"));
    assert!(needs_expansion("/src/{a,b}"));
    assert!(!needs_expansion("/src/plain"));
}

#[test]
fn the_config_path_is_resolved_against_the_home() {
    assert_eq!(config_search_path("/etc/own.conf", "/home/me"), "/etc/own.conf");
    assert_eq!(
        config_search_path("repo.conf", "/home/me"),
        "/home/me/.config/personal/repo.conf"
    );
}

#[test]
fn skipped_lines_yield_no_targets() {
    assert_eq!(resolve_line("# nothing").expect("a comment resolves"), Vec::<String>::new());
    let lines = vec!["# one".to_string(), "".to_string(), "   ".to_string()];
    assert_eq!(
        resolve_lines(&lines).expect("a list of comments resolves"),
        Vec::<String>::new()
    );
}

#[test]
fn a_literal_line_is_one_target() {
    let found = resolve_line("/no/expansion/here").expect("a literal line resolves");
    assert_eq!(found, vec!["/no/expansion/here".to_string()]);

    let expanded = resolve_expanded("/already/expanded".to_string())
        .expect("a pattern-free expanded line resolves");
    assert_eq!(expanded, vec!["/already/expanded".to_string()]);
}

#[test]
fn brace_balance_is_decided() {
    assert!(braces_balanced("plain"));
    assert!(braces_balanced("{a,b}c{d}"));
    assert!(braces_balanced("\\{a,b"));
    assert!(braces_balanced("end with escape \\"));
    assert!(!braces_balanced("{a,b"));
    assert!(!braces_balanced("a}b"));
    assert!(!braces_balanced("{a,{b}"));
}

#[test]
fn an_unclosed_brace_list_is_an_error_not_a_hang() {
    let err = resolve_line("src/{a,b").expect_err("an unclosed list is refused");
    assert!(err.contains("unclosed brace list"), "got: {}", err);

    let lines = vec!["# fine".to_string(), "src/{a,b".to_string()];
    assert!(resolve_lines(&lines).is_err());
}

#[test]
fn a_glob_pattern_is_expanded_against_the_tree() {
    let found = resolve_line("/tm*").expect("a valid pattern resolves");
    assert!(
        found.iter().any(|p| p == "/tmp"),
        "the temporary directory must be among {:?}",
        found
    );
}

#[test]
fn braces_multiply_the_patterns() {
    let found = resolve_line("{/tm,/us}*").expect("a brace pattern resolves");
    assert!(found.iter().any(|p| p == "/tmp"), "found {:?}", found);
    assert!(found.iter().any(|p| p == "/usr"), "found {:?}", found);
}

#[test]
fn groups_are_concatenated_in_order() {
    let parts = vec![
        vec!["a".to_string(), "b".to_string()],
        vec![],
        vec!["c".to_string()],
    ];
    assert_eq!(concat_all(&parts), vec!["a", "b", "c"]);
}

#[test]
fn settings_are_looked_up_by_section_and_key() {
    let map = SettingsMap {
        sections: vec![
            SettingSection {
                name: "default".to_string(),
                entries: vec![
                    SettingEntry {
                        key: "username".to_string(),
                        value: "me".to_string(),
                    },
                    SettingEntry {
                        key: "region".to_string(),
                        value: "east".to_string(),
                    },
                ],
            },
            SettingSection {
                name: "work".to_string(),
                entries: vec![SettingEntry {
                    key: "username".to_string(),
                    value: "corp".to_string(),
                }],
            },
        ],
    };
    assert_eq!(read_setting(&map, "default", "username").as_deref(), Some("me"));
    assert_eq!(read_setting(&map, "work", "username").as_deref(), Some("corp"));
    assert_eq!(read_setting(&map, "default", "missing"), None);
    assert_eq!(read_setting(&map, "absent", "username"), None);
    assert_eq!(chosen_section(None), "default");
    assert_eq!(chosen_section(Some("work".to_string())), "work");
}

#[test]
fn an_ini_file_feeds_the_settings_lookup() {
    let conf = ini::Ini::load_from_str("[default]\nusername=me\n[other]\nusername=you\n")
        .expect("the ini text parses");
    let mut sections: Vec<SettingSection> = Vec::new();
    for (sec, props) in conf.iter() {
        let name = sec.unwrap_or("").to_string();
        let mut entries = Vec::new();
        for (k, v) in props.iter() {
            entries.push(SettingEntry {
                key: k.to_string(),
                value: v.to_string(),
            });
        }
        sections.push(SettingSection { name, entries });
    }
    let map = SettingsMap { sections };
    assert_eq!(read_setting(&map, "other", "username").as_deref(), Some("you"));
}

#[test]
fn a_toml_file_feeds_the_settings_lookup() {
    let value: toml::Value = toml::from_str("[default]\nusername = \"flo\"\n")
        .expect("the toml text parses");
    let mut sections: Vec<SettingSection> = Vec::new();
    if let Some(table) = value.as_table() {
        for (name, inner) in table.iter() {
            let mut entries = Vec::new();
            if let Some(inner_table) = inner.as_table() {
                for (k, v) in inner_table.iter() {
                    if let Some(s) = v.as_str() {
                        entries.push(SettingEntry {
                            key: k.to_string(),
                            value: s.to_string(),
                        });
                    }
                }
            }
            sections.push(SettingSection {
                name: name.to_string(),
                entries,
            });
        }
    }
    let map = SettingsMap { sections };
    assert_eq!(read_setting(&map, "default", "username").as_deref(), Some("flo"));
}
