//! Whole compiles: manifest text in, action descriptors or a structured
//! diagnostic out.

use dotmanifest::installer;
use dotmanifest::single;
use dotmanifest::Action;
use dotmanifest::ErrorKind;
use dotmanifest::Override;
use dotmanifest::OverrideKind;

fn chars_of(s: &str) -> Vec<char> {
    s.chars().collect()
}

fn text_of(v: &Vec<char>) -> String {
    v.iter().collect()
}

fn texts_of(v: &Vec<Vec<char>>) -> Vec<String> {
    v.iter().map(text_of).collect()
}

#[test]
fn cargo_section_lowers_to_one_action() {
    let actions = installer(&chars_of(r#"cargo { "ripgrep", "exa" };"#)).unwrap();
    assert_eq!(actions.len(), 1);
    match &actions[0] {
        Action::CargoInstall { crates } => {
            assert_eq!(texts_of(crates), vec!["ripgrep", "exa"]);
        }
        other => panic!("unexpected action: {:?}", other),
    }
}

#[test]
fn ensure_section_partitions_paths() {
    let actions = installer(&chars_of(r#"ensure { "/foo/bar", "~/.local/bin" };"#)).unwrap();
    assert_eq!(actions.len(), 1);
    match &actions[0] {
        Action::EnsureDirs { absolute_paths, home_paths } => {
            assert_eq!(texts_of(absolute_paths), vec!["/foo/bar"]);
            assert_eq!(texts_of(home_paths), vec!["~/.local/bin"]);
        }
        other => panic!("unexpected action: {:?}", other),
    }
}

#[test]
fn packages_section_collects_overrides() {
    let actions = installer(&chars_of(
        r#"packages { "unzip", "build-essential" => { pacman = "base-devel" } };"#,
    ))
    .unwrap();
    assert_eq!(actions.len(), 1);
    match &actions[0] {
        Action::Packages { packages } => {
            assert_eq!(packages.len(), 2);
            assert_eq!(text_of(&packages[0].name), "unzip");
            assert!(packages[0].pacman.is_none());
            assert!(packages[0].apt.is_none());
            assert!(packages[0].brew.is_none());
            assert_eq!(text_of(&packages[1].name), "build-essential");
            assert_eq!(text_of(packages[1].pacman.as_ref().unwrap()), "base-devel");
            assert!(packages[1].apt.is_none());
            assert!(packages[1].brew.is_none());
        }
        other => panic!("unexpected action: {:?}", other),
    }
}

#[test]
fn duplicate_symlink_fails_at_second_key() {
    let src = r#"symlinks { "foo" => "bar", "foo" => "baz" };"#;
    let err = installer(&chars_of(src)).unwrap_err();
    assert_eq!(err.kind, ErrorKind::DuplicateSymlink("foo".chars().collect()));
    assert_eq!(err.pos, src.rfind("\"foo\"").unwrap());
}

#[test]
fn exec_section_lowers_to_script_action() {
    let actions = installer(&chars_of(r#"exec "./install_fonts.sh";"#)).unwrap();
    assert_eq!(actions.len(), 1);
    match &actions[0] {
        Action::Script { path } => assert_eq!(text_of(path), "./install_fonts.sh"),
        other => panic!("unexpected action: {:?}", other),
    }
}

#[test]
fn duplicate_override_fails_at_second_occurrence() {
    let src = r#"packages { "p" => { apt = "a", apt = "b" } };"#;
    let err = installer(&chars_of(src)).unwrap_err();
    assert_eq!(err.kind, ErrorKind::DuplicateOverride(OverrideKind::Apt));
    assert_eq!(err.pos, src.rfind("apt").unwrap());
}

#[test]
fn unknown_section_is_reported_at_its_word() {
    let err = installer(&chars_of("nonsense { };")).unwrap_err();
    assert_eq!(err.kind, ErrorKind::UnknownSection);
    assert_eq!(err.pos, 0);
}

#[test]
fn missing_brace_is_a_grammar_error() {
    let err = installer(&chars_of(r#"cargo "x";"#)).unwrap_err();
    assert_eq!(err.kind, ErrorKind::Grammar);
}

#[test]
fn unterminated_string_is_a_grammar_error() {
    let err = installer(&chars_of(r#"exec "abc"#)).unwrap_err();
    assert_eq!(err.kind, ErrorKind::Grammar);
}

#[test]
fn missing_arrow_in_symlinks_is_a_grammar_error() {
    let err = installer(&chars_of(r#"symlinks { "a" "b" };"#)).unwrap_err();
    assert_eq!(err.kind, ErrorKind::Grammar);
}

#[test]
fn override_without_keyword_is_a_grammar_error() {
    let err = installer(&chars_of(r#"packages { "p" => { = "v" } };"#)).unwrap_err();
    assert_eq!(err.kind, ErrorKind::Grammar);
}

#[test]
fn override_with_two_keywords_is_a_grammar_error() {
    let err = installer(&chars_of(r#"packages { "p" => { apt pacman = "v" } };"#)).unwrap_err();
    assert_eq!(err.kind, ErrorKind::Grammar);
}

#[test]
fn empty_manifest_compiles_to_no_actions() {
    assert_eq!(installer(&chars_of("")).unwrap().len(), 0);
    assert_eq!(installer(&chars_of("   \n\t  ")).unwrap().len(), 0);
}

#[test]
fn trailing_comma_is_allowed() {
    let actions = installer(&chars_of(r#"cargo { "a", };"#)).unwrap();
    match &actions[0] {
        Action::CargoInstall { crates } => assert_eq!(texts_of(crates), vec!["a"]),
        other => panic!("unexpected action: {:?}", other),
    }
}

#[test]
fn final_separator_is_optional() {
    let actions = installer(&chars_of(r#"exec "a"; exec "b""#)).unwrap();
    assert_eq!(actions.len(), 2);
}

#[test]
fn section_order_is_preserved() {
    let actions =
        installer(&chars_of(r#"exec "one"; cargo { "two" }; exec "three";"#)).unwrap();
    assert_eq!(actions.len(), 3);
    assert!(matches!(&actions[0], Action::Script { path } if text_of(path) == "one"));
    assert!(matches!(&actions[1], Action::CargoInstall { crates } if texts_of(crates) == vec!["two"]));
    assert!(matches!(&actions[2], Action::Script { path } if text_of(path) == "three"));
}

#[test]
fn compiling_twice_gives_identical_plans() {
    let text = chars_of(
        r#"cargo { "a", "b" }; ensure { "~/x", "/y" }; symlinks { "l" => "o" };"#,
    );
    let first = installer(&text).unwrap();
    let second = installer(&text).unwrap();
    assert_eq!(first, second);
}

#[test]
fn duplicate_crate_names_are_permitted() {
    let actions = installer(&chars_of(r#"cargo { "a", "a" };"#)).unwrap();
    match &actions[0] {
        Action::CargoInstall { crates } => assert_eq!(texts_of(crates), vec!["a", "a"]),
        other => panic!("unexpected action: {:?}", other),
    }
}

#[test]
fn duplicate_package_names_are_permitted() {
    let actions = installer(&chars_of(r#"packages { "x", "x" };"#)).unwrap();
    match &actions[0] {
        Action::Packages { packages } => assert_eq!(packages.len(), 2),
        other => panic!("unexpected action: {:?}", other),
    }
}

#[test]
fn ensure_partition_keeps_source_order() {
    let actions = installer(&chars_of(r#"ensure { "~/a", "/b", "~/c", "d" };"#)).unwrap();
    match &actions[0] {
        Action::EnsureDirs { absolute_paths, home_paths } => {
            assert_eq!(texts_of(home_paths), vec!["~/a", "~/c"]);
            assert_eq!(texts_of(absolute_paths), vec!["/b", "d"]);
        }
        other => panic!("unexpected action: {:?}", other),
    }
}

#[test]
fn distinct_symlinks_all_survive() {
    let actions =
        installer(&chars_of(r#"symlinks { "a" => "1", "b" => "2", "c" => "3" };"#)).unwrap();
    match &actions[0] {
        Action::Symlinks { links } => {
            assert_eq!(links.len(), 3);
            assert_eq!(text_of(&links[1].link), "b");
            assert_eq!(text_of(&links[1].original), "2");
        }
        other => panic!("unexpected action: {:?}", other),
    }
}

#[test]
fn single_reports_zero_one_or_second_match() {
    let ovs = vec![
        Override { kind: OverrideKind::Apt, pos: 0, value: "a".chars().collect() },
        Override { kind: OverrideKind::Brew, pos: 5, value: "b".chars().collect() },
        Override { kind: OverrideKind::Apt, pos: 9, value: "c".chars().collect() },
    ];
    assert_eq!(single(&ovs, OverrideKind::Apt), Err(Some(2)));
    assert_eq!(single(&ovs, OverrideKind::Brew), Ok("b".chars().collect()));
    assert_eq!(single(&ovs, OverrideKind::Pacman), Err(None));
}
