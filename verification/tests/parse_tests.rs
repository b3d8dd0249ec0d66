//! Section-level parsing: each section parser on its own fragment, and a
//! whole manifest parsed end to end.

use std::collections::HashMap;

use dotmanifest::Cargo;
use dotmanifest::Ensure;
use dotmanifest::Installer;
use dotmanifest::Override;
use dotmanifest::Package;
use dotmanifest::Symlinks;

fn cv(s: &str) -> Vec<char> {
    s.chars().collect()
}

fn sv(v: &Vec<char>) -> String {
    v.iter().collect()
}

#[test]
fn parses_cargo_section() {
    let text = cv(
        r#"cargo {
            "first",
            "second"
        }"#,
    );
    let (cargo, _) = Cargo::parse(&text, 0).unwrap();
    let crate_names: Vec<String> = cargo.crates.iter().map(|c| c.iter().collect()).collect();
    assert_eq!(crate_names, vec!["first", "second"]);
}

#[test]
fn parses_ensure_section() {
    let text = cv(
        r#"ensure {
            "first",
            "second",
            "~/third"
        }"#,
    );
    let (ensure, _) = Ensure::parse(&text, 0).unwrap();
    let home_paths: Vec<String> = ensure.home_paths.iter().map(|p| p.iter().collect()).collect();
    assert_eq!(home_paths, vec!["~/third"]);
    let absolute_paths: Vec<String> =
        ensure.absolute_paths.iter().map(|p| p.iter().collect()).collect();
    assert_eq!(absolute_paths, vec!["first", "second"]);
}

#[test]
fn full_parse_example() {
    let text = cv(
        r#"

        cargo {
            "ripgrep",
            "exa"
        };

        ensure {
            "~/.local/bin",
            "/foo/bar",
        };

        exec "./install_fonts.sh";

        packages {
            "unzip",
            "build-essential" => {
              pacman = "base-devel",
            }
        };

        symlinks {
            "foo" => "bar",
        };
            "#,
    );
    let mut installer: Installer = Installer::parse(&text).unwrap();

    let cargo = installer.sections.remove(0);
    assert_eq!(sv(&cargo.as_cargo().unwrap().crates[0]), "ripgrep");
    assert_eq!(sv(&cargo.as_cargo().unwrap().crates[1]), "exa");

    let ensure = installer.sections.remove(0);
    let ensure = ensure.as_ensure().unwrap();
    let home_paths = ensure.home_paths.iter().map(sv).collect::<Vec<_>>();
    assert_eq!(home_paths, ["~/.local/bin"]);
    let absolute_paths = ensure.absolute_paths.iter().map(sv).collect::<Vec<_>>();
    assert_eq!(absolute_paths, ["/foo/bar"]);

    let script = installer.sections.remove(0);
    assert_eq!(sv(&script.as_script().unwrap().path), "./install_fonts.sh");

    let packages = installer.sections.remove(0);
    let packages = packages.as_packages().unwrap();

    let unzip = &packages.packages[0];
    assert!(
        matches!(unzip, Package { name, pacman: None, apt: None, brew: None } if sv(name) == "unzip")
    );

    let Package { name, pacman, apt, brew } = &packages.packages[1];
    assert_eq!(sv(name), "build-essential");
    assert_eq!(sv(pacman.as_ref().unwrap()), "base-devel");
    assert!(apt.is_none());
    assert!(brew.is_none());
}

#[test]
fn correctly_parses_overrides() {
    let (o, _) = Override::parse(&cv(r#"brew = "asdf""#), 0).unwrap();
    assert!(o.is_brew() && !o.is_apt() && !o.is_pacman() && sv(&o.value) == "asdf");

    let (o, _) = Override::parse(&cv(r#"pacman = "asdf""#), 0).unwrap();
    assert!(o.is_pacman() && !o.is_apt() && !o.is_brew() && sv(&o.value) == "asdf");

    let (o, _) = Override::parse(&cv(r#"apt = "asdf""#), 0).unwrap();
    assert!(o.is_apt() && !o.is_brew() && !o.is_pacman() && sv(&o.value) == "asdf");

    Override::parse(&cv(r#"asdf = "asdf""#), 0).unwrap_err();
}

#[test]
fn correctly_parses_package() {
    let (p, _) = Package::parse(
        &cv(
            r#"
            "some_package" => {
                apt = "apt_ov",
                brew = "brew_ov",
                pacman = "pacman_ov",
            }
            "#,
        ),
        0,
    )
    .unwrap();
    assert_eq!(sv(&p.name), "some_package");
    assert_eq!(sv(&p.apt.unwrap()), "apt_ov");
    assert_eq!(sv(&p.brew.unwrap()), "brew_ov");
    assert_eq!(sv(&p.pacman.unwrap()), "pacman_ov");

    let (empty_package, _) = Package::parse(&cv(r#""some_package""#), 0).unwrap();
    assert!(
        matches!(empty_package, Package { name, pacman: None, apt: None, brew: None } if sv(&name) == "some_package")
    );

    let err = Package::parse(&cv(r#""some_package" => { apt = "foo", apt = "foo" }"#), 0);
    assert!(err.is_err());
}

#[test]
fn correctly_parses_packages() {
    let (p, _) = dotmanifest::Packages::parse(
        &cv(
            r#"
            packages {
                "some_package" => {
                    apt = "apt_ov",
                    brew = "brew_ov",
                    pacman = "pacman_ov",
                },
                "other_package"
            }
            "#,
        ),
        0,
    )
    .unwrap();

    let first = &p.packages[0];
    assert_eq!(sv(&first.name), "some_package");
    assert_eq!(sv(first.apt.as_ref().unwrap()), "apt_ov");
    assert_eq!(sv(first.brew.as_ref().unwrap()), "brew_ov");
    assert_eq!(sv(first.pacman.as_ref().unwrap()), "pacman_ov");

    let second = &p.packages[1];
    assert!(
        matches!(second, Package { name, pacman: None, apt: None, brew: None } if sv(name) == "other_package")
    );
}

#[test]
fn correctly_parses_symlinks() {
    let text = cv(
        r#"
            symlinks {
              "foo" => "bar",
              "~/.bashrc" => "~/config/bashrc",
            }
            "#,
    );
    let (s, _) = Symlinks::parse(&text, 0).unwrap();
    let links: HashMap<String, String> =
        s.links.iter().map(|l| (sv(&l.link), sv(&l.original))).collect();
    assert_eq!(links.get("foo"), Some(&"bar".to_string()));
    assert_eq!(links.get("~/.bashrc"), Some(&"~/config/bashrc".to_string()));
}
