use trycmd::{Filesystem, FixtureKind, Sibling};

fn fs(cwd: Option<&str>, base: Option<&str>, sandbox: Option<bool>) -> Filesystem {
    Filesystem { cwd: cwd.map(String::from), base: base.map(String::from), sandbox }
}

#[test]
fn fs_default_is_unset() {
    assert_eq!(Filesystem::default(), fs(None, None, None));
}

#[test]
fn fs_sandbox_defaults_to_false() {
    assert!(!fs(None, None, None).sandbox());
    assert!(!fs(None, None, Some(false)).sandbox());
    assert!(fs(None, None, Some(true)).sandbox());
}

#[test]
fn fs_rel_cwd_below_base() {
    let f = fs(Some("/f/case.in/sub"), Some("/f/case.in"), None);
    assert_eq!(f.rel_cwd(), Ok("sub".to_string()));
    let f = fs(Some("/f/case.in/a/b"), Some("/f/case.in/"), None);
    assert_eq!(f.rel_cwd(), Ok("a/b".to_string()));
    let f = fs(Some("/f/case.in"), Some("/f/case.in"), None);
    assert_eq!(f.rel_cwd(), Ok(String::new()));
}

#[test]
fn fs_rel_cwd_outside_base() {
    let f = fs(Some("/g/sub"), Some("/f/case.in"), None);
    assert_eq!(
        f.rel_cwd(),
        Err("fs.cwd (/g/sub) must be within fs.base (/f/case.in)".to_string())
    );
    let f = fs(Some("/f/case.input"), Some("/f/case.in"), None);
    assert_eq!(
        f.rel_cwd(),
        Err("fs.cwd (/f/case.input) must be within fs.base (/f/case.in)".to_string())
    );
    let f = fs(Some("/f"), Some("/f/case.in"), None);
    assert!(f.rel_cwd().is_err());
}

#[test]
fn fs_rel_cwd_of_unset_is_empty() {
    assert_eq!(fs(None, None, None).rel_cwd(), Ok(String::new()));
    assert_eq!(fs(Some("/g"), None, None).rel_cwd(), Ok(String::new()));
    assert_eq!(fs(None, Some("/f"), None).rel_cwd(), Ok(String::new()));
}

#[test]
fn fs_rel_cwd_from_a_given_result() {
    let f = fs(Some("/a/b"), Some("/a"), None);
    assert_eq!(f.rel_cwd_from(Some("b".into())), Ok("b".to_string()));
    assert_eq!(
        f.rel_cwd_from(None),
        Err("fs.cwd (/a/b) must be within fs.base (/a)".to_string())
    );
    assert_eq!(fs(None, Some("/a"), None).rel_cwd_from(None), Ok(String::new()));
    assert_eq!(fs(None, Some("/a"), None).rel_cwd_from(Some("x".into())), Ok(String::new()));
}

#[test]
fn fs_resolve_places_cwd_in_the_fixture_directory() {
    let mut f = fs(Some("sub"), None, None);
    f.resolve("/f/case.toml", false, false);
    assert_eq!(f, fs(Some("/f/sub"), Some("/f/sub"), Some(false)));
    let mut f = fs(Some("/abs"), None, None);
    f.resolve("/f/case.toml", false, true);
    assert_eq!(f, fs(Some("/abs"), Some("/abs"), Some(true)));
    let mut f = fs(Some("sub"), None, None);
    f.resolve("case.toml", false, false);
    assert_eq!(f, fs(Some("sub"), Some("sub"), Some(false)));
}

#[test]
fn fs_resolve_of_a_path_without_parent_uses_the_current_directory() {
    let mut f = fs(Some("sub"), None, None);
    f.resolve("", false, false);
    assert_eq!(f, fs(Some("./sub"), Some("./sub"), Some(false)));
}

#[test]
fn fs_resolve_prefers_the_seed_directory_as_base() {
    let mut f = fs(Some("sub"), None, None);
    f.resolve("/f/case.toml", true, false);
    assert_eq!(f, fs(Some("/f/sub"), Some("/f/case.in"), Some(false)));
    let mut f = fs(None, None, None);
    f.resolve("/f/case.trycmd", true, true);
    assert_eq!(f, fs(Some("/f/case.in"), Some("/f/case.in"), Some(true)));
}

#[test]
fn fs_resolve_keeps_what_is_set() {
    let mut f = fs(None, Some("/base"), Some(false));
    f.resolve("/f/case.toml", true, true);
    assert_eq!(f, fs(Some("/base"), Some("/base"), Some(false)));
    let mut f = fs(Some("w"), Some("/base"), Some(true));
    f.resolve("/f/case.toml", true, false);
    assert_eq!(f, fs(Some("/f/w"), Some("/base"), Some(true)));
}

#[test]
fn fs_resolve_with_nothing_to_go_by() {
    let mut f = fs(None, None, None);
    f.resolve("/f/case.toml", false, false);
    assert_eq!(f, fs(None, None, Some(false)));
}

#[test]
fn fs_fill_from_given_values() {
    let mut f = fs(Some("ignored"), None, None);
    f.fill(Some("/c".into()), Some("/s".into()), true);
    assert_eq!(f, fs(Some("/c"), Some("/s"), Some(true)));
    let mut f = fs(None, None, Some(true));
    f.fill(None, None, false);
    assert_eq!(f, fs(None, None, Some(true)));
}

#[test]
fn fixture_kind_by_extension() {
    assert_eq!(FixtureKind::from_extension(Some("toml")), Ok(FixtureKind::Structured));
    assert_eq!(FixtureKind::from_extension(Some("trycmd")), Ok(FixtureKind::Script));
    assert_eq!(
        FixtureKind::from_extension(Some("md")),
        Err("Unsupported extension: md".to_string())
    );
    assert_eq!(
        FixtureKind::from_extension(Some("TOML")),
        Err("Unsupported extension: TOML".to_string())
    );
    assert_eq!(FixtureKind::from_extension(None), Err("No extension".to_string()));
}

#[test]
fn fixture_kind_of_path() {
    assert_eq!(FixtureKind::of_path("/f/case.toml"), Ok(FixtureKind::Structured));
    assert_eq!(FixtureKind::of_path("case.a.trycmd"), Ok(FixtureKind::Script));
    assert_eq!(
        FixtureKind::of_path("/f/case.txt"),
        Err("Unsupported extension: txt".to_string())
    );
    assert_eq!(FixtureKind::of_path("/f.toml/case"), Err("No extension".to_string()));
    assert_eq!(FixtureKind::of_path(".toml"), Err("No extension".to_string()));
}

#[test]
fn sibling_paths() {
    assert_eq!(Sibling::Stdin.path("/f/case.toml"), "/f/case.stdin");
    assert_eq!(Sibling::Stdout.path("/f/case.toml"), "/f/case.stdout");
    assert_eq!(Sibling::Stderr.path("/f/case.toml"), "/f/case.stderr");
    assert_eq!(Sibling::SandboxIn.path("/f/case.trycmd"), "/f/case.in");
    assert_eq!(Sibling::SandboxOut.path("/f/case.trycmd"), "/f/case.out");
    assert_eq!(Sibling::SandboxOut.path("case"), "case.out");
}
