use trycmd::{Env, EnvVars};

fn table(pairs: &[(&str, &str)]) -> EnvVars {
    EnvVars::from_pairs(pairs.iter().map(|(k, v)| (k.to_string(), v.to_string())).collect())
}

fn env(inherit: Option<bool>, add: &[(&str, &str)], remove: &[&str]) -> Env {
    Env { inherit, add: table(add), remove: remove.iter().map(|r| r.to_string()).collect() }
}

fn applied(env: &Env, parent: &[(&str, &str)]) -> EnvVars {
    let mut vars = table(parent);
    env.apply(&mut vars);
    vars
}

const PARENT: [(&str, &str); 3] = [("HOME", "/h"), ("PATH", "/bin"), ("TERM", "x")];

#[test]
fn env_default_keeps_the_parent_environment() {
    let e = Env::default();
    assert_eq!(e.inherit, None);
    assert!(e.inherit());
    assert!(e.add.is_empty());
    assert!(e.remove.is_empty());
    assert_eq!(applied(&e, &PARENT), table(&PARENT));
    assert_eq!(applied(&e, &[]), table(&[]));
}

#[test]
fn env_without_inherit_holds_exactly_the_additions() {
    let e = env(Some(false), &[("A", "1")], &[]);
    assert!(!e.inherit());
    assert_eq!(applied(&e, &PARENT), table(&[("A", "1")]));
    let e = env(Some(false), &[("A", "1")], &["A", "PATH"]);
    assert_eq!(applied(&e, &PARENT), table(&[("A", "1")]));
    let e = env(Some(false), &[], &[]);
    assert_eq!(applied(&e, &PARENT), table(&[]));
}

#[test]
fn env_inherit_flag() {
    assert!(env(None, &[], &[]).inherit());
    assert!(env(Some(true), &[], &[]).inherit());
    assert!(!env(Some(false), &[], &[]).inherit());
}

#[test]
fn env_removes_then_adds() {
    let e = env(Some(true), &[("PATH", "/usr/bin"), ("NEW", "n")], &["TERM", "PATH", "GONE"]);
    assert_eq!(
        applied(&e, &PARENT),
        table(&[("HOME", "/h"), ("NEW", "n"), ("PATH", "/usr/bin")])
    );
}

#[test]
fn env_removal_is_idempotent_and_unordered() {
    let a = env(None, &[], &["TERM", "HOME"]);
    let b = env(None, &[], &["HOME", "TERM", "HOME", "TERM"]);
    assert_eq!(applied(&a, &PARENT), table(&[("PATH", "/bin")]));
    assert_eq!(applied(&a, &PARENT), applied(&b, &PARENT));
    let mut twice = applied(&a, &PARENT);
    a.apply(&mut twice);
    assert_eq!(twice, applied(&a, &PARENT));
}

#[test]
fn env_update_fills_in_defaults() {
    let mut case = env(None, &[("A", "case"), ("B", "case")], &["X"]);
    let defaults = env(Some(false), &[("B", "default"), ("C", "default")], &["Y", "X"]);
    case.update(&defaults);
    assert_eq!(
        case,
        env(Some(false), &[("A", "case"), ("B", "case"), ("C", "default")], &["X", "Y", "X"])
    );
}

#[test]
fn env_update_keeps_what_is_set() {
    let mut case = env(Some(true), &[("A", "1")], &[]);
    case.update(&env(Some(false), &[("A", "2")], &[]));
    assert_eq!(case, env(Some(true), &[("A", "1")], &[]));
    let mut case = env(Some(false), &[], &[]);
    case.update(&env(None, &[], &[]));
    assert_eq!(case.inherit, Some(false));
}

#[test]
fn env_update_with_unset_defaults_changes_nothing() {
    let mut case = env(Some(true), &[("A", "1")], &["B"]);
    let before = case.clone();
    case.update(&Env::default());
    assert_eq!(case, before);
    let mut unset = Env::default();
    unset.update(&before);
    assert_eq!(unset, before);
}
