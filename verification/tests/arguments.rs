use trycmd::{Args, JoinedArgs};

fn strings(words: &[&str]) -> Vec<String> {
    words.iter().map(|w| w.to_string()).collect()
}

#[test]
fn args_new_is_an_empty_list() {
    assert_eq!(Args::new(), Args::Split(vec![]));
    assert_eq!(Args::default(), Args::new());
    assert!(Args::new().as_slice().is_empty());
    assert!(Args::new().into_vec().is_empty());
}

#[test]
fn args_as_slice_and_into_vec() {
    let split = Args::Split(strings(&["arg1", "arg with space"]));
    let joined = Args::Joined(JoinedArgs::from_vec(strings(&["arg1", "arg with space"])));
    assert_eq!(split.as_slice(), &strings(&["arg1", "arg with space"])[..]);
    assert_eq!(joined.as_slice(), &strings(&["arg1", "arg with space"])[..]);
    assert_eq!(split.into_vec(), strings(&["arg1", "arg with space"]));
    assert_eq!(joined.into_vec(), strings(&["arg1", "arg with space"]));
}

#[test]
fn joined_args_split_like_a_shell() {
    let joined = JoinedArgs::from_str("arg1 'arg with space'").unwrap();
    assert_eq!(joined, JoinedArgs::from_vec(strings(&["arg1", "arg with space"])));
    assert_eq!(joined.as_slice(), &strings(&["arg1", "arg with space"])[..]);
    assert_eq!(JoinedArgs::from_str("").unwrap(), JoinedArgs::default());
    assert_eq!(
        JoinedArgs::from_str("a\\ b \"c d\" e#f #g").unwrap().into_vec(),
        strings(&["a b", "c d", "e#f"])
    );
}

#[test]
fn joined_args_stop_at_an_open_quotation() {
    assert_eq!(JoinedArgs::from_str("a 'b").unwrap().into_vec(), strings(&["a"]));
}

#[test]
fn joined_args_render_quoted() {
    let joined = JoinedArgs::from_vec(strings(&["arg1", "arg with space"]));
    assert_eq!(joined.to_string(), "arg1 'arg with space'");
    assert_eq!(JoinedArgs::from_vec(strings(&["foo bar", "baz"])).to_string(), "'foo bar' baz");
    assert_eq!(JoinedArgs::from_vec(strings(&[""])).to_string(), "''");
    assert_eq!(JoinedArgs::default().to_string(), "");
}

#[test]
fn joined_args_round_trip() {
    for words in [
        strings(&["arg1", "arg with space"]),
        strings(&["it's", "a \"test\"", "", "$HOME", "a\\b", "tab\there", "é ü"]),
        strings(&[]),
    ] {
        let line = JoinedArgs::from_vec(words.clone()).to_string();
        assert_eq!(JoinedArgs::from_str(&line).unwrap().into_vec(), words, "{:?}", line);
    }
    let first = JoinedArgs::from_str("arg1 'arg with space'").unwrap();
    assert_eq!(JoinedArgs::from_str(&first.to_string()).unwrap(), first);
}

#[test]
fn joined_args_parse_never_fails() {
    let parsed: JoinedArgs = "x 'y z'".parse().unwrap();
    assert_eq!(parsed.into_vec(), strings(&["x", "y z"]));
}

#[test]
fn args_deref_to_the_words() {
    let joined = Args::Joined(JoinedArgs::from_str("a 'b c'").unwrap());
    assert_eq!(joined.len(), 2);
    assert_eq!(&joined[..], &strings(&["a", "b c"])[..]);
    assert_eq!(joined.first().map(String::as_str), Some("a"));
    assert!(Args::new().is_empty());
}
