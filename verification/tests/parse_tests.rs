//! Behaviour of the environment-dump parser on synthetic dumps.

use msvc_env::MsvcEnvironment;

fn pairs(env: &MsvcEnvironment) -> Vec<(String, String)> {
    let mut out = Vec::new();
    let mut i = 0;
    while let Some((k, v)) = env.get_index(i) {
        out.push((k.clone(), v.clone()));
        i += 1;
    }
    out
}

#[test]
fn well_formed_dump_parses_exactly_in_order() {
    let env = MsvcEnvironment::from_dump("PATH=C:\\bin\nINCLUDE=C:\\inc\nLIB=C:\\lib");
    assert_eq!(
        pairs(&env),
        vec![
            ("PATH".to_string(), "C:\\bin".to_string()),
            ("INCLUDE".to_string(), "C:\\inc".to_string()),
            ("LIB".to_string(), "C:\\lib".to_string()),
        ]
    );
}

#[test]
fn parsing_same_dump_twice_gives_identical_snapshots() {
    let dump = "A=1\nB=2\nC=3";
    let one = MsvcEnvironment::from_dump(dump);
    let two = MsvcEnvironment::from_dump(dump);
    assert_eq!(pairs(&one), pairs(&two));
}

#[test]
fn duplicate_key_last_wins_at_original_position() {
    let env = MsvcEnvironment::from_dump("A=1\nB=2\nA=3");
    assert_eq!(env.len(), 2);
    let got = pairs(&env);
    assert_eq!(
        got,
        vec![
            ("A".to_string(), "3".to_string()),
            ("B".to_string(), "2".to_string()),
        ]
    );
}

#[test]
fn value_may_contain_equals_sign() {
    let env = MsvcEnvironment::from_dump("PROMPT=$P$G=x");
    assert_eq!(env.len(), 1);
    assert_eq!(env.get("PROMPT").unwrap(), "$P$G=x");
}

#[test]
fn malformed_lines_are_skipped_and_parsing_continues() {
    let dump = "*** banner output ***\nA=1\n\nnot an assignment\nB=2\n";
    let env = MsvcEnvironment::from_dump(dump);
    assert_eq!(env.len(), 2);
    assert_eq!(
        pairs(&env),
        vec![
            ("A".to_string(), "1".to_string()),
            ("B".to_string(), "2".to_string()),
        ]
    );
}

#[test]
fn crlf_line_endings_are_stripped() {
    let env = MsvcEnvironment::from_dump("PATH=C:\\x\r\nLIB=C:\\y\r\n");
    assert_eq!(env.len(), 2);
    assert_eq!(env.get("PATH").unwrap(), "C:\\x");
    assert_eq!(env.get("LIB").unwrap(), "C:\\y");
}

#[test]
fn empty_value_is_kept() {
    let env = MsvcEnvironment::from_dump("EMPTY=");
    assert_eq!(env.len(), 1);
    assert_eq!(env.get("EMPTY").unwrap(), "");
}

#[test]
fn line_starting_with_equals_keeps_empty_name() {
    let env = MsvcEnvironment::from_dump("=C:=C:\\x");
    assert_eq!(env.len(), 1);
    assert_eq!(env.get("").unwrap(), "C:=C:\\x");
}

#[test]
fn empty_dump_parses_to_nothing() {
    let env = MsvcEnvironment::from_dump("");
    assert_eq!(env.len(), 0);
    assert!(env.get("PATH").is_none());
}

#[test]
fn snapshot_clone_has_identical_content() {
    let env = MsvcEnvironment::from_dump("A=1\nB=2");
    let copy = env.clone();
    assert_eq!(pairs(&env), pairs(&copy));
}

#[test]
fn missing_key_is_absent() {
    let env = MsvcEnvironment::from_dump("A=1");
    assert!(env.get("B").is_none());
    assert!(env.get_index(1).is_none());
}
