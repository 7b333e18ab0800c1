use hoard::params::{distinct_names, parse, resolve, ParameterToken, Resolution};

fn names(v: &[&str]) -> Vec<String> {
    v.iter().map(|s| s.to_string()).collect()
}

#[test]
fn repeated_parameter_is_asked_once_and_filled_everywhere() {
    let tokens = parse("echo #name!, #name!", '#', Some('!'));
    assert_eq!(tokens.len(), 2);
    assert_eq!(tokens[0], ParameterToken { name: "name".to_string(), start: 5, end: 11 });
    assert_eq!(tokens[1], ParameterToken { name: "name".to_string(), start: 13, end: 19 });
    let distinct = distinct_names(&tokens);
    assert_eq!(distinct, names(&["name"]));
    let out = resolve("echo #name!, #name!", '#', Some('!'), &distinct, &names(&["X"]));
    assert_eq!(out, "echo X, X");
}

#[test]
fn name_without_end_delimiter_stops_at_whitespace() {
    let tokens = parse("ls #dir -la", '#', None);
    assert_eq!(tokens, vec![ParameterToken { name: "dir".to_string(), start: 3, end: 7 }]);
    let out = resolve("ls #dir -la", '#', None, &names(&["dir"]), &names(&["/tmp"]));
    assert_eq!(out, "ls /tmp -la");
}

#[test]
fn end_delimiter_is_optional_when_configured() {
    let tokens = parse("cp #src #dst!.bak", '#', Some('!'));
    assert_eq!(tokens.len(), 2);
    assert_eq!(tokens[0].name, "src");
    assert_eq!(tokens[0].end, 7);
    assert_eq!(tokens[1].name, "dst");
    assert_eq!(tokens[1].end, 13);
    let out = resolve("cp #src #dst!.bak", '#', Some('!'), &names(&["src", "dst"]), &names(&["a", "b"]));
    assert_eq!(out, "cp a b.bak");
}

#[test]
fn empty_name_is_literal_text() {
    assert!(parse("echo # #! done", '#', Some('!')).is_empty());
    let out = resolve("echo # #! done", '#', Some('!'), &vec![], &vec![]);
    assert_eq!(out, "echo # #! done");
}

#[test]
fn parameter_without_value_stays_as_written() {
    let out = resolve("git checkout #branch!", '#', Some('!'), &names(&["other"]), &names(&["x"]));
    assert_eq!(out, "git checkout #branch!");
}

#[test]
fn distinct_names_keep_first_occurrence_order() {
    let tokens = parse("#b #a #b #c", '#', None);
    assert_eq!(distinct_names(&tokens), names(&["b", "a", "c"]));
}

#[test]
fn first_end_delimiter_ends_the_name() {
    let tokens = parse("echo #a!b!", '#', Some('!'));
    assert_eq!(tokens, vec![ParameterToken { name: "a".to_string(), start: 5, end: 8 }]);
    let out = resolve("echo #a!b!", '#', Some('!'), &names(&["a"]), &names(&["1"]));
    assert_eq!(out, "echo 1b!");
}

#[test]
fn resolution_asks_each_name_then_resolves() {
    let mut r = Resolution::new("ssh #user!@#host! -p #port".to_string(), '#', Some('!'));
    assert_eq!(r.pending_name(), Some("user".to_string()));
    assert_eq!(r.finish(), None);
    r.supply("me".to_string());
    assert_eq!(r.pending_name(), Some("host".to_string()));
    r.supply("example.org".to_string());
    assert_eq!(r.pending_name(), Some("port".to_string()));
    r.supply("22".to_string());
    assert_eq!(r.pending_name(), None);
    assert_eq!(r.finish(), Some("ssh me@example.org -p 22".to_string()));
}

#[test]
fn resolution_without_parameters_is_done_at_once() {
    let r = Resolution::new("ls -la".to_string(), '#', Some('!'));
    assert_eq!(r.pending_name(), None);
    assert_eq!(r.finish(), Some("ls -la".to_string()));
}
