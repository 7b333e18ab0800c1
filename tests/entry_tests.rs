use hoard::entry::{parse_tags, CommandEntry};
use hoard::text::{contains_chars, from_chars, to_chars};

#[test]
fn tags_are_split_trimmed_and_deduplicated() {
    let tags = parse_tags(" git, vcs ,git,, fetch ");
    assert_eq!(tags, vec!["git".to_string(), "vcs".to_string(), "fetch".to_string()]);
}

#[test]
fn empty_tag_text_gives_no_tags() {
    assert!(parse_tags("").is_empty());
    assert!(parse_tags(" , ,").is_empty());
}

#[test]
fn tags_join_with_commas() {
    let e = CommandEntry {
        name: "n".to_string(),
        namespace: "default".to_string(),
        command: "ls".to_string(),
        tags: vec!["a".to_string(), "b c".to_string()],
        description: String::new(),
    };
    assert_eq!(e.get_tags_as_string(), "a,b c");
    assert_eq!(parse_tags(&e.get_tags_as_string()), e.tags);
}

#[test]
fn chars_round_trip_and_substring() {
    let cs = to_chars("héllo wörld");
    assert_eq!(cs.len(), 11);
    assert_eq!(from_chars(&cs), "héllo wörld");
    assert!(contains_chars(&cs, &to_chars("o w")));
    assert!(contains_chars(&cs, &to_chars("")));
    assert!(!contains_chars(&cs, &to_chars("world")));
}
