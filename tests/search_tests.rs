use hoard::entry::CommandEntry;
use hoard::search::{filter, matches_folded};

fn entry(name: &str, ns: &str, tags: &[&str], description: &str) -> CommandEntry {
    CommandEntry {
        name: name.to_string(),
        namespace: ns.to_string(),
        command: format!("echo {name}"),
        tags: tags.iter().map(|t| t.to_string()).collect(),
        description: description.to_string(),
    }
}

fn store() -> Vec<CommandEntry> {
    vec![
        entry("list-files", "default", &["fs"], "shows a directory"),
        entry("docker-ps", "docker", &["containers"], "running containers"),
        entry("show-disk", "default", &["Docker"], "disk usage"),
        entry("Dock-build", "default", &[], "build it"),
        entry("top", "default", &[], "processes"),
    ]
}

#[test]
fn empty_query_keeps_namespace_in_order() {
    let r = filter(&store(), "default", "");
    let names: Vec<&str> = r.iter().map(|e| e.name.as_str()).collect();
    assert_eq!(names, vec!["list-files", "show-disk", "Dock-build", "top"]);
}

#[test]
fn name_prefix_matches_come_first() {
    let r = filter(&store(), "default", "dock");
    let names: Vec<&str> = r.iter().map(|e| e.name.as_str()).collect();
    assert_eq!(names, vec!["Dock-build", "show-disk"]);
}

#[test]
fn query_is_case_insensitive() {
    let r = filter(&store(), "default", "DISK");
    let names: Vec<&str> = r.iter().map(|e| e.name.as_str()).collect();
    assert_eq!(names, vec!["show-disk"]);
    let r = filter(&store(), "docker", "RUNNING");
    assert_eq!(r.len(), 1);
    assert_eq!(r[0].name, "docker-ps");
}

#[test]
fn every_match_holds_the_query() {
    for q in ["s", "di", "o", "zzz", "LIST"] {
        let ql = q.to_lowercase();
        for e in filter(&store(), "default", q) {
            assert_eq!(e.namespace, "default");
            let in_tags = e.tags.iter().any(|t| t.to_lowercase().contains(&ql));
            assert!(
                e.name.to_lowercase().contains(&ql)
                    || in_tags
                    || e.description.to_lowercase().contains(&ql)
            );
        }
    }
}

#[test]
fn unknown_namespace_gives_nothing() {
    assert!(filter(&store(), "nowhere", "").is_empty());
}

#[test]
fn folded_match_looks_at_every_field() {
    let tags = vec!["alpha".to_string(), "beta".to_string()];
    assert!(matches_folded("name", &tags, "desc", "am"));
    assert!(matches_folded("name", &tags, "desc", "et"));
    assert!(matches_folded("name", &tags, "desc", "es"));
    assert!(!matches_folded("name", &tags, "desc", "xyz"));
    assert!(!matches_folded("Name", &tags, "desc", "NA"));
}
