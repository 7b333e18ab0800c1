use hoard::config::HoardConfig;
use hoard::entry::CommandEntry;
use hoard::render::{centered_margins, coerce_string_by_mode, get_color, get_footer_constraints};
use hoard::session::{ControlState, EditSelection, State};

fn entry(name: &str, ns: &str, command: &str) -> CommandEntry {
    CommandEntry {
        name: name.to_string(),
        namespace: ns.to_string(),
        command: command.to_string(),
        tags: vec!["t".to_string()],
        description: format!("about {name}"),
    }
}

fn session() -> State {
    State::start(
        vec![
            entry("alpha", "default", "echo a"),
            entry("beta", "work", "echo b"),
            entry("gamma", "default", "echo #x!"),
            entry("delta", "default", "echo d"),
        ],
        "default",
        false,
    )
}

fn type_text(s: &mut State, text: &str) {
    for c in text.chars() {
        s.on_char(c);
    }
}

fn clear_field(s: &mut State) {
    while !s.string_to_edit.is_empty() {
        s.on_backspace();
    }
}

#[test]
fn session_starts_in_search_on_default_namespace() {
    let s = session();
    assert_eq!(s.control, ControlState::Search);
    assert_eq!(s.namespaces, vec!["default".to_string(), "work".to_string()]);
    assert_eq!(s.namespace_tab, 0);
    let names: Vec<&str> = s.commands.iter().map(|e| e.name.as_str()).collect();
    assert_eq!(names, vec!["alpha", "gamma", "delta"]);
    assert_eq!(s.selected, 0);
}

#[test]
fn typing_filters_and_resets_selection_when_view_changes() {
    let mut s = session();
    s.select_next();
    assert_eq!(s.selected, 1);
    type_text(&mut s, "a");
    // every entry of the namespace still matches: the view is unchanged
    assert_eq!(s.selected, 1);
    type_text(&mut s, "m");
    assert_eq!(s.input, "am");
    let names: Vec<&str> = s.commands.iter().map(|e| e.name.as_str()).collect();
    assert_eq!(names, vec!["gamma"]);
    assert_eq!(s.selected, 0);
    s.on_backspace();
    assert_eq!(s.input, "a");
    assert_eq!(s.commands.len(), 3);
}

#[test]
fn deleting_the_last_selected_entry_moves_selection_back() {
    let mut s = session();
    s.select_previous();
    assert_eq!(s.selected, 2);
    assert!(s.delete_selected());
    assert_eq!(s.commands.len(), 2);
    assert_eq!(s.selected, 1);
    assert!(s.entries.iter().all(|e| e.name != "delta"));
    assert!(s.delete_selected());
    assert_eq!(s.selected, 0);
    assert!(s.delete_selected());
    assert!(s.commands.is_empty());
    assert_eq!(s.selected, 0);
    assert!(!s.delete_selected());
    assert_eq!(s.entries.len(), 1);
}

#[test]
fn cancelled_edit_leaves_store_untouched() {
    let mut s = session();
    let before = s.entries.clone();
    assert!(s.edit_selected());
    assert_eq!(s.control, ControlState::Edit);
    assert_eq!(s.string_to_edit, "alpha");
    for text in ["renamed", "rm -rf", "x, y", "changed"] {
        clear_field(&mut s);
        type_text(&mut s, text);
        s.next_field();
    }
    assert_eq!(s.draft.name, "renamed");
    assert_eq!(s.draft.command, "rm -rf");
    assert_eq!(s.draft.tags, vec!["x".to_string(), "y".to_string()]);
    assert_eq!(s.draft.description, "changed");
    s.cancel();
    assert_eq!(s.control, ControlState::Search);
    assert_eq!(s.entries, before);
}

#[test]
fn confirmed_new_entry_is_stored_as_drafted() {
    let mut s = session();
    s.create_command();
    assert_eq!(s.control, ControlState::Edit);
    assert_eq!(s.edit_selection, EditSelection::Name);
    type_text(&mut s, "new");
    s.next_field();
    assert_eq!(s.edit_selection, EditSelection::Command);
    type_text(&mut s, "echo #who!");
    s.next_field();
    type_text(&mut s, "greet, shell");
    s.next_field();
    type_text(&mut s, "says hello");
    assert!(s.confirm());
    assert_eq!(s.control, ControlState::Search);
    let expected = CommandEntry {
        name: "new".to_string(),
        namespace: "default".to_string(),
        command: "echo #who!".to_string(),
        tags: vec!["greet".to_string(), "shell".to_string()],
        description: "says hello".to_string(),
    };
    assert_eq!(s.entries.len(), 5);
    assert_eq!(s.entries[4], expected);
    assert!(s.commands.contains(&expected));
}

#[test]
fn confirmed_edit_replaces_the_entry() {
    let mut s = session();
    s.select_next();
    assert!(s.edit_selected());
    s.next_field();
    clear_field(&mut s);
    type_text(&mut s, "echo #y!");
    assert!(s.confirm());
    assert_eq!(s.entries.len(), 4);
    assert_eq!(s.entries[3].name, "gamma");
    assert_eq!(s.entries[3].command, "echo #y!");
}

#[test]
fn generation_without_key_shows_notice_then_returns() {
    let mut s = session();
    s.open_gpt();
    assert_eq!(s.control, ControlState::KeyNotSet);
    assert!(s.query_gpt);
    s.on_char('q');
    assert_eq!(s.control, ControlState::Search);
    assert!(!s.query_gpt);
    assert_eq!(s.input, "");
}

#[test]
fn generated_template_starts_a_draft_at_command() {
    let mut s = State::start(vec![], "default", true);
    s.open_gpt();
    assert_eq!(s.control, ControlState::Gpt);
    type_text(&mut s, "list files");
    assert_eq!(s.gpt_input, "list files");
    assert_eq!(s.input, "");
    assert!(s.gpt_generated("ls -la".to_string()));
    assert_eq!(s.control, ControlState::Edit);
    assert_eq!(s.edit_selection, EditSelection::Command);
    assert_eq!(s.string_to_edit, "ls -la");
    assert_eq!(s.draft.command, "ls -la");
    assert_eq!(s.draft.namespace, "default");
}

#[test]
fn namespace_tabs_cycle() {
    let mut s = session();
    s.next_namespace();
    assert_eq!(s.namespace_tab, 1);
    assert_eq!(s.commands.len(), 1);
    assert_eq!(s.commands[0].name, "beta");
    s.next_namespace();
    assert_eq!(s.namespace_tab, 0);
    s.previous_namespace();
    assert_eq!(s.namespace_tab, 1);
}

#[test]
fn selected_entry_is_handed_out_in_search() {
    let mut s = session();
    s.select_next();
    assert_eq!(s.selected_entry().map(|e| e.name), Some("gamma".to_string()));
    s.create_command();
    assert_eq!(s.selected_entry(), None);
}

#[test]
fn edited_pane_shows_working_copy_and_highlight() {
    let mut s = session();
    let config = HoardConfig::new("/h");
    assert_eq!(coerce_string_by_mode("x".to_string(), &s, &EditSelection::Name), "x");
    assert_eq!(get_color(&s, &config, &EditSelection::Name), (242, 229, 188));
    assert_eq!(get_footer_constraints(&s.control), (50, 50));
    assert!(s.edit_selected());
    assert_eq!(coerce_string_by_mode("x".to_string(), &s, &EditSelection::Name), "alpha");
    assert_eq!(coerce_string_by_mode("x".to_string(), &s, &EditSelection::Tags), "x");
    assert_eq!(get_color(&s, &config, &EditSelection::Name), (181, 118, 20));
    assert_eq!(get_color(&s, &config, &EditSelection::Command), (242, 229, 188));
    assert_eq!(get_footer_constraints(&s.control), (99, 1));
    assert_eq!(centered_margins(50), 25);
    assert_eq!(centered_margins(10), 45);
}

#[test]
fn deleting_keeps_namespace_and_query() {
    let mut s = session();
    type_text(&mut s, "a");
    s.select_previous();
    assert_eq!(s.selected, 2);
    assert!(s.delete_selected());
    assert_eq!(s.input, "a");
    assert_eq!(s.namespace_tab, 0);
    assert_eq!(s.namespaces, vec!["default".to_string(), "work".to_string()]);
    assert_eq!(s.commands.len(), 2);
    assert_eq!(s.selected, 1);
}

#[test]
fn backspace_in_prompt_and_notice() {
    let mut s = State::start(vec![], "default", true);
    s.open_gpt();
    type_text(&mut s, "ab");
    s.on_backspace();
    assert_eq!(s.gpt_input, "a");
    s.cancel();
    let mut t = session();
    t.open_gpt();
    assert_eq!(t.control, ControlState::KeyNotSet);
    t.on_backspace();
    assert_eq!(t.control, ControlState::Search);
    assert!(!t.query_gpt);
}
