//! The interactive session: its modes, the filtered view and selection, the
//! edit draft, and the transition made for each user action.
use vstd::prelude::*;
use vstd::string::*;
use crate::entry::{
    copy_string, entry_views, join_tags, join_tag_list, parse_tags, tags_of_text, texts,
    CommandEntry, EntryView,
};
use crate::params::distinct;
use crate::search::{filter, filter_spec};
use crate::text::{lower_of, pop_char, push_char};

verus! {

/// The interaction mode of the session.
#[derive(Debug, Clone, Copy, PartialEq, Eq, Structural)]
pub enum ControlState {
    /// Typing narrows the command list.
    Search,
    /// One field of a draft entry is being edited.
    Edit,
    /// Typing composes a request for a generated command.
    Gpt,
    /// A generated command was asked for, but no key is configured.
    KeyNotSet,
}

/// The field of the draft entry that is being edited.
#[derive(Debug, Clone, Copy, PartialEq, Eq, Structural)]
pub enum EditSelection {
    Name,
    Command,
    Tags,
    Description,
}

/// The field edited after `f`, in the cycle name, command, tags, description.
pub open spec fn next_selection(f: EditSelection) -> EditSelection {
    match f {
        EditSelection::Name => EditSelection::Command,
        EditSelection::Command => EditSelection::Tags,
        EditSelection::Tags => EditSelection::Description,
        EditSelection::Description => EditSelection::Name,
    }
}

impl EditSelection {
    /// The field edited after this one.
    pub fn next(&self) -> (r: EditSelection)
        ensures
            r == next_selection(*self),
    {
        match self {
            EditSelection::Name => EditSelection::Command,
            EditSelection::Command => EditSelection::Tags,
            EditSelection::Tags => EditSelection::Description,
            EditSelection::Description => EditSelection::Name,
        }
    }
}

/// The text of field `f` of entry `d` as it is edited (tags joined).
pub open spec fn field_text(d: EntryView, f: EditSelection) -> Seq<char> {
    match f {
        EditSelection::Name => d.name,
        EditSelection::Command => d.command,
        EditSelection::Tags => join_tags(d.tags),
        EditSelection::Description => d.description,
    }
}

/// Entry `d` with field `f` set from the edited text `buf` (tags parsed).
pub open spec fn commit_field(d: EntryView, f: EditSelection, buf: Seq<char>) -> EntryView {
    match f {
        EditSelection::Name => EntryView { name: buf, ..d },
        EditSelection::Command => EntryView { command: buf, ..d },
        EditSelection::Tags => EntryView { tags: tags_of_text(buf), ..d },
        EditSelection::Description => EntryView { description: buf, ..d },
    }
}

/// A selection index brought back into a list of length `n`: kept if valid,
/// else the last index, or 0 for an empty list.
pub open spec fn clamp(sel: int, n: int) -> int {
    if n <= 0 {
        0
    } else if sel < n {
        sel
    } else {
        n - 1
    }
}

/// Entries `a` and `b` have the same identity: namespace and name.
pub open spec fn same_identity(a: EntryView, b: EntryView) -> bool {
    a.namespace == b.namespace && a.name == b.name
}

/// Entry `a` is the one looked for: equal to `d` when `exact`, else of the
/// same identity.
pub open spec fn keyed(a: EntryView, d: EntryView, exact: bool) -> bool {
    if exact {
        a == d
    } else {
        same_identity(a, d)
    }
}

/// The first index in `es` of an entry that is `keyed` to `d`, or -1.
pub open spec fn index_where(es: Seq<EntryView>, d: EntryView, exact: bool) -> int
    decreases es.len(),
{
    if es.len() == 0 {
        -1
    } else if keyed(es[0], d, exact) {
        0
    } else {
        let k = index_where(es.drop_first(), d, exact);
        if k < 0 {
            -1
        } else {
            k + 1
        }
    }
}

/// The first index in `es` of an entry with the identity of `d`, or -1.
pub open spec fn index_of(es: Seq<EntryView>, d: EntryView) -> int {
    index_where(es, d, false)
}

/// The first index in `es` of an entry equal to `d`, or -1.
pub open spec fn position(es: Seq<EntryView>, d: EntryView) -> int {
    index_where(es, d, true)
}

/// `es` with `d` stored: in place of the first entry of its identity, or
/// appended when there is none.
pub open spec fn upsert(es: Seq<EntryView>, d: EntryView) -> Seq<EntryView> {
    let k = index_of(es, d);
    if k < 0 {
        es.push(d)
    } else {
        es.update(k, d)
    }
}

/// The namespace tabs for a store: the default namespace, then the other
/// namespaces in order of first occurrence.
pub open spec fn tabs_of(es: Seq<EntryView>, default_ns: Seq<char>) -> Seq<Seq<char>> {
    distinct(seq![default_ns] + es.map_values(|e: EntryView| e.namespace))
}

/// Session `b` holds the same stored entries as session `a`.
pub open spec fn keeps_store(a: State, b: State) -> bool {
    a.entries == b.entries
}

/// Any run of actions that each keep the store (entering edit mode, typing,
/// moving between fields, cancelling, and every other action but confirming
/// and deleting) ends with the store exactly as it began.
pub proof fn lemma_actions_keep_store(trace: Seq<State>)
    requires
        trace.len() >= 1,
        forall|i: int| 0 <= i < trace.len() - 1 ==> keeps_store(#[trigger] trace[i], trace[i + 1]),
    ensures
        trace.last().entries == trace[0].entries,
    decreases trace.len(),
{
    if trace.len() > 1 {
        let t = trace.drop_last();
        assert forall|i: int| 0 <= i < t.len() - 1 implies keeps_store(#[trigger] t[i], t[i + 1]) by {
            assert(t[i] == trace[i] && t[i + 1] == trace[i + 1]);
        }
        lemma_actions_keep_store(t);
        assert(keeps_store(trace[trace.len() - 2], trace[trace.len() - 1]));
    }
}

/// The state of one interactive session.
#[derive(Debug, Clone, PartialEq, Eq)]
pub struct State {
    /// Every stored entry, in store order.
    pub entries: Vec<CommandEntry>,
    /// The namespace tabs.
    pub namespaces: Vec<String>,
    /// The index of the selected namespace tab.
    pub namespace_tab: usize,
    /// The query typed in search mode.
    pub input: String,
    /// The entries of the selected namespace that match the query.
    pub commands: Vec<CommandEntry>,
    /// The index of the selected entry in `commands`.
    pub selected: usize,
    pub control: ControlState,
    pub edit_selection: EditSelection,
    /// The working copy of the edited field.
    pub string_to_edit: String,
    /// The entry being built in edit mode.
    pub draft: CommandEntry,
    /// The index in `entries` of the entry being edited, if it is not new.
    pub editing: Option<usize>,
    /// The request typed for a generated command.
    pub gpt_input: String,
    /// Whether the generation popup is shown.
    pub query_gpt: bool,
    /// Whether a key for command generation is configured.
    pub openai_key_set: bool,
}

impl State {
    /// The name of the selected namespace.
    pub open spec fn namespace_spec(&self) -> Seq<char> {
        self.namespaces@[self.namespace_tab as int]@
    }

    /// The filtered view that the store, namespace and query give.
    pub open spec fn view_spec(&self) -> Seq<EntryView> {
        filter_spec(entry_views(self.entries@), self.namespace_spec(), lower_of(self.input@))
    }

    /// The session's invariant: a namespace is selected, the filtered view
    /// is derived from the store, namespace and query, the selection is a
    /// valid index (or 0 for an empty view), and an edited entry is in the
    /// store.
    pub open spec fn wf(&self) -> bool {
        &&& self.namespace_tab < self.namespaces@.len()
        &&& entry_views(self.commands@) == self.view_spec()
        &&& self.selected as int == clamp(self.selected as int, self.commands@.len() as int)
        &&& (self.editing matches Some(k) ==> k < self.entries@.len())
    }

    /// Recomputes the filtered view. With `keep`, the selection is kept when
    /// the view is unchanged and reset to 0 otherwise; without it, the
    /// selection is clamped to the new view.
    fn refilter(&mut self, keep: bool)
        requires
            old(self).namespace_tab < old(self).namespaces@.len(),
        ensures
            final(self).wf(),
            final(self).selected as int == if keep {
                if entry_views(final(self).commands@) == entry_views(old(self).commands@)
                    && old(self).selected < final(self).commands@.len() {
                    old(self).selected as int
                } else {
                    0
                }
            } else {
                clamp(old(self).selected as int, final(self).commands@.len() as int)
            },
            keeps_store(*old(self), *final(self)),
            final(self).namespaces == old(self).namespaces,
            final(self).namespace_tab == old(self).namespace_tab,
            final(self).input == old(self).input,
            final(self).control == old(self).control,
            final(self).edit_selection == old(self).edit_selection,
            final(self).string_to_edit == old(self).string_to_edit,
            final(self).draft == old(self).draft,
            final(self).gpt_input == old(self).gpt_input,
            final(self).query_gpt == old(self).query_gpt,
            final(self).openai_key_set == old(self).openai_key_set,
            old(self).editing matches Some(k) && k < old(self).entries@.len() ==> final(self).editing
                == old(self).editing,
            old(self).editing is None ==> final(self).editing is None,
    {
        let ns = copy_string(&self.namespaces[self.namespace_tab]);
        let view = filter(&self.entries, ns.as_str(), self.input.as_str());
        let n = view.len();
        let sel = if keep {
            if same_lists(&view, &self.commands) && self.selected < n {
                self.selected
            } else {
                0
            }
        } else if n == 0 {
            0
        } else if self.selected < n {
            self.selected
        } else {
            n - 1
        };
        self.commands = view;
        self.selected = sel;
        match self.editing {
            Some(k) => {
                if k >= self.entries.len() {
                    self.editing = None;
                }
            },
            None => {},
        }
    }
}

/// Whether two lists of strings have the same texts.
pub fn same_strings(a: &Vec<String>, b: &Vec<String>) -> (r: bool)
    ensures
        r == (texts(a@) == texts(b@)),
{
    if a.len() != b.len() {
        assert(texts(a@).len() != texts(b@).len());
        return false;
    }
    let mut i: usize = 0;
    while i < a.len()
        invariant
            a@.len() == b@.len(),
            i <= a@.len(),
            forall|j: int| 0 <= j < i ==> a@[j]@ == b@[j]@,
        decreases a@.len() - i,
    {
        if a[i] != b[i] {
            assert(texts(a@)[i as int] != texts(b@)[i as int]);
            return false;
        }
        i = i + 1;
    }
    assert(texts(a@) =~= texts(b@));
    true
}

/// Whether two entries hold the same text in every field.
pub fn same_entry(a: &CommandEntry, b: &CommandEntry) -> (r: bool)
    ensures
        r == (a@ == b@),
{
    a.name == b.name && a.namespace == b.namespace && a.command == b.command && same_strings(
        &a.tags,
        &b.tags,
    ) && a.description == b.description
}

/// Whether two entry lists hold the same entries in the same order.
pub fn same_lists(a: &Vec<CommandEntry>, b: &Vec<CommandEntry>) -> (r: bool)
    ensures
        r == (entry_views(a@) == entry_views(b@)),
{
    if a.len() != b.len() {
        assert(entry_views(a@).len() != entry_views(b@).len());
        return false;
    }
    let mut i: usize = 0;
    while i < a.len()
        invariant
            a@.len() == b@.len(),
            i <= a@.len(),
            forall|j: int| 0 <= j < i ==> a@[j]@ == b@[j]@,
        decreases a@.len() - i,
    {
        if !same_entry(&a[i], &b[i]) {
            assert(entry_views(a@)[i as int] != entry_views(b@)[i as int]);
            return false;
        }
        i = i + 1;
    }
    assert(entry_views(a@) =~= entry_views(b@));
    true
}

/// The selection after a keystroke in search mode: kept when the view is
/// unchanged, else reset to the first entry.
pub open spec fn selection_after_keystroke(old_view: Seq<EntryView>, old_sel: int, new_view: Seq<
    EntryView,
>) -> int {
    if new_view == old_view && old_sel < new_view.len() {
        old_sel
    } else {
        0
    }
}

/// `s` without its last character, if it has one.
pub open spec fn without_last(s: Seq<char>) -> Seq<char> {
    if s.len() > 0 {
        s.drop_last()
    } else {
        s
    }
}

/// The store that a confirmed edit leaves: the edited entry taken out, then
/// the draft stored by its identity.
pub open spec fn store_after_confirm(es: Seq<EntryView>, editing: Option<usize>, d: EntryView) -> Seq<
    EntryView,
> {
    let base = match editing {
        Some(k) => es.remove(k as int),
        None => es,
    };
    upsert(base, d)
}

/// A fresh draft in namespace `ns` whose command is `command`.
pub open spec fn fresh_draft(ns: Seq<char>, command: Seq<char>) -> EntryView {
    EntryView {
        name: Seq::empty(),
        namespace: ns,
        command: command,
        tags: Seq::empty(),
        description: Seq::empty(),
    }
}

/// What `index_where` returns, stated by quantifiers.
pub proof fn lemma_index_where(es: Seq<EntryView>, d: EntryView, exact: bool)
    ensures
        -1 <= index_where(es, d, exact) < es.len(),
        index_where(es, d, exact) < 0 ==> forall|j: int| 0 <= j < es.len() ==> !keyed(#[trigger] es[j], d, exact),
        index_where(es, d, exact) >= 0 ==> keyed(es[index_where(es, d, exact)], d, exact) && forall|j: int|
            0 <= j < index_where(es, d, exact) ==> !keyed(#[trigger] es[j], d, exact),
    decreases es.len(),
{
    if es.len() > 0 && !keyed(es[0], d, exact) {
        let t = es.drop_first();
        lemma_index_where(t, d, exact);
        assert forall|j: int| 0 < j < es.len() implies es[j] == t[j - 1] by {}
        if index_where(t, d, exact) < 0 {
            assert forall|j: int| 0 <= j < es.len() implies !keyed(#[trigger] es[j], d, exact) by {
                if j > 0 {
                    assert(es[j] == t[j - 1]);
                }
            }
        } else {
            let k = index_where(t, d, exact);
            assert forall|j: int| 0 <= j < k + 1 implies !keyed(#[trigger] es[j], d, exact) by {
                if j > 0 {
                    assert(es[j] == t[j - 1]);
                }
            }
        }
    }
}

/// `index_where` is the only index that meets its description.
proof fn lemma_index_where_unique(es: Seq<EntryView>, d: EntryView, exact: bool, k: int)
    requires
        (k == -1 && forall|j: int| 0 <= j < es.len() ==> !keyed(#[trigger] es[j], d, exact)) || (0
            <= k < es.len() && keyed(es[k], d, exact) && forall|j: int|
            0 <= j < k ==> !keyed(#[trigger] es[j], d, exact)),
    ensures
        index_where(es, d, exact) == k,
{
    lemma_index_where(es, d, exact);
    let i = index_where(es, d, exact);
    if i < 0 && k >= 0 {
        assert(keyed(es[k], d, exact));
    } else if i >= 0 && k < 0 {
        assert(keyed(es[i], d, exact));
    } else if i >= 0 && k >= 0 && i != k {
        if i < k {
            assert(keyed(es[i], d, exact));
        } else {
            assert(keyed(es[k], d, exact));
        }
    }
}

/// After an entry is stored, looking its identity up in the store gives that
/// very entry.
pub proof fn lemma_stored_entry_found(es: Seq<EntryView>, d: EntryView)
    ensures
        0 <= index_of(upsert(es, d), d),
        upsert(es, d)[index_of(upsert(es, d), d)] == d,
{
    lemma_index_where(es, d, false);
    let u = upsert(es, d);
    let k = index_of(es, d);
    if k < 0 {
        assert forall|j: int| 0 <= j < es.len() implies !same_identity(#[trigger] u[j], d) by {
            assert(u[j] == es[j]);
        }
        lemma_index_where_unique(u, d, false, es.len() as int);
    } else {
        assert forall|j: int| 0 <= j < k implies !same_identity(#[trigger] u[j], d) by {
            assert(u[j] == es[j]);
        }
        lemma_index_where_unique(u, d, false, k);
    }
}

/// When the selected entry is the last of the view and the view loses one
/// entry, the selection moves to the new last index, or to 0 when the view is
/// empty; it is a valid index either way.
pub proof fn lemma_delete_last_selection(selected: int, new_len: int)
    requires
        new_len >= 0,
        selected == new_len,
    ensures
        clamp(selected, new_len) == if new_len == 0 {
            0
        } else {
            new_len - 1
        },
        new_len > 0 ==> 0 <= clamp(selected, new_len) < new_len,
{
}

/// The first index in `es` of an entry that is `keyed` to `d`.
fn find_entry(es: &Vec<CommandEntry>, d: &CommandEntry, exact: bool) -> (r: Option<usize>)
    ensures
        match r {
            Some(k) => k < es@.len() && index_where(entry_views(es@), d@, exact) == k,
            None => index_where(entry_views(es@), d@, exact) == -1,
        },
{
    let ghost v = entry_views(es@);
    let mut i: usize = 0;
    while i < es.len()
        invariant
            v == entry_views(es@),
            i <= es@.len(),
            forall|j: int| 0 <= j < i ==> !keyed(#[trigger] v[j], d@, exact),
        decreases es@.len() - i,
    {
        let hit = if exact {
            crate::session::same_entry(&es[i], d)
        } else {
            es[i].namespace == d.namespace && es[i].name == d.name
        };
        assert(v[i as int] == es@[i as int]@);
        if hit {
            proof {
                lemma_index_where_unique(v, d@, exact, i as int);
            }
            return Some(i);
        }
        i = i + 1;
    }
    proof {
        lemma_index_where_unique(v, d@, exact, -1);
    }
    None
}

/// The text of field `f` of `d` as it is edited.
fn field_string(d: &CommandEntry, f: EditSelection) -> (r: String)
    ensures
        r@ == field_text(d@, f),
{
    match f {
        EditSelection::Name => d.name.clone(),
        EditSelection::Command => d.command.clone(),
        EditSelection::Tags => join_tag_list(&d.tags),
        EditSelection::Description => d.description.clone(),
    }
}

/// The namespace tabs for `entries`: `default_namespace`, then the other
/// namespaces in order of first occurrence.
pub fn namespace_tabs(entries: &Vec<CommandEntry>, default_namespace: &str) -> (r: Vec<String>)
    ensures
        texts(r@) == tabs_of(entry_views(entries@), default_namespace@),
        r@.len() >= 1,
{
    let ghost all = seq![default_namespace@] + entry_views(entries@).map_values(|e: EntryView| e.namespace);
    let mut r: Vec<String> = Vec::new();
    r.push(default_namespace.to_owned());
    proof {
        let one = all.subrange(0, 1);
        assert(one.drop_last() =~= Seq::<Seq<char>>::empty());
        assert(distinct(one.drop_last()) =~= Seq::<Seq<char>>::empty());
        assert(!distinct(one.drop_last()).contains(one.last()));
        assert(texts(r@) =~= distinct(one));
    }
    let mut i: usize = 0;
    while i < entries.len()
        invariant
            i <= entries@.len(),
            all == seq![default_namespace@] + entry_views(entries@).map_values(|e: EntryView| e.namespace),
            texts(r@) == distinct(all.subrange(0, i + 1)),
            r@.len() >= 1,
        decreases entries@.len() - i,
    {
        assert(all.subrange(0, i + 2).drop_last() =~= all.subrange(0, i + 1));
        assert(all.subrange(0, i + 2).last() == entries@[i as int].namespace@);
        if !crate::entry::holds_text(&r, &entries[i].namespace) {
            let ghost before = r@;
            r.push(entries[i].namespace.clone());
            assert(texts(r@) =~= texts(before).push(entries@[i as int].namespace@));
        }
        i = i + 1;
    }
    assert(all.subrange(0, entries@.len() as int + 1) =~= all);
    r
}

impl State {
    /// A session over `entries` in search mode, with the default namespace
    /// selected, an empty query and the first entry selected.
    pub fn start(entries: Vec<CommandEntry>, default_namespace: &str, openai_key_set: bool) -> (r: State)
        ensures
            r.wf(),
            r.entries == entries,
            texts(r.namespaces@) == tabs_of(entry_views(entries@), default_namespace@),
            r.namespace_tab == 0,
            r.namespace_spec() == default_namespace@,
            r.input@.len() == 0,
            r.selected == 0,
            r.control == ControlState::Search,
            r.editing is None,
            !r.query_gpt,
            r.openai_key_set == openai_key_set,
    {
        let namespaces = namespace_tabs(&entries, default_namespace);
        proof {
            assert(texts(namespaces@)[0] == namespaces@[0]@);
            lemma_first_tab(entry_views(entries@), default_namespace@);
        }
        let mut s = State {
            entries,
            namespaces,
            namespace_tab: 0,
            input: String::new(),
            commands: Vec::new(),
            selected: 0,
            control: ControlState::Search,
            edit_selection: EditSelection::Name,
            string_to_edit: String::new(),
            draft: CommandEntry::blank(),
            editing: None,
            gpt_input: String::new(),
            query_gpt: false,
            openai_key_set,
        };
        s.refilter(false);
        s
    }

    /// The name of the selected namespace.
    pub fn current_namespace(&self) -> (r: String)
        requires
            self.wf(),
        ensures
            r@ == self.namespace_spec(),
    {
        self.namespaces[self.namespace_tab].clone()
    }

    /// Handles a typed character: in search mode it extends the query and
    /// filters again, in edit mode it extends the edited field, in the
    /// generation prompt it extends the request; with no key configured any
    /// key returns to search mode.
    pub fn on_char(&mut self, c: char)
        requires
            old(self).wf(),
        ensures
            final(self).wf(),
            keeps_store(*old(self), *final(self)),
            final(self).draft == old(self).draft,
            final(self).namespaces == old(self).namespaces,
            final(self).namespace_tab == old(self).namespace_tab,
            old(self).control == ControlState::Search ==> final(self).input@ == old(self).input@.push(c)
                && final(self).control == ControlState::Search && final(self).selected as int
                == selection_after_keystroke(
                entry_views(old(self).commands@),
                old(self).selected as int,
                entry_views(final(self).commands@),
            ),
            old(self).control == ControlState::Edit ==> final(self).string_to_edit@
                == old(self).string_to_edit@.push(c) && final(self).control == ControlState::Edit
                && final(self).edit_selection == old(self).edit_selection,
            old(self).control == ControlState::Gpt ==> final(self).gpt_input@ == old(self).gpt_input@.push(c)
                && final(self).control == ControlState::Gpt,
            old(self).control == ControlState::KeyNotSet ==> final(self).control == ControlState::Search
                && !final(self).query_gpt,
    {
        match self.control {
            ControlState::Search => {
                push_char(&mut self.input, c);
                self.refilter(true);
            },
            ControlState::Edit => push_char(&mut self.string_to_edit, c),
            ControlState::Gpt => push_char(&mut self.gpt_input, c),
            ControlState::KeyNotSet => {
                self.control = ControlState::Search;
                self.query_gpt = false;
            },
        }
    }

    /// Handles a deleted character: like `on_char`, but the last character of
    /// the query, edited field or request is removed.
    pub fn on_backspace(&mut self)
        requires
            old(self).wf(),
        ensures
            final(self).wf(),
            keeps_store(*old(self), *final(self)),
            final(self).draft == old(self).draft,
            final(self).namespaces == old(self).namespaces,
            final(self).namespace_tab == old(self).namespace_tab,
            old(self).control == ControlState::Search ==> final(self).input@ == without_last(old(self).input@)
                && final(self).control == ControlState::Search && final(self).selected as int
                == selection_after_keystroke(
                entry_views(old(self).commands@),
                old(self).selected as int,
                entry_views(final(self).commands@),
            ),
            old(self).control == ControlState::Edit ==> final(self).string_to_edit@ == without_last(
                old(self).string_to_edit@,
            ) && final(self).control == ControlState::Edit && final(self).edit_selection
                == old(self).edit_selection,
            old(self).control == ControlState::Gpt ==> final(self).gpt_input@ == without_last(
                old(self).gpt_input@,
            ) && final(self).control == ControlState::Gpt,
            old(self).control == ControlState::KeyNotSet ==> final(self).control == ControlState::Search
                && !final(self).query_gpt,
    {
        match self.control {
            ControlState::Search => {
                pop_char(&mut self.input);
                self.refilter(true);
            },
            ControlState::Edit => pop_char(&mut self.string_to_edit),
            ControlState::Gpt => pop_char(&mut self.gpt_input),
            ControlState::KeyNotSet => {
                self.control = ControlState::Search;
                self.query_gpt = false;
            },
        }
    }

    /// Moves the selection one entry down, from the last back to the first.
    pub fn select_next(&mut self)
        requires
            old(self).wf(),
        ensures
            final(self).wf(),
            keeps_store(*old(self), *final(self)),
            final(self).commands == old(self).commands,
            final(self).selected as int == if old(self).control == ControlState::Search
                && old(self).selected + 1 < old(self).commands@.len() {
                old(self).selected + 1
            } else if old(self).control == ControlState::Search {
                0
            } else {
                old(self).selected as int
            },
    {
        if self.control == ControlState::Search {
            if self.commands.len() > 0 && self.selected < self.commands.len() - 1 {
                self.selected = self.selected + 1;
            } else {
                self.selected = 0;
            }
        }
    }

    /// Moves the selection one entry up, from the first round to the last.
    pub fn select_previous(&mut self)
        requires
            old(self).wf(),
        ensures
            final(self).wf(),
            keeps_store(*old(self), *final(self)),
            final(self).commands == old(self).commands,
            final(self).selected as int == if old(self).control != ControlState::Search {
                old(self).selected as int
            } else if old(self).selected > 0 {
                old(self).selected - 1
            } else {
                clamp(old(self).commands@.len() - 1, old(self).commands@.len() as int)
            },
    {
        if self.control == ControlState::Search {
            if self.selected > 0 {
                self.selected = self.selected - 1;
            } else if self.commands.len() > 0 {
                self.selected = self.commands.len() - 1;
            }
        }
    }

    /// Selects the next namespace tab (after the last, the first) and filters
    /// again.
    pub fn next_namespace(&mut self)
        requires
            old(self).wf(),
        ensures
            final(self).wf(),
            keeps_store(*old(self), *final(self)),
            final(self).namespace_tab == if old(self).control != ControlState::Search {
                old(self).namespace_tab
            } else if old(self).namespace_tab + 1 < old(self).namespaces@.len() {
                (old(self).namespace_tab + 1) as usize
            } else {
                0
            },
    {
        if self.control == ControlState::Search {
            if self.namespace_tab < self.namespaces.len() - 1 {
                self.namespace_tab = self.namespace_tab + 1;
            } else {
                self.namespace_tab = 0;
            }
            self.refilter(true);
        }
    }

    /// Selects the previous namespace tab (before the first, the last) and
    /// filters again.
    pub fn previous_namespace(&mut self)
        requires
            old(self).wf(),
        ensures
            final(self).wf(),
            keeps_store(*old(self), *final(self)),
            final(self).namespace_tab == if old(self).control != ControlState::Search {
                old(self).namespace_tab
            } else if old(self).namespace_tab > 0 {
                (old(self).namespace_tab - 1) as usize
            } else {
                (old(self).namespaces@.len() - 1) as usize
            },
    {
        if self.control == ControlState::Search {
            if self.namespace_tab > 0 {
                self.namespace_tab = self.namespace_tab - 1;
            } else {
                self.namespace_tab = self.namespaces.len() - 1;
            }
            self.refilter(true);
        }
    }
}

impl State {
    /// Writes the working copy into the draft's edited field.
    fn commit_buffer(&mut self)
        ensures
            final(self).draft@ == commit_field(old(self).draft@, old(self).edit_selection, old(self).string_to_edit@),
            keeps_store(*old(self), *final(self)),
            final(self).namespaces == old(self).namespaces,
            final(self).namespace_tab == old(self).namespace_tab,
            final(self).input == old(self).input,
            final(self).commands == old(self).commands,
            final(self).selected == old(self).selected,
            final(self).control == old(self).control,
            final(self).edit_selection == old(self).edit_selection,
            final(self).string_to_edit == old(self).string_to_edit,
            final(self).editing == old(self).editing,
            final(self).gpt_input == old(self).gpt_input,
            final(self).query_gpt == old(self).query_gpt,
            final(self).openai_key_set == old(self).openai_key_set,
    {
        match self.edit_selection {
            EditSelection::Name => self.draft.name = self.string_to_edit.clone(),
            EditSelection::Command => self.draft.command = self.string_to_edit.clone(),
            EditSelection::Tags => self.draft.tags = parse_tags(self.string_to_edit.as_str()),
            EditSelection::Description => self.draft.description = self.string_to_edit.clone(),
        }
    }

    /// In search mode, starts a new entry in the selected namespace: edit
    /// mode on its name, with an empty working copy.
    pub fn create_command(&mut self)
        requires
            old(self).wf(),
        ensures
            final(self).wf(),
            keeps_store(*old(self), *final(self)),
            old(self).control == ControlState::Search ==> final(self).control == ControlState::Edit
                && final(self).edit_selection == EditSelection::Name && final(self).draft@
                == fresh_draft(old(self).namespace_spec(), Seq::empty()) && final(self).string_to_edit@.len()
                == 0 && final(self).editing is None,
            old(self).control != ControlState::Search ==> *final(self) == *old(self),
    {
        if self.control == ControlState::Search {
            let mut d = CommandEntry::blank();
            d.namespace = self.current_namespace();
            assert(d@.name =~= Seq::<char>::empty());
            assert(d@.command =~= Seq::<char>::empty());
            assert(d@.description =~= Seq::<char>::empty());
            assert(d@.tags =~= Seq::<Seq<char>>::empty());
            self.draft = d;
            self.string_to_edit = String::new();
            self.edit_selection = EditSelection::Name;
            self.editing = None;
            self.control = ControlState::Edit;
        }
    }

    /// In search mode with an entry selected, starts editing it: edit mode on
    /// its name, with the name as working copy. Returns whether it did.
    pub fn edit_selected(&mut self) -> (r: bool)
        requires
            old(self).wf(),
        ensures
            final(self).wf(),
            keeps_store(*old(self), *final(self)),
            r == (old(self).control == ControlState::Search && old(self).commands@.len() > 0),
            r ==> final(self).control == ControlState::Edit && final(self).edit_selection
                == EditSelection::Name && final(self).draft@ == old(self).commands@[old(self).selected as int]@ && final(self).string_to_edit@ == final(self).draft@.name && match final(self).editing {
                Some(k) => index_of(entry_views(old(self).entries@), final(self).draft@) == k,
                None => index_of(entry_views(old(self).entries@), final(self).draft@) == -1,
            },
            !r ==> *final(self) == *old(self),
    {
        if self.control != ControlState::Search || self.commands.len() == 0 {
            return false;
        }
        let d = self.commands[self.selected].duplicate();
        self.editing = find_entry(&self.entries, &d, false);
        self.string_to_edit = d.name.clone();
        self.draft = d;
        self.edit_selection = EditSelection::Name;
        self.control = ControlState::Edit;
        true
    }

    /// In edit mode, keeps the working copy in the draft and moves on to the
    /// next field, whose text becomes the working copy.
    pub fn next_field(&mut self)
        requires
            old(self).wf(),
        ensures
            final(self).wf(),
            keeps_store(*old(self), *final(self)),
            old(self).control == ControlState::Edit ==> final(self).draft@ == commit_field(
                old(self).draft@,
                old(self).edit_selection,
                old(self).string_to_edit@,
            ) && final(self).edit_selection == next_selection(old(self).edit_selection) && final(self).string_to_edit@ == field_text(final(self).draft@, final(self).edit_selection) && final(self).control == ControlState::Edit,
            old(self).control != ControlState::Edit ==> *final(self) == *old(self),
    {
        if self.control == ControlState::Edit {
            self.commit_buffer();
            self.edit_selection = self.edit_selection.next();
            self.string_to_edit = field_string(&self.draft, self.edit_selection);
        }
    }

    /// Leaves edit mode, the generation prompt or the missing-key notice for
    /// search mode, dropping the draft, the working copy and the request;
    /// the store is left as it was. In search mode nothing changes.
    pub fn cancel(&mut self)
        requires
            old(self).wf(),
        ensures
            final(self).wf(),
            keeps_store(*old(self), *final(self)),
            final(self).commands == old(self).commands,
            final(self).selected == old(self).selected,
            final(self).control == ControlState::Search,
            old(self).control != ControlState::Search ==> final(self).editing is None && !final(self).query_gpt && final(self).string_to_edit@.len() == 0 && final(self).gpt_input@.len() == 0,
            old(self).control == ControlState::Search ==> *final(self) == *old(self),
    {
        if self.control != ControlState::Search {
            self.control = ControlState::Search;
            self.draft = CommandEntry::blank();
            self.string_to_edit = String::new();
            self.gpt_input = String::new();
            self.editing = None;
            self.query_gpt = false;
        }
    }

    /// In edit mode, keeps the working copy in the draft and stores the
    /// draft: the edited entry is taken out, then the draft replaces the
    /// first entry of its identity or is appended. Returns to search mode,
    /// filters again and clamps the selection. Returns whether the store
    /// changed (and so is to be saved).
    pub fn confirm(&mut self) -> (r: bool)
        requires
            old(self).wf(),
        ensures
            final(self).wf(),
            r == (old(self).control == ControlState::Edit),
            r ==> entry_views(final(self).entries@) == store_after_confirm(
                entry_views(old(self).entries@),
                old(self).editing,
                commit_field(old(self).draft@, old(self).edit_selection, old(self).string_to_edit@),
            ) && final(self).control == ControlState::Search && final(self).editing is None
                && final(self).namespaces == old(self).namespaces && final(self).namespace_tab
                == old(self).namespace_tab && final(self).input == old(self).input
                && final(self).selected as int == clamp(
                old(self).selected as int,
                final(self).commands@.len() as int,
            ),
            !r ==> *final(self) == *old(self),
    {
        if self.control != ControlState::Edit {
            return false;
        }
        self.commit_buffer();
        let ghost es = entry_views(self.entries@);
        let ghost d = self.draft@;
        match self.editing {
            Some(k) => {
                self.entries.remove(k);
                assert(entry_views(self.entries@) =~= es.remove(k as int));
            },
            None => {},
        }
        let ghost base = entry_views(self.entries@);
        let stored = self.draft.duplicate();
        match find_entry(&self.entries, &self.draft, false) {
            Some(k) => {
                self.entries.set(k, stored);
                assert(entry_views(self.entries@) =~= base.update(k as int, d));
            },
            None => {
                self.entries.push(stored);
                assert(entry_views(self.entries@) =~= base.push(d));
            },
        }
        self.editing = None;
        self.control = ControlState::Search;
        self.draft = CommandEntry::blank();
        self.string_to_edit = String::new();
        self.refilter(false);
        true
    }

    /// In search mode with an entry selected, deletes it from the store (the
    /// first stored entry equal to it), filters again and clamps the
    /// selection: the view loses exactly that entry, and when the last entry
    /// was selected the new last one is, or 0 once the view is empty.
    /// Returns whether the store changed (and so is to be saved).
    pub fn delete_selected(&mut self) -> (r: bool)
        requires
            old(self).wf(),
        ensures
            final(self).wf(),
            r == (old(self).control == ControlState::Search && old(self).commands@.len() > 0),
            r ==> ({
                let es = entry_views(old(self).entries@);
                let d = old(self).commands@[old(self).selected as int]@;
                &&& 0 <= position(es, d) < es.len()
                &&& entry_views(final(self).entries@) == es.remove(position(es, d))
                &&& final(self).control == ControlState::Search
                &&& final(self).namespaces == old(self).namespaces
                &&& final(self).namespace_tab == old(self).namespace_tab
                &&& final(self).input == old(self).input
                &&& final(self).commands@.len() + 1 == old(self).commands@.len()
                &&& final(self).selected as int == clamp(
                    old(self).selected as int,
                    final(self).commands@.len() as int,
                )
                &&& old(self).selected + 1 == old(self).commands@.len() ==> final(self).selected as int
                    == if final(self).commands@.len() == 0 {
                    0
                } else {
                    final(self).commands@.len() - 1
                }
            }),
            !r ==> *final(self) == *old(self),
    {
        if self.control != ControlState::Search || self.commands.len() == 0 {
            return false;
        }
        let ghost es = entry_views(self.entries@);
        let ghost ns = self.namespace_spec();
        let ghost q = lower_of(self.input@);
        let ghost d = self.commands@[self.selected as int]@;
        let ghost old_len = self.commands@.len();
        proof {
            assert(entry_views(self.commands@)[self.selected as int] == d);
            assert(filter_spec(es, ns, q)[self.selected as int] == d);
            crate::search::lemma_results_in_store(es, ns, q);
            crate::search::lemma_results_match(es, ns, q);
            assert(d.namespace == ns && crate::search::entry_matches(d, q));
            assert(es.contains(d));
            lemma_index_where(es, d, true);
        }
        match find_entry(&self.entries, &self.commands[self.selected], true) {
            Some(k) => {
                self.entries.remove(k);
                assert(entry_views(self.entries@) =~= es.remove(k as int));
                proof {
                    crate::search::lemma_removing_a_result_shrinks(es, ns, q, k as int);
                }
            },
            None => {
                assert(false);
            },
        }
        self.editing = None;
        self.refilter(false);
        proof {
            if self.selected + 1 == old_len {
                lemma_delete_last_selection(old_len - 1, self.commands@.len() as int);
            }
        }
        true
    }

    /// In search mode, opens the generation prompt when a key is configured,
    /// else the missing-key notice.
    pub fn open_gpt(&mut self)
        requires
            old(self).wf(),
        ensures
            final(self).wf(),
            keeps_store(*old(self), *final(self)),
            old(self).control == ControlState::Search ==> final(self).query_gpt && final(self).control
                == if old(self).openai_key_set {
                ControlState::Gpt
            } else {
                ControlState::KeyNotSet
            } && final(self).gpt_input@.len() == 0,
            old(self).control != ControlState::Search ==> *final(self) == *old(self),
    {
        if self.control == ControlState::Search {
            self.query_gpt = true;
            self.gpt_input = String::new();
            self.control = if self.openai_key_set {
                ControlState::Gpt
            } else {
                ControlState::KeyNotSet
            };
        }
    }

    /// In the generation prompt, takes the generated template as the command
    /// of a new draft in the selected namespace and edits it, starting at the
    /// command field. Returns whether it did.
    pub fn gpt_generated(&mut self, template: String) -> (r: bool)
        requires
            old(self).wf(),
        ensures
            final(self).wf(),
            keeps_store(*old(self), *final(self)),
            r == (old(self).control == ControlState::Gpt),
            r ==> final(self).control == ControlState::Edit && final(self).edit_selection
                == EditSelection::Command && final(self).draft@ == fresh_draft(
                old(self).namespace_spec(),
                template@,
            ) && final(self).string_to_edit@ == template@ && final(self).editing is None && !final(self).query_gpt,
            !r ==> *final(self) == *old(self),
    {
        if self.control != ControlState::Gpt {
            return false;
        }
        let mut d = CommandEntry::blank();
        d.namespace = self.current_namespace();
        self.string_to_edit = template.clone();
        d.command = template;
        assert(d@.name =~= Seq::<char>::empty());
        assert(d@.description =~= Seq::<char>::empty());
        assert(d@.tags =~= Seq::<Seq<char>>::empty());
        self.draft = d;
        self.edit_selection = EditSelection::Command;
        self.editing = None;
        self.query_gpt = false;
        self.gpt_input = String::new();
        self.control = ControlState::Edit;
        true
    }

    /// In search mode, the selected entry, whose command is to be resolved
    /// and run; nothing when no entry is selected.
    pub fn selected_entry(&self) -> (r: Option<CommandEntry>)
        requires
            self.wf(),
        ensures
            match r {
                Some(e) => self.control == ControlState::Search && self.commands@.len() > 0 && e@
                    == self.commands@[self.selected as int]@,
                None => !(self.control == ControlState::Search && self.commands@.len() > 0),
            },
    {
        if self.control == ControlState::Search && self.commands.len() > 0 {
            Some(self.commands[self.selected].duplicate())
        } else {
            None
        }
    }
}

proof fn lemma_first_tab(es: Seq<EntryView>, ns: Seq<char>)
    ensures
        tabs_of(es, ns).len() >= 1,
        tabs_of(es, ns)[0] == ns,
{
    let all = seq![ns] + es.map_values(|e: EntryView| e.namespace);
    lemma_distinct_head(all);
}

proof fn lemma_distinct_head(s: Seq<Seq<char>>)
    requires
        s.len() >= 1,
    ensures
        distinct(s).len() >= 1,
        distinct(s)[0] == s[0],
    decreases s.len(),
{
    let d = distinct(s.drop_last());
    if s.len() > 1 {
        lemma_distinct_head(s.drop_last());
        assert(s.drop_last()[0] == s[0]);
        if !d.contains(s.last()) {
            assert(d.push(s.last())[0] == d[0]);
        }
    } else {
        assert(s.drop_last() =~= Seq::<Seq<char>>::empty());
        assert(d =~= Seq::<Seq<char>>::empty());
        assert(!d.contains(s.last()));
        assert(d.push(s.last())[0] == s[0]);
    }
}

} // verus!
