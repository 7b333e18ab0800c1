//! The stored command entry and the text form of its tags.
use vstd::prelude::*;
use vstd::string::*;
use crate::text::{from_chars, is_space, push_char, space, to_chars};

verus! {

/// One stored command: a named, parameterised shell template in a namespace.
#[derive(Debug, Clone, PartialEq, Eq)]
pub struct CommandEntry {
    pub name: String,
    pub namespace: String,
    pub command: String,
    pub tags: Vec<String>,
    pub description: String,
}

/// What an entry holds, as plain text.
pub struct EntryView {
    pub name: Seq<char>,
    pub namespace: Seq<char>,
    pub command: Seq<char>,
    pub tags: Seq<Seq<char>>,
    pub description: Seq<char>,
}

impl View for CommandEntry {
    type V = EntryView;

    open spec fn view(&self) -> EntryView {
        EntryView {
            name: self.name@,
            namespace: self.namespace@,
            command: self.command@,
            tags: texts(self.tags@),
            description: self.description@,
        }
    }
}

/// The views of a list of entries.
pub open spec fn entry_views(s: Seq<CommandEntry>) -> Seq<EntryView> {
    s.map_values(|e: CommandEntry| e@)
}

/// The texts of a list of strings.
pub open spec fn texts(v: Seq<String>) -> Seq<Seq<char>> {
    v.map_values(|t: String| t@)
}

/// The character that separates tags in their text form.
pub const TAG_SEPARATOR: char = ',';

/// The pieces of `s` between separators (one piece more than separators).
pub open spec fn split_pieces(s: Seq<char>) -> Seq<Seq<char>>
    decreases s.len(),
{
    if s.len() == 0 {
        seq![Seq::empty()]
    } else {
        let p = split_pieces(s.drop_last());
        if s.last() == TAG_SEPARATOR {
            p.push(Seq::empty())
        } else {
            p.update(p.len() - 1, p.last().push(s.last()))
        }
    }
}

/// `t` without its leading white space.
pub open spec fn trim_start(t: Seq<char>) -> Seq<char>
    decreases t.len(),
{
    if t.len() > 0 && is_space(t[0]) {
        trim_start(t.drop_first())
    } else {
        t
    }
}

/// `t` without its trailing white space.
pub open spec fn trim_end(t: Seq<char>) -> Seq<char>
    decreases t.len(),
{
    if t.len() > 0 && is_space(t.last()) {
        trim_end(t.drop_last())
    } else {
        t
    }
}

/// `t` without white space at either end.
pub open spec fn trim(t: Seq<char>) -> Seq<char> {
    trim_end(trim_start(t))
}

/// The tag list `tags` after one more piece is read: trimmed, and kept only
/// when it is not empty and not already present.
pub open spec fn add_piece(tags: Seq<Seq<char>>, piece: Seq<char>) -> Seq<Seq<char>> {
    let t = trim(piece);
    if t.len() == 0 || tags.contains(t) {
        tags
    } else {
        tags.push(t)
    }
}

/// The tags that the pieces `ps` give, in order of first occurrence.
pub open spec fn collect_tags(ps: Seq<Seq<char>>) -> Seq<Seq<char>>
    decreases ps.len(),
{
    if ps.len() == 0 {
        Seq::empty()
    } else {
        add_piece(collect_tags(ps.drop_last()), ps.last())
    }
}

/// The tag set written as `s`: split at separators, trimmed, empty pieces
/// dropped, duplicates removed (first occurrence kept).
pub open spec fn tags_of_text(s: Seq<char>) -> Seq<Seq<char>> {
    collect_tags(split_pieces(s))
}

/// The text form of a tag list: the tags joined by the separator.
pub open spec fn join_tags(ts: Seq<Seq<char>>) -> Seq<char>
    decreases ts.len(),
{
    if ts.len() == 0 {
        Seq::empty()
    } else if ts.len() == 1 {
        ts[0]
    } else {
        join_tags(ts.drop_last()).push(TAG_SEPARATOR) + ts.last()
    }
}

proof fn lemma_split_nonempty(s: Seq<char>)
    ensures
        split_pieces(s).len() >= 1,
    decreases s.len(),
{
    if s.len() > 0 {
        lemma_split_nonempty(s.drop_last());
    }
}

/// A copy of `s`.
pub fn copy_string(s: &String) -> (r: String)
    ensures
        r@ == s@,
{
    s.clone()
}

/// A copy of a list of strings.
pub fn copy_strings(v: &Vec<String>) -> (r: Vec<String>)
    ensures
        r@ == v@,
{
    let mut r: Vec<String> = Vec::new();
    let mut i: usize = 0;
    while i < v.len()
        invariant
            i <= v@.len(),
            r@ == v@.subrange(0, i as int),
        decreases v@.len() - i,
    {
        r.push(v[i].clone());
        assert(v@.subrange(0, i + 1) =~= v@.subrange(0, i as int).push(v@[i as int]));
        i = i + 1;
    }
    assert(r@ =~= v@);
    r
}

/// `cs` without white space at either end.
pub fn trim_chars(cs: &Vec<char>) -> (r: Vec<char>)
    ensures
        r@ == trim(cs@),
{
    let n = cs.len();
    let mut i: usize = 0;
    assert(cs@.subrange(0, n as int) =~= cs@);
    while i < n && space(cs[i])
        invariant
            n == cs@.len(),
            i <= n,
            trim_start(cs@) == trim_start(cs@.subrange(i as int, n as int)),
        decreases n - i,
    {
        assert(cs@.subrange(i as int + 1, n as int) =~= cs@.subrange(i as int, n as int).drop_first());
        i = i + 1;
    }
    let ghost mid = cs@.subrange(i as int, n as int);
    assert(trim_start(mid) == mid);
    let mut j: usize = n;
    while j > i && space(cs[j - 1])
        invariant
            n == cs@.len(),
            i <= j <= n,
            mid == cs@.subrange(i as int, n as int),
            trim_end(mid) == trim_end(cs@.subrange(i as int, j as int)),
        decreases j,
    {
        assert(cs@.subrange(i as int, j - 1) =~= cs@.subrange(i as int, j as int).drop_last());
        j = j - 1;
    }
    let mut r: Vec<char> = Vec::new();
    let mut k: usize = i;
    while k < j
        invariant
            i <= k <= j <= n,
            n == cs@.len(),
            r@ == cs@.subrange(i as int, k as int),
        decreases j - k,
    {
        r.push(cs[k]);
        assert(cs@.subrange(i as int, k + 1) =~= cs@.subrange(i as int, k as int).push(cs@[k as int]));
        k = k + 1;
    }
    r
}

/// Whether a list of strings holds one with the text `t`.
pub fn holds_text(v: &Vec<String>, t: &String) -> (r: bool)
    ensures
        r == texts(v@).contains(t@),
{
    let mut i: usize = 0;
    while i < v.len()
        invariant
            i <= v@.len(),
            forall|j: int| 0 <= j < i ==> v@[j]@ != t@,
        decreases v@.len() - i,
    {
        if v[i] == *t {
            assert(texts(v@)[i as int] == t@);
            return true;
        }
        i = i + 1;
    }
    assert forall|j: int| 0 <= j < texts(v@).len() implies texts(v@)[j] != t@ by {}
    false
}

/// Adds the trimmed `piece` to `tags` unless it is empty or already there.
fn add_piece_exec(tags: &mut Vec<String>, piece: &Vec<char>)
    ensures
        texts(final(tags)@) == add_piece(texts(old(tags)@), piece@),
{
    let t = trim_chars(piece);
    let s = from_chars(t.as_slice());
    if t.len() == 0 || holds_text(tags, &s) {
        return;
    }
    let ghost before = tags@;
    tags.push(s);
    assert(texts(tags@) =~= texts(before).push(s@));
}

/// The tag set written as `s`: split at the separator, trimmed, empty tags
/// dropped and duplicates removed, in order of first occurrence.
pub fn parse_tags(s: &str) -> (r: Vec<String>)
    ensures
        texts(r@) == tags_of_text(s@),
{
    let cs = to_chars(s);
    let mut tags: Vec<String> = Vec::new();
    let mut cur: Vec<char> = Vec::new();
    let mut i: usize = 0;
    proof {
        assert(cs@.subrange(0, 0) =~= Seq::<char>::empty());
        assert(texts(tags@) =~= Seq::<Seq<char>>::empty());
    }
    while i < cs.len()
        invariant
            i <= cs@.len(),
            split_pieces(cs@.subrange(0, i as int)).len() >= 1,
            texts(tags@) == collect_tags(split_pieces(cs@.subrange(0, i as int)).drop_last()),
            cur@ == split_pieces(cs@.subrange(0, i as int)).last(),
        decreases cs@.len() - i,
    {
        let c = cs[i];
        let ghost pre = cs@.subrange(0, i as int);
        let ghost next = cs@.subrange(0, i + 1);
        proof {
            assert(next.drop_last() =~= pre);
            lemma_split_nonempty(pre);
        }
        if c == TAG_SEPARATOR {
            proof {
                assert(split_pieces(next) == split_pieces(pre).push(Seq::empty()));
                assert(split_pieces(next).drop_last() =~= split_pieces(pre));
                assert(split_pieces(pre) =~= split_pieces(pre).drop_last().push(cur@));
            }
            add_piece_exec(&mut tags, &cur);
            cur = Vec::new();
        } else {
            cur.push(c);
            proof {
                let p = split_pieces(pre);
                assert(split_pieces(next) == p.update(p.len() - 1, p.last().push(c)));
                assert(split_pieces(next).drop_last() =~= p.drop_last());
            }
        }
        i = i + 1;
    }
    proof {
        assert(cs@.subrange(0, cs@.len() as int) =~= s@);
        let p = split_pieces(s@);
        assert(p =~= p.drop_last().push(cur@));
    }
    add_piece_exec(&mut tags, &cur);
    tags
}

/// The text form of a tag list: the tags joined by the separator.
pub fn join_tag_list(tags: &Vec<String>) -> (r: String)
    ensures
        r@ == join_tags(texts(tags@)),
{
    let mut r = String::new();
    let mut i: usize = 0;
    while i < tags.len()
        invariant
            i <= tags@.len(),
            r@ == join_tags(texts(tags@.subrange(0, i as int))),
        decreases tags@.len() - i,
    {
        let ghost before = r@;
        if i > 0 {
            push_char(&mut r, TAG_SEPARATOR);
        }
        r.append(tags[i].as_str());
        proof {
            let a = texts(tags@.subrange(0, i + 1));
            assert(a.drop_last() =~= texts(tags@.subrange(0, i as int)));
            assert(a.last() == tags@[i as int]@);
            if i == 0 {
                assert(before =~= Seq::<char>::empty());
                assert(r@ =~= a[0]);
            }
        }
        i = i + 1;
    }
    assert(tags@.subrange(0, tags@.len() as int) =~= tags@);
    r
}

impl CommandEntry {
    /// A fresh entry with every field empty.
    pub fn blank() -> (r: CommandEntry)
        ensures
            r.name@.len() == 0,
            r.namespace@.len() == 0,
            r.command@.len() == 0,
            r.tags@.len() == 0,
            r.description@.len() == 0,
            r@.tags.len() == 0,
    {
        CommandEntry {
            name: String::new(),
            namespace: String::new(),
            command: String::new(),
            tags: Vec::new(),
            description: String::new(),
        }
    }

    /// A copy of this entry, equal to it field by field.
    pub fn duplicate(&self) -> (r: CommandEntry)
        ensures
            r@ == self@,
    {
        CommandEntry {
            name: self.name.clone(),
            namespace: self.namespace.clone(),
            command: self.command.clone(),
            tags: copy_strings(&self.tags),
            description: self.description.clone(),
        }
    }

    /// The tags in their text form, joined by the separator.
    pub fn get_tags_as_string(&self) -> (r: String)
        ensures
            r@ == join_tags(texts(self.tags@)),
    {
        join_tag_list(&self.tags)
    }
}

} // verus!
