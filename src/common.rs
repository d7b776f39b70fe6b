//! The interaction mode and the finder's selection payload.
use vstd::prelude::*;
use crate::text::{chars_of, joined, push_all, string_of, views};

verus! {

/// The mode the finder is in; it picks the keymap and the header.
#[derive(Debug, Clone, PartialEq, Eq, Hash, Default)]
pub enum Mode {
    #[default]
    Normal,
    Revset,
    /// The evolution log of one revision.
    Obslog(String),
}

/// What a mode is, with its revision as characters.
pub ghost enum ModeView {
    Normal,
    Revset,
    Obslog(Seq<char>),
}

impl View for Mode {
    type V = ModeView;

    open spec fn view(&self) -> ModeView {
        match self {
            Mode::Normal => ModeView::Normal,
            Mode::Revset => ModeView::Revset,
            Mode::Obslog(r) => ModeView::Obslog(r@),
        }
    }
}

/// The header shown when no key sequence is under way.
pub open spec fn header_of(m: ModeView) -> Seq<char> {
    match m {
        ModeView::Revset => "Press ? for help, ctrl+c to quit"@,
        _ => "Press ? for help, q to quit"@,
    }
}

/// The name of the mode's table in the keymap.
pub open spec fn keymap_name(m: ModeView) -> Seq<char> {
    match m {
        ModeView::Normal => "normal"@,
        ModeView::Revset => "revset"@,
        ModeView::Obslog(_) => "obslog"@,
    }
}

impl Mode {
    /// The header shown when no key sequence is under way.
    pub fn header(&self) -> (r: &'static str)
        ensures
            r@ == header_of(self@),
    {
        match self {
            Mode::Revset => "Press ? for help, ctrl+c to quit",
            _ => "Press ? for help, q to quit",
        }
    }

    /// The name of the mode's table in the keymap.
    pub fn keymap(&self) -> (r: &'static str)
        ensures
            r@ == keymap_name(self@),
    {
        match self {
            Mode::Normal => "normal",
            Mode::Revset => "revset",
            Mode::Obslog(_) => "obslog",
        }
    }

    /// A copy of the mode.
    pub fn duplicate(&self) -> (r: Mode)
        ensures
            r == *self,
    {
        match self {
            Mode::Normal => Mode::Normal,
            Mode::Revset => Mode::Revset,
            Mode::Obslog(s) => Mode::Obslog(s.clone()),
        }
    }
}

/// The decimal digits of `n`.
pub open spec fn decimal(n: nat) -> Seq<char>
    decreases n,
{
    if n < 10 {
        seq![digit_char(n)]
    } else {
        decimal(n / 10) + seq![digit_char(n % 10)]
    }
}

pub open spec fn digit_char(d: nat) -> char {
    if d < 10 { ((d + 48) as u8) as char } else { '0' }
}

fn decimal_digits(n: usize) -> (r: Vec<char>)
    ensures
        r@ == decimal(n as nat),
    decreases n,
{
    let d: u8 = (n % 10) as u8;
    let c = (d + 48) as char;
    if n < 10 {
        vec![c]
    } else {
        let mut r = decimal_digits(n / 10);
        r.push(c);
        r
    }
}

/// Placeholder `{i}`, which the finder replaces with field `i` of the focused row.
pub open spec fn field_placeholder(i: nat) -> Seq<char> {
    seq!['{'] + decimal(i) + seq!['}']
}

/// Placeholder `{+i}`, which the finder replaces with field `i` of every selected row.
pub open spec fn fields_placeholder(i: nat) -> Seq<char> {
    seq!['{', '+'] + decimal(i) + seq!['}']
}

/// The payload that the finder fills in: for changes and for commits, the
/// focused row's id and the selected rows' ids, each as the finder quotes them.
#[derive(Debug, Clone)]
pub struct Selection {
    change_focused: String,
    change_selected: String,
    commit_focused: String,
    commit_selected: String,
}

/// The ids of one kind of entity: the focused one, if any, and those selected.
#[derive(Debug, Clone)]
pub struct IdSelection {
    pub focused: Option<String>,
    pub selected: Vec<String>,
}

/// `s` without the quotes `'` at its start.
pub open spec fn trim_quotes_start(s: Seq<char>) -> Seq<char>
    decreases s.len(),
{
    if s.len() > 0 && s[0] == '\'' {
        trim_quotes_start(s.drop_first())
    } else {
        s
    }
}

/// `s` without the quotes `'` at its end.
pub open spec fn trim_quotes_end(s: Seq<char>) -> Seq<char>
    decreases s.len(),
{
    if s.len() > 0 && s.last() == '\'' {
        trim_quotes_end(s.drop_last())
    } else {
        s
    }
}

/// `s` without the quotes `'` at either end.
pub open spec fn unquoted(s: Seq<char>) -> Seq<char> {
    trim_quotes_end(trim_quotes_start(s))
}

/// Unicode's White_Space property.
pub open spec fn is_space(c: char) -> bool {
    c == ' ' || ('\t' <= c && c <= '\r') || c == '\u{85}' || c == '\u{a0}' || c == '\u{1680}'
        || ('\u{2000}' <= c && c <= '\u{200a}') || c == '\u{2028}' || c == '\u{2029}'
        || c == '\u{202f}' || c == '\u{205f}' || c == '\u{3000}'
}

/// Whether `c` is white space in Unicode's sense.
pub(crate) fn whitespace(c: char) -> (r: bool)
    ensures
        r == is_space(c),
{
    c == ' ' || ('\t' <= c && c <= '\r') || c == '\u{85}' || c == '\u{a0}' || c == '\u{1680}'
        || ('\u{2000}' <= c && c <= '\u{200a}') || c == '\u{2028}' || c == '\u{2029}'
        || c == '\u{202f}' || c == '\u{205f}' || c == '\u{3000}'
}

/// The words of `s` (maximal runs without white space), where `cur` holds the
/// part of a word already read.
pub open spec fn words_from(s: Seq<char>, cur: Seq<char>) -> Seq<Seq<char>>
    decreases s.len(),
{
    let done: Seq<Seq<char>> = if cur.len() > 0 { seq![cur] } else { Seq::empty() };
    if s.len() == 0 {
        done
    } else if is_space(s[0]) {
        done + words_from(s.drop_first(), Seq::empty())
    } else {
        words_from(s.drop_first(), cur.push(s[0]))
    }
}

/// The words of `s`: its maximal runs without white space.
pub open spec fn words(s: Seq<char>) -> Seq<Seq<char>> {
    words_from(s, Seq::empty())
}

/// What a selection holds: the unquoted focused id (none when empty) and the
/// unquoted selected ids.
pub open spec fn parsed_ids(focused: Seq<char>, selected: Seq<char>) -> (Option<Seq<char>>, Seq<Seq<char>>) {
    let f = unquoted(focused);
    (
        if f.len() == 0 { None } else { Some(f) },
        words(selected).map_values(|w: Seq<char>| unquoted(w)),
    )
}

/// The view of an id selection: the focused id and the selected ids.
pub open spec fn id_view(s: IdSelection) -> (Option<Seq<char>>, Seq<Seq<char>>) {
    (
        match s.focused {
            Some(f) => Some(f@),
            None => None,
        },
        views(s.selected@),
    )
}

fn trim_quotes(s: &Vec<char>) -> (r: Vec<char>)
    ensures
        r@ == unquoted(s@),
{
    let mut start: usize = 0;
    assert(s@.subrange(0, s@.len() as int) == s@);
    while start < s.len() && s[start] == '\''
        invariant
            start <= s@.len(),
            trim_quotes_start(s@) == trim_quotes_start(s@.subrange(start as int, s@.len() as int)),
        decreases s@.len() - start,
    {
        assert(s@.subrange(start + 1, s@.len() as int) == s@.subrange(start as int, s@.len() as int).drop_first());
        start = start + 1;
    }
    let mut end: usize = s.len();
    while end > start && s[end - 1] == '\''
        invariant
            start <= end <= s@.len(),
            trim_quotes_start(s@) == s@.subrange(start as int, s@.len() as int),
            unquoted(s@) == trim_quotes_end(s@.subrange(start as int, end as int)),
        decreases end,
    {
        assert(s@.subrange(start as int, end - 1) == s@.subrange(start as int, end as int).drop_last());
        end = end - 1;
    }
    let mut r: Vec<char> = Vec::new();
    let mut i: usize = start;
    while i < end
        invariant
            start <= i <= end <= s@.len(),
            r@ == s@.subrange(start as int, i as int),
        decreases end - i,
    {
        r.push(s[i]);
        i = i + 1;
        assert(r@ == s@.subrange(start as int, i as int));
    }
    r
}

fn split_words(s: &Vec<char>) -> (r: Vec<Vec<char>>)
    ensures
        r@.map_values(|w: Vec<char>| w@) == words(s@),
{
    let mut out: Vec<Vec<char>> = Vec::new();
    let mut cur: Vec<char> = Vec::new();
    let mut i: usize = 0;
    assert(s@.subrange(0, s@.len() as int) == s@);
    assert(out@.map_values(|w: Vec<char>| w@) + words(s@) == words(s@));
    while i < s.len()
        invariant
            i <= s@.len(),
            words(s@) == out@.map_values(|w: Vec<char>| w@) + words_from(
                s@.subrange(i as int, s@.len() as int),
                cur@,
            ),
        decreases s@.len() - i,
    {
        let ghost rest = s@.subrange(i as int, s@.len() as int);
        assert(rest.drop_first() == s@.subrange(i + 1, s@.len() as int));
        let ghost before = out@.map_values(|w: Vec<char>| w@);
        let ghost cur0 = cur@;
        let c = s[i];
        assert(rest[0] == c);
        if whitespace(c) {
            if cur.len() > 0 {
                let w = cur;
                out.push(w);
                cur = Vec::new();
                assert(out@.map_values(|w: Vec<char>| w@) == before + seq![cur0]);
                assert(words_from(rest, cur0) == seq![cur0] + words_from(rest.drop_first(), Seq::empty()));
                assert(before + (seq![cur0] + words_from(rest.drop_first(), Seq::empty())) == (before
                    + seq![cur0]) + words_from(rest.drop_first(), Seq::empty()));
            } else {
                assert(words_from(rest, cur0) == Seq::<Seq<char>>::empty() + words_from(rest.drop_first(), Seq::empty()));
                assert(Seq::<Seq<char>>::empty() + words_from(rest.drop_first(), Seq::empty()) == words_from(rest.drop_first(), Seq::empty()));
                assert(cur@ == Seq::<char>::empty());
            }
        } else {
            cur.push(c);
        }
        i = i + 1;
    }
    assert(s@.subrange(s@.len() as int, s@.len() as int) == Seq::<char>::empty());
    if cur.len() > 0 {
        let ghost before = out@.map_values(|w: Vec<char>| w@);
        let w = cur;
        out.push(w);
        assert(out@.map_values(|w: Vec<char>| w@) == before + seq![w@]);
    } else {
        assert(out@.map_values(|w: Vec<char>| w@) + Seq::<Seq<char>>::empty() == out@.map_values(|w: Vec<char>| w@));
    }
    out
}

impl Selection {
    /// A selection from the raw change and commit payloads, each a pair of the
    /// focused field and the selected fields.
    pub fn new(change: (String, String), commit: (String, String)) -> (r: Selection)
        ensures
            r.change_raw() == change,
            r.commit_raw() == commit,
    {
        Selection {
            change_focused: change.0,
            change_selected: change.1,
            commit_focused: commit.0,
            commit_selected: commit.1,
        }
    }

    /// The raw change payload, as the finder filled it in.
    pub fn change_payload(&self) -> (r: (String, String))
        ensures
            r == self.change_raw(),
    {
        (self.change_focused.clone(), self.change_selected.clone())
    }

    /// The raw commit payload, as the finder filled it in.
    pub fn commit_payload(&self) -> (r: (String, String))
        ensures
            r == self.commit_raw(),
    {
        (self.commit_focused.clone(), self.commit_selected.clone())
    }

    /// A copy of the selection.
    pub fn duplicate(&self) -> (r: Selection)
        ensures
            r.change_raw() == self.change_raw(),
            r.commit_raw() == self.commit_raw(),
    {
        Selection {
            change_focused: self.change_focused.clone(),
            change_selected: self.change_selected.clone(),
            commit_focused: self.commit_focused.clone(),
            commit_selected: self.commit_selected.clone(),
        }
    }

    /// The raw change payload.
    pub closed spec fn change_raw(&self) -> (String, String) {
        (self.change_focused, self.change_selected)
    }

    /// The raw commit payload.
    pub closed spec fn commit_raw(&self) -> (String, String) {
        (self.commit_focused, self.commit_selected)
    }

    /// The payload that the finder fills in from fields `change_index` and
    /// `commit_index` of its rows.
    pub fn fzf_template(change_index: usize, commit_index: usize) -> (r: Selection)
        ensures
            r.change_raw().0@ == field_placeholder(change_index as nat),
            r.change_raw().1@ == fields_placeholder(change_index as nat),
            r.commit_raw().0@ == field_placeholder(commit_index as nat),
            r.commit_raw().1@ == fields_placeholder(commit_index as nat),
    {
        Selection {
            change_focused: placeholder(change_index, false),
            change_selected: placeholder(change_index, true),
            commit_focused: placeholder(commit_index, false),
            commit_selected: placeholder(commit_index, true),
        }
    }

    /// The change ids of the selection.
    pub fn change(&self) -> (r: IdSelection)
        ensures
            id_view(r) == parsed_ids(self.change_raw().0@, self.change_raw().1@),
    {
        Self::parse(&self.change_payload())
    }

    /// The commit ids of the selection.
    pub fn commit(&self) -> (r: IdSelection)
        ensures
            id_view(r) == parsed_ids(self.commit_raw().0@, self.commit_raw().1@),
    {
        Self::parse(&self.commit_payload())
    }

    /// Reads a (focused, selected) payload: quotes are taken off each id, an
    /// empty focused id is none, and the selected ids are split at white space.
    pub fn parse(ids: &(String, String)) -> (r: IdSelection)
        ensures
            id_view(r) == parsed_ids(ids.0@, ids.1@),
    {
        let f = trim_quotes(&chars_of(ids.0.as_str()));
        let focused = if f.len() == 0 {
            None
        } else {
            Some(string_of(&f))
        };
        let ws = split_words(&chars_of(ids.1.as_str()));
        let ghost wv = ws@.map_values(|w: Vec<char>| w@);
        let mut selected: Vec<String> = Vec::new();
        let mut i: usize = 0;
        while i < ws.len()
            invariant
                i <= ws@.len(),
                wv == ws@.map_values(|w: Vec<char>| w@),
                views(selected@) == wv.subrange(0, i as int).map_values(|w: Seq<char>| unquoted(w)),
            decreases ws@.len() - i,
        {
            let ghost prev = views(selected@);
            let t = trim_quotes(&ws[i]);
            let ts = string_of(&t);
            selected.push(ts);
            i = i + 1;
            assert(wv[i - 1] == ws@[i - 1]@);
            assert(views(selected@) =~= prev.push(ts@));
            assert(wv.subrange(0, i as int).map_values(|w: Seq<char>| unquoted(w)) =~= wv.subrange(0, i - 1).map_values(|w: Seq<char>| unquoted(w)).push(unquoted(wv[i - 1])));
            assert(views(selected@) =~= wv.subrange(0, i as int).map_values(|w: Seq<char>| unquoted(w)));
        }
        assert(wv.subrange(0, ws@.len() as int) == wv);
        IdSelection { focused, selected }
    }
}

fn placeholder(i: usize, all: bool) -> (r: String)
    ensures
        r@ == if all { fields_placeholder(i as nat) } else { field_placeholder(i as nat) },
{
    let mut out: Vec<char> = Vec::new();
    out.push('{');
    if all {
        out.push('+');
    }
    let d = decimal_digits(i);
    push_all(&mut out, &d);
    out.push('}');
    string_of(&out)
}

/// The selected ids joined with `|`: a revision set of all of them.
pub open spec fn revset_of(ids: Seq<Seq<char>>) -> Seq<char> {
    joined(ids, "|"@)
}

impl IdSelection {
    /// The selected ids joined with `|`, a revision set of all of them.
    pub fn selected_revset(&self) -> (r: String)
        ensures
            r@ == revset_of(views(self.selected@)),
    {
        crate::text::join(&self.selected, "|")
    }

    /// The selected ids, one per line.
    pub fn selected_lines(&self) -> (r: String)
        ensures
            r@ == joined(views(self.selected@), "\n"@),
    {
        crate::text::join(&self.selected, "\n")
    }
}

} // verus!
