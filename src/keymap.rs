//! The keymap: per mode, the bindings of keys and key sequences to actions.
use vstd::prelude::*;
use crate::common::{keymap_name, Mode};
use crate::text::{chars_of, push_str, string_of, views};
use crate::protocol::{at, enc_str, lemma_at_split, lemma_not_both, lemma_str_round_trip, lemma_str_then_round_trip, parse_str, parse_str_then, read_str, read_str_then, skip_lit, write_str};

verus! {

/// A named special key.
#[derive(Debug, Clone, Copy, PartialEq, Eq, Hash, PartialOrd, Ord)]
pub enum Key {
    Esc,
    Enter,
}

/// What a binding is keyed by: a special key or a sequence of typed characters.
#[derive(Debug, Clone, PartialEq, Eq, Hash, PartialOrd, Ord)]
pub enum Bindable {
    Key(Key),
    Sequence(String),
}

pub ghost enum BindableView {
    Key(Key),
    Sequence(Seq<char>),
}

impl View for Bindable {
    type V = BindableView;

    open spec fn view(&self) -> BindableView {
        match self {
            Bindable::Key(k) => BindableView::Key(*k),
            Bindable::Sequence(s) => BindableView::Sequence(s@),
        }
    }
}

/// `a` comes before `b` in dictionary order of characters.
pub open spec fn seq_lt(a: Seq<char>, b: Seq<char>) -> bool
    decreases a.len(),
{
    if a.len() == 0 {
        b.len() > 0
    } else if b.len() == 0 {
        false
    } else if a[0] != b[0] {
        a[0] < b[0]
    } else {
        seq_lt(a.drop_first(), b.drop_first())
    }
}

/// The order of bindings: special keys first (`Esc` before `Enter`), then
/// sequences in dictionary order.
pub open spec fn bindable_lt(a: BindableView, b: BindableView) -> bool {
    match (a, b) {
        (BindableView::Key(x), BindableView::Key(y)) => x == Key::Esc && y == Key::Enter,
        (BindableView::Key(_), BindableView::Sequence(_)) => true,
        (BindableView::Sequence(_), BindableView::Key(_)) => false,
        (BindableView::Sequence(s), BindableView::Sequence(t)) => seq_lt(s, t),
    }
}

proof fn lemma_seq_lt_total(a: Seq<char>, b: Seq<char>)
    ensures
        !seq_lt(a, a),
        a != b ==> seq_lt(a, b) || seq_lt(b, a),
    decreases a.len(),
{
    if a.len() > 0 {
        lemma_seq_lt_total(a.drop_first(), a.drop_first());
    }
    if a.len() > 0 && b.len() > 0 && a[0] == b[0] {
        lemma_seq_lt_total(a.drop_first(), b.drop_first());
        if a.drop_first() == b.drop_first() {
            assert(a == seq![a[0]] + a.drop_first());
            assert(b == seq![b[0]] + b.drop_first());
        }
    }
    if a.len() == 0 && b.len() == 0 {
        assert(a == b);
    }
}

proof fn lemma_bindable_lt_total(a: BindableView, b: BindableView)
    ensures
        !bindable_lt(a, a),
        a != b ==> bindable_lt(a, b) || bindable_lt(b, a),
{
    match (a, b) {
        (BindableView::Sequence(s), BindableView::Sequence(t)) => lemma_seq_lt_total(s, t),
        (BindableView::Sequence(s), _) => lemma_seq_lt_total(s, s),
        _ => {},
    }
}

fn seq_less(a: &Vec<char>, b: &Vec<char>) -> (r: bool)
    ensures
        r == seq_lt(a@, b@),
{
    let mut i: usize = 0;
    assert(a@.skip(0) == a@);
    assert(b@.skip(0) == b@);
    while i < a.len() && i < b.len() && a[i] == b[i]
        invariant
            i <= a@.len(),
            i <= b@.len(),
            seq_lt(a@, b@) == seq_lt(a@.skip(i as int), b@.skip(i as int)),
        decreases a@.len() - i,
    {
        assert(a@.skip(i as int).drop_first() == a@.skip(i + 1));
        assert(b@.skip(i as int).drop_first() == b@.skip(i + 1));
        i = i + 1;
    }
    assert(a@.skip(0) == a@);
    assert(b@.skip(0) == b@);
    if i == a.len() {
        i < b.len()
    } else if i == b.len() {
        false
    } else {
        a[i] < b[i]
    }
}

impl Bindable {
    /// A binding keyed by a sequence of typed characters.
    pub fn new(keys: &str) -> (r: Bindable)
        ensures
            r@ == BindableView::Sequence(keys@),
    {
        Bindable::Sequence(string_of(&chars_of(keys)))
    }

    /// Whether this binding key comes before `other`.
    pub fn less_than(&self, other: &Bindable) -> (r: bool)
        ensures
            r == bindable_lt(self@, other@),
    {
        match (self, other) {
            (Bindable::Key(Key::Esc), Bindable::Key(Key::Enter)) => true,
            (Bindable::Key(_), Bindable::Key(_)) => false,
            (Bindable::Key(_), Bindable::Sequence(_)) => true,
            (Bindable::Sequence(_), Bindable::Key(_)) => false,
            (Bindable::Sequence(s), Bindable::Sequence(t)) => seq_less(&chars_of(s.as_str()), &chars_of(t.as_str())),
        }
    }

    /// Whether two binding keys are the same.
    pub fn same(&self, other: &Bindable) -> (r: bool)
        ensures
            r == (self@ == other@),
    {
        proof {
            lemma_bindable_lt_total(self@, other@);
            lemma_bindable_lt_total(other@, self@);
        }
        !self.less_than(other) && !other.less_than(self)
    }

    /// The label of the key as the help shows it.
    pub fn label(&self) -> (r: String)
        ensures
            r@ == label_of(self@),
    {
        match self {
            Bindable::Key(Key::Esc) => string_of(&chars_of("esc")),
            Bindable::Key(Key::Enter) => string_of(&chars_of("enter")),
            Bindable::Sequence(s) => {
                let v = chars_of(s.as_str());
                let mut out: Vec<char> = Vec::new();
                let mut i: usize = 0;
                while i < v.len()
                    invariant
                        i <= v@.len(),
                        out@ == spaced(v@.subrange(0, i as int)),
                    decreases v@.len() - i,
                {
                    if v[i] == ' ' {
                        push_str(&mut out, "<space>");
                    } else {
                        out.push(v[i]);
                    }
                    i = i + 1;
                    assert(v@.subrange(0, i as int).drop_last() == v@.subrange(0, i - 1));
                }
                assert(v@.subrange(0, v@.len() as int) == v@);
                string_of(&out)
            },
        }
    }
}

/// `s` with each space written `<space>`.
pub open spec fn spaced(s: Seq<char>) -> Seq<char>
    decreases s.len(),
{
    if s.len() == 0 {
        Seq::empty()
    } else {
        spaced(s.drop_last()) + if s.last() == ' ' {
            "<space>"@
        } else {
            seq![s.last()]
        }
    }
}

/// The label of a binding key: `esc`, `enter`, or the sequence with spaces shown.
pub open spec fn label_of(b: BindableView) -> Seq<char> {
    match b {
        BindableView::Key(Key::Esc) => "esc"@,
        BindableView::Key(Key::Enter) => "enter"@,
        BindableView::Sequence(s) => spaced(s),
    }
}

/// A command given in the keymap: run by the shell, or plain text.
#[derive(Debug, Clone)]
pub enum UserCommand {
    Shell { command: String },
    Plain(String),
}

pub ghost enum UserCommandView {
    Shell(Seq<char>),
    Plain(Seq<char>),
}

impl View for UserCommand {
    type V = UserCommandView;

    open spec fn view(&self) -> UserCommandView {
        match self {
            UserCommand::Shell { command } => UserCommandView::Shell(command@),
            UserCommand::Plain(s) => UserCommandView::Plain(s@),
        }
    }
}

/// The mode that a keymap action switches to.
#[derive(Debug, Clone)]
pub enum UserMode {
    Normal,
    Revset,
    /// The evolution log of the revision that the command gives.
    Obslog(UserCommand),
}

pub ghost enum UserModeView {
    Normal,
    Revset,
    Obslog(UserCommandView),
}

impl View for UserMode {
    type V = UserModeView;

    open spec fn view(&self) -> UserModeView {
        match self {
            UserMode::Normal => UserModeView::Normal,
            UserMode::Revset => UserModeView::Revset,
            UserMode::Obslog(c) => UserModeView::Obslog(c@),
        }
    }
}

/// An action that a keymap entry declares.
#[derive(Debug, Clone)]
pub enum UserAction {
    Quit,
    ReloadLog,
    Mode(UserMode),
    /// Run jj and show its output in the preview.
    Jujutsu(Vec<String>),
    /// Run jj with its output in a pager.
    JujutsuPaged(Vec<String>),
    /// Run jj on the terminal, for commands that ask questions.
    JujutsuInteractive(Vec<String>),
    /// Copy the command's result to the clipboard.
    Yank(UserCommand),
    /// Show the log of the revision set that the command gives.
    ChangeRevset(UserCommand),
    /// End with the command's result as the program's output.
    Accept(UserCommand),
}

pub ghost enum UserActionView {
    Quit,
    ReloadLog,
    Mode(UserModeView),
    Jujutsu(Seq<Seq<char>>),
    JujutsuPaged(Seq<Seq<char>>),
    JujutsuInteractive(Seq<Seq<char>>),
    Yank(UserCommandView),
    ChangeRevset(UserCommandView),
    Accept(UserCommandView),
}

impl View for UserAction {
    type V = UserActionView;

    open spec fn view(&self) -> UserActionView {
        match self {
            UserAction::Quit => UserActionView::Quit,
            UserAction::ReloadLog => UserActionView::ReloadLog,
            UserAction::Mode(m) => UserActionView::Mode(m@),
            UserAction::Jujutsu(a) => UserActionView::Jujutsu(views(a@)),
            UserAction::JujutsuPaged(a) => UserActionView::JujutsuPaged(views(a@)),
            UserAction::JujutsuInteractive(a) => UserActionView::JujutsuInteractive(views(a@)),
            UserAction::Yank(c) => UserActionView::Yank(c@),
            UserAction::ChangeRevset(c) => UserActionView::ChangeRevset(c@),
            UserAction::Accept(c) => UserActionView::Accept(c@),
        }
    }
}

/// A keymap entry: its help text and the actions it runs, in order. No actions
/// makes the key a prefix that does nothing by itself.
#[derive(Debug, Clone)]
pub struct Keybind(pub String, pub Vec<UserAction>);

pub type KeybindView = (Seq<char>, Seq<UserActionView>);

pub open spec fn keybind_view(k: Keybind) -> KeybindView {
    (k.0@, k.1@.map_values(|a: UserAction| a@))
}

/// The bindings of one mode, in key order.
pub type TableView = Seq<(BindableView, KeybindView)>;

pub open spec fn table_view(t: Seq<(Bindable, Keybind)>) -> TableView {
    t.map_values(|e: (Bindable, Keybind)| (e.0@, keybind_view(e.1)))
}

/// Keys strictly increase along the table.
pub open spec fn table_sorted(t: TableView) -> bool {
    forall|i: int| 0 < i < t.len() ==> #[trigger] bindable_lt(t[i - 1].0, t[i].0)
}

/// The entry of `key` in a table.
pub open spec fn table_get(t: TableView, key: BindableView) -> Option<KeybindView>
    decreases t.len(),
{
    if t.len() == 0 {
        None
    } else if t[0].0 == key {
        Some(t[0].1)
    } else {
        table_get(t.drop_first(), key)
    }
}

proof fn lemma_get_insert_other(t: TableView, p: int, x: (BindableView, KeybindView), k: BindableView)
    requires
        0 <= p <= t.len(),
        x.0 != k,
    ensures
        table_get(t.insert(p, x), k) == table_get(t, k),
    decreases p,
{
    if p == 0 {
        assert(t.insert(0, x).drop_first() == t);
    } else {
        assert(t.insert(p, x).drop_first() == t.drop_first().insert(p - 1, x));
        lemma_get_insert_other(t.drop_first(), p - 1, x, k);
    }
}

proof fn lemma_get_insert_same(t: TableView, p: int, x: (BindableView, KeybindView))
    requires
        0 <= p <= t.len(),
        forall|i: int| 0 <= i < p ==> t[i].0 != x.0,
    ensures
        table_get(t.insert(p, x), x.0) == Some(x.1),
    decreases p,
{
    if p > 0 {
        assert(t.insert(p, x).drop_first() == t.drop_first().insert(p - 1, x));
        lemma_get_insert_same(t.drop_first(), p - 1, x);
    }
}

proof fn lemma_get_update(t: TableView, p: int, x: (BindableView, KeybindView), k: BindableView)
    requires
        0 <= p < t.len(),
        t[p].0 == x.0,
        forall|i: int| 0 <= i < p ==> t[i].0 != x.0,
    ensures
        table_get(t.update(p, x), k) == if k == x.0 { Some(x.1) } else { table_get(t, k) },
    decreases p,
{
    if p == 0 {
        assert(t.update(p, x).drop_first() == t.drop_first());
    } else {
        assert(t.update(p, x).drop_first() == t.drop_first().update(p - 1, x));
        lemma_get_update(t.drop_first(), p - 1, x, k);
    }
}

/// The bindings of one mode, kept in key order with each key once.
#[derive(Debug)]
pub struct ModeTable {
    binds: Vec<(Bindable, Keybind)>,
}

impl View for ModeTable {
    type V = TableView;

    closed spec fn view(&self) -> TableView {
        table_view(self.binds@)
    }
}

impl ModeTable {
    /// A table without bindings.
    pub fn new() -> (r: ModeTable)
        ensures
            r@ == Seq::<(BindableView, KeybindView)>::empty(),
    {
        let r = ModeTable { binds: Vec::new() };
        assert(r@ =~= Seq::<(BindableView, KeybindView)>::empty());
        r
    }

    /// Binds `key` to `bind`, in place of what it was bound to.
    pub fn insert(&mut self, key: Bindable, bind: Keybind)
        requires
            table_sorted(old(self)@),
        ensures
            table_sorted(final(self)@),
            table_get(final(self)@, key@) == Some(keybind_view(bind)),
            forall|k: BindableView| k != key@ ==> table_get(final(self)@, k) == table_get(old(self)@, k),
    {
        let ghost t = self@;
        let ghost x = (key@, keybind_view(bind));
        let mut p: usize = 0;
        while p < self.binds.len() && self.binds[p].0.less_than(&key)
            invariant
                p <= self.binds@.len(),
                t == self@,
                t == table_view(self.binds@),
                forall|i: int| 0 <= i < p ==> bindable_lt(#[trigger] t[i].0, key@),
            decreases self.binds@.len() - p,
        {
            p = p + 1;
        }
        assert forall|i: int| 0 <= i < p implies t[i].0 != x.0 by {
            lemma_bindable_lt_total(t[i].0, t[i].0);
        }
        if p < self.binds.len() && self.binds[p].0.same(&key) {
            self.binds.set(p, (key, bind));
            proof {
                assert(self@ == t.update(p as int, x));
                assert forall|k: BindableView| #![auto] true implies table_get(self@, k) == if k == x.0 {
                    Some(x.1)
                } else {
                    table_get(t, k)
                } by {
                    lemma_get_update(t, p as int, x, k);
                }
            }
        } else {
            proof {
                if p < t.len() {
                    lemma_bindable_lt_total(t[p as int].0, key@);
                }
            }
            self.binds.insert(p, (key, bind));
            proof {
                assert(self@ == t.insert(p as int, x));
                lemma_get_insert_same(t, p as int, x);
                assert forall|k: BindableView| k != x.0 implies table_get(self@, k) == table_get(t, k) by {
                    lemma_get_insert_other(t, p as int, x, k);
                }
                let n = self@;
                assert forall|i: int| 0 < i < n.len() implies #[trigger] bindable_lt(n[i - 1].0, n[i].0) by {
                    if i < p {
                        assert(bindable_lt(t[i - 1].0, t[i].0));
                    } else if i == p {
                    } else if i == p + 1 {
                    } else {
                        let j = i - 1;
                        assert(bindable_lt(t[j - 1].0, t[j].0));
                    }
                }
            }
        }
    }

    /// The entry of `key`, if the table has one.
    pub fn get(&self, key: &Bindable) -> (r: Option<&Keybind>)
        ensures
            match table_get(self@, key@) {
                Some(b) => r matches Some(x) && keybind_view(*x) == b,
                None => r is None,
            },
    {
        let ghost t = self@;
        let mut i: usize = 0;
        assert(t.skip(0) == t);
        while i < self.binds.len()
            invariant
                i <= self.binds@.len(),
                t == table_view(self.binds@),
                table_get(t, key@) == table_get(t.skip(i as int), key@),
            decreases self.binds@.len() - i,
        {
            assert(t.skip(i as int).drop_first() == t.skip(i + 1));
            assert(t.skip(i as int)[0] == t[i as int]);
            if self.binds[i].0.same(key) {
                return Some(&self.binds[i].1);
            }
            i = i + 1;
        }
        None
    }

    /// The number of bindings.
    pub fn len(&self) -> (r: usize)
        ensures
            r == self@.len(),
    {
        self.binds.len()
    }

    /// The binding at position `i` in key order.
    pub fn entry(&self, i: usize) -> (r: (&Bindable, &Keybind))
        requires
            i < self@.len(),
        ensures
            (r.0@, keybind_view(*r.1)) == self@[i as int],
    {
        (&self.binds[i].0, &self.binds[i].1)
    }
}

/// The configuration: for each mode's table name, its bindings.
#[derive(Debug)]
pub struct KeyMap {
    tables: Vec<(String, ModeTable)>,
    error: Option<String>,
}

pub type KeyMapView = Seq<(Seq<char>, TableView)>;

/// The table of mode table name `name`.
pub open spec fn keymap_table(k: KeyMapView, name: Seq<char>) -> Option<TableView>
    decreases k.len(),
{
    if k.len() == 0 {
        None
    } else if k[0].0 == name {
        Some(k[0].1)
    } else {
        keymap_table(k.drop_first(), name)
    }
}

/// Every table of the keymap is in key order.
pub open spec fn keymap_wf(k: KeyMapView) -> bool {
    forall|i: int| 0 <= i < k.len() ==> table_sorted(#[trigger] k[i].1)
}

impl View for KeyMap {
    type V = KeyMapView;

    closed spec fn view(&self) -> KeyMapView {
        self.tables@.map_values(|t: (String, ModeTable)| (t.0@, t.1@))
    }
}

proof fn lemma_table_found(k: KeyMapView, name: Seq<char>)
    requires
        keymap_wf(k),
    ensures
        keymap_table(k, name) matches Some(t) ==> table_sorted(t),
    decreases k.len(),
{
    if k.len() > 0 && k[0].0 != name {
        assert forall|i: int| 0 <= i < k.drop_first().len() implies table_sorted(#[trigger] k.drop_first()[i].1) by {
            assert(k.drop_first()[i] == k[i + 1]);
        }
        lemma_table_found(k.drop_first(), name);
    }
}

impl KeyMap {
    /// Why the keymap document could not be read, if it could not.
    pub closed spec fn load_error(&self) -> Option<Seq<char>> {
        match self.error {
            Some(m) => Some(m@),
            None => None,
        }
    }

    /// A keymap whose document could not be read: it has no tables, and each
    /// mode reports `message` when it is first used.
    pub fn unreadable(message: String) -> (r: KeyMap)
        ensures
            r@ == Seq::<(Seq<char>, TableView)>::empty(),
            r.load_error() == Some(message@),
    {
        let r = KeyMap { tables: Vec::new(), error: Some(message) };
        assert(r@ =~= Seq::<(Seq<char>, TableView)>::empty());
        r
    }

    /// Why the keymap document could not be read, if it could not.
    pub fn error_message(&self) -> (r: Option<&String>)
        ensures
            match self.load_error() {
                Some(m) => r matches Some(x) && x@ == m,
                None => r is None,
            },
    {
        match &self.error {
            Some(m) => Some(m),
            None => None,
        }
    }

    /// A keymap without tables.
    pub fn new() -> (r: KeyMap)
        ensures
            r@ == Seq::<(Seq<char>, TableView)>::empty(),
            r.load_error() is None,
    {
        let r = KeyMap { tables: Vec::new(), error: None };
        assert(r@ =~= Seq::<(Seq<char>, TableView)>::empty());
        r
    }

    /// Adds the table of mode table name `name`, after the tables already there.
    pub fn add_table(&mut self, name: String, table: ModeTable)
        requires
            keymap_wf(old(self)@),
            table_sorted(table@),
        ensures
            keymap_wf(final(self)@),
            final(self)@ == old(self)@.push((name@, table@)),
            final(self).load_error() == old(self).load_error(),
    {
        let ghost tv = table@;
        self.tables.push((name, table));
        assert(self@ =~= old(self)@.push((name@, tv)));
    }

    /// The table of mode table name `name`, if the keymap has one.
    pub fn table(&self, name: &str) -> (r: Option<&ModeTable>)
        ensures
            match keymap_table(self@, name@) {
                Some(t) => r matches Some(x) && x@ == t,
                None => r is None,
            },
    {
        let ghost k = self@;
        let mut i: usize = 0;
        assert(k.skip(0) == k);
        while i < self.tables.len()
            invariant
                i <= self.tables@.len(),
                k == self@,
                keymap_table(k, name@) == keymap_table(k.skip(i as int), name@),
            decreases self.tables@.len() - i,
        {
            assert(k.skip(i as int).drop_first() == k.skip(i + 1));
            assert(k.skip(i as int)[0] == k[i as int]);
            if str_eq(self.tables[i].0.as_str(), name) {
                return Some(&self.tables[i].1);
            }
            i = i + 1;
        }
        None
    }
}

impl KeyMap {
    /// The table of a mode, if the keymap has one.
    pub fn get_keymap(&self, mode: &Mode) -> (r: Option<&ModeTable>)
        ensures
            match keymap_table(self@, keymap_name(mode@)) {
                Some(t) => r matches Some(x) && x@ == t,
                None => r is None,
            },
    {
        self.table(mode.keymap())
    }
}

/// Whether two strings are equal.
pub fn str_eq(a: &str, b: &str) -> (r: bool)
    ensures
        r == (a@ == b@),
{
    let x = chars_of(a);
    let y = chars_of(b);
    if x.len() != y.len() {
        return false;
    }
    let mut i: usize = 0;
    while i < x.len()
        invariant
            i <= x@.len(),
            x@ == a@,
            y@ == b@,
            x@.len() == y@.len(),
            x@.subrange(0, i as int) == y@.subrange(0, i as int),
        decreases x@.len() - i,
    {
        if x[i] != y[i] {
            return false;
        }
        i = i + 1;
        assert(x@.subrange(0, i as int) =~= y@.subrange(0, i as int));
    }
    assert(x@ == x@.subrange(0, i as int));
    assert(y@ == y@.subrange(0, i as int));
    true
}

/// The text form of a keymap command: `(command:"...")` for a shell command,
/// the quoted text for plain text.
pub open spec fn enc_user_command(c: UserCommandView) -> Seq<char> {
    match c {
        UserCommandView::Shell(s) => "(command:"@ + enc_str(s) + ")"@,
        UserCommandView::Plain(s) => enc_str(s),
    }
}

/// Reads a keymap command at `i`.
pub open spec fn parse_user_command(s: Seq<char>, i: int) -> Option<(UserCommandView, int)> {
    if at(s, i, "(command:"@) {
        match parse_str_then(s, i + 9, ")"@) {
            Some((c, j)) => Some((UserCommandView::Shell(c), j)),
            None => None,
        }
    } else {
        match parse_str(s, i) {
            Some((t, j)) => Some((UserCommandView::Plain(t), j)),
            None => None,
        }
    }
}

/// The keymap command that a whole text is, if it is one.
pub open spec fn decode_user_command(s: Seq<char>) -> Option<UserCommandView> {
    match parse_user_command(s, 0) {
        Some((c, k)) => if k == s.len() {
            Some(c)
        } else {
            None
        },
        None => None,
    }
}

/// Reading the text form of a keymap command gives that command back.
pub proof fn lemma_user_command_round_trip(c: UserCommandView)
    ensures
        decode_user_command(enc_user_command(c)) == Some(c),
{
    reveal_strlit("(command:");
    reveal_strlit(")");
    let s = enc_user_command(c);
    assert(s.subrange(0, s.len() as int) == s);
    match c {
        UserCommandView::Shell(t) => {
            assert(s == "(command:"@ + (enc_str(t) + ")"@));
            lemma_at_split(s, 0, "(command:"@, enc_str(t) + ")"@);
            lemma_str_then_round_trip(s, 9, t, ")"@);
        },
        UserCommandView::Plain(t) => {
            lemma_not_both(s, 0, enc_str(t), "(command:"@, 0);
            lemma_str_round_trip(s, 0, t);
        },
    }
}

impl UserCommand {
    /// The text form of the command, which `decode` reads back.
    pub fn encode(&self) -> (r: String)
        ensures
            r@ == enc_user_command(self@),
    {
        let mut out: Vec<char> = Vec::new();
        match self {
            UserCommand::Shell { command } => {
                push_str(&mut out, "(command:");
                write_str(&mut out, command.as_str());
                push_str(&mut out, ")");
            },
            UserCommand::Plain(s) => {
                write_str(&mut out, s.as_str());
                assert(out@ =~= enc_str(s@));
            },
        }
        string_of(&out)
    }

    /// The command that the whole of `s` is the text form of; none if `s` is not one.
    pub fn decode(s: &str) -> (r: Option<UserCommand>)
        ensures
            match decode_user_command(s@) {
                Some(c) => r matches Some(x) && x@ == c,
                None => r is None,
            },
    {
        let input = chars_of(s);
        let parsed = match skip_lit(&input, 0, "(command:") {
            Some(j) => match read_str_then(&input, j, ")") {
                Some((c, k)) => Some((UserCommand::Shell { command: c }, k)),
                None => None,
            },
            None => match read_str(&input, 0) {
                Some((t, k)) => Some((UserCommand::Plain(t), k)),
                None => None,
            },
        };
        proof { reveal_strlit("(command:"); }
        match parsed {
            Some((c, k)) => if k == input.len() {
                Some(c)
            } else {
                None
            },
            None => None,
        }
    }
}

} // verus!
