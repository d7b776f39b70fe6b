//! The requests by which the program calls itself back, and their text form.
//!
//! Text is written as quoted strings (`"` and `\` escaped by `\`), lists of them
//! in brackets, and variants by name, with named fields where a variant has
//! several: `PagedCommand(command:Show("x"),interactive:true)`.
use vstd::prelude::*;
use crate::common::{Mode, ModeView, Selection};
use crate::text::{chars_of, push_all, push_str, string_of, views};

verus! {

/// A command that the program runs when called back.
#[derive(Debug, Clone)]
pub enum VjjCommand {
    /// The log of the current mode.
    Log,
    /// The keymap of the current mode.
    Help,
    /// One revision, as `jj show` prints it.
    Show(String),
    /// jj with these arguments.
    Jujutsu(Vec<String>),
    /// Text to print.
    Output(String),
    /// An error message to print.
    Error(String),
}

/// What a command is, with its text as characters.
pub ghost enum CommandView {
    Log,
    Help,
    Show(Seq<char>),
    Jujutsu(Seq<Seq<char>>),
    Output(Seq<char>),
    Error(Seq<char>),
}

impl View for VjjCommand {
    type V = CommandView;

    open spec fn view(&self) -> CommandView {
        match self {
            VjjCommand::Log => CommandView::Log,
            VjjCommand::Help => CommandView::Help,
            VjjCommand::Show(r) => CommandView::Show(r@),
            VjjCommand::Jujutsu(a) => CommandView::Jujutsu(views(a@)),
            VjjCommand::Output(t) => CommandView::Output(t@),
            VjjCommand::Error(t) => CommandView::Error(t@),
        }
    }
}

// ---- writing ----

/// A character as it stands inside quotes: `"` and `\` after a `\`, and line
/// feed, carriage return and tab as `\n`, `\r` and `\t`.
pub open spec fn esc_char(c: char) -> Seq<char> {
    if c == '"' || c == '\\' {
        seq!['\\', c]
    } else if c == '\n' {
        seq!['\\', 'n']
    } else if c == '\r' {
        seq!['\\', 'r']
    } else if c == '\t' {
        seq!['\\', 't']
    } else {
        seq![c]
    }
}

/// The character that `\` and `d` stand for.
pub open spec fn unescaped(d: char) -> char {
    if d == 'n' {
        '\n'
    } else if d == 'r' {
        '\r'
    } else if d == 't' {
        '\t'
    } else {
        d
    }
}

/// `s` with each character escaped as `esc_char` says.
pub open spec fn escaped(s: Seq<char>) -> Seq<char>
    decreases s.len(),
{
    if s.len() == 0 {
        Seq::empty()
    } else {
        esc_char(s[0]) + escaped(s.drop_first())
    }
}

/// A string in quotes.
pub open spec fn enc_str(s: Seq<char>) -> Seq<char> {
    seq!['"'] + escaped(s) + seq!['"']
}

pub open spec fn enc_items(l: Seq<Seq<char>>) -> Seq<char>
    decreases l.len(),
{
    if l.len() == 0 {
        Seq::empty()
    } else if l.len() == 1 {
        enc_str(l[0])
    } else {
        enc_str(l[0]) + seq![','] + enc_items(l.drop_first())
    }
}

/// A list of strings in brackets, separated by commas.
pub open spec fn enc_list(l: Seq<Seq<char>>) -> Seq<char> {
    seq!['['] + enc_items(l) + seq![']']
}

pub open spec fn enc_bool(b: bool) -> Seq<char> {
    if b {
        "true"@
    } else {
        "false"@
    }
}

/// The text form of a command.
pub open spec fn enc_command(c: CommandView) -> Seq<char> {
    match c {
        CommandView::Log => "Log"@,
        CommandView::Help => "Help"@,
        CommandView::Show(r) => "Show("@ + enc_str(r) + ")"@,
        CommandView::Jujutsu(a) => "Jujutsu("@ + enc_list(a) + ")"@,
        CommandView::Output(t) => "Output("@ + enc_str(t) + ")"@,
        CommandView::Error(t) => "Error("@ + enc_str(t) + ")"@,
    }
}

proof fn lemma_escaped_push(s: Seq<char>, c: char)
    ensures
        escaped(s.push(c)) == escaped(s) + esc_char(c),
    decreases s.len(),
{
    if s.len() == 0 {
        assert(s.push(c).drop_first() == Seq::<char>::empty());
        assert(escaped(s.push(c)) == esc_char(c) + escaped(Seq::<char>::empty()));
    } else {
        assert(s.push(c).drop_first() == s.drop_first().push(c));
        lemma_escaped_push(s.drop_first(), c);
        assert(escaped(s.push(c)) == esc_char(s[0]) + escaped(s.drop_first().push(c)));
    }
}

pub(crate) fn write_str(out: &mut Vec<char>, s: &str)
    ensures
        final(out)@ == old(out)@ + enc_str(s@),
{
    let v = chars_of(s);
    out.push('"');
    let ghost start = out@;
    let mut i: usize = 0;
    while i < v.len()
        invariant
            i <= v@.len(),
            out@ == start + escaped(v@.subrange(0, i as int)),
        decreases v@.len() - i,
    {
        let c = v[i];
        if c == '"' || c == '\\' {
            out.push('\\');
            out.push(c);
        } else if c == '\n' {
            out.push('\\');
            out.push('n');
        } else if c == '\r' {
            out.push('\\');
            out.push('r');
        } else if c == '\t' {
            out.push('\\');
            out.push('t');
        } else {
            out.push(c);
        }
        proof {
            lemma_escaped_push(v@.subrange(0, i as int), c);
            assert(v@.subrange(0, i + 1) == v@.subrange(0, i as int).push(c));
        }
        i = i + 1;
    }
    assert(v@.subrange(0, v@.len() as int) == v@);
    out.push('"');
}

fn write_list(out: &mut Vec<char>, l: &Vec<String>)
    ensures
        final(out)@ == old(out)@ + enc_list(views(l@)),
{
    out.push('[');
    let mut i: usize = l.len();
    let ghost all = views(l@);
    // the items are written from the last one, each in front of those after it
    let mut tail: Vec<char> = Vec::new();
    while i > 0
        invariant
            i <= l@.len(),
            all == views(l@),
            tail@ == enc_items(all.skip(i as int)),
        decreases i,
    {
        let mut item: Vec<char> = Vec::new();
        write_str(&mut item, l[i - 1].as_str());
        let ghost rest = all.skip(i as int);
        assert(all.skip(i - 1).drop_first() == rest);
        assert(all.skip(i - 1)[0] == l@[i - 1]@);
        if i < l.len() {
            item.push(',');
        }
        push_all(&mut item, &tail);
        tail = item;
        i = i - 1;
        assert(tail@ == enc_items(all.skip(i as int)));
    }
    assert(all.skip(0) == all);
    push_all(out, &tail);
    out.push(']');
}

fn write_bool(out: &mut Vec<char>, b: bool)
    ensures
        final(out)@ == old(out)@ + enc_bool(b),
{
    if b {
        push_str(out, "true");
    } else {
        push_str(out, "false");
    }
}

impl VjjCommand {
    pub(crate) fn write(&self, out: &mut Vec<char>)
        ensures
            final(out)@ == old(out)@ + enc_command(self@),
    {
        let ghost o = out@;
        match self {
            VjjCommand::Log => push_str(out, "Log"),
            VjjCommand::Help => push_str(out, "Help"),
            VjjCommand::Show(r) => {
                push_str(out, "Show(");
                write_str(out, r.as_str());
                push_str(out, ")");
                assert(out@ == o + ("Show("@ + enc_str(r@) + ")"@));
            },
            VjjCommand::Jujutsu(a) => {
                push_str(out, "Jujutsu(");
                write_list(out, a);
                push_str(out, ")");
                assert(out@ == o + ("Jujutsu("@ + enc_list(views(a@)) + ")"@));
            },
            VjjCommand::Output(t) => {
                push_str(out, "Output(");
                write_str(out, t.as_str());
                push_str(out, ")");
                assert(out@ == o + ("Output("@ + enc_str(t@) + ")"@));
            },
            VjjCommand::Error(t) => {
                push_str(out, "Error(");
                write_str(out, t.as_str());
                push_str(out, ")");
                assert(out@ == o + ("Error("@ + enc_str(t@) + ")"@));
            },
        }
    }

    /// The text form of the command.
    pub fn encode(&self) -> (r: String)
        ensures
            r@ == enc_command(self@),
    {
        let mut out: Vec<char> = Vec::new();
        self.write(&mut out);
        assert(out@ == Seq::<char>::empty() + enc_command(self@));
        string_of(&out)
    }
}

// ---- reading ----

/// `p` stands in `s` at position `i`.
pub open spec fn at(s: Seq<char>, i: int, p: Seq<char>) -> bool {
    0 <= i && i + p.len() <= s.len() && s.subrange(i, i + p.len()) == p
}

/// Reads escaped characters from position `i` up to and past the closing quote:
/// the characters meant and the position after the quote.
pub open spec fn parse_escaped(s: Seq<char>, i: int) -> Option<(Seq<char>, int)>
    decreases s.len() - i,
{
    if i < 0 || i >= s.len() {
        None
    } else if s[i] == '"' {
        Some((Seq::empty(), i + 1))
    } else if s[i] == '\\' {
        if i + 1 >= s.len() {
            None
        } else {
            match parse_escaped(s, i + 2) {
                Some((v, j)) => Some((seq![unescaped(s[i + 1])] + v, j)),
                None => None,
            }
        }
    } else {
        match parse_escaped(s, i + 1) {
            Some((v, j)) => Some((seq![s[i]] + v, j)),
            None => None,
        }
    }
}

/// Reads a quoted string at position `i`.
pub open spec fn parse_str(s: Seq<char>, i: int) -> Option<(Seq<char>, int)> {
    if at(s, i, seq!['"']) {
        parse_escaped(s, i + 1)
    } else {
        None
    }
}

/// Reads the items of a non-empty list at `i`, up to and past the closing bracket.
pub open spec fn parse_items(s: Seq<char>, i: int) -> Option<(Seq<Seq<char>>, int)>
    decreases s.len() - i,
{
    match parse_str(s, i) {
        Some((v, j)) => if j <= i {
            None
        } else if at(s, j, seq![',']) {
            match parse_items(s, j + 1) {
                Some((vs, k)) => Some((seq![v] + vs, k)),
                None => None,
            }
        } else if at(s, j, seq![']']) {
            Some((seq![v], j + 1))
        } else {
            None
        },
        None => None,
    }
}

/// Reads a list of strings at `i`.
pub open spec fn parse_list(s: Seq<char>, i: int) -> Option<(Seq<Seq<char>>, int)> {
    if at(s, i, "[]"@) {
        Some((Seq::empty(), i + 2))
    } else if at(s, i, seq!['[']) {
        parse_items(s, i + 1)
    } else {
        None
    }
}

/// Reads a string at `i` that the text `close` follows.
pub open spec fn parse_str_then(s: Seq<char>, i: int, close: Seq<char>) -> Option<(Seq<char>, int)> {
    match parse_str(s, i) {
        Some((v, j)) => if at(s, j, close) {
            Some((v, j + close.len()))
        } else {
            None
        },
        None => None,
    }
}

/// Reads a command at `i`.
pub open spec fn parse_command(s: Seq<char>, i: int) -> Option<(CommandView, int)> {
    if at(s, i, "Log"@) {
        Some((CommandView::Log, i + 3))
    } else if at(s, i, "Help"@) {
        Some((CommandView::Help, i + 4))
    } else if at(s, i, "Show("@) {
        match parse_str_then(s, i + 5, ")"@) {
            Some((v, j)) => Some((CommandView::Show(v), j)),
            None => None,
        }
    } else if at(s, i, "Jujutsu("@) {
        match parse_list(s, i + 8) {
            Some((v, j)) => if at(s, j, ")"@) {
                Some((CommandView::Jujutsu(v), j + 1))
            } else {
                None
            },
            None => None,
        }
    } else if at(s, i, "Output("@) {
        match parse_str_then(s, i + 7, ")"@) {
            Some((v, j)) => Some((CommandView::Output(v), j)),
            None => None,
        }
    } else if at(s, i, "Error("@) {
        match parse_str_then(s, i + 6, ")"@) {
            Some((v, j)) => Some((CommandView::Error(v), j)),
            None => None,
        }
    } else {
        None
    }
}

/// The text `a + b` at `i` holds `a` at `i` and `b` right after it.
pub(crate) proof fn lemma_at_split(s: Seq<char>, i: int, a: Seq<char>, b: Seq<char>)
    requires
        at(s, i, a + b),
    ensures
        at(s, i, a),
        at(s, i + a.len(), b),
{
    let w = s.subrange(i, i + (a + b).len());
    assert(s.subrange(i, i + a.len()) =~= w.subrange(0, a.len() as int));
    assert(w.subrange(0, a.len() as int) =~= a);
    assert(s.subrange(i + a.len(), i + a.len() + b.len()) =~= w.subrange(
        a.len() as int,
        (a + b).len() as int,
    ));
    assert(w.subrange(a.len() as int, (a + b).len() as int) =~= b);
}

/// `a` at `i` and `b` right after it make `a + b` at `i`.
pub(crate) proof fn lemma_at_join(s: Seq<char>, i: int, a: Seq<char>, b: Seq<char>)
    requires
        at(s, i, a),
        at(s, i + a.len(), b),
    ensures
        at(s, i, a + b),
{
    assert(s.subrange(i, i + (a + b).len()) =~= s.subrange(i, i + a.len()) + s.subrange(
        i + a.len(),
        i + a.len() + b.len(),
    ));
}

/// A character of `p`, where `p` stands at `i`.
pub(crate) proof fn lemma_at_index(s: Seq<char>, i: int, p: Seq<char>, k: int)
    requires
        at(s, i, p),
        0 <= k < p.len(),
    ensures
        s[i + k] == p[k],
{
    assert(s.subrange(i, i + p.len())[k] == s[i + k]);
}

proof fn lemma_escaped_round_trip(s: Seq<char>, i: int, t: Seq<char>)
    requires
        at(s, i, escaped(t) + seq!['"']),
    ensures
        parse_escaped(s, i) == Some((t, i + escaped(t).len() + 1)),
    decreases t.len(),
{
    if t.len() == 0 {
        assert(escaped(t) + seq!['"'] == seq!['"']);
        assert(s[i] == s.subrange(i, i + 1)[0]);
    } else {
        let c = t[0];
        let rest = t.drop_first();
        assert(escaped(t) + seq!['"'] == esc_char(c) + (escaped(rest) + seq!['"']));
        lemma_at_split(s, i, esc_char(c), escaped(rest) + seq!['"']);
        lemma_escaped_round_trip(s, i + esc_char(c).len(), rest);
        assert(s[i] == s.subrange(i, i + esc_char(c).len())[0]);
        if c == '"' || c == '\\' {
            assert(s[i + 1] == s.subrange(i, i + 2)[1]);
        }
        assert(seq![c] + rest == t);
    }
}

pub(crate) proof fn lemma_str_round_trip(s: Seq<char>, i: int, t: Seq<char>)
    requires
        at(s, i, enc_str(t)),
    ensures
        parse_str(s, i) == Some((t, i + enc_str(t).len())),
{
    assert(enc_str(t) == seq!['"'] + (escaped(t) + seq!['"']));
    lemma_at_split(s, i, seq!['"'], escaped(t) + seq!['"']);
    lemma_escaped_round_trip(s, i + 1, t);
}

proof fn lemma_items_round_trip(s: Seq<char>, i: int, l: Seq<Seq<char>>)
    requires
        l.len() > 0,
        at(s, i, enc_items(l) + seq![']']),
    ensures
        parse_items(s, i) == Some((l, i + enc_items(l).len() + 1)),
    decreases l.len(),
{
    let e = enc_str(l[0]);
    if l.len() == 1 {
        lemma_at_split(s, i, e, seq![']']);
        lemma_str_round_trip(s, i, l[0]);
        assert(!at(s, i + e.len(), seq![','])) by {
            assert(s.subrange(i + e.len(), i + e.len() + 1)[0] == ']');
        }
        assert(seq![l[0]] == l);
    } else {
        let rest = l.drop_first();
        assert(enc_items(l) + seq![']'] == e + (seq![','] + (enc_items(rest) + seq![']'])));
        lemma_at_split(s, i, e, seq![','] + (enc_items(rest) + seq![']']));
        lemma_at_split(s, i + e.len(), seq![','], enc_items(rest) + seq![']']);
        lemma_str_round_trip(s, i, l[0]);
        lemma_items_round_trip(s, i + e.len() + 1, rest);
        assert(seq![l[0]] + rest == l);
    }
}

proof fn lemma_list_round_trip(s: Seq<char>, i: int, l: Seq<Seq<char>>)
    requires
        at(s, i, enc_list(l)),
    ensures
        parse_list(s, i) == Some((l, i + enc_list(l).len())),
{
    reveal_strlit("[]");
    if l.len() == 0 {
        assert(enc_list(l) == "[]"@);
        assert(l == Seq::<Seq<char>>::empty());
    } else {
        assert(enc_list(l) == seq!['['] + (enc_items(l) + seq![']']));
        lemma_at_split(s, i, seq!['['], enc_items(l) + seq![']']);
        lemma_items_round_trip(s, i + 1, l);
        assert(!at(s, i, "[]"@)) by {
            let e = enc_str(l[0]);
            if l.len() > 1 {
                assert(enc_items(l) == e + (seq![','] + enc_items(l.drop_first())));
            }
            assert((seq!['['] + (enc_items(l) + seq![']']))[1] == e[0]);
            lemma_at_index(s, i, enc_list(l), 1);
            if at(s, i, "[]"@) {
                lemma_at_index(s, i, "[]"@, 1);
            }
        }
    }
}

proof fn lemma_command_round_trip(s: Seq<char>, i: int, c: CommandView)
    requires
        at(s, i, enc_command(c)),
    ensures
        parse_command(s, i) == Some((c, i + enc_command(c).len())),
{
    reveal_strlit("Log");
    reveal_strlit("Help");
    reveal_strlit("Show(");
    reveal_strlit("Jujutsu(");
    reveal_strlit("Output(");
    reveal_strlit("Error(");
    reveal_strlit(")");
    let e = enc_command(c);
    lemma_at_index(s, i, e, 0);
    if at(s, i, "Log"@) {
        lemma_at_index(s, i, "Log"@, 0);
    }
    if at(s, i, "Help"@) {
        lemma_at_index(s, i, "Help"@, 0);
    }
    if at(s, i, "Show("@) {
        lemma_at_index(s, i, "Show("@, 0);
    }
    if at(s, i, "Jujutsu("@) {
        lemma_at_index(s, i, "Jujutsu("@, 0);
    }
    if at(s, i, "Output("@) {
        lemma_at_index(s, i, "Output("@, 0);
    }
    if at(s, i, "Error("@) {
        lemma_at_index(s, i, "Error("@, 0);
    }
    match c {
        CommandView::Log => {},
        CommandView::Help => {},
        CommandView::Show(r) => {
            lemma_at_split(s, i, "Show("@ + enc_str(r), ")"@);
            lemma_at_split(s, i, "Show("@, enc_str(r));
            lemma_str_round_trip(s, i + 5, r);
        },
        CommandView::Jujutsu(a) => {
            lemma_at_split(s, i, "Jujutsu("@ + enc_list(a), ")"@);
            lemma_at_split(s, i, "Jujutsu("@, enc_list(a));
            lemma_list_round_trip(s, i + 8, a);
        },
        CommandView::Output(t) => {
            lemma_at_split(s, i, "Output("@ + enc_str(t), ")"@);
            lemma_at_split(s, i, "Output("@, enc_str(t));
            lemma_str_round_trip(s, i + 7, t);
        },
        CommandView::Error(t) => {
            lemma_at_split(s, i, "Error("@ + enc_str(t), ")"@);
            lemma_at_split(s, i, "Error("@, enc_str(t));
            lemma_str_round_trip(s, i + 6, t);
        },
    }
}

pub(crate) fn has_at(input: &Vec<char>, i: usize, p: &str) -> (r: bool)
    ensures
        r == at(input@, i as int, p@),
        input@.len() <= usize::MAX,
{
    let pv = chars_of(p);
    let n: usize = input.len();
    if i > n || pv.len() > n - i {
        return false;
    }
    let mut k: usize = 0;
    while k < pv.len()
        invariant
            k <= pv@.len(),
            pv@ == p@,
            n == input@.len(),
            i + pv@.len() <= input@.len(),
            input@.subrange(i as int, i + k) == pv@.subrange(0, k as int),
        decreases pv@.len() - k,
    {
        if input[i + k] != pv[k] {
            assert(input@.subrange(i as int, i + pv@.len())[k as int] == input@[i + k]);
            assert(input@.subrange(i as int, i + pv@.len()) != pv@);
            return false;
        }
        k = k + 1;
        assert(input@.subrange(i as int, i + k) =~= pv@.subrange(0, k as int));
    }
    assert(pv@.subrange(0, pv@.len() as int) == pv@);
    assert(at(input@, i as int, p@));
    true
}

pub(crate) fn has_char(input: &Vec<char>, i: usize, c: char) -> (r: bool)
    ensures
        r == at(input@, i as int, seq![c]),
        input@.len() <= usize::MAX,
{
    if i < input.len() && input[i] == c {
        assert(input@.subrange(i as int, i + 1) =~= seq![c]);
        true
    } else {
        if i < input.len() {
            assert(input@.subrange(i as int, i + 1)[0] == input@[i as int]);
        }
        false
    }
}

/// `r` prefixed with `o`.
pub open spec fn prefixed<T>(o: Seq<T>, r: Option<(Seq<T>, int)>) -> Option<(Seq<T>, int)> {
    match r {
        Some((v, k)) => Some((o + v, k)),
        None => None,
    }
}

proof fn lemma_prefixed<T>(o: Seq<T>, c: T, r: Option<(Seq<T>, int)>)
    ensures
        prefixed(o, prefixed(seq![c], r)) == prefixed(o.push(c), r),
{
    if let Some((v, k)) = r {
        assert(o + (seq![c] + v) == o.push(c) + v);
    }
}

fn read_escaped(input: &Vec<char>, i: usize) -> (r: Option<(Vec<char>, usize)>)
    ensures
        match parse_escaped(input@, i as int) {
            Some((v, k)) => r matches Some((x, p)) && x@ == v && p == k && p <= input@.len(),
            None => r is None,
        },
{
    if i > input.len() {
        return None;
    }
    let mut out: Vec<char> = Vec::new();
    let mut j: usize = i;
    assert(out@ + Seq::<char>::empty() == out@);
    proof {
        if let Some((v, k)) = parse_escaped(input@, i as int) {
            assert(Seq::<char>::empty() + v == v);
        }
    }
    while j < input.len()
        invariant
            i <= j <= input@.len(),
            parse_escaped(input@, i as int) == prefixed(out@, parse_escaped(input@, j as int)),
        decreases input@.len() - j,
    {
        let c = input[j];
        if c == '"' {
            assert(out@ + Seq::<char>::empty() == out@);
            return Some((out, j + 1));
        } else if c == '\\' {
            if j + 1 >= input.len() {
                return None;
            }
            let e = input[j + 1];
            let d = if e == 'n' {
                '\n'
            } else if e == 'r' {
                '\r'
            } else if e == 't' {
                '\t'
            } else {
                e
            };
            proof {
                lemma_prefixed(out@, d, parse_escaped(input@, j + 2));
            }
            out.push(d);
            j = j + 2;
        } else {
            proof {
                lemma_prefixed(out@, c, parse_escaped(input@, j + 1));
            }
            out.push(c);
            j = j + 1;
        }
    }
    None
}

pub(crate) fn read_str(input: &Vec<char>, i: usize) -> (r: Option<(String, usize)>)
    ensures
        match parse_str(input@, i as int) {
            Some((v, k)) => r matches Some((x, p)) && x@ == v && p == k && p <= input@.len(),
            None => r is None,
        },
{
    if !has_char(input, i, '"') {
        return None;
    }
    match read_escaped(input, i + 1) {
        Some((v, p)) => Some((string_of(&v), p)),
        None => None,
    }
}

fn read_list(input: &Vec<char>, i: usize) -> (r: Option<(Vec<String>, usize)>)
    ensures
        match parse_list(input@, i as int) {
            Some((v, k)) => r matches Some((x, p)) && views(x@) == v && p == k && p <= input@.len(),
            None => r is None,
        },
{
    proof { reveal_strlit("[]"); }
    if has_at(input, i, "[]") {
        return Some((Vec::new(), i + 2));
    }
    if !has_char(input, i, '[') {
        return None;
    }
    let mut out: Vec<String> = Vec::new();
    let mut j: usize = i + 1;
    assert(views(out@) == Seq::<Seq<char>>::empty());
    proof {
        if let Some((v, k)) = parse_items(input@, j as int) {
            assert(Seq::<Seq<char>>::empty() + v == v);
        }
    }
    loop
        invariant
            i < j <= input@.len(),
            parse_list(input@, i as int) == prefixed(views(out@), parse_items(input@, j as int)),
        decreases input@.len() - j,
    {
        match read_str(input, j) {
            None => {
                return None;
            },
            Some((v, k)) => {
                if k <= j {
                    return None;
                }
                let ghost before = views(out@);
                if has_char(input, k, ',') {
                    proof {
                        lemma_prefixed(before, v@, parse_items(input@, k + 1));
                    }
                    out.push(v);
                    assert(views(out@) == before.push(v@));
                    if k >= input.len() {
                        return None;
                    }
                    j = k + 1;
                } else if has_char(input, k, ']') {
                    out.push(v);
                    assert(views(out@) == before.push(v@));
                    assert(before + seq![v@] == before.push(v@));
                    return Some((out, k + 1));
                } else {
                    return None;
                }
            },
        }
    }
}

pub(crate) fn read_str_then(input: &Vec<char>, i: usize, close: &str) -> (r: Option<(String, usize)>)
    ensures
        match parse_str_then(input@, i as int, close@) {
            Some((v, k)) => r matches Some((x, p)) && x@ == v && p == k && p <= input@.len(),
            None => r is None,
        },
{
    match read_str(input, i) {
        Some((v, j)) => {
            if has_at(input, j, close) {
                let n = chars_of(close).len();
                Some((v, j + n))
            } else {
                None
            }
        },
        None => None,
    }
}

/// The number of characters of a string.
pub(crate) fn char_count(s: &str) -> (r: usize)
    ensures
        r == s@.len(),
{
    chars_of(s).len()
}

impl VjjCommand {
    pub(crate) fn read(input: &Vec<char>, i: usize) -> (r: Option<(VjjCommand, usize)>)
        ensures
            match parse_command(input@, i as int) {
                Some((v, k)) => r matches Some((x, p)) && x@ == v && p == k && p <= input@.len(),
                None => r is None,
            },
    {
        proof {
            reveal_strlit("Log");
            reveal_strlit("Help");
            reveal_strlit("Show(");
            reveal_strlit("Jujutsu(");
            reveal_strlit("Output(");
            reveal_strlit("Error(");
            reveal_strlit(")");
        }
        if has_at(input, i, "Log") {
            Some((VjjCommand::Log, i + 3))
        } else if has_at(input, i, "Help") {
            Some((VjjCommand::Help, i + 4))
        } else if has_at(input, i, "Show(") {
            match read_str_then(input, i + 5, ")") {
                Some((v, j)) => Some((VjjCommand::Show(v), j)),
                None => None,
            }
        } else if has_at(input, i, "Jujutsu(") {
            match read_list(input, i + 8) {
                Some((v, j)) => if has_at(input, j, ")") {
                    Some((VjjCommand::Jujutsu(v), j + 1))
                } else {
                    None
                },
                None => None,
            }
        } else if has_at(input, i, "Output(") {
            match read_str_then(input, i + 7, ")") {
                Some((v, j)) => Some((VjjCommand::Output(v), j)),
                None => None,
            }
        } else if has_at(input, i, "Error(") {
            match read_str_then(input, i + 6, ")") {
                Some((v, j)) => Some((VjjCommand::Error(v), j)),
                None => None,
            }
        } else {
            None
        }
    }
}

/// What kind of input an input handler answers.
#[derive(Debug, Clone, Copy, PartialEq, Eq)]
pub enum InputKind {
    /// The query changed.
    Change,
    Enter,
    Esc,
}

/// A callback that the finder makes on an event.
#[derive(Debug, Clone)]
pub enum FzfBindHandler {
    /// The focused row changed; the fields hold the focused change and commit
    /// and the finder action that moved the focus.
    Focus { change: String, commit: String, action: String },
    /// A key or a change of the query.
    Input { kind: InputKind, selection: Selection },
}

/// A request by which the program calls itself back.
#[derive(Debug, Clone)]
pub enum VjjShellExpression {
    /// Answer an event with finder actions.
    Handler(FzfBindHandler),
    /// Run a command and print what it prints.
    Command(VjjCommand),
    /// Run a command with its output in a pager.
    PagedCommand { command: VjjCommand, interactive: bool },
}

/// A selection payload: the change pair and the commit pair.
pub type SelectionView = ((Seq<char>, Seq<char>), (Seq<char>, Seq<char>));

pub ghost enum HandlerView {
    Focus { change: Seq<char>, commit: Seq<char>, action: Seq<char> },
    Input { kind: InputKind, selection: SelectionView },
}

pub ghost enum ExprView {
    Handler(HandlerView),
    Command(CommandView),
    PagedCommand { command: CommandView, interactive: bool },
}

pub open spec fn selection_view(s: &Selection) -> SelectionView {
    ((s.change_raw().0@, s.change_raw().1@), (s.commit_raw().0@, s.commit_raw().1@))
}

impl View for FzfBindHandler {
    type V = HandlerView;

    open spec fn view(&self) -> HandlerView {
        match self {
            FzfBindHandler::Focus { change, commit, action } => HandlerView::Focus {
                change: change@,
                commit: commit@,
                action: action@,
            },
            FzfBindHandler::Input { kind, selection } => HandlerView::Input {
                kind: *kind,
                selection: selection_view(selection),
            },
        }
    }
}

impl View for VjjShellExpression {
    type V = ExprView;

    open spec fn view(&self) -> ExprView {
        match self {
            VjjShellExpression::Handler(h) => ExprView::Handler(h@),
            VjjShellExpression::Command(c) => ExprView::Command(c@),
            VjjShellExpression::PagedCommand { command, interactive } => ExprView::PagedCommand {
                command: command@,
                interactive: *interactive,
            },
        }
    }
}

pub open spec fn enc_kind(k: InputKind) -> Seq<char> {
    match k {
        InputKind::Change => "Change"@,
        InputKind::Enter => "Enter"@,
        InputKind::Esc => "Esc"@,
    }
}

pub open spec fn enc_pair(p: (Seq<char>, Seq<char>)) -> Seq<char> {
    "("@ + enc_str(p.0) + ","@ + enc_str(p.1) + ")"@
}

pub open spec fn enc_selection(s: SelectionView) -> Seq<char> {
    "(change:"@ + enc_pair(s.0) + ",commit:"@ + enc_pair(s.1) + ")"@
}

/// The text form of a handler.
pub open spec fn enc_handler(h: HandlerView) -> Seq<char> {
    match h {
        HandlerView::Focus { change, commit, action } => "Focus(change:"@ + enc_str(change)
            + ",commit:"@ + enc_str(commit) + ",action:"@ + enc_str(action) + ")"@,
        HandlerView::Input { kind, selection } => "Input(kind:"@ + enc_kind(kind)
            + ",selection:"@ + enc_selection(selection) + ")"@,
    }
}

/// The text form of a request.
pub open spec fn enc_expr(e: ExprView) -> Seq<char> {
    match e {
        ExprView::Handler(h) => "Handler("@ + enc_handler(h) + ")"@,
        ExprView::Command(c) => "Command("@ + enc_command(c) + ")"@,
        ExprView::PagedCommand { command, interactive } => "PagedCommand(command:"@
            + enc_command(command) + ",interactive:"@ + enc_bool(interactive) + ")"@,
    }
}

/// The position after `lit`, where `lit` stands at `i`.
pub open spec fn lit_at(s: Seq<char>, i: int, lit: Seq<char>) -> Option<int> {
    if at(s, i, lit) {
        Some(i + lit.len())
    } else {
        None
    }
}

pub open spec fn parse_bool(s: Seq<char>, i: int) -> Option<(bool, int)> {
    if at(s, i, "true"@) {
        Some((true, i + 4))
    } else if at(s, i, "false"@) {
        Some((false, i + 5))
    } else {
        None
    }
}

pub open spec fn parse_kind(s: Seq<char>, i: int) -> Option<(InputKind, int)> {
    if at(s, i, "Change"@) {
        Some((InputKind::Change, i + 6))
    } else if at(s, i, "Enter"@) {
        Some((InputKind::Enter, i + 5))
    } else if at(s, i, "Esc"@) {
        Some((InputKind::Esc, i + 3))
    } else {
        None
    }
}

pub open spec fn parse_pair(s: Seq<char>, i: int) -> Option<((Seq<char>, Seq<char>), int)> {
    match lit_at(s, i, "("@) {
        Some(j) => match parse_str_then(s, j, ","@) {
            Some((a, k)) => match parse_str_then(s, k, ")"@) {
                Some((b, l)) => Some(((a, b), l)),
                None => None,
            },
            None => None,
        },
        None => None,
    }
}

pub open spec fn parse_selection(s: Seq<char>, i: int) -> Option<(SelectionView, int)> {
    match lit_at(s, i, "(change:"@) {
        Some(j) => match parse_pair(s, j) {
            Some((a, k)) => match lit_at(s, k, ",commit:"@) {
                Some(l) => match parse_pair(s, l) {
                    Some((b, m)) => match lit_at(s, m, ")"@) {
                        Some(n) => Some(((a, b), n)),
                        None => None,
                    },
                    None => None,
                },
                None => None,
            },
            None => None,
        },
        None => None,
    }
}

pub open spec fn parse_handler(s: Seq<char>, i: int) -> Option<(HandlerView, int)> {
    match lit_at(s, i, "Focus(change:"@) {
        Some(j) => match parse_str_then(s, j, ",commit:"@) {
            Some((c, k)) => match parse_str_then(s, k, ",action:"@) {
                Some((m, l)) => match parse_str_then(s, l, ")"@) {
                    Some((a, n)) => Some((HandlerView::Focus { change: c, commit: m, action: a }, n)),
                    None => None,
                },
                None => None,
            },
            None => None,
        },
        None => match lit_at(s, i, "Input(kind:"@) {
            Some(j) => match parse_kind(s, j) {
                Some((kind, k)) => match lit_at(s, k, ",selection:"@) {
                    Some(l) => match parse_selection(s, l) {
                        Some((sel, m)) => match lit_at(s, m, ")"@) {
                            Some(n) => Some((HandlerView::Input { kind, selection: sel }, n)),
                            None => None,
                        },
                        None => None,
                    },
                    None => None,
                },
                None => None,
            },
            None => None,
        },
    }
}

pub open spec fn parse_expr(s: Seq<char>, i: int) -> Option<(ExprView, int)> {
    match lit_at(s, i, "Handler("@) {
        Some(j) => match parse_handler(s, j) {
            Some((h, k)) => match lit_at(s, k, ")"@) {
                Some(l) => Some((ExprView::Handler(h), l)),
                None => None,
            },
            None => None,
        },
        None => match lit_at(s, i, "Command("@) {
            Some(j) => match parse_command(s, j) {
                Some((c, k)) => match lit_at(s, k, ")"@) {
                    Some(l) => Some((ExprView::Command(c), l)),
                    None => None,
                },
                None => None,
            },
            None => match lit_at(s, i, "PagedCommand(command:"@) {
                Some(j) => match parse_command(s, j) {
                    Some((c, k)) => match lit_at(s, k, ",interactive:"@) {
                        Some(l) => match parse_bool(s, l) {
                            Some((b, m)) => match lit_at(s, m, ")"@) {
                                Some(n) => Some((ExprView::PagedCommand { command: c, interactive: b }, n)),
                                None => None,
                            },
                            None => None,
                        },
                        None => None,
                    },
                    None => None,
                },
                None => None,
            },
        },
    }
}

/// The request that a whole text is, if it is one.
pub open spec fn decode_expr(s: Seq<char>) -> Option<ExprView> {
    match parse_expr(s, 0) {
        Some((e, k)) => if k == s.len() {
            Some(e)
        } else {
            None
        },
        None => None,
    }
}

/// Two texts that differ at `k` do not both stand at `i`.
pub(crate) proof fn lemma_not_both(s: Seq<char>, i: int, a: Seq<char>, b: Seq<char>, k: int)
    requires
        at(s, i, a),
        0 <= k < a.len(),
        k < b.len(),
        a[k] != b[k],
    ensures
        !at(s, i, b),
{
    lemma_at_index(s, i, a, k);
    if at(s, i, b) {
        lemma_at_index(s, i, b, k);
    }
}

pub(crate) proof fn lemma_str_then_round_trip(s: Seq<char>, i: int, t: Seq<char>, close: Seq<char>)
    requires
        at(s, i, enc_str(t) + close),
    ensures
        parse_str_then(s, i, close) == Some((t, i + enc_str(t).len() + close.len())),
{
    lemma_at_split(s, i, enc_str(t), close);
    lemma_str_round_trip(s, i, t);
}

proof fn lemma_bool_round_trip(s: Seq<char>, i: int, b: bool)
    requires
        at(s, i, enc_bool(b)),
    ensures
        parse_bool(s, i) == Some((b, i + enc_bool(b).len())),
{
    reveal_strlit("true");
    reveal_strlit("false");
    if !b {
        lemma_not_both(s, i, "false"@, "true"@, 0);
    }
}

proof fn lemma_kind_round_trip(s: Seq<char>, i: int, k: InputKind)
    requires
        at(s, i, enc_kind(k)),
    ensures
        parse_kind(s, i) == Some((k, i + enc_kind(k).len())),
{
    reveal_strlit("Change");
    reveal_strlit("Enter");
    reveal_strlit("Esc");
    match k {
        InputKind::Change => {},
        InputKind::Enter => {
            lemma_not_both(s, i, "Enter"@, "Change"@, 0);
        },
        InputKind::Esc => {
            lemma_not_both(s, i, "Esc"@, "Change"@, 0);
            lemma_not_both(s, i, "Esc"@, "Enter"@, 1);
        },
    }
}

proof fn lemma_pair_round_trip(s: Seq<char>, i: int, p: (Seq<char>, Seq<char>))
    requires
        at(s, i, enc_pair(p)),
    ensures
        parse_pair(s, i) == Some((p, i + enc_pair(p).len())),
{
    let a = "("@;
    let x = enc_str(p.0);
    let c = ","@;
    let y = enc_str(p.1);
    let d = ")"@;
    lemma_at_split(s, i, a + x + c + y, d);
    lemma_at_split(s, i, a + x + c, y);
    lemma_at_split(s, i, a + x, c);
    lemma_at_split(s, i, a, x);
    assert(at(s, i + a.len(), x + c)) by {
        assert(a + x + c == a + (x + c));
        lemma_at_split(s, i, a, x + c);
    }
    lemma_str_then_round_trip(s, i + a.len(), p.0, c);
    assert(at(s, i + a.len() + x.len() + c.len(), y + d)) by {
        assert(enc_pair(p) == (a + x + c) + (y + d));
        lemma_at_split(s, i, a + x + c, y + d);
    }
    lemma_str_then_round_trip(s, i + a.len() + x.len() + c.len(), p.1, d);
}

proof fn lemma_selection_round_trip(s: Seq<char>, i: int, v: SelectionView)
    requires
        at(s, i, enc_selection(v)),
    ensures
        parse_selection(s, i) == Some((v, i + enc_selection(v).len())),
{
    let a = "(change:"@;
    let x = enc_pair(v.0);
    let c = ",commit:"@;
    let y = enc_pair(v.1);
    let d = ")"@;
    lemma_at_split(s, i, a + x + c + y, d);
    lemma_at_split(s, i, a + x + c, y);
    lemma_at_split(s, i, a + x, c);
    lemma_at_split(s, i, a, x);
    lemma_pair_round_trip(s, i + a.len(), v.0);
    lemma_pair_round_trip(s, i + a.len() + x.len() + c.len(), v.1);
}

proof fn lemma_handler_round_trip(s: Seq<char>, i: int, h: HandlerView)
    requires
        at(s, i, enc_handler(h)),
    ensures
        parse_handler(s, i) == Some((h, i + enc_handler(h).len())),
{
    reveal_strlit("Focus(change:");
    reveal_strlit("Input(kind:");
    match h {
        HandlerView::Focus { change, commit, action } => {
            let a = "Focus(change:"@;
            let x = enc_str(change);
            let b = ",commit:"@;
            let y = enc_str(commit);
            let c = ",action:"@;
            let z = enc_str(action);
            let d = ")"@;
            lemma_at_split(s, i, a + x + b + y + c + z, d);
            lemma_at_split(s, i, a + x + b + y + c, z);
            lemma_at_split(s, i, a + x + b + y, c);
            lemma_at_split(s, i, a + x + b, y);
            lemma_at_split(s, i, a + x, b);
            lemma_at_split(s, i, a, x);
            let i1 = i + a.len();
            let i2 = i1 + x.len() + b.len();
            let i3 = i2 + y.len() + c.len();
            assert(at(s, i1, x + b)) by {
                assert(a + x + b == a + (x + b));
                lemma_at_split(s, i, a, x + b);
            }
            assert(at(s, i2, y + c)) by {
                assert(a + x + b + y + c == (a + x + b) + (y + c));
                lemma_at_split(s, i, a + x + b, y + c);
            }
            assert(at(s, i3, z + d)) by {
                assert(enc_handler(h) == (a + x + b + y + c) + (z + d));
                lemma_at_split(s, i, a + x + b + y + c, z + d);
            }
            lemma_str_then_round_trip(s, i1, change, b);
            lemma_str_then_round_trip(s, i2, commit, c);
            lemma_str_then_round_trip(s, i3, action, d);
        },
        HandlerView::Input { kind, selection } => {
            let a = "Input(kind:"@;
            let x = enc_kind(kind);
            let b = ",selection:"@;
            let y = enc_selection(selection);
            let d = ")"@;
            lemma_at_split(s, i, a + x + b + y, d);
            lemma_at_split(s, i, a + x + b, y);
            lemma_at_split(s, i, a + x, b);
            lemma_at_split(s, i, a, x);
            lemma_not_both(s, i, a, "Focus(change:"@, 0);
            lemma_kind_round_trip(s, i + a.len(), kind);
            lemma_selection_round_trip(s, i + a.len() + x.len() + b.len(), selection);
        },
    }
}

proof fn lemma_expr_round_trip(s: Seq<char>, i: int, e: ExprView)
    requires
        at(s, i, enc_expr(e)),
    ensures
        parse_expr(s, i) == Some((e, i + enc_expr(e).len())),
{
    reveal_strlit("Handler(");
    reveal_strlit("Command(");
    reveal_strlit("PagedCommand(command:");
    match e {
        ExprView::Handler(h) => {
            let a = "Handler("@;
            let x = enc_handler(h);
            lemma_at_split(s, i, a + x, ")"@);
            lemma_at_split(s, i, a, x);
            lemma_handler_round_trip(s, i + a.len(), h);
        },
        ExprView::Command(c) => {
            let a = "Command("@;
            let x = enc_command(c);
            lemma_at_split(s, i, a + x, ")"@);
            lemma_at_split(s, i, a, x);
            lemma_not_both(s, i, a, "Handler("@, 0);
            lemma_command_round_trip(s, i + a.len(), c);
        },
        ExprView::PagedCommand { command, interactive } => {
            let a = "PagedCommand(command:"@;
            let x = enc_command(command);
            let b = ",interactive:"@;
            let y = enc_bool(interactive);
            let d = ")"@;
            lemma_at_split(s, i, a + x + b + y, d);
            lemma_at_split(s, i, a + x + b, y);
            lemma_at_split(s, i, a + x, b);
            lemma_at_split(s, i, a, x);
            lemma_not_both(s, i, a, "Handler("@, 0);
            lemma_not_both(s, i, a, "Command("@, 0);
            lemma_command_round_trip(s, i + a.len(), command);
            lemma_bool_round_trip(s, i + a.len() + x.len() + b.len(), interactive);
        },
    }
}

/// Decoding the text form of a request gives that request back.
pub proof fn lemma_decode_encode(e: ExprView)
    ensures
        decode_expr(enc_expr(e)) == Some(e),
{
    let s = enc_expr(e);
    assert(s.subrange(0, s.len() as int) == s);
    lemma_expr_round_trip(s, 0, e);
}

fn write_pair(out: &mut Vec<char>, p: &(String, String))
    ensures
        final(out)@ == old(out)@ + enc_pair((p.0@, p.1@)),
{
    let ghost o = out@;
    push_str(out, "(");
    write_str(out, p.0.as_str());
    push_str(out, ",");
    write_str(out, p.1.as_str());
    push_str(out, ")");
    assert(out@ == o + enc_pair((p.0@, p.1@)));
}

fn write_selection(out: &mut Vec<char>, s: &Selection)
    ensures
        final(out)@ == old(out)@ + enc_selection(selection_view(s)),
{
    let ghost o = out@;
    push_str(out, "(change:");
    write_pair(out, &s.change_payload());
    push_str(out, ",commit:");
    write_pair(out, &s.commit_payload());
    push_str(out, ")");
    assert(out@ == o + enc_selection(selection_view(s)));
}

impl FzfBindHandler {
    fn write(&self, out: &mut Vec<char>)
        ensures
            final(out)@ == old(out)@ + enc_handler(self@),
    {
        let ghost o = out@;
        match self {
            FzfBindHandler::Focus { change, commit, action } => {
                push_str(out, "Focus(change:");
                write_str(out, change.as_str());
                push_str(out, ",commit:");
                write_str(out, commit.as_str());
                push_str(out, ",action:");
                write_str(out, action.as_str());
                push_str(out, ")");
            },
            FzfBindHandler::Input { kind, selection } => {
                push_str(out, "Input(kind:");
                match kind {
                    InputKind::Change => push_str(out, "Change"),
                    InputKind::Enter => push_str(out, "Enter"),
                    InputKind::Esc => push_str(out, "Esc"),
                }
                push_str(out, ",selection:");
                write_selection(out, selection);
                push_str(out, ")");
            },
        }
        assert(out@ == o + enc_handler(self@));
    }

    /// The text form of the handler's request, one line.
    pub fn encode(&self) -> (r: String)
        ensures
            r@ == enc_expr(ExprView::Handler(self@)),
            one_line(r@),
    {
        proof { lemma_request_one_line(ExprView::Handler(self@)); }
        let mut out: Vec<char> = Vec::new();
        push_str(&mut out, "Handler(");
        self.write(&mut out);
        push_str(&mut out, ")");
        string_of(&out)
    }
}

impl VjjShellExpression {
    /// The text form of the request, one line, which `decode` reads back.
    pub fn encode(&self) -> (r: String)
        ensures
            r@ == enc_expr(self@),
            one_line(r@),
    {
        proof { lemma_request_one_line(self@); }
        let mut out: Vec<char> = Vec::new();
        match self {
            VjjShellExpression::Handler(h) => {
                push_str(&mut out, "Handler(");
                h.write(&mut out);
                push_str(&mut out, ")");
            },
            VjjShellExpression::Command(c) => {
                push_str(&mut out, "Command(");
                c.write(&mut out);
                push_str(&mut out, ")");
            },
            VjjShellExpression::PagedCommand { command, interactive } => {
                push_str(&mut out, "PagedCommand(command:");
                command.write(&mut out);
                push_str(&mut out, ",interactive:");
                write_bool(&mut out, *interactive);
                push_str(&mut out, ")");
            },
        }
        string_of(&out)
    }

    /// The request that the whole of `s` is the text form of; none if `s` is not one.
    pub fn decode(s: &str) -> (r: Option<VjjShellExpression>)
        ensures
            match decode_expr(s@) {
                Some(e) => r matches Some(x) && x@ == e,
                None => r is None,
            },
    {
        let input = chars_of(s);
        match read_expr(&input, 0) {
            Some((e, k)) => if k == input.len() {
                Some(e)
            } else {
                None
            },
            None => None,
        }
    }
}

pub(crate) fn skip_lit(input: &Vec<char>, i: usize, lit: &str) -> (r: Option<usize>)
    ensures
        match lit_at(input@, i as int, lit@) {
            Some(k) => r matches Some(p) && p == k && k <= input@.len(),
            None => r is None,
        },
{
    if has_at(input, i, lit) {
        Some(i + char_count(lit))
    } else {
        None
    }
}

fn read_bool(input: &Vec<char>, i: usize) -> (r: Option<(bool, usize)>)
    ensures
        match parse_bool(input@, i as int) {
            Some((v, k)) => r matches Some((x, p)) && x == v && p == k && k <= input@.len(),
            None => r is None,
        },
{
    proof {
        reveal_strlit("true");
        reveal_strlit("false");
    }
    if has_at(input, i, "true") {
        Some((true, i + 4))
    } else if has_at(input, i, "false") {
        Some((false, i + 5))
    } else {
        None
    }
}

fn read_kind(input: &Vec<char>, i: usize) -> (r: Option<(InputKind, usize)>)
    ensures
        match parse_kind(input@, i as int) {
            Some((v, k)) => r matches Some((x, p)) && x == v && p == k && k <= input@.len(),
            None => r is None,
        },
{
    proof {
        reveal_strlit("Change");
        reveal_strlit("Enter");
        reveal_strlit("Esc");
    }
    if has_at(input, i, "Change") {
        Some((InputKind::Change, i + 6))
    } else if has_at(input, i, "Enter") {
        Some((InputKind::Enter, i + 5))
    } else if has_at(input, i, "Esc") {
        Some((InputKind::Esc, i + 3))
    } else {
        None
    }
}

fn read_pair(input: &Vec<char>, i: usize) -> (r: Option<((String, String), usize)>)
    ensures
        match parse_pair(input@, i as int) {
            Some((v, k)) => r matches Some((x, p)) && (x.0@, x.1@) == v && p == k && p <= input@.len(),
            None => r is None,
        },
{
    let j = skip_lit(input, i, "(");
    if j.is_none() {
        return None;
    }
    let j = j.unwrap();
    match read_str_then(input, j, ",") {
        Some((a, k)) => match read_str_then(input, k, ")") {
            Some((b, l)) => Some(((a, b), l)),
            None => None,
        },
        None => None,
    }
}

fn read_selection(input: &Vec<char>, i: usize) -> (r: Option<(Selection, usize)>)
    ensures
        match parse_selection(input@, i as int) {
            Some((v, k)) => r matches Some((x, p)) && selection_view(&x) == v && p == k && p <= input@.len(),
            None => r is None,
        },
{
    let j = match skip_lit(input, i, "(change:") {
        Some(j) => j,
        None => return None,
    };
    let (a, k) = match read_pair(input, j) {
        Some(x) => x,
        None => return None,
    };
    let l = match skip_lit(input, k, ",commit:") {
        Some(l) => l,
        None => return None,
    };
    let (b, m) = match read_pair(input, l) {
        Some(x) => x,
        None => return None,
    };
    let n = match skip_lit(input, m, ")") {
        Some(n) => n,
        None => return None,
    };
    Some((Selection::new(a, b), n))
}

fn read_handler(input: &Vec<char>, i: usize) -> (r: Option<(FzfBindHandler, usize)>)
    ensures
        match parse_handler(input@, i as int) {
            Some((v, k)) => r matches Some((x, p)) && x@ == v && p == k && p <= input@.len(),
            None => r is None,
        },
{
    match skip_lit(input, i, "Focus(change:") {
        Some(j) => {
            let (change, k) = match read_str_then(input, j, ",commit:") {
                Some(x) => x,
                None => return None,
            };
            let (commit, l) = match read_str_then(input, k, ",action:") {
                Some(x) => x,
                None => return None,
            };
            let (action, n) = match read_str_then(input, l, ")") {
                Some(x) => x,
                None => return None,
            };
            Some((FzfBindHandler::Focus { change, commit, action }, n))
        },
        None => {
            let j = match skip_lit(input, i, "Input(kind:") {
                Some(j) => j,
                None => return None,
            };
            let (kind, k) = match read_kind(input, j) {
                Some(x) => x,
                None => return None,
            };
            let l = match skip_lit(input, k, ",selection:") {
                Some(l) => l,
                None => return None,
            };
            let (selection, m) = match read_selection(input, l) {
                Some(x) => x,
                None => return None,
            };
            let n = match skip_lit(input, m, ")") {
                Some(n) => n,
                None => return None,
            };
            Some((FzfBindHandler::Input { kind, selection }, n))
        },
    }
}

pub(crate) fn read_expr(input: &Vec<char>, i: usize) -> (r: Option<(VjjShellExpression, usize)>)
    ensures
        match parse_expr(input@, i as int) {
            Some((v, k)) => r matches Some((x, p)) && x@ == v && p == k && p <= input@.len(),
            None => r is None,
        },
{
    if let Some(j) = skip_lit(input, i, "Handler(") {
        let (h, k) = match read_handler(input, j) {
            Some(x) => x,
            None => return None,
        };
        let l = match skip_lit(input, k, ")") {
            Some(l) => l,
            None => return None,
        };
        return Some((VjjShellExpression::Handler(h), l));
    }
    if let Some(j) = skip_lit(input, i, "Command(") {
        let (c, k) = match VjjCommand::read(input, j) {
            Some(x) => x,
            None => return None,
        };
        let l = match skip_lit(input, k, ")") {
            Some(l) => l,
            None => return None,
        };
        return Some((VjjShellExpression::Command(c), l));
    }
    let j = match skip_lit(input, i, "PagedCommand(command:") {
        Some(j) => j,
        None => return None,
    };
    let (command, k) = match VjjCommand::read(input, j) {
        Some(x) => x,
        None => return None,
    };
    let l = match skip_lit(input, k, ",interactive:") {
        Some(l) => l,
        None => return None,
    };
    let (interactive, m) = match read_bool(input, l) {
        Some(x) => x,
        None => return None,
    };
    let n = match skip_lit(input, m, ")") {
        Some(n) => n,
        None => return None,
    };
    Some((VjjShellExpression::PagedCommand { command, interactive }, n))
}

/// The text form of a mode.
pub open spec fn enc_mode(m: ModeView) -> Seq<char> {
    match m {
        ModeView::Normal => "NORMAL"@,
        ModeView::Revset => "REVSET"@,
        ModeView::Obslog(r) => "OBSLOG("@ + enc_str(r) + ")"@,
    }
}

/// Reads a mode at `i`.
pub open spec fn parse_mode(s: Seq<char>, i: int) -> Option<(ModeView, int)> {
    if at(s, i, "NORMAL"@) {
        Some((ModeView::Normal, i + 6))
    } else if at(s, i, "REVSET"@) {
        Some((ModeView::Revset, i + 6))
    } else {
        match lit_at(s, i, "OBSLOG("@) {
            Some(j) => match parse_str_then(s, j, ")"@) {
                Some((r, k)) => Some((ModeView::Obslog(r), k)),
                None => None,
            },
            None => None,
        }
    }
}

/// The mode that a prompt starts with, if it starts with one.
pub open spec fn mode_of_prompt(s: Seq<char>) -> Option<ModeView> {
    match parse_mode(s, 0) {
        Some((m, _)) => Some(m),
        None => None,
    }
}

pub(crate) proof fn lemma_mode_round_trip(s: Seq<char>, i: int, m: ModeView)
    requires
        at(s, i, enc_mode(m)),
    ensures
        parse_mode(s, i) == Some((m, i + enc_mode(m).len())),
{
    reveal_strlit("NORMAL");
    reveal_strlit("REVSET");
    reveal_strlit("OBSLOG(");
    match m {
        ModeView::Normal => {},
        ModeView::Revset => {
            lemma_not_both(s, i, "REVSET"@, "NORMAL"@, 0);
        },
        ModeView::Obslog(r) => {
            assert(enc_mode(m) == "OBSLOG("@ + (enc_str(r) + ")"@));
            lemma_at_split(s, i, "OBSLOG("@, enc_str(r) + ")"@);
            lemma_not_both(s, i, "OBSLOG("@, "NORMAL"@, 0);
            lemma_not_both(s, i, "OBSLOG("@, "REVSET"@, 0);
            lemma_str_then_round_trip(s, i + 7, r, ")"@);
        },
    }
}

/// The prompt of a mode starts with that mode's text form, so it reads back as that mode.
pub proof fn lemma_prompt_round_trip(m: ModeView, rest: Seq<char>)
    ensures
        mode_of_prompt(enc_mode(m) + rest) == Some(m),
{
    let s = enc_mode(m) + rest;
    assert(s.subrange(0, s.len() as int) == s);
    lemma_at_split(s, 0, enc_mode(m), rest);
    lemma_mode_round_trip(s, 0, m);
}

impl Mode {
    fn write(&self, out: &mut Vec<char>)
        ensures
            final(out)@ == old(out)@ + enc_mode(self@),
    {
        let ghost o = out@;
        match self {
            Mode::Normal => push_str(out, "NORMAL"),
            Mode::Revset => push_str(out, "REVSET"),
            Mode::Obslog(r) => {
                push_str(out, "OBSLOG(");
                write_str(out, r.as_str());
                push_str(out, ")");
                assert(out@ == o + enc_mode(self@));
            },
        }
    }

    /// The finder prompt that shows this mode: its text form and `": "`.
    pub fn prompt(&self) -> (r: String)
        ensures
            r@ == enc_mode(self@) + ": "@,
    {
        let mut out: Vec<char> = Vec::new();
        self.write(&mut out);
        push_str(&mut out, ": ");
        string_of(&out)
    }

    pub(crate) fn read(input: &Vec<char>, i: usize) -> (r: Option<(Mode, usize)>)
        ensures
            match parse_mode(input@, i as int) {
                Some((m, k)) => r matches Some((x, p)) && x@ == m && p == k && p <= input@.len(),
                None => r is None,
            },
    {
        proof {
            reveal_strlit("NORMAL");
            reveal_strlit("REVSET");
        }
        if has_at(input, i, "NORMAL") {
            return Some((Mode::Normal, i + 6));
        }
        if has_at(input, i, "REVSET") {
            return Some((Mode::Revset, i + 6));
        }
        let j = match skip_lit(input, i, "OBSLOG(") {
            Some(j) => j,
            None => return None,
        };
        match read_str_then(input, j, ")") {
            Some((r, k)) => Some((Mode::Obslog(r), k)),
            None => None,
        }
    }

    /// The mode that a prompt starts with; none if it starts with no mode.
    pub fn from_prompt(s: &str) -> (r: Option<Mode>)
        ensures
            match mode_of_prompt(s@) {
                Some(m) => r matches Some(x) && x@ == m,
                None => r is None,
            },
    {
        let input = chars_of(s);
        proof {
            reveal_strlit("NORMAL");
            reveal_strlit("REVSET");
        }
        if has_at(&input, 0, "NORMAL") {
            return Some(Mode::Normal);
        }
        if has_at(&input, 0, "REVSET") {
            return Some(Mode::Revset);
        }
        let j = match skip_lit(&input, 0, "OBSLOG(") {
            Some(j) => j,
            None => return None,
        };
        match read_str_then(&input, j, ")") {
            Some((r, _)) => Some(Mode::Obslog(r)),
            None => None,
        }
    }
}

/// The request that runs a command and prints its output.
pub fn command_request(c: &VjjCommand) -> (r: String)
    ensures
        r@ == enc_expr(ExprView::Command(c@)),
        one_line(r@),
{
    proof { lemma_request_one_line(ExprView::Command(c@)); }
    let mut out: Vec<char> = Vec::new();
    push_str(&mut out, "Command(");
    c.write(&mut out);
    push_str(&mut out, ")");
    string_of(&out)
}

/// The request that runs a command with its output in a pager.
pub fn paged_request(c: &VjjCommand, interactive: bool) -> (r: String)
    ensures
        r@ == enc_expr(ExprView::PagedCommand { command: c@, interactive }),
        one_line(r@),
{
    proof { lemma_request_one_line(ExprView::PagedCommand { command: c@, interactive }); }
    let mut out: Vec<char> = Vec::new();
    push_str(&mut out, "PagedCommand(command:");
    c.write(&mut out);
    push_str(&mut out, ",interactive:");
    write_bool(&mut out, interactive);
    push_str(&mut out, ")");
    string_of(&out)
}

/// `s` holds no line feed.
pub open spec fn one_line(s: Seq<char>) -> bool {
    forall|i: int| 0 <= i < s.len() ==> #[trigger] s[i] != '\n'
}

proof fn lemma_one_line_concat(a: Seq<char>, b: Seq<char>)
    requires
        one_line(a),
        one_line(b),
    ensures
        one_line(a + b),
{
    assert forall|i: int| 0 <= i < (a + b).len() implies #[trigger] (a + b)[i] != '\n' by {
        if i < a.len() {
            assert((a + b)[i] == a[i]);
        } else {
            assert((a + b)[i] == b[i - a.len()]);
        }
    }
}

proof fn lemma_escaped_one_line(t: Seq<char>)
    ensures
        one_line(escaped(t)),
    decreases t.len(),
{
    if t.len() > 0 {
        lemma_escaped_one_line(t.drop_first());
        let e = esc_char(t[0]);
        assert(one_line(e)) by {
            assert forall|i: int| 0 <= i < e.len() implies #[trigger] e[i] != '\n' by {}
        }
        lemma_one_line_concat(e, escaped(t.drop_first()));
    }
}

proof fn lemma_str_one_line(t: Seq<char>)
    ensures
        one_line(enc_str(t)),
{
    lemma_escaped_one_line(t);
    lemma_one_line_concat(seq!['"'], escaped(t));
    lemma_one_line_concat(seq!['"'] + escaped(t), seq!['"']);
}

proof fn lemma_items_one_line(l: Seq<Seq<char>>)
    ensures
        one_line(enc_items(l)),
    decreases l.len(),
{
    if l.len() == 1 {
        lemma_str_one_line(l[0]);
    } else if l.len() > 1 {
        lemma_str_one_line(l[0]);
        lemma_items_one_line(l.drop_first());
        lemma_one_line_concat(enc_str(l[0]), seq![',']);
        lemma_one_line_concat(enc_str(l[0]) + seq![','], enc_items(l.drop_first()));
    }
}

proof fn lemma_lit_one_line(s: Seq<char>)
    requires
        forall|i: int| 0 <= i < s.len() ==> s[i] != '\n',
    ensures
        one_line(s),
{
}

proof fn lemma_command_one_line(c: CommandView)
    ensures
        one_line(enc_command(c)),
{
    reveal_strlit("Log");
    reveal_strlit("Help");
    reveal_strlit("Show(");
    reveal_strlit("Jujutsu(");
    reveal_strlit("Output(");
    reveal_strlit("Error(");
    reveal_strlit(")");
    lemma_lit_one_line(")"@);
    match c {
        CommandView::Log => lemma_lit_one_line("Log"@),
        CommandView::Help => lemma_lit_one_line("Help"@),
        CommandView::Show(r) => {
            lemma_lit_one_line("Show("@);
            lemma_str_one_line(r);
            lemma_one_line_concat("Show("@, enc_str(r));
            lemma_one_line_concat("Show("@ + enc_str(r), ")"@);
        },
        CommandView::Jujutsu(a) => {
            lemma_lit_one_line("Jujutsu("@);
            lemma_items_one_line(a);
            lemma_one_line_concat(seq!['['], enc_items(a));
            lemma_one_line_concat(seq!['['] + enc_items(a), seq![']']);
            lemma_one_line_concat("Jujutsu("@, enc_list(a));
            lemma_one_line_concat("Jujutsu("@ + enc_list(a), ")"@);
        },
        CommandView::Output(t) => {
            lemma_lit_one_line("Output("@);
            lemma_str_one_line(t);
            lemma_one_line_concat("Output("@, enc_str(t));
            lemma_one_line_concat("Output("@ + enc_str(t), ")"@);
        },
        CommandView::Error(t) => {
            lemma_lit_one_line("Error("@);
            lemma_str_one_line(t);
            lemma_one_line_concat("Error("@, enc_str(t));
            lemma_one_line_concat("Error("@ + enc_str(t), ")"@);
        },
    }
}

proof fn lemma_pair_one_line(p: (Seq<char>, Seq<char>))
    ensures
        one_line(enc_pair(p)),
{
    reveal_strlit("(");
    reveal_strlit(",");
    reveal_strlit(")");
    lemma_lit_one_line("("@);
    lemma_lit_one_line(","@);
    lemma_lit_one_line(")"@);
    lemma_str_one_line(p.0);
    lemma_str_one_line(p.1);
    lemma_one_line_concat("("@, enc_str(p.0));
    lemma_one_line_concat("("@ + enc_str(p.0), ","@);
    lemma_one_line_concat("("@ + enc_str(p.0) + ","@, enc_str(p.1));
    lemma_one_line_concat("("@ + enc_str(p.0) + ","@ + enc_str(p.1), ")"@);
}

proof fn lemma_handler_one_line(h: HandlerView)
    ensures
        one_line(enc_handler(h)),
{
    reveal_strlit("Focus(change:");
    reveal_strlit(",commit:");
    reveal_strlit(",action:");
    reveal_strlit(")");
    reveal_strlit("Input(kind:");
    reveal_strlit(",selection:");
    reveal_strlit("(change:");
    reveal_strlit("Change");
    reveal_strlit("Enter");
    reveal_strlit("Esc");
    lemma_lit_one_line(")"@);
    match h {
        HandlerView::Focus { change, commit, action } => {
            let a = "Focus(change:"@;
            let b = ",commit:"@;
            let c = ",action:"@;
            lemma_lit_one_line(a);
            lemma_lit_one_line(b);
            lemma_lit_one_line(c);
            lemma_str_one_line(change);
            lemma_str_one_line(commit);
            lemma_str_one_line(action);
            lemma_one_line_concat(a, enc_str(change));
            lemma_one_line_concat(a + enc_str(change), b);
            lemma_one_line_concat(a + enc_str(change) + b, enc_str(commit));
            lemma_one_line_concat(a + enc_str(change) + b + enc_str(commit), c);
            lemma_one_line_concat(a + enc_str(change) + b + enc_str(commit) + c, enc_str(action));
            lemma_one_line_concat(a + enc_str(change) + b + enc_str(commit) + c + enc_str(action), ")"@);
        },
        HandlerView::Input { kind, selection } => {
            let a = "Input(kind:"@;
            let b = ",selection:"@;
            let k = enc_kind(kind);
            lemma_lit_one_line(a);
            lemma_lit_one_line(b);
            lemma_lit_one_line(k);
            let x = "(change:"@;
            let y = ",commit:"@;
            lemma_lit_one_line(x);
            lemma_lit_one_line(y);
            lemma_pair_one_line(selection.0);
            lemma_pair_one_line(selection.1);
            lemma_one_line_concat(x, enc_pair(selection.0));
            lemma_one_line_concat(x + enc_pair(selection.0), y);
            lemma_one_line_concat(x + enc_pair(selection.0) + y, enc_pair(selection.1));
            lemma_one_line_concat(x + enc_pair(selection.0) + y + enc_pair(selection.1), ")"@);
            let sv = enc_selection(selection);
            lemma_one_line_concat(a, k);
            lemma_one_line_concat(a + k, b);
            lemma_one_line_concat(a + k + b, sv);
            lemma_one_line_concat(a + k + b + sv, ")"@);
        },
    }
}

/// The text form of every request is a single line: no line feed stands in
/// it, whatever the strings it carries hold.
pub proof fn lemma_request_one_line(e: ExprView)
    ensures
        one_line(enc_expr(e)),
{
    reveal_strlit("Handler(");
    reveal_strlit("Command(");
    reveal_strlit("PagedCommand(command:");
    reveal_strlit(",interactive:");
    reveal_strlit("true");
    reveal_strlit("false");
    reveal_strlit(")");
    lemma_lit_one_line(")"@);
    match e {
        ExprView::Handler(h) => {
            lemma_lit_one_line("Handler("@);
            lemma_handler_one_line(h);
            lemma_one_line_concat("Handler("@, enc_handler(h));
            lemma_one_line_concat("Handler("@ + enc_handler(h), ")"@);
        },
        ExprView::Command(c) => {
            lemma_lit_one_line("Command("@);
            lemma_command_one_line(c);
            lemma_one_line_concat("Command("@, enc_command(c));
            lemma_one_line_concat("Command("@ + enc_command(c), ")"@);
        },
        ExprView::PagedCommand { command, interactive } => {
            let a = "PagedCommand(command:"@;
            let b = ",interactive:"@;
            let v = enc_bool(interactive);
            lemma_lit_one_line(a);
            lemma_lit_one_line(b);
            lemma_lit_one_line(v);
            lemma_command_one_line(command);
            lemma_one_line_concat(a, enc_command(command));
            lemma_one_line_concat(a + enc_command(command), b);
            lemma_one_line_concat(a + enc_command(command) + b, v);
            lemma_one_line_concat(a + enc_command(command) + b + v, ")"@);
        },
    }
}

} // verus!
