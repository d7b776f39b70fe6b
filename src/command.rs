//! What the program does with a command when called back: the jj arguments
//! it runs, or the text it prints.
use vstd::prelude::*;
use crate::common::{keymap_name, unquoted, Mode, ModeView};
use crate::compile::ShellContext;
use crate::keymap::{keymap_table, label_of, KeyMap, KeyMapView, ModeTable, TableView};
use crate::protocol::{CommandView, VjjCommand};
use crate::text::{chars_of, joined, padded, push_padded, push_str, string_of, views};

verus! {

/// What to do for a command.
#[derive(Debug)]
pub enum Plan {
    /// Run jj with these arguments.
    Run(Vec<String>),
    /// Print this text.
    Print(String),
    /// Print this error message.
    PrintError(String),
    /// Nothing to do.
    Nothing,
}

pub ghost enum PlanView {
    Run(Seq<Seq<char>>),
    Print(Seq<char>),
    PrintError(Seq<char>),
    Nothing,
}

impl View for Plan {
    type V = PlanView;

    open spec fn view(&self) -> PlanView {
        match self {
            Plan::Run(a) => PlanView::Run(views(a@)),
            Plan::Print(t) => PlanView::Print(t@),
            Plan::PrintError(t) => PlanView::PrintError(t@),
            Plan::Nothing => PlanView::Nothing,
        }
    }
}

/// The title of a mode's help.
pub open spec fn help_title(m: ModeView) -> Seq<char> {
    match m {
        ModeView::Normal => "### NORMAL MODE HELP ###"@,
        ModeView::Revset => "### REVSET MODE HELP ###"@,
        ModeView::Obslog(_) => "### OBSLOG MODE HELP ###"@,
    }
}

/// The widest label of a table.
pub open spec fn widest_label(t: TableView) -> nat
    decreases t.len(),
{
    if t.len() == 0 {
        0
    } else {
        let w = widest_label(t.drop_last());
        let l = label_of(t.last().0).len();
        if l > w { l } else { w }
    }
}

/// The help of a mode: a title, then per binding its label padded to the
/// widest, two spaces and its help text.
pub open spec fn help_text(m: ModeView, t: TableView) -> Seq<char> {
    help_title(m) + "\n"@ + joined(
        Seq::new(t.len(), |i: int| padded(label_of(t[i].0), widest_label(t)) + "  "@ + t[i].1.0),
        "\n"@,
    )
}

/// The help of the current mode; a notice when the mode has no table, or an
/// error where the keymap document could not be read.
pub open spec fn help_of(k: KeyMapView, e: Option<Seq<char>>, m: ModeView) -> PlanView {
    match keymap_table(k, keymap_name(m)) {
        Some(t) => PlanView::Print(help_text(m, t)),
        None => match e {
            Some(msg) => PlanView::PrintError(msg),
            None => PlanView::Print("No Commands Available"@),
        },
    }
}

/// The arguments of jj that show the log of the current mode, with the
/// configuration `overrides`.
pub open spec fn log_args(m: ModeView, revset: Option<Seq<char>>, overrides: Seq<char>) -> Seq<Seq<char>> {
    seq!["--ignore-working-copy"@, "--config-toml"@, overrides] + match m {
        ModeView::Obslog(rev) => seq!["obslog"@, "-r"@, rev],
        _ => match revset {
            Some(r) => seq!["log"@, "-r"@, r],
            None => seq!["log"@],
        },
    }
}

/// What to do for a command in mode `m`, with revision set `revset` shown.
pub open spec fn plan_of(c: CommandView, k: KeyMapView, e: Option<Seq<char>>, m: ModeView, revset: Option<Seq<char>>, overrides: Seq<char>) -> PlanView {
    match c {
        CommandView::Show(rev) => if unquoted(rev).len() == 0 {
            PlanView::Nothing
        } else {
            PlanView::Run(seq!["--ignore-working-copy"@, "show"@, unquoted(rev)])
        },
        CommandView::Log => PlanView::Run(log_args(m, revset, overrides)),
        CommandView::Help => help_of(k, e, m),
        CommandView::Output(t) => PlanView::Print(t),
        CommandView::Jujutsu(a) => PlanView::Run(a),
        CommandView::Error(t) => PlanView::PrintError(t),
    }
}

fn text(s: &str) -> (r: String)
    ensures
        r@ == s@,
{
    string_of(&chars_of(s))
}

fn help_for(table: &ModeTable, mode: &Mode) -> (r: String)
    ensures
        r@ == help_text(mode@, table@),
{
    let ghost t = table@;
    let mut width: usize = 0;
    let mut labels: Vec<Vec<char>> = Vec::new();
    let mut i: usize = 0;
    while i < table.len()
        invariant
            i <= t.len(),
            t == table@,
            width == widest_label(t.subrange(0, i as int)),
            labels@.len() == i,
            forall|j: int| 0 <= j < i ==> #[trigger] labels@[j]@ == label_of(t[j].0),
        decreases t.len() - i,
    {
        let (key, _) = table.entry(i);
        let l = chars_of(key.label().as_str());
        assert(t.subrange(0, i + 1).drop_last() == t.subrange(0, i as int));
        if l.len() > width {
            width = l.len();
        }
        labels.push(l);
        i = i + 1;
    }
    assert(t.subrange(0, t.len() as int) == t);
    let ghost rows = Seq::new(t.len(), |i: int| padded(label_of(t[i].0), widest_label(t)) + "  "@ + t[i].1.0);
    let mut lines: Vec<String> = Vec::new();
    let mut i: usize = 0;
    while i < table.len()
        invariant
            i <= t.len(),
            t == table@,
            width == widest_label(t),
            labels@.len() == t.len(),
            forall|j: int| 0 <= j < t.len() ==> #[trigger] labels@[j]@ == label_of(t[j].0),
            rows == Seq::new(t.len(), |i: int| padded(label_of(t[i].0), widest_label(t)) + "  "@ + t[i].1.0),
            views(lines@) == rows.subrange(0, i as int),
        decreases t.len() - i,
    {
        let (_, bind) = table.entry(i);
        let mut line: Vec<char> = Vec::new();
        push_padded(&mut line, &labels[i], width);
        push_str(&mut line, "  ");
        push_str(&mut line, bind.0.as_str());
        let ghost before = views(lines@);
        let ls = string_of(&line);
        assert(ls@ == rows[i as int]);
        lines.push(ls);
        i = i + 1;
        assert(views(lines@) =~= before.push(ls@));
        assert(before.push(ls@) =~= rows.subrange(0, i as int));
    }
    assert(rows.subrange(0, t.len() as int) == rows);
    let mut out: Vec<char> = Vec::new();
    let title = match mode {
        Mode::Normal => "### NORMAL MODE HELP ###",
        Mode::Revset => "### REVSET MODE HELP ###",
        Mode::Obslog(_) => "### OBSLOG MODE HELP ###",
    };
    push_str(&mut out, title);
    push_str(&mut out, "\n");
    let body = crate::text::join(&lines, "\n");
    push_str(&mut out, body.as_str());
    string_of(&out)
}

/// Decides what to do for a command: which jj arguments to run (the log with
/// the configuration `overrides`), or which text to print.
pub fn plan(command: &VjjCommand, ctx: &ShellContext, keymap: &KeyMap, overrides: &str) -> (r: Plan)
    ensures
        r@ == plan_of(
            command@,
            keymap@,
            keymap.load_error(),
            ctx.mode@,
            match ctx.revset {
                Some(s) => Some(s@),
                None => None,
            },
            overrides@,
        ),
{
    match command {
        VjjCommand::Show(rev) => {
            let r = crate::common::Selection::parse(&(rev.clone(), text("")));
            match r.focused {
                None => Plan::Nothing,
                Some(id) => {
                    let a = vec![text("--ignore-working-copy"), text("show"), id];
                    assert(views(a@) =~= seq!["--ignore-working-copy"@, "show"@, unquoted(rev@)]);
                    Plan::Run(a)
                },
            }
        },
        VjjCommand::Log => {
            let mut a = vec![text("--ignore-working-copy"), text("--config-toml"), text(overrides)];
            let ghost head = views(a@);
            match &ctx.mode {
                Mode::Obslog(rev) => {
                    a.push(text("obslog"));
                    a.push(text("-r"));
                    a.push(rev.clone());
                },
                _ => match &ctx.revset {
                    Some(r) => {
                        a.push(text("log"));
                        a.push(text("-r"));
                        a.push(r.clone());
                    },
                    None => {
                        a.push(text("log"));
                    },
                },
            }
            assert(views(a@) =~= log_args(
                ctx.mode@,
                match ctx.revset {
                    Some(s) => Some(s@),
                    None => None,
                },
                overrides@,
            ));
            Plan::Run(a)
        },
        VjjCommand::Help => match keymap.get_keymap(&ctx.mode) {
            Some(t) => Plan::Print(help_for(t, &ctx.mode)),
            None => match keymap.error_message() {
                Some(m) => Plan::PrintError(m.clone()),
                None => Plan::Print(text("No Commands Available")),
            },
        },
        VjjCommand::Output(t) => Plan::Print(t.clone()),
        VjjCommand::Jujutsu(a) => Plan::Run(a.clone()),
        VjjCommand::Error(t) => Plan::PrintError(t.clone()),
    }
}

} // verus!
