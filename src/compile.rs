//! From a keystroke to finder actions: dispatch on the keymap, and the
//! compilation of each declared action.
//!
//! Work outside the process (a shell command, jj, the clipboard) is not done
//! here. A step that needs it returns the `Effect` to perform; the caller
//! performs it and calls again with the outcomes so far, in order.
use vstd::prelude::*;
use crate::common::{unquoted, keymap_name, parsed_ids, is_space, whitespace, IdSelection, Mode, ModeView, Selection};
use crate::fzf::{ActionView, FzfAction};
use crate::keymap::{keybind_view, keymap_table, table_get, Bindable, BindableView, KeyMap, KeyMapView, UserAction, UserActionView, UserCommand, UserCommandView, UserMode, UserModeView};
use crate::protocol::{selection_view, CommandView, SelectionView, VjjCommand};
use crate::text::{chars_of, joined, push_str, string_of, views};
use crate::whichkey::{header_for, header_hint};

verus! {

/// What the process was called with: the mode, the query, and the revision
/// set shown, if any.
#[derive(Debug, Clone)]
pub struct ShellContext {
    pub mode: Mode,
    pub query: String,
    pub revset: Option<String>,
}

impl ShellContext {
    pub fn new(mode: Mode, query: String, revset: Option<String>) -> (r: ShellContext)
        ensures
            r.mode == mode,
            r.query == query,
            r.revset == revset,
    {
        ShellContext { mode, query, revset }
    }
}

/// What a key is handled with: the key, the mode, the query and the selection.
#[derive(Debug, Clone)]
pub struct KeyHandlerContext {
    key: Bindable,
    mode: Mode,
    query: String,
    selection: Selection,
}

pub ghost struct ContextView {
    pub key: BindableView,
    pub mode: ModeView,
    pub query: Seq<char>,
    pub selection: SelectionView,
}

impl View for KeyHandlerContext {
    type V = ContextView;

    closed spec fn view(&self) -> ContextView {
        ContextView {
            key: self.key@,
            mode: self.mode@,
            query: self.query@,
            selection: selection_view(&self.selection),
        }
    }
}

impl KeyHandlerContext {
    pub fn new(key: Bindable, selection: Selection, shell_ctx: ShellContext) -> (r: KeyHandlerContext)
        ensures
            r@ == (ContextView {
                key: key@,
                mode: shell_ctx.mode@,
                query: shell_ctx.query@,
                selection: selection_view(&selection),
            }),
    {
        KeyHandlerContext { key, mode: shell_ctx.mode, query: shell_ctx.query, selection }
    }

    /// The variables that templates can use, with their values: `query`, and
    /// for `change` and `commit` the `focused` id (only where one is focused),
    /// the `selected` ids one per line and their `selected_revset`.
    pub fn values(&self) -> (r: Vec<(String, String)>)
        ensures
            pairs_view(r@) == template_values(self@),
    {
        let mut r: Vec<(String, String)> = Vec::new();
        r.push((string_of(&chars_of("query")), self.query.clone()));
        let ghost q = seq![("query"@, self.query@)];
        assert(pairs_view(r@) =~= q);
        let c = self.selection.change();
        push_id_values(&mut r, "change", &c);
        let m = self.selection.commit();
        push_id_values(&mut r, "commit", &m);
        assert(pairs_view(r@) =~= template_values(self@));
        r
    }
}

pub open spec fn pairs_view(v: Seq<(String, String)>) -> Seq<(Seq<char>, Seq<char>)> {
    v.map_values(|p: (String, String)| (p.0@, p.1@))
}

/// The variables of one kind of id, named after `prefix`.
pub open spec fn id_values(prefix: Seq<char>, ids: (Option<Seq<char>>, Seq<Seq<char>>)) -> Seq<(Seq<char>, Seq<char>)> {
    (match ids.0 {
        Some(f) => seq![(prefix + ":focused"@, f)],
        None => Seq::empty(),
    }) + seq![
        (prefix + ":selected"@, joined(ids.1, "\n"@)),
        (prefix + ":selected_revset"@, joined(ids.1, "|"@)),
    ]
}

/// The variables that templates can use in a context, with their values.
pub open spec fn template_values(c: ContextView) -> Seq<(Seq<char>, Seq<char>)> {
    seq![("query"@, c.query)] + id_values(
        "change"@,
        parsed_ids(c.selection.0.0, c.selection.0.1),
    ) + id_values("commit"@, parsed_ids(c.selection.1.0, c.selection.1.1))
}

fn named(prefix: &str, suffix: &str) -> (r: String)
    ensures
        r@ == prefix@ + suffix@,
{
    let mut v: Vec<char> = Vec::new();
    push_str(&mut v, prefix);
    push_str(&mut v, suffix);
    string_of(&v)
}

fn push_id_values(r: &mut Vec<(String, String)>, prefix: &str, ids: &IdSelection)
    ensures
        pairs_view(final(r)@) == pairs_view(old(r)@) + id_values(prefix@, crate::common::id_view(*ids)),
{
    let ghost o = pairs_view(r@);
    match &ids.focused {
        Some(f) => {
            r.push((named(prefix, ":focused"), f.clone()));
        },
        None => {},
    }
    r.push((named(prefix, ":selected"), ids.selected_lines()));
    r.push((named(prefix, ":selected_revset"), ids.selected_revset()));
    assert(pairs_view(r@) =~= o + id_values(prefix@, crate::common::id_view(*ids)));
}

/// What leon makes of a template and variables: the rendered text, or the
/// message of the parse or render error.
pub uninterp spec fn leon_rendered(template: Seq<char>, values: Seq<(Seq<char>, Seq<char>)>) -> Result<Seq<char>, Seq<char>>;

/// A template without `\`, `{` or `}`: leon's parser reads it as one piece
/// of text, with nothing to fill in.
pub open spec fn plain_template(t: Seq<char>) -> bool {
    forall|i: int| 0 <= i < t.len() ==> #[trigger] t[i] != '\\' && t[i] != '{' && t[i] != '}'
}

/// What a template renders to: a plain template to itself, any other as leon
/// renders it.
pub open spec fn rendered(template: Seq<char>, values: Seq<(Seq<char>, Seq<char>)>) -> Result<Seq<char>, Seq<char>> {
    if plain_template(template) {
        Ok(template)
    } else {
        leon_rendered(template, values)
    }
}

/// Relies on leon's `Template::parse` and `Template::render` over a list of
/// name and value pairs: the result depends on the template and the values
/// alone, and a template without `\`, `{` and `}` is parsed as one text item,
/// which renders to itself.
#[verifier::external_body]
fn render_template(template: &str, values: &Vec<(String, String)>) -> (r: Result<String, String>)
    ensures
        match leon_rendered(template@, pairs_view(values@)) {
            Ok(t) => r matches Ok(x) && x@ == if plain_template(template@) {
                template@
            } else {
                t
            },
            Err(m) => if plain_template(template@) {
                r matches Ok(x) && x@ == template@
            } else {
                r matches Err(x) && x@ == m
            },
        },
{
    match leon::Template::parse(template) {
        Ok(t) => t.render(values).map_err(|e| e.to_string()),
        Err(e) => Err(e.to_string()),
    }
}

/// Each argument rendered, or the first error.
pub open spec fn render_all(args: Seq<Seq<char>>, values: Seq<(Seq<char>, Seq<char>)>) -> Result<Seq<Seq<char>>, Seq<char>>
    decreases args.len(),
{
    if args.len() == 0 {
        Ok(Seq::empty())
    } else {
        match rendered(args[0], values) {
            Err(m) => Err(m),
            Ok(x) => match render_all(args.drop_first(), values) {
                Ok(xs) => Ok(seq![x] + xs),
                Err(m) => Err(m),
            },
        }
    }
}

/// The command with its text rendered.
pub open spec fn render_command(c: UserCommandView, values: Seq<(Seq<char>, Seq<char>)>) -> Result<UserCommandView, Seq<char>> {
    match c {
        UserCommandView::Shell(s) => match rendered(s, values) {
            Ok(x) => Ok(UserCommandView::Shell(x)),
            Err(m) => Err(m),
        },
        UserCommandView::Plain(s) => match rendered(s, values) {
            Ok(x) => Ok(UserCommandView::Plain(x)),
            Err(m) => Err(m),
        },
    }
}

fn render_args(args: &Vec<String>, values: &Vec<(String, String)>) -> (r: Result<Vec<String>, String>)
    ensures
        match render_all(views(args@), pairs_view(values@)) {
            Ok(xs) => r matches Ok(x) && views(x@) == xs,
            Err(m) => r matches Err(x) && x@ == m,
        },
{
    let ghost a = views(args@);
    let ghost vals = pairs_view(values@);
    let mut out: Vec<String> = Vec::new();
    let mut i: usize = 0;
    assert(a.skip(0) == a);
    proof {
        if let Ok(xs) = render_all(a, vals) {
            assert(Seq::<Seq<char>>::empty() + xs == xs);
        }
    }
    while i < args.len()
        invariant
            i <= args@.len(),
            a == views(args@),
            vals == pairs_view(values@),
            render_all(a, vals) == match render_all(a.skip(i as int), vals) {
                Ok(xs) => Ok(views(out@) + xs),
                Err(m) => Err(m),
            },
        decreases args@.len() - i,
    {
        assert(a.skip(i as int).drop_first() == a.skip(i + 1));
        assert(a.skip(i as int)[0] == args@[i as int]@);
        match render_template(args[i].as_str(), values) {
            Ok(x) => {
                let ghost before = views(out@);
                out.push(x);
                proof {
                    assert(views(out@) == before.push(x@));
                    if let Ok(xs) = render_all(a.skip(i + 1), vals) {
                        assert(before + (seq![x@] + xs) == before.push(x@) + xs);
                    }
                }
            },
            Err(m) => {
                return Err(m);
            },
        }
        i = i + 1;
    }
    proof {
        assert(a.skip(i as int) == Seq::<Seq<char>>::empty());
        assert(views(out@) + Seq::<Seq<char>>::empty() == views(out@));
    }
    Ok(out)
}

fn render_user_command(c: &UserCommand, values: &Vec<(String, String)>) -> (r: Result<UserCommand, String>)
    ensures
        match render_command(c@, pairs_view(values@)) {
            Ok(x) => r matches Ok(y) && y@ == x,
            Err(m) => r matches Err(y) && y@ == m,
        },
{
    match c {
        UserCommand::Shell { command } => match render_template(command.as_str(), values) {
            Ok(x) => Ok(UserCommand::Shell { command: x }),
            Err(m) => Err(m),
        },
        UserCommand::Plain(s) => match render_template(s.as_str(), values) {
            Ok(x) => Ok(UserCommand::Plain(x)),
            Err(m) => Err(m),
        },
    }
}

/// `s` without white space at its end.
pub open spec fn trimmed_end(s: Seq<char>) -> Seq<char>
    decreases s.len(),
{
    if s.len() > 0 && is_space(s.last()) {
        trimmed_end(s.drop_last())
    } else {
        s
    }
}

fn trim_end(s: &String) -> (r: String)
    ensures
        r@ == trimmed_end(s@),
{
    let v = chars_of(s.as_str());
    let mut n: usize = v.len();
    assert(v@.subrange(0, n as int) == v@);
    while n > 0 && whitespace(v[n - 1])
        invariant
            n <= v@.len(),
            trimmed_end(v@) == trimmed_end(v@.subrange(0, n as int)),
        decreases n,
    {
        assert(v@.subrange(0, n as int).drop_last() == v@.subrange(0, n - 1));
        n = n - 1;
    }
    let mut out: Vec<char> = Vec::new();
    let mut i: usize = 0;
    while i < n
        invariant
            i <= n <= v@.len(),
            out@ == v@.subrange(0, i as int),
        decreases n - i,
    {
        out.push(v[i]);
        i = i + 1;
        assert(out@ == v@.subrange(0, i as int));
    }
    string_of(&out)
}

/// Work that a step needs done outside the process.
#[derive(Debug, Clone)]
pub enum Effect {
    /// Run the command with the system shell; the outcome is its standard output.
    Shell(String),
    /// Run jj with these arguments; the outcome is what it printed, output then errors.
    Jujutsu(Vec<String>),
    /// Put the text on the clipboard.
    Clipboard(String),
}

pub ghost enum EffectView {
    Shell(Seq<char>),
    Jujutsu(Seq<Seq<char>>),
    Clipboard(Seq<char>),
}

impl View for Effect {
    type V = EffectView;

    open spec fn view(&self) -> EffectView {
        match self {
            Effect::Shell(s) => EffectView::Shell(s@),
            Effect::Jujutsu(a) => EffectView::Jujutsu(views(a@)),
            Effect::Clipboard(s) => EffectView::Clipboard(s@),
        }
    }
}

/// The outcome of an effect: its text, or the message of its error.
pub type OutcomeView = Result<Seq<char>, Seq<char>>;

pub open spec fn outcome_views(o: Seq<Result<String, String>>) -> Seq<OutcomeView> {
    o.map_values(|x: Result<String, String>| match x {
        Ok(t) => Ok(t@),
        Err(m) => Err(m@),
    })
}

/// The result of compiling one action with the outcomes so far.
#[derive(Debug)]
pub enum Step {
    Need(Effect),
    Done(Vec<FzfAction>),
}

pub ghost enum StepView {
    Need(EffectView),
    Done(Seq<ActionView>),
}

pub open spec fn actions_view(v: Seq<FzfAction>) -> Seq<ActionView> {
    v.map_values(|a: FzfAction| a@)
}

impl View for Step {
    type V = StepView;

    open spec fn view(&self) -> StepView {
        match self {
            Step::Need(e) => StepView::Need(e@),
            Step::Done(v) => StepView::Done(actions_view(v@)),
        }
    }
}

/// The action that shows an error message.
pub open spec fn failure(m: Seq<char>) -> ActionView {
    ActionView::Execute { command: CommandView::Error(m), interactive: false }
}

/// The message of a template error.
pub open spec fn template_msg(m: Seq<char>) -> Seq<char> {
    "template error: "@ + m
}

/// What a command evaluates to, with how many outcomes that used.
pub ghost enum EvalView {
    Value(Seq<char>, nat),
    Need(EffectView),
    Failed(Seq<char>),
}

/// What a command evaluates to: plain text is itself, a shell command is its
/// output without trailing white space.
pub open spec fn evaluated(c: UserCommandView, outs: Seq<OutcomeView>) -> EvalView {
    match c {
        UserCommandView::Plain(s) => EvalView::Value(s, 0),
        UserCommandView::Shell(cmd) => if outs.len() == 0 {
            EvalView::Need(EffectView::Shell(cmd))
        } else {
            match outs[0] {
                Ok(o) => EvalView::Value(trimmed_end(o), 1),
                Err(m) => EvalView::Failed(m),
            }
        },
    }
}

/// A command rendered, then evaluated.
pub open spec fn eval_command(c: UserCommandView, values: Seq<(Seq<char>, Seq<char>)>, outs: Seq<OutcomeView>) -> EvalView {
    match render_command(c, values) {
        Err(e) => EvalView::Failed(template_msg(e)),
        Ok(r) => evaluated(r, outs),
    }
}

/// The actions that switch to mode `m`.
pub open spec fn mode_switch(k: KeyMapView, m: ModeView, q: Seq<char>) -> Seq<ActionView> {
    seq![
        ActionView::ChangePrompt(m),
        ActionView::ChangeHeader(header_hint(k, m, q)),
        ActionView::Reload(CommandView::Log),
    ]
}

/// The label of the preview after jj ran with `args`.
pub open spec fn output_label(args: Seq<Seq<char>>) -> Seq<char> {
    "Output (jj "@ + joined(args, " "@) + ")"@
}

/// After a command evaluated, the actions that `done` makes of its value.
pub open spec fn with_value(e: EvalView, done: spec_fn(Seq<char>) -> Seq<ActionView>) -> StepView {
    match e {
        EvalView::Value(v, _) => StepView::Done(done(v)),
        EvalView::Need(x) => StepView::Need(x),
        EvalView::Failed(m) => StepView::Done(seq![failure(m)]),
    }
}

/// The paged or interactive run of jj with rendered arguments.
pub open spec fn paged_jj(args: Seq<Seq<char>>, values: Seq<(Seq<char>, Seq<char>)>, interactive: bool) -> StepView {
    match render_all(args, values) {
        Err(e) => StepView::Done(seq![failure(template_msg(e))]),
        Ok(ra) => StepView::Done(seq![
            ActionView::Execute { command: CommandView::Jujutsu(ra), interactive },
            ActionView::Reload(CommandView::Log),
        ]),
    }
}

/// One declared action compiled in a context, given the outcomes of the
/// effects it asked for so far.
#[verifier::opaque]
pub open spec fn compile_step(a: UserActionView, c: ContextView, k: KeyMapView, outs: Seq<OutcomeView>) -> StepView {
    let values = template_values(c);
    match a {
        UserActionView::Quit => StepView::Done(seq![ActionView::Abort]),
        UserActionView::ReloadLog => StepView::Done(seq![
            ActionView::Reload(CommandView::Log),
            ActionView::ChangeHeader(header_hint(k, c.mode, c.query)),
        ]),
        UserActionView::Mode(UserModeView::Normal) => StepView::Done(mode_switch(k, ModeView::Normal, c.query)),
        UserActionView::Mode(UserModeView::Revset) => StepView::Done(mode_switch(k, ModeView::Revset, c.query)),
        UserActionView::Mode(UserModeView::Obslog(uc)) => with_value(
            eval_command(uc, values, outs),
            |v: Seq<char>| mode_switch(k, ModeView::Obslog(v), c.query),
        ),
        UserActionView::Jujutsu(args) => match render_all(args, values) {
            Err(e) => StepView::Done(seq![failure(template_msg(e))]),
            Ok(ra) => if outs.len() == 0 {
                StepView::Need(EffectView::Jujutsu(ra))
            } else {
                match outs[0] {
                    Ok(t) => StepView::Done(seq![
                        ActionView::Reload(CommandView::Log),
                        ActionView::ChangePreview(CommandView::Output(t)),
                        ActionView::ChangePreviewLabel(output_label(ra)),
                    ]),
                    Err(m) => StepView::Done(seq![failure(m)]),
                }
            },
        },
        UserActionView::JujutsuPaged(args) => paged_jj(args, values, false),
        UserActionView::JujutsuInteractive(args) => paged_jj(args, values, true),
        UserActionView::Yank(uc) => match eval_command(uc, values, outs) {
            EvalView::Value(v, n) => if outs.len() <= n {
                StepView::Need(EffectView::Clipboard(v))
            } else {
                match outs[n as int] {
                    Ok(_) => StepView::Done(Seq::empty()),
                    Err(m) => StepView::Done(seq![failure(m)]),
                }
            },
            EvalView::Need(x) => StepView::Need(x),
            EvalView::Failed(m) => StepView::Done(seq![failure(m)]),
        },
        UserActionView::ChangeRevset(uc) => with_value(
            eval_command(uc, values, outs),
            |v: Seq<char>| seq![ActionView::ChangeBorderLabel(v), ActionView::Reload(CommandView::Log)],
        ),
        UserActionView::Accept(uc) => with_value(
            eval_command(uc, values, outs),
            |v: Seq<char>| seq![ActionView::Become(CommandView::Output(v))],
        ),
    }
}

/// What a command evaluated to: its value, with how many outcomes that used;
/// the effect it needs first; or the message of its failure.
#[derive(Debug)]
pub enum Eval {
    Value(String, usize),
    Need(Effect),
    Failed(String),
}

pub open spec fn eval_view(e: Eval) -> EvalView {
    match e {
        Eval::Value(v, n) => EvalView::Value(v@, n as nat),
        Eval::Need(x) => EvalView::Need(x@),
        Eval::Failed(m) => EvalView::Failed(m@),
    }
}

impl UserCommand {
    /// Evaluates the command, given the outcomes so far of the effects that it
    /// asked for: plain text is itself; a shell command needs the shell's
    /// output, which counts without its trailing white space.
    pub fn evaluate(&self, outcomes: &Vec<Result<String, String>>) -> (r: Eval)
        ensures
            eval_view(r) == evaluated(self@, outcome_views(outcomes@)),
    {
        match self {
            UserCommand::Plain(s) => Eval::Value(s.clone(), 0),
            UserCommand::Shell { command } => {
                if outcomes.len() == 0 {
                    Eval::Need(Effect::Shell(command.clone()))
                } else {
                    match &outcomes[0] {
                        Ok(o) => Eval::Value(trim_end(o), 1),
                        Err(m) => Eval::Failed(m.clone()),
                    }
                }
            },
        }
    }
}

fn error_action(m: String) -> (r: FzfAction)
    ensures
        r@ == failure(m@),
{
    FzfAction::Execute { command: VjjCommand::Error(m), interactive: false }
}

fn template_error(m: &String) -> (r: String)
    ensures
        r@ == template_msg(m@),
{
    named("template error: ", m.as_str())
}

fn evaluate(c: &UserCommand, values: &Vec<(String, String)>, outs: &Vec<Result<String, String>>) -> (r: Eval)
    ensures
        eval_view(r) == eval_command(c@, pairs_view(values@), outcome_views(outs@)),
{
    match render_user_command(c, values) {
        Err(e) => Eval::Failed(template_error(&e)),
        Ok(rendered) => rendered.evaluate(outs),
    }
}

fn reload_log() -> (r: FzfAction)
    ensures
        r@ == ActionView::Reload(CommandView::Log),
{
    FzfAction::Reload(VjjCommand::Log)
}

fn switch_to(keymap: &KeyMap, m: Mode, query: &String) -> (r: Vec<FzfAction>)
    ensures
        actions_view(r@) == mode_switch(keymap@, m@, query@),
{
    let h = header_for(keymap, &m, query.as_str());
    let r = vec![FzfAction::ChangePrompt(m), FzfAction::ChangeHeader(h), reload_log()];
    assert(actions_view(r@) =~= mode_switch(keymap@, m@, query@));
    r
}

fn one(a: FzfAction) -> (r: Vec<FzfAction>)
    ensures
        actions_view(r@) == seq![a@],
{
    let r = vec![a];
    assert(actions_view(r@) =~= seq![a@]);
    r
}

fn paged(args: &Vec<String>, values: &Vec<(String, String)>, interactive: bool) -> (r: Vec<FzfAction>)
    ensures
        StepView::Done(actions_view(r@)) == paged_jj(views(args@), pairs_view(values@), interactive),
{
    match render_args(args, values) {
        Err(e) => one(error_action(template_error(&e))),
        Ok(ra) => {
            let r = vec![
                FzfAction::Execute { command: VjjCommand::Jujutsu(ra), interactive },
                reload_log(),
            ];
            assert(actions_view(r@) =~= seq![
                ActionView::Execute { command: CommandView::Jujutsu(views(ra@)), interactive },
                ActionView::Reload(CommandView::Log),
            ]);
            r
        },
    }
}

impl KeyHandlerContext {
    /// Compiles one declared action into finder actions, given the outcomes of
    /// the effects that it asked for so far, in order. With too few outcomes
    /// it asks for the next effect instead. A failure becomes an action that
    /// shows the error.
    pub fn compile_action(&self, action: &UserAction, keymap: &KeyMap, outcomes: &Vec<Result<String, String>>) -> (r: Step)
        ensures
            r@ == compile_step(action@, self@, keymap@, outcome_views(outcomes@)),
    {
        reveal(compile_step);
        let values = self.values();
        let ghost vals = template_values(self@);
        let ghost outs = outcome_views(outcomes@);
        match action {
            UserAction::Quit => Step::Done(one(FzfAction::Abort)),
            UserAction::ReloadLog => {
                let h = header_for(keymap, &self.mode, self.query.as_str());
                let r = vec![reload_log(), FzfAction::ChangeHeader(h)];
                assert(actions_view(r@) =~= seq![
                    ActionView::Reload(CommandView::Log),
                    ActionView::ChangeHeader(header_hint(keymap@, self@.mode, self@.query)),
                ]);
                Step::Done(r)
            },
            UserAction::Mode(UserMode::Normal) => Step::Done(switch_to(keymap, Mode::Normal, &self.query)),
            UserAction::Mode(UserMode::Revset) => Step::Done(switch_to(keymap, Mode::Revset, &self.query)),
            UserAction::Mode(UserMode::Obslog(uc)) => match evaluate(uc, &values, outcomes) {
                Eval::Value(v, _) => Step::Done(switch_to(keymap, Mode::Obslog(v), &self.query)),
                Eval::Need(x) => Step::Need(x),
                Eval::Failed(m) => Step::Done(one(error_action(m))),
            },
            UserAction::Jujutsu(args) => match render_args(args, &values) {
                Err(e) => Step::Done(one(error_action(template_error(&e)))),
                Ok(ra) => {
                    if outcomes.len() == 0 {
                        Step::Need(Effect::Jujutsu(ra))
                    } else {
                        match &outcomes[0] {
                            Ok(t) => {
                                let mut label: Vec<char> = Vec::new();
                                push_str(&mut label, "Output (jj ");
                                let joined_args = crate::text::join(&ra, " ");
                                push_str(&mut label, joined_args.as_str());
                                push_str(&mut label, ")");
                                let r = vec![
                                    reload_log(),
                                    FzfAction::ChangePreview(VjjCommand::Output(t.clone())),
                                    FzfAction::ChangePreviewLabel(string_of(&label)),
                                ];
                                assert(actions_view(r@) =~= seq![
                                    ActionView::Reload(CommandView::Log),
                                    ActionView::ChangePreview(CommandView::Output(t@)),
                                    ActionView::ChangePreviewLabel(output_label(views(ra@))),
                                ]);
                                Step::Done(r)
                            },
                            Err(m) => Step::Done(one(error_action(m.clone()))),
                        }
                    }
                },
            },
            UserAction::JujutsuPaged(args) => Step::Done(paged(args, &values, false)),
            UserAction::JujutsuInteractive(args) => Step::Done(paged(args, &values, true)),
            UserAction::Yank(uc) => match evaluate(uc, &values, outcomes) {
                Eval::Value(v, n) => {
                    if outcomes.len() <= n {
                        Step::Need(Effect::Clipboard(v))
                    } else {
                        match &outcomes[n] {
                            Ok(_) => {
                                let r: Vec<FzfAction> = Vec::new();
                                assert(actions_view(r@) =~= Seq::<ActionView>::empty());
                                Step::Done(r)
                            },
                            Err(m) => Step::Done(one(error_action(m.clone()))),
                        }
                    }
                },
                Eval::Need(x) => Step::Need(x),
                Eval::Failed(m) => Step::Done(one(error_action(m))),
            },
            UserAction::ChangeRevset(uc) => match evaluate(uc, &values, outcomes) {
                Eval::Value(v, _) => {
                    let r = vec![FzfAction::ChangeBorderLabel(v), reload_log()];
                    assert(actions_view(r@) =~= seq![
                        ActionView::ChangeBorderLabel(v@),
                        ActionView::Reload(CommandView::Log),
                    ]);
                    Step::Done(r)
                },
                Eval::Need(x) => Step::Need(x),
                Eval::Failed(m) => Step::Done(one(error_action(m))),
            },
            UserAction::Accept(uc) => match evaluate(uc, &values, outcomes) {
                Eval::Value(v, _) => Step::Done(one(FzfAction::Become(VjjCommand::Output(v)))),
                Eval::Need(x) => Step::Need(x),
                Eval::Failed(m) => Step::Done(one(error_action(m))),
            },
        }
    }
}

/// The answer to a key or an event.
#[derive(Debug)]
pub enum Response {
    /// Declared action `index` needs `effect` done; call again with its outcome.
    Need { index: usize, effect: Effect },
    /// The actions for the finder, in order.
    Actions(Vec<FzfAction>),
    /// No actions; only the header is brought up to date.
    Header(FzfAction),
}

pub ghost enum ResponseView {
    Need(nat, EffectView),
    Actions(Seq<ActionView>),
    Header(ActionView),
}

impl View for Response {
    type V = ResponseView;

    open spec fn view(&self) -> ResponseView {
        match self {
            Response::Need { index, effect } => ResponseView::Need(*index as nat, effect@),
            Response::Actions(v) => ResponseView::Actions(actions_view(v@)),
            Response::Header(a) => ResponseView::Header(a@),
        }
    }
}

pub open spec fn nested_outcomes(o: Seq<Vec<Result<String, String>>>) -> Seq<Seq<OutcomeView>> {
    o.map_values(|v: Vec<Result<String, String>>| outcome_views(v@))
}

/// The outcomes for declared action `i`.
pub open spec fn outcomes_at(outs: Seq<Seq<OutcomeView>>, i: int) -> Seq<OutcomeView> {
    if 0 <= i < outs.len() {
        outs[i]
    } else {
        Seq::empty()
    }
}

/// The declared actions from `i` on, compiled in order and flattened; or the
/// first effect that one of them needs.
pub open spec fn compile_from(acts: Seq<UserActionView>, c: ContextView, k: KeyMapView, outs: Seq<Seq<OutcomeView>>, i: int) -> ResponseView
    decreases acts.len() - i,
{
    if i < 0 || i >= acts.len() {
        ResponseView::Actions(Seq::empty())
    } else {
        match compile_step(acts[i], c, k, outcomes_at(outs, i)) {
            StepView::Need(e) => ResponseView::Need(i as nat, e),
            StepView::Done(a) => match compile_from(acts, c, k, outs, i + 1) {
                ResponseView::Actions(b) => ResponseView::Actions(a + b),
                r => r,
            },
        }
    }
}

/// `r` with `p` in front of its actions.
pub open spec fn prefixed_response(p: Seq<ActionView>, r: ResponseView) -> ResponseView {
    match r {
        ResponseView::Actions(b) => ResponseView::Actions(p + b),
        r => r,
    }
}

proof fn lemma_prefixed_response(p: Seq<ActionView>, a: Seq<ActionView>, r: ResponseView)
    ensures
        prefixed_response(p, prefixed_response(a, r)) == prefixed_response(p + a, r),
{
    if let ResponseView::Actions(b) = r {
        assert(p + (a + b) == (p + a) + b);
    }
}

/// The action that opens the help.
pub open spec fn help_action() -> ActionView {
    ActionView::Execute { command: CommandView::Help, interactive: false }
}

/// The error shown for a mode without a table: why the keymap document could
/// not be read, or that the mode has none.
pub open spec fn missing_table_msg(e: Option<Seq<char>>, m: ModeView) -> Seq<char> {
    match e {
        Some(msg) => msg,
        None => "missing keymap: "@ + keymap_name(m),
    }
}

/// The answer to a key in a context, where `e` says why the keymap document
/// could not be read, if it could not: `?` opens the help; a mode without a
/// table shows an error; a key without actions brings the header up to date;
/// otherwise the header is reset and the declared actions follow, compiled.
pub open spec fn key_response(c: ContextView, k: KeyMapView, e: Option<Seq<char>>, outs: Seq<Seq<OutcomeView>>) -> ResponseView {
    if c.key == BindableView::Sequence("?"@) {
        ResponseView::Actions(seq![help_action()])
    } else {
        match keymap_table(k, keymap_name(c.mode)) {
            None => ResponseView::Actions(seq![failure(missing_table_msg(e, c.mode))]),
            Some(t) => match table_get(t, c.key) {
                Some(b) if b.1.len() > 0 => match compile_from(b.1, c, k, outs, 0) {
                    ResponseView::Actions(v) => ResponseView::Actions(
                        seq![ActionView::ChangeHeader(header_hint(k, c.mode, Seq::empty()))] + v,
                    ),
                    r => r,
                },
                _ => ResponseView::Header(ActionView::ChangeHeader(header_hint(k, c.mode, c.query))),
            },
        }
    }
}

fn outcomes_for(outcomes: &Vec<Vec<Result<String, String>>>, i: usize) -> (r: Vec<Result<String, String>>)
    ensures
        outcome_views(r@) == outcomes_at(nested_outcomes(outcomes@), i as int),
{
    let mut r: Vec<Result<String, String>> = Vec::new();
    if i < outcomes.len() {
        let src = &outcomes[i];
        let mut j: usize = 0;
        while j < src.len()
            invariant
                j <= src@.len(),
                outcome_views(r@) == outcome_views(src@).subrange(0, j as int),
            decreases src@.len() - j,
        {
            let x = match &src[j] {
                Ok(t) => Ok(t.clone()),
                Err(m) => Err(m.clone()),
            };
            let ghost before = outcome_views(r@);
            assert(outcome_views(seq![x])[0] == outcome_views(src@)[j as int]);
            r.push(x);
            j = j + 1;
            assert(outcome_views(r@) =~= before.push(outcome_views(src@)[j - 1]));
            assert(outcome_views(r@) =~= outcome_views(src@).subrange(0, j as int));
        }
        assert(outcome_views(src@).subrange(0, src@.len() as int) == outcome_views(src@));
    } else {
        assert(outcome_views(r@) =~= Seq::<OutcomeView>::empty());
    }
    r
}

impl KeyHandlerContext {
    /// Answers the key of the context, given the outcomes so far of the
    /// effects that each declared action asked for.
    pub fn handle_key_event(&self, keymap: &KeyMap, outcomes: &Vec<Vec<Result<String, String>>>) -> (r: Response)
        ensures
            r@ == key_response(self@, keymap@, keymap.load_error(), nested_outcomes(outcomes@)),
    {
        let ghost c = self@;
        let ghost outs = nested_outcomes(outcomes@);
        let help = Bindable::new("?");
        if self.key.same(&help) {
            return Response::Actions(one(FzfAction::Execute { command: VjjCommand::Help, interactive: false }));
        }
        let table = match keymap.get_keymap(&self.mode) {
            Some(t) => t,
            None => {
                let m = match keymap.error_message() {
                    Some(m) => m.clone(),
                    None => named("missing keymap: ", self.mode.keymap()),
                };
                return Response::Actions(one(error_action(m)));
            },
        };
        let bind = match table.get(&self.key) {
            Some(b) => b,
            None => {
                let h = header_for(keymap, &self.mode, self.query.as_str());
                return Response::Header(FzfAction::ChangeHeader(h));
            },
        };
        let acts = &bind.1;
        let ghost av = acts@.map_values(|a: UserAction| a@);
        if acts.len() == 0 {
            let h = header_for(keymap, &self.mode, self.query.as_str());
            return Response::Header(FzfAction::ChangeHeader(h));
        }
        let hdr = header_for(keymap, &self.mode, "");
        proof {
            reveal_strlit("");
            assert(""@ =~= Seq::<char>::empty());
            assert(hdr@ == header_hint(keymap@, c.mode, Seq::empty()));
            assert(av == keybind_view(*bind).1);
            assert(key_response(c, keymap@, keymap.load_error(), outs) == prefixed_response(
                seq![ActionView::ChangeHeader(hdr@)],
                compile_from(av, c, keymap@, outs, 0),
            ));
        }
        let mut acc: Vec<FzfAction> = Vec::new();
        let mut i: usize = 0;
        proof {
            if let ResponseView::Actions(b) = compile_from(av, c, keymap@, outs, 0) {
                assert(Seq::<ActionView>::empty() + b == b);
            }
            assert(actions_view(acc@) =~= Seq::<ActionView>::empty());
        }
        while i < acts.len()
            invariant
                i <= acts@.len(),
                av == acts@.map_values(|a: UserAction| a@),
                c == self@,
                outs == nested_outcomes(outcomes@),
                key_response(c, keymap@, keymap.load_error(), outs) == prefixed_response(
                    seq![ActionView::ChangeHeader(hdr@)],
                    compile_from(av, c, keymap@, outs, 0),
                ),
                compile_from(av, c, keymap@, outs, 0) == prefixed_response(
                    actions_view(acc@),
                    compile_from(av, c, keymap@, outs, i as int),
                ),
            decreases acts@.len() - i,
        {
            let o = outcomes_for(outcomes, i);
            let step = self.compile_action(&acts[i], keymap, &o);
            match step {
                Step::Need(e) => {
                    return Response::Need { index: i, effect: e };
                },
                Step::Done(mut v) => {
                    let ghost before = actions_view(acc@);
                    let ghost vv = actions_view(v@);
                    acc.append(&mut v);
                    proof {
                        assert(actions_view(acc@) =~= before + vv);
                        lemma_prefixed_response(before, vv, compile_from(av, c, keymap@, outs, i + 1));
                    }
                },
            }
            i = i + 1;
        }
        let mut out: Vec<FzfAction> = Vec::new();
        out.push(FzfAction::ChangeHeader(hdr));
        let ghost head = actions_view(out@);
        let ghost accv = actions_view(acc@);
        out.append(&mut acc);
        proof {
            assert(accv + Seq::<ActionView>::empty() == accv);
            assert(compile_from(av, c, keymap@, outs, i as int) == ResponseView::Actions(Seq::empty()));
            assert(head == seq![ActionView::ChangeHeader(hdr@)]);
            assert(actions_view(out@) =~= head + accv);
        }
        Response::Actions(out)
    }
}

/// The key `?` opens the help, whatever the mode, the keymap and the outcomes.
pub proof fn lemma_help_key_always_helps(c: ContextView, k: KeyMapView, e: Option<Seq<char>>, outs: Seq<Seq<OutcomeView>>)
    requires
        c.key == BindableView::Sequence("?"@),
    ensures
        key_response(c, k, e, outs) == ResponseView::Actions(seq![help_action()]),
{
}

/// A key that the mode's table does not bind, or binds to no action, gives no
/// actions; it only brings the header up to date with the which-key hint for
/// the query typed so far, or the mode's header where there is none.
pub proof fn lemma_unbound_key_refreshes_header(c: ContextView, k: KeyMapView, e: Option<Seq<char>>, outs: Seq<Seq<OutcomeView>>)
    requires
        c.key != BindableView::Sequence("?"@),
        keymap_table(k, keymap_name(c.mode)) is Some,
        match table_get(keymap_table(k, keymap_name(c.mode))->0, c.key) {
            Some(b) => b.1.len() == 0,
            None => true,
        },
    ensures
        key_response(c, k, e, outs) == ResponseView::Header(
            ActionView::ChangeHeader(header_hint(k, c.mode, c.query)),
        ),
{
}

/// The actions of a list compiled one after the other, flattened.
pub open spec fn flattened(parts: Seq<Seq<ActionView>>) -> Seq<ActionView>
    decreases parts.len(),
{
    if parts.len() == 0 {
        Seq::empty()
    } else {
        parts[0] + flattened(parts.drop_first())
    }
}

/// Where every declared action compiles without asking for an effect, the
/// answer is their compilations in declaration order, one after the other.
pub proof fn lemma_actions_in_declaration_order(
    acts: Seq<UserActionView>,
    c: ContextView,
    k: KeyMapView,
    outs: Seq<Seq<OutcomeView>>,
    parts: Seq<Seq<ActionView>>,
    i: int,
)
    requires
        0 <= i <= acts.len(),
        parts.len() == acts.len(),
        forall|j: int| 0 <= j < acts.len() ==> compile_step(acts[j], c, k, outcomes_at(outs, j)) == StepView::Done(
            #[trigger] parts[j],
        ),
    ensures
        compile_from(acts, c, k, outs, i) == ResponseView::Actions(flattened(parts.skip(i))),
    decreases acts.len() - i,
{
    if i == acts.len() {
        assert(parts.skip(i) == Seq::<Seq<ActionView>>::empty());
    } else {
        lemma_actions_in_declaration_order(acts, c, k, outs, parts, i + 1);
        assert(parts.skip(i).drop_first() == parts.skip(i + 1));
        assert(parts.skip(i)[0] == parts[i]);
    }
}

/// A key bound to reloading the log and then quitting: the header is reset,
/// then the reload and its header refresh come, and the abort after them.
pub proof fn lemma_reload_then_quit(c: ContextView, k: KeyMapView, e: Option<Seq<char>>, outs: Seq<Seq<OutcomeView>>)
    requires
        c.key != BindableView::Sequence("?"@),
        keymap_table(k, keymap_name(c.mode)) is Some,
        table_get(keymap_table(k, keymap_name(c.mode))->0, c.key) matches Some(b)
            && b.1 == seq![UserActionView::ReloadLog, UserActionView::Quit],
    ensures
        key_response(c, k, e, outs) == ResponseView::Actions(seq![
            ActionView::ChangeHeader(header_hint(k, c.mode, Seq::empty())),
            ActionView::Reload(CommandView::Log),
            ActionView::ChangeHeader(header_hint(k, c.mode, c.query)),
            ActionView::Abort,
        ]),
{
    reveal(compile_step);
    let acts = seq![UserActionView::ReloadLog, UserActionView::Quit];
    let parts = seq![
        seq![ActionView::Reload(CommandView::Log), ActionView::ChangeHeader(header_hint(k, c.mode, c.query))],
        seq![ActionView::Abort],
    ];
    lemma_actions_in_declaration_order(acts, c, k, outs, parts, 0);
    assert(parts.skip(0) == parts);
    assert(parts.drop_first().drop_first() == Seq::<Seq<ActionView>>::empty());
    assert(parts.drop_first()[0] == parts[1]);
    assert(flattened(parts.drop_first().drop_first()) == Seq::<ActionView>::empty());
    assert(flattened(parts.drop_first()) =~= parts[1]);
    assert(flattened(parts) =~= parts[0] + parts[1]);
    assert(seq![ActionView::ChangeHeader(header_hint(k, c.mode, Seq::empty()))] + flattened(parts) =~= seq![
        ActionView::ChangeHeader(header_hint(k, c.mode, Seq::empty())),
        ActionView::Reload(CommandView::Log),
        ActionView::ChangeHeader(header_hint(k, c.mode, c.query)),
        ActionView::Abort,
    ]);
}

/// With no commit focused, `commit:focused` is not among the template
/// variables, so a template that uses it fails to render.
pub proof fn lemma_no_focused_commit_no_variable(c: ContextView)
    requires
        unquoted(c.selection.1.0).len() == 0,
    ensures
        forall|i: int| 0 <= i < template_values(c).len() ==> #[trigger] template_values(c)[i].0 != "commit:focused"@,
{
    reveal_strlit("commit:focused");
    reveal_strlit("query");
    reveal_strlit("change");
    reveal_strlit("commit");
    reveal_strlit(":focused");
    reveal_strlit(":selected");
    reveal_strlit(":selected_revset");
    let v = template_values(c);
    let ch = id_values("change"@, parsed_ids(c.selection.0.0, c.selection.0.1));
    let cm = id_values("commit"@, parsed_ids(c.selection.1.0, c.selection.1.1));
    assert(v == seq![("query"@, c.query)] + ch + cm);
    assert forall|i: int| 0 <= i < v.len() implies #[trigger] v[i].0 != "commit:focused"@ by {
        if i == 0 {
            assert(v[i].0.len() == 5);
        } else if i < 1 + ch.len() {
            assert(v[i] == ch[i - 1]);
            assert(v[i].0[1] == 'h');
            assert("commit:focused"@[1] == 'o');
        } else {
            assert(v[i] == cm[i - 1 - ch.len()]);
            assert(v[i].0.len() != 14);
        }
    }
}

proof fn lemma_plain_args_render(args: Seq<Seq<char>>, values: Seq<(Seq<char>, Seq<char>)>)
    requires
        forall|j: int| 0 <= j < args.len() ==> plain_template(#[trigger] args[j]),
    ensures
        render_all(args, values) == Ok::<Seq<Seq<char>>, Seq<char>>(args),
    decreases args.len(),
{
    if args.len() > 0 {
        assert(plain_template(args[0]));
        assert forall|j: int| 0 <= j < args.drop_first().len() implies plain_template(#[trigger] args.drop_first()[j]) by {
            assert(args.drop_first()[j] == args[j + 1]);
        }
        lemma_plain_args_render(args.drop_first(), values);
        assert(rendered(args[0], values) == Ok::<Seq<char>, Seq<char>>(args[0]));
        assert(seq![args[0]] + args.drop_first() == args);
    } else {
        assert(args == Seq::<Seq<char>>::empty());
    }
}

/// A key bound to running jj with arguments that hold no template syntax: once
/// jj ran, what it printed (output, then errors, whatever its exit status)
/// becomes the preview, after the header reset and the log reload, with a
/// label that names the arguments. A failing run is content, not an error.
pub proof fn lemma_jj_output_is_preview(
    c: ContextView,
    k: KeyMapView,
    e: Option<Seq<char>>,
    outs: Seq<Seq<OutcomeView>>,
    args: Seq<Seq<char>>,
    printed: Seq<char>,
)
    requires
        c.key != BindableView::Sequence("?"@),
        keymap_table(k, keymap_name(c.mode)) is Some,
        table_get(keymap_table(k, keymap_name(c.mode))->0, c.key) matches Some(b)
            && b.1 == seq![UserActionView::Jujutsu(args)],
        forall|j: int| 0 <= j < args.len() ==> plain_template(#[trigger] args[j]),
        outcomes_at(outs, 0).len() > 0,
        outcomes_at(outs, 0)[0] == Ok::<Seq<char>, Seq<char>>(printed),
    ensures
        key_response(c, k, e, outs) == ResponseView::Actions(seq![
            ActionView::ChangeHeader(header_hint(k, c.mode, Seq::empty())),
            ActionView::Reload(CommandView::Log),
            ActionView::ChangePreview(CommandView::Output(printed)),
            ActionView::ChangePreviewLabel(output_label(args)),
        ]),
{
    reveal(compile_step);
    lemma_plain_args_render(args, template_values(c));
    let acts = seq![UserActionView::Jujutsu(args)];
    let a = seq![
        ActionView::Reload(CommandView::Log),
        ActionView::ChangePreview(CommandView::Output(printed)),
        ActionView::ChangePreviewLabel(output_label(args)),
    ];
    assert(compile_step(acts[0], c, k, outcomes_at(outs, 0)) == StepView::Done(a));
    assert(compile_from(acts, c, k, outs, 1) == ResponseView::Actions(Seq::<ActionView>::empty()));
    assert(a + Seq::<ActionView>::empty() == a);
    assert(seq![ActionView::ChangeHeader(header_hint(k, c.mode, Seq::empty()))] + a =~= seq![
        ActionView::ChangeHeader(header_hint(k, c.mode, Seq::empty())),
        ActionView::Reload(CommandView::Log),
        ActionView::ChangePreview(CommandView::Output(printed)),
        ActionView::ChangePreviewLabel(output_label(args)),
    ]);
}

} // verus!
