//! The actions that the finder understands, and its key-binding flags.
use vstd::prelude::*;
use crate::common::{Mode, ModeView};
use crate::protocol::{at, char_count, decode_expr, enc_expr, enc_mode, has_at, lemma_at_index, lemma_at_join, lemma_at_split, lemma_decode_encode, lemma_mode_round_trip, lemma_not_both, parse_mode, read_expr, CommandView, ExprView, FzfBindHandler, HandlerView, VjjCommand, VjjShellExpression};
use crate::text::{joined, push_str, string_of, chars_of};

verus! {

/// An event of the finder that a binding answers.
#[derive(Debug, Clone, Copy, PartialEq, Eq)]
pub enum Event {
    Change,
    Enter,
    Start,
    Focus,
    Esc,
}

/// The finder's name for an event.
pub open spec fn event_name(e: Event) -> Seq<char> {
    match e {
        Event::Change => "change"@,
        Event::Enter => "enter"@,
        Event::Start => "start"@,
        Event::Focus => "focus"@,
        Event::Esc => "esc"@,
    }
}

impl Event {
    /// The finder's name for the event.
    pub fn name(&self) -> (r: &'static str)
        ensures
            r@ == event_name(*self),
    {
        match self {
            Event::Change => "change",
            Event::Enter => "enter",
            Event::Start => "start",
            Event::Focus => "focus",
            Event::Esc => "esc",
        }
    }
}

/// A change to the finder's state.
#[derive(Debug, Clone)]
pub enum FzfAction {
    ClearQuery,
    Abort,
    Up,
    Down,
    ChangePrompt(Mode),
    ChangeBorderLabel(String),
    ChangePreview(VjjCommand),
    ChangePreviewLabel(String),
    Preview(VjjCommand),
    ChangeHeader(String),
    Become(VjjCommand),
    Execute { command: VjjCommand, interactive: bool },
    ExecuteSilent(VjjCommand),
    Reload(VjjCommand),
}

pub ghost enum ActionView {
    ClearQuery,
    Abort,
    Up,
    Down,
    ChangePrompt(ModeView),
    ChangeBorderLabel(Seq<char>),
    ChangePreview(CommandView),
    ChangePreviewLabel(Seq<char>),
    Preview(CommandView),
    ChangeHeader(Seq<char>),
    Become(CommandView),
    Execute { command: CommandView, interactive: bool },
    ExecuteSilent(CommandView),
    Reload(CommandView),
}

impl View for FzfAction {
    type V = ActionView;

    open spec fn view(&self) -> ActionView {
        match self {
            FzfAction::ClearQuery => ActionView::ClearQuery,
            FzfAction::Abort => ActionView::Abort,
            FzfAction::Up => ActionView::Up,
            FzfAction::Down => ActionView::Down,
            FzfAction::ChangePrompt(m) => ActionView::ChangePrompt(m@),
            FzfAction::ChangeBorderLabel(s) => ActionView::ChangeBorderLabel(s@),
            FzfAction::ChangePreview(c) => ActionView::ChangePreview(c@),
            FzfAction::ChangePreviewLabel(s) => ActionView::ChangePreviewLabel(s@),
            FzfAction::Preview(c) => ActionView::Preview(c@),
            FzfAction::ChangeHeader(s) => ActionView::ChangeHeader(s@),
            FzfAction::Become(c) => ActionView::Become(c@),
            FzfAction::Execute { command, interactive } => ActionView::Execute {
                command: command@,
                interactive: *interactive,
            },
            FzfAction::ExecuteSilent(c) => ActionView::ExecuteSilent(c@),
            FzfAction::Reload(c) => ActionView::Reload(c@),
        }
    }
}

/// The finder's name for an action.
pub open spec fn action_name(a: ActionView) -> Seq<char> {
    match a {
        ActionView::ClearQuery => "clear-query"@,
        ActionView::Abort => "abort"@,
        ActionView::Up => "up"@,
        ActionView::Down => "down"@,
        ActionView::ChangePrompt(_) => "change-prompt"@,
        ActionView::ChangeBorderLabel(_) => "change-border-label"@,
        ActionView::ChangePreview(_) => "change-preview"@,
        ActionView::ChangePreviewLabel(_) => "change-preview-label"@,
        ActionView::Preview(_) => "preview"@,
        ActionView::ChangeHeader(_) => "change-header"@,
        ActionView::Become(_) => "become"@,
        ActionView::Execute { .. } => "execute"@,
        ActionView::ExecuteSilent(_) => "execute-silent"@,
        ActionView::Reload(_) => "reload"@,
    }
}

/// The prompt that shows a mode: its text form and `": "`.
pub open spec fn prompt_of(m: ModeView) -> Seq<char> {
    enc_mode(m) + ": "@
}

/// What an action carries, in text: a prompt or label as it is, and a command
/// as the request that runs it.
pub open spec fn action_params(a: ActionView) -> Option<Seq<char>> {
    match a {
        ActionView::ChangePrompt(m) => Some(prompt_of(m)),
        ActionView::ChangeBorderLabel(s) => Some(s),
        ActionView::ChangePreviewLabel(s) => Some(s),
        ActionView::ChangeHeader(s) => Some(s),
        ActionView::ChangePreview(c) => Some(enc_expr(ExprView::Command(c))),
        ActionView::Preview(c) => Some(enc_expr(ExprView::Command(c))),
        ActionView::Become(c) => Some(enc_expr(ExprView::Command(c))),
        ActionView::ExecuteSilent(c) => Some(enc_expr(ExprView::Command(c))),
        ActionView::Reload(c) => Some(enc_expr(ExprView::Command(c))),
        ActionView::Execute { command, interactive } => Some(
            enc_expr(ExprView::PagedCommand { command, interactive }),
        ),
        _ => None,
    }
}

/// The finder's text for an action: its name, then its parameters in parentheses.
pub open spec fn action_text(a: ActionView) -> Seq<char> {
    match action_params(a) {
        Some(p) => action_name(a) + "("@ + p + ")"@,
        None => action_name(a),
    }
}

/// The finder's text for a list of actions: each one's, joined with `+`.
pub open spec fn actions_text(a: Seq<ActionView>) -> Seq<char> {
    joined(a.map_values(|x: ActionView| action_text(x)), "+"@)
}

impl FzfAction {
    /// The finder's name for the action.
    pub fn name(&self) -> (r: &'static str)
        ensures
            r@ == action_name(self@),
    {
        match self {
            FzfAction::ClearQuery => "clear-query",
            FzfAction::Abort => "abort",
            FzfAction::Up => "up",
            FzfAction::Down => "down",
            FzfAction::ChangePrompt(_) => "change-prompt",
            FzfAction::ChangeBorderLabel(_) => "change-border-label",
            FzfAction::ChangePreview(_) => "change-preview",
            FzfAction::ChangePreviewLabel(_) => "change-preview-label",
            FzfAction::Preview(_) => "preview",
            FzfAction::ChangeHeader(_) => "change-header",
            FzfAction::Become(_) => "become",
            FzfAction::Execute { .. } => "execute",
            FzfAction::ExecuteSilent(_) => "execute-silent",
            FzfAction::Reload(_) => "reload",
        }
    }

    /// What the action carries, in text.
    pub fn params(&self) -> (r: Option<String>)
        ensures
            match action_params(self@) {
                Some(p) => r matches Some(s) && s@ == p,
                None => r is None,
            },
    {
        match self {
            FzfAction::ClearQuery | FzfAction::Abort | FzfAction::Up | FzfAction::Down => None,
            FzfAction::ChangePrompt(m) => Some(m.prompt()),
            FzfAction::ChangeHeader(s) | FzfAction::ChangeBorderLabel(s) | FzfAction::ChangePreviewLabel(s) => {
                Some(s.clone())
            },
            FzfAction::ChangePreview(c)
            | FzfAction::Preview(c)
            | FzfAction::Become(c)
            | FzfAction::ExecuteSilent(c)
            | FzfAction::Reload(c) => Some(crate::protocol::command_request(c)),
            FzfAction::Execute { command, interactive } => Some(
                crate::protocol::paged_request(command, *interactive),
            ),
        }
    }

    pub(crate) fn write(&self, out: &mut Vec<char>)
        ensures
            final(out)@ == old(out)@ + action_text(self@),
    {
        let ghost o = out@;
        push_str(out, self.name());
        match self.params() {
            Some(p) => {
                push_str(out, "(");
                push_str(out, p.as_str());
                push_str(out, ")");
                assert(out@ == o + (action_name(self@) + "("@ + p@ + ")"@));
            },
            None => {},
        }
    }

    /// The finder's text for the action.
    pub fn to_text(&self) -> (r: String)
        ensures
            r@ == action_text(self@),
    {
        let mut out: Vec<char> = Vec::new();
        self.write(&mut out);
        assert(out@ == Seq::<char>::empty() + action_text(self@));
        string_of(&out)
    }
}

/// The finder's text for a list of actions: each one's, joined with `+`.
pub fn join_actions(actions: &Vec<FzfAction>) -> (r: String)
    ensures
        r@ == actions_text(actions@.map_values(|a: FzfAction| a@)),
{
    let ghost all = actions@.map_values(|a: FzfAction| a@);
    let mut out: Vec<char> = Vec::new();
    let mut i: usize = 0;
    while i < actions.len()
        invariant
            i <= actions@.len(),
            all == actions@.map_values(|a: FzfAction| a@),
            out@ == actions_text(all.subrange(0, i as int)),
        decreases actions@.len() - i,
    {
        if i > 0 {
            push_str(&mut out, "+");
        }
        actions[i].write(&mut out);
        i = i + 1;
        let ghost pre = all.subrange(0, i as int).map_values(|x: ActionView| action_text(x));
        assert(pre.drop_last() == all.subrange(0, i - 1).map_values(|x: ActionView| action_text(x)));
    }
    assert(all.subrange(0, actions@.len() as int) == all);
    string_of(&out)
}

/// A key binding for the finder: fixed actions, or a callback that computes them.
#[derive(Debug)]
pub enum Bind {
    Actions(Event, Vec<FzfAction>),
    Transform(Event, FzfBindHandler),
}

/// The value of the finder's `--bind` flag that answers `event` with fixed actions.
pub open spec fn actions_bind_text(event: Event, actions: Seq<ActionView>) -> Seq<char> {
    event_name(event) + ":"@ + actions_text(actions)
}

/// The value of the finder's `--bind` flag that answers `event` by calling back
/// with `handler`, whose answer the finder runs.
pub open spec fn transform_bind_text(event: Event, handler: HandlerView) -> Seq<char> {
    event_name(event) + ":transform:"@ + enc_expr(ExprView::Handler(handler))
}

impl Bind {
    /// The value of the finder's `--bind` flag for the binding.
    pub fn flag_value(&self) -> (r: String)
        ensures
            r@ == match self {
                Bind::Actions(e, a) => actions_bind_text(*e, a@.map_values(|x: FzfAction| x@)),
                Bind::Transform(e, h) => transform_bind_text(*e, h@),
            },
    {
        let mut out: Vec<char> = Vec::new();
        match self {
            Bind::Actions(e, a) => {
                push_str(&mut out, e.name());
                push_str(&mut out, ":");
                let t = join_actions(a);
                push_str(&mut out, t.as_str());
            },
            Bind::Transform(e, h) => {
                push_str(&mut out, e.name());
                push_str(&mut out, ":transform:");
                let t = h.encode();
                push_str(&mut out, t.as_str());
            },
        }
        string_of(&out)
    }
}

// ---- reading an action back ----

/// `s` starts with `name` and an opening parenthesis.
pub open spec fn opens(s: Seq<char>, name: Seq<char>) -> bool {
    at(s, 0, name + "("@)
}

/// What stands between the parenthesis after `name` and the last character.
pub open spec fn inner(s: Seq<char>, name: Seq<char>) -> Seq<char> {
    s.subrange(name.len() + 1 as int, s.len() - 1 as int)
}

/// The command of a request that runs one.
pub open spec fn command_param(p: Seq<char>) -> Option<CommandView> {
    match decode_expr(p) {
        Some(ExprView::Command(c)) => Some(c),
        _ => None,
    }
}

/// The mode that a prompt shows, where the prompt is that and nothing more.
pub open spec fn prompt_param(p: Seq<char>) -> Option<ModeView> {
    match parse_mode(p, 0) {
        Some((m, j)) => if p.subrange(j, p.len() as int) == ": "@ {
            Some(m)
        } else {
            None
        },
        None => None,
    }
}

pub open spec fn with_command(c: Option<CommandView>, f: spec_fn(CommandView) -> ActionView) -> Option<ActionView> {
    match c {
        Some(c) => Some(f(c)),
        None => None,
    }
}

/// The action that a finder action text stands for, if it stands for one.
pub open spec fn decode_action(s: Seq<char>) -> Option<ActionView> {
    if s == "clear-query"@ {
        Some(ActionView::ClearQuery)
    } else if s == "abort"@ {
        Some(ActionView::Abort)
    } else if s == "up"@ {
        Some(ActionView::Up)
    } else if s == "down"@ {
        Some(ActionView::Down)
    } else if s.len() == 0 || s.last() != ')' {
        None
    } else if opens(s, "change-prompt"@) {
        match prompt_param(inner(s, "change-prompt"@)) {
            Some(m) => Some(ActionView::ChangePrompt(m)),
            None => None,
        }
    } else if opens(s, "change-border-label"@) {
        Some(ActionView::ChangeBorderLabel(inner(s, "change-border-label"@)))
    } else if opens(s, "change-preview-label"@) {
        Some(ActionView::ChangePreviewLabel(inner(s, "change-preview-label"@)))
    } else if opens(s, "change-preview"@) {
        with_command(command_param(inner(s, "change-preview"@)), |c: CommandView| ActionView::ChangePreview(c))
    } else if opens(s, "change-header"@) {
        Some(ActionView::ChangeHeader(inner(s, "change-header"@)))
    } else if opens(s, "preview"@) {
        with_command(command_param(inner(s, "preview"@)), |c: CommandView| ActionView::Preview(c))
    } else if opens(s, "become"@) {
        with_command(command_param(inner(s, "become"@)), |c: CommandView| ActionView::Become(c))
    } else if opens(s, "execute-silent"@) {
        with_command(command_param(inner(s, "execute-silent"@)), |c: CommandView| ActionView::ExecuteSilent(c))
    } else if opens(s, "execute"@) {
        match decode_expr(inner(s, "execute"@)) {
            Some(ExprView::PagedCommand { command, interactive }) => Some(ActionView::Execute { command, interactive }),
            _ => None,
        }
    } else if opens(s, "reload"@) {
        with_command(command_param(inner(s, "reload"@)), |c: CommandView| ActionView::Reload(c))
    } else {
        None
    }
}

/// Reading the text of an action gives that action back.
pub proof fn lemma_action_round_trip(a: ActionView)
    ensures
        decode_action(action_text(a)) == Some(a),
{
    reveal_strlit("clear-query");
    reveal_strlit("abort");
    reveal_strlit("up");
    reveal_strlit("down");
    reveal_strlit("change-prompt");
    reveal_strlit("change-border-label");
    reveal_strlit("change-preview-label");
    reveal_strlit("change-preview");
    reveal_strlit("change-header");
    reveal_strlit("preview");
    reveal_strlit("become");
    reveal_strlit("execute-silent");
    reveal_strlit("execute");
    reveal_strlit("reload");
    reveal_strlit("(");
    reveal_strlit(")");
    let s = action_text(a);
    match action_params(a) {
        None => {},
        Some(p) => {
            let n = action_name(a);
            let head = n + "("@;
            assert(s == head + p + ")"@);
            assert(s.subrange(0, s.len() as int) == s);
            lemma_at_split(s, 0, head + p, ")"@);
            lemma_at_split(s, 0, head, p);
            assert(inner(s, n) =~= p) by {
                assert(s.subrange(n.len() + 1 as int, s.len() - 1 as int) == s.subrange(head.len() as int, head.len() + p.len() as int));
            }
            assert(s.last() == ')');
            let cp = "change-prompt"@ + "("@;
            let cb = "change-border-label"@ + "("@;
            let cl = "change-preview-label"@ + "("@;
            let cv = "change-preview"@ + "("@;
            let ch = "change-header"@ + "("@;
            let pv = "preview"@ + "("@;
            let bc = "become"@ + "("@;
            let es = "execute-silent"@ + "("@;
            let ex = "execute"@ + "("@;
            match a {
                ActionView::ChangePrompt(m) => {
                    let e = enc_mode(m);
                    assert(p.subrange(0, p.len() as int) == p);
                    lemma_at_split(p, 0, e, ": "@);
                    lemma_mode_round_trip(p, 0, m);
                    assert(p.subrange(e.len() as int, p.len() as int) =~= ": "@);
                },
                ActionView::ChangeBorderLabel(_) => {
                    lemma_not_both(s, 0, head, cp, 7);
                },
                ActionView::ChangePreviewLabel(_) => {
                    lemma_not_both(s, 0, head, cp, 9);
                    lemma_not_both(s, 0, head, cb, 7);
                },
                ActionView::ChangePreview(c) => {
                    lemma_not_both(s, 0, head, cp, 9);
                    lemma_not_both(s, 0, head, cb, 7);
                    lemma_not_both(s, 0, head, cl, 14);
                    lemma_decode_encode(ExprView::Command(c));
                },
                ActionView::ChangeHeader(_) => {
                    lemma_not_both(s, 0, head, cp, 7);
                    lemma_not_both(s, 0, head, cb, 7);
                    lemma_not_both(s, 0, head, cl, 7);
                    lemma_not_both(s, 0, head, cv, 7);
                },
                ActionView::Preview(c) => {
                    lemma_not_both(s, 0, head, cp, 0);
                    lemma_not_both(s, 0, head, cb, 0);
                    lemma_not_both(s, 0, head, cl, 0);
                    lemma_not_both(s, 0, head, cv, 0);
                    lemma_not_both(s, 0, head, ch, 0);
                    lemma_decode_encode(ExprView::Command(c));
                },
                ActionView::Become(c) => {
                    lemma_not_both(s, 0, head, cp, 0);
                    lemma_not_both(s, 0, head, cb, 0);
                    lemma_not_both(s, 0, head, cl, 0);
                    lemma_not_both(s, 0, head, cv, 0);
                    lemma_not_both(s, 0, head, ch, 0);
                    lemma_not_both(s, 0, head, pv, 0);
                    lemma_decode_encode(ExprView::Command(c));
                },
                ActionView::ExecuteSilent(c) => {
                    lemma_not_both(s, 0, head, cp, 0);
                    lemma_not_both(s, 0, head, cb, 0);
                    lemma_not_both(s, 0, head, cl, 0);
                    lemma_not_both(s, 0, head, cv, 0);
                    lemma_not_both(s, 0, head, ch, 0);
                    lemma_not_both(s, 0, head, pv, 0);
                    lemma_not_both(s, 0, head, bc, 0);
                    lemma_decode_encode(ExprView::Command(c));
                },
                ActionView::Execute { command, interactive } => {
                    lemma_not_both(s, 0, head, cp, 0);
                    lemma_not_both(s, 0, head, cb, 0);
                    lemma_not_both(s, 0, head, cl, 0);
                    lemma_not_both(s, 0, head, cv, 0);
                    lemma_not_both(s, 0, head, ch, 0);
                    lemma_not_both(s, 0, head, pv, 0);
                    lemma_not_both(s, 0, head, bc, 0);
                    lemma_not_both(s, 0, head, es, 7);
                    lemma_decode_encode(ExprView::PagedCommand { command, interactive });
                },
                ActionView::Reload(c) => {
                    lemma_not_both(s, 0, head, cp, 0);
                    lemma_not_both(s, 0, head, cb, 0);
                    lemma_not_both(s, 0, head, cl, 0);
                    lemma_not_both(s, 0, head, cv, 0);
                    lemma_not_both(s, 0, head, ch, 0);
                    lemma_not_both(s, 0, head, pv, 0);
                    lemma_not_both(s, 0, head, bc, 0);
                    lemma_not_both(s, 0, head, es, 0);
                    lemma_not_both(s, 0, head, ex, 0);
                    lemma_decode_encode(ExprView::Command(c));
                },
                _ => {},
            }
        },
    }
}

fn opens_exec(input: &Vec<char>, name: &str) -> (r: bool)
    ensures
        r == opens(input@, name@),
{
    proof { reveal_strlit("("); }
    let n = char_count(name);
    if has_at(input, 0, name) && has_at(input, n, "(") {
        proof { lemma_at_join(input@, 0, name@, "("@); }
        true
    } else {
        proof {
            if opens(input@, name@) {
                lemma_at_split(input@, 0, name@, "("@);
            }
        }
        false
    }
}

fn inner_exec(input: &Vec<char>, name: &str) -> (r: Vec<char>)
    requires
        opens(input@, name@),
        input@.len() > 0,
        input@.last() == ')',
    ensures
        r@ == inner(input@, name@),
{
    proof {
        reveal_strlit("(");
        lemma_at_index(input@, 0, name@ + "("@, name@.len() as int);
    }
    let end = input.len() - 1;
    let start = char_count(name) + 1;
    let mut r: Vec<char> = Vec::new();
    let mut i: usize = start;
    while i < end
        invariant
            start <= end + 1,
            start <= i,
            i <= end || i == start,
            end < input@.len(),
            r@ == input@.subrange(start as int, i as int),
        decreases end - i,
    {
        r.push(input[i]);
        i = i + 1;
        assert(r@ == input@.subrange(start as int, i as int));
    }
    r
}

fn command_exec(p: &Vec<char>) -> (r: Option<VjjCommand>)
    ensures
        match command_param(p@) {
            Some(c) => r matches Some(x) && x@ == c,
            None => r is None,
        },
{
    match read_expr(p, 0) {
        Some((VjjShellExpression::Command(c), k)) => if k == p.len() {
            Some(c)
        } else {
            None
        },
        _ => None,
    }
}

impl FzfAction {
    /// The action that a finder action text stands for; none if it stands for none.
    pub fn from_text(s: &str) -> (r: Option<FzfAction>)
        ensures
            match decode_action(s@) {
                Some(a) => r matches Some(x) && x@ == a,
                None => r is None,
            },
    {
        if crate::keymap::str_eq(s, "clear-query") {
            return Some(FzfAction::ClearQuery);
        }
        if crate::keymap::str_eq(s, "abort") {
            return Some(FzfAction::Abort);
        }
        if crate::keymap::str_eq(s, "up") {
            return Some(FzfAction::Up);
        }
        if crate::keymap::str_eq(s, "down") {
            return Some(FzfAction::Down);
        }
        let input = chars_of(s);
        let n = input.len();
        if n == 0 || input[n - 1] != ')' {
            return None;
        }
        if opens_exec(&input, "change-prompt") {
            let p = inner_exec(&input, "change-prompt");
            proof { reveal_strlit(": "); }
            return match Mode::read(&p, 0) {
                Some((m, j)) => {
                    if has_at(&p, j, ": ") && j + 2 == p.len() {
                        assert(p@.subrange(j as int, p@.len() as int) == ": "@);
                        Some(FzfAction::ChangePrompt(m))
                    } else {
                        proof {
                            if p@.subrange(j as int, p@.len() as int) == ": "@ {
                                assert(p@.subrange(j as int, j + 2) == p@.subrange(j as int, p@.len() as int));
                            }
                        }
                        None
                    }
                },
                None => None,
            };
        }
        if opens_exec(&input, "change-border-label") {
            return Some(FzfAction::ChangeBorderLabel(string_of(&inner_exec(&input, "change-border-label"))));
        }
        if opens_exec(&input, "change-preview-label") {
            return Some(FzfAction::ChangePreviewLabel(string_of(&inner_exec(&input, "change-preview-label"))));
        }
        if opens_exec(&input, "change-preview") {
            return match command_exec(&inner_exec(&input, "change-preview")) {
                Some(c) => Some(FzfAction::ChangePreview(c)),
                None => None,
            };
        }
        if opens_exec(&input, "change-header") {
            return Some(FzfAction::ChangeHeader(string_of(&inner_exec(&input, "change-header"))));
        }
        if opens_exec(&input, "preview") {
            return match command_exec(&inner_exec(&input, "preview")) {
                Some(c) => Some(FzfAction::Preview(c)),
                None => None,
            };
        }
        if opens_exec(&input, "become") {
            return match command_exec(&inner_exec(&input, "become")) {
                Some(c) => Some(FzfAction::Become(c)),
                None => None,
            };
        }
        if opens_exec(&input, "execute-silent") {
            return match command_exec(&inner_exec(&input, "execute-silent")) {
                Some(c) => Some(FzfAction::ExecuteSilent(c)),
                None => None,
            };
        }
        if opens_exec(&input, "execute") {
            let p = inner_exec(&input, "execute");
            return match read_expr(&p, 0) {
                Some((VjjShellExpression::PagedCommand { command, interactive }, k)) => if k == p.len() {
                    Some(FzfAction::Execute { command, interactive })
                } else {
                    None
                },
                _ => None,
            };
        }
        if opens_exec(&input, "reload") {
            return match command_exec(&inner_exec(&input, "reload")) {
                Some(c) => Some(FzfAction::Reload(c)),
                None => None,
            };
        }
        None
    }
}

} // verus!
