//! The answer to a callback of the finder.
use vstd::prelude::*;
use crate::common::{unquoted, ModeView};
use crate::compile::{actions_view, key_response, nested_outcomes, ContextView, KeyHandlerContext, Response, ResponseView, ShellContext};
use crate::fzf::{ActionView, FzfAction};
use crate::keymap::{Bindable, BindableView, Key, KeyMap, KeyMapView};
use crate::protocol::{CommandView, FzfBindHandler, HandlerView, InputKind};
use crate::compile::OutcomeView;
use crate::text::{chars_of, string_of};

verus! {

/// The key that an input event stands for: the query for a change of the
/// query, or the special key.
pub open spec fn input_key(kind: InputKind, query: Seq<char>) -> BindableView {
    match kind {
        InputKind::Change => BindableView::Sequence(query),
        InputKind::Enter => BindableView::Key(Key::Enter),
        InputKind::Esc => BindableView::Key(Key::Esc),
    }
}

/// The answer to a callback in mode `mode` with query `query`. A focus change
/// while the change or the commit under the cursor is still empty only moves
/// the cursor on, in the direction it came from; otherwise the preview shows
/// the focused commit. An input is answered as its key, and the query is
/// cleared after actions.
pub open spec fn handler_response(
    h: HandlerView,
    mode: ModeView,
    query: Seq<char>,
    k: KeyMapView,
    e: Option<Seq<char>>,
    outs: Seq<Seq<OutcomeView>>,
) -> ResponseView {
    match h {
        HandlerView::Focus { change, commit, action } => if unquoted(change).len() == 0
            || unquoted(commit).len() == 0 {
            ResponseView::Actions(seq![if action == "up"@ { ActionView::Up } else { ActionView::Down }])
        } else {
            ResponseView::Actions(seq![
                ActionView::ChangePreview(CommandView::Show(commit)),
                ActionView::ChangePreviewLabel("Preview (jj show)"@),
            ])
        },
        HandlerView::Input { kind, selection } => {
            let c = ContextView { key: input_key(kind, query), mode, query, selection };
            match key_response(c, k, e, outs) {
                ResponseView::Actions(v) => ResponseView::Actions(v.push(ActionView::ClearQuery)),
                r => r,
            }
        },
    }
}

fn is_empty_id(s: &String) -> (r: bool)
    ensures
        r == (unquoted(s@).len() == 0),
{
    let v = chars_of(s.as_str());
    let mut i: usize = 0;
    while i < v.len() && v[i] == '\''
        invariant
            i <= v@.len(),
            v@ == s@,
            forall|j: int| 0 <= j < i ==> v@[j] == '\'',
        decreases v@.len() - i,
    {
        i = i + 1;
    }
    proof {
        lemma_unquoted_empty(v@, i as int);
    }
    i == v.len()
}

proof fn lemma_unquoted_empty(s: Seq<char>, i: int)
    requires
        0 <= i <= s.len(),
        forall|j: int| 0 <= j < i ==> s[j] == '\'',
        i < s.len() ==> s[i] != '\'',
    ensures
        (unquoted(s).len() == 0) == (i == s.len()),
    decreases i,
{
    if i > 0 {
        assert forall|j: int| 0 <= j < i - 1 implies s.drop_first()[j] == '\'' by {
            assert(s.drop_first()[j] == s[j + 1]);
        }
        lemma_unquoted_empty(s.drop_first(), i - 1);
    } else if s.len() > 0 {
        lemma_trim_end_nonempty(s);
    }
}

/// Trimming quotes at the end keeps a first character that is no quote.
proof fn lemma_trim_end_nonempty(s: Seq<char>)
    requires
        s.len() > 0,
        s[0] != '\'',
    ensures
        crate::common::trim_quotes_end(s).len() > 0,
    decreases s.len(),
{
    if s.last() == '\'' {
        assert(s.drop_last()[0] == s[0]);
        lemma_trim_end_nonempty(s.drop_last());
    }
}

/// Answers a callback of the finder, given the outcomes so far of the effects
/// that each declared action asked for.
pub fn fzf_handler(
    handler: &FzfBindHandler,
    ctx: &ShellContext,
    keymap: &KeyMap,
    outcomes: &Vec<Vec<Result<String, String>>>,
) -> (r: Response)
    ensures
        r@ == handler_response(handler@, ctx.mode@, ctx.query@, keymap@, keymap.load_error(), nested_outcomes(outcomes@)),
{
    match handler {
        FzfBindHandler::Focus { change, commit, action } => {
            if is_empty_id(change) || is_empty_id(commit) {
                let up = crate::keymap::str_eq(action.as_str(), "up");
                let a = if up { FzfAction::Up } else { FzfAction::Down };
                let r = vec![a];
                assert(actions_view(r@) =~= seq![if action@ == "up"@ { ActionView::Up } else { ActionView::Down }]);
                Response::Actions(r)
            } else {
                let r = vec![
                    FzfAction::ChangePreview(crate::protocol::VjjCommand::Show(commit.clone())),
                    FzfAction::ChangePreviewLabel(string_of(&chars_of("Preview (jj show)"))),
                ];
                assert(actions_view(r@) =~= seq![
                    ActionView::ChangePreview(CommandView::Show(commit@)),
                    ActionView::ChangePreviewLabel("Preview (jj show)"@),
                ]);
                Response::Actions(r)
            }
        },
        FzfBindHandler::Input { kind, selection } => {
            let key = match kind {
                InputKind::Change => Bindable::Sequence(ctx.query.clone()),
                InputKind::Enter => Bindable::Key(Key::Enter),
                InputKind::Esc => Bindable::Key(Key::Esc),
            };
            let shell = ShellContext::new(ctx.mode.duplicate(), ctx.query.clone(), None);
            let kctx = KeyHandlerContext::new(key, selection.duplicate(), shell);
            match kctx.handle_key_event(keymap, outcomes) {
                Response::Actions(mut v) => {
                    let ghost before = actions_view(v@);
                    v.push(FzfAction::ClearQuery);
                    assert(actions_view(v@) =~= before.push(ActionView::ClearQuery));
                    Response::Actions(v)
                },
                r => r,
            }
        },
    }
}

} // verus!
