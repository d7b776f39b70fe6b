use vjj::binding::fzf_handler;
use vjj::common::{Mode, Selection};
use vjj::compile::{Effect, KeyHandlerContext, Response, ShellContext, Step};
use vjj::fzf::{join_actions, FzfAction};
use vjj::keymap::{Bindable, Key, KeyMap, Keybind, ModeTable, UserAction, UserCommand, UserMode};
use vjj::protocol::{FzfBindHandler, InputKind};
use vjj::whichkey::which_key;

fn s(x: &str) -> String {
    x.to_string()
}

fn bind(help: &str, actions: Vec<UserAction>) -> Keybind {
    Keybind(s(help), actions)
}

fn keymap_of(name: &str, entries: Vec<(Bindable, Keybind)>) -> KeyMap {
    let mut table = ModeTable::new();
    for (k, b) in entries {
        table.insert(k, b);
    }
    let mut km = KeyMap::new();
    km.add_table(s(name), table);
    km
}

fn selection(change: (&str, &str), commit: (&str, &str)) -> Selection {
    Selection::new((s(change.0), s(change.1)), (s(commit.0), s(commit.1)))
}

fn ctx(key: Bindable, query: &str, sel: Selection) -> KeyHandlerContext {
    KeyHandlerContext::new(key, sel, ShellContext::new(Mode::Normal, s(query), None))
}

fn actions_text(r: Response) -> String {
    match r {
        Response::Actions(v) => join_actions(&v),
        other => panic!("expected actions, got {:?}", other),
    }
}

fn no_outcomes() -> Vec<Vec<Result<String, String>>> {
    Vec::new()
}

const RED: &str = "\u{1b}[31m";
const BLUE: &str = "\u{1b}[34m";
const RESET: &str = "\u{1b}[0m";

#[test]
fn help_key_opens_help_in_any_mode() {
    let empty = KeyMap::new();
    let r = ctx(Bindable::new("?"), "?", selection(("", ""), ("", ""))).handle_key_event(&empty, &no_outcomes());
    assert_eq!(actions_text(r), "execute(PagedCommand(command:Help,interactive:false))");
    let km = keymap_of("normal", vec![(Bindable::new("?"), bind("not help", vec![UserAction::Quit]))]);
    let k = KeyHandlerContext::new(
        Bindable::new("?"),
        selection(("", ""), ("", "")),
        ShellContext::new(Mode::Obslog(s("x")), s("?"), None),
    );
    assert_eq!(actions_text(k.handle_key_event(&km, &no_outcomes())), "execute(PagedCommand(command:Help,interactive:false))");
}

#[test]
fn missing_mode_table_is_an_error_action() {
    let km = keymap_of("revset", vec![]);
    let r = ctx(Bindable::new("q"), "q", selection(("", ""), ("", ""))).handle_key_event(&km, &no_outcomes());
    assert_eq!(
        actions_text(r),
        "execute(PagedCommand(command:Error(\"missing keymap: normal\"),interactive:false))"
    );
}

#[test]
fn unbound_key_only_refreshes_header() {
    let km = keymap_of(
        "normal",
        vec![
            (Bindable::new("ab"), bind("alpha", vec![UserAction::Quit])),
            (Bindable::new("a"), bind("prefix", vec![])),
        ],
    );
    let r = ctx(Bindable::new("zz"), "zz", selection(("", ""), ("", ""))).handle_key_event(&km, &no_outcomes());
    match r {
        Response::Header(h) => assert_eq!(h.to_text(), "change-header(Press ? for help, q to quit)"),
        other => panic!("unexpected {:?}", other),
    }
    let r = ctx(Bindable::new("a"), "a", selection(("", ""), ("", ""))).handle_key_event(&km, &no_outcomes());
    match r {
        Response::Header(h) => {
            assert_eq!(h.to_text(), format!("change-header({RED}ab{RESET}  alpha │)"));
            assert_eq!(Some(format!("{RED}ab{RESET}  alpha │")), which_key(&km, &Mode::Normal, "a"));
        }
        other => panic!("unexpected {:?}", other),
    }
}

#[test]
fn reload_key_compiles_to_header_reload_header() {
    let km = keymap_of("normal", vec![(Bindable::new("l"), bind("log", vec![UserAction::ReloadLog]))]);
    let r = ctx(Bindable::new("l"), "l", selection(("", ""), ("", ""))).handle_key_event(&km, &no_outcomes());
    assert_eq!(
        actions_text(r),
        format!(
            "change-header({RED}l{RESET}  log │)+reload(Command(Log))+change-header(Press ? for help, q to quit)"
        )
    );
}

#[test]
fn actions_keep_declaration_order() {
    let km = keymap_of(
        "normal",
        vec![(Bindable::new("x"), bind("reload and quit", vec![UserAction::ReloadLog, UserAction::Quit]))],
    );
    let r = ctx(Bindable::new("x"), "x", selection(("", ""), ("", ""))).handle_key_event(&km, &no_outcomes());
    let header = format!("{RED}x{RESET}  reload and quit │");
    assert_eq!(
        actions_text(r),
        format!("change-header({header})+reload(Command(Log))+change-header(Press ? for help, q to quit)+abort")
    );
}

#[test]
fn which_key_two_columns() {
    let km = keymap_of(
        "normal",
        vec![
            (Bindable::new("ad"), bind("z", vec![UserAction::Quit])),
            (Bindable::new("ab"), bind("x", vec![UserAction::Quit])),
            (Bindable::new("ac"), bind("yy", vec![])),
            (Bindable::new("abc"), bind("longer", vec![UserAction::Quit])),
            (Bindable::new("b"), bind("other", vec![UserAction::Quit])),
            (Bindable::Key(Key::Enter), bind("enter", vec![UserAction::Quit])),
        ],
    );
    let left1 = format!("{RED}ab{RESET}  x");
    let left2 = format!("{BLUE}ac{RESET}  yy");
    let right1 = format!("{RED}ad{RESET}  z");
    let expected = format!("{left1}  │ {right1}\n{left2} │");
    assert_eq!(which_key(&km, &Mode::Normal, "a"), Some(expected));
    assert_eq!(which_key(&km, &Mode::Normal, "q"), None);
    assert_eq!(which_key(&km, &Mode::Revset, "a"), None);
}

#[test]
fn which_key_only_next_keystroke() {
    let km = keymap_of(
        "normal",
        vec![
            (Bindable::new("g"), bind("go", vec![])),
            (Bindable::new("gg"), bind("top", vec![UserAction::Quit])),
            (Bindable::new("ggg"), bind("deep", vec![UserAction::Quit])),
            (Bindable::new("h"), bind("other", vec![UserAction::Quit])),
        ],
    );
    let hint = which_key(&km, &Mode::Normal, "g").unwrap();
    assert!(hint.contains("gg"));
    assert!(!hint.contains("deep"));
    assert!(!hint.contains("other"));
    let top = which_key(&km, &Mode::Normal, "").unwrap();
    assert_eq!(top, format!("{BLUE}g{RESET}  go │ {RED}h{RESET}  other"));
}

#[test]
fn space_key_label() {
    assert_eq!(Bindable::new("a b").label(), "a<space>b");
    assert_eq!(Bindable::Key(Key::Esc).label(), "esc");
    assert_eq!(Bindable::Key(Key::Enter).label(), "enter");
}

#[test]
fn focus_with_empty_commit_moves_down() {
    let km = KeyMap::new();
    let sc = ShellContext::new(Mode::Normal, s(""), None);
    let h = FzfBindHandler::Focus { change: s("'abc'"), commit: s("''"), action: s("down") };
    assert_eq!(actions_text(fzf_handler(&h, &sc, &km, &no_outcomes())), "down");
    let h = FzfBindHandler::Focus { change: s(""), commit: s("'abc'"), action: s("up") };
    assert_eq!(actions_text(fzf_handler(&h, &sc, &km, &no_outcomes())), "up");
}

#[test]
fn focus_with_selection_previews_commit() {
    let km = KeyMap::new();
    let sc = ShellContext::new(Mode::Normal, s(""), None);
    let h = FzfBindHandler::Focus { change: s("'abc'"), commit: s("'def'"), action: s("down") };
    assert_eq!(
        actions_text(fzf_handler(&h, &sc, &km, &no_outcomes())),
        "change-preview(Command(Show(\"'def'\")))+change-preview-label(Preview (jj show))"
    );
}

#[test]
fn input_handler_clears_query_after_actions() {
    let km = keymap_of("normal", vec![(Bindable::Key(Key::Esc), bind("quit", vec![UserAction::Quit]))]);
    let sc = ShellContext::new(Mode::Normal, s("whatever"), None);
    let h = FzfBindHandler::Input { kind: InputKind::Esc, selection: selection(("", ""), ("", "")) };
    assert_eq!(
        actions_text(fzf_handler(&h, &sc, &km, &no_outcomes())),
        "change-header(Press ? for help, q to quit)+abort+clear-query"
    );
}

#[test]
fn jujutsu_failure_output_is_shown_in_preview() {
    let km = keymap_of("normal", vec![(Bindable::new("s"), bind("status", vec![UserAction::Jujutsu(vec![s("status")])]))]);
    let k = ctx(Bindable::new("s"), "s", selection(("", ""), ("", "")));
    match k.handle_key_event(&km, &no_outcomes()) {
        Response::Need { index, effect: Effect::Jujutsu(args) } => {
            assert_eq!(index, 0);
            assert_eq!(args, vec![s("status")]);
        }
        other => panic!("unexpected {:?}", other),
    }
    let outs = vec![vec![Ok(s("Error: no such revision"))]];
    let text = actions_text(k.handle_key_event(&km, &outs));
    assert!(text.contains("+reload(Command(Log))+change-preview(Command(Output(\"Error: no such revision\")))+change-preview-label(Output (jj status))"));
}

#[test]
fn failing_effect_becomes_error_action() {
    let km = keymap_of("normal", vec![(Bindable::new("s"), bind("status", vec![UserAction::Jujutsu(vec![s("status")]), UserAction::Quit]))]);
    let k = ctx(Bindable::new("s"), "s", selection(("", ""), ("", "")));
    let outs = vec![vec![Err(s("io error: not found"))]];
    let text = actions_text(k.handle_key_event(&km, &outs));
    assert!(text.ends_with("+execute(PagedCommand(command:Error(\"io error: not found\"),interactive:false))+abort"));
}

#[test]
fn commit_focused_fails_when_empty() {
    let k = ctx(Bindable::new("y"), "y", selection(("'a'", "'a'"), ("''", "")));
    let km = KeyMap::new();
    let step = k.compile_action(&UserAction::Accept(UserCommand::Plain(s("{commit:focused}"))), &km, &Vec::new());
    match step {
        Step::Done(v) => {
            assert_eq!(v.len(), 1);
            assert!(v[0].to_text().starts_with("execute(PagedCommand(command:Error(\"template error: "));
        }
        other => panic!("unexpected {:?}", other),
    }
}

#[test]
fn commit_selected_revset_renders_with_bars() {
    let k = ctx(Bindable::new("y"), "y", selection(("", ""), ("'a'", "'a' 'b' 'c'")));
    let km = KeyMap::new();
    let step = k.compile_action(&UserAction::Accept(UserCommand::Plain(s("{commit:selected_revset}"))), &km, &Vec::new());
    match step {
        Step::Done(v) => assert_eq!(join_actions(&v), "become(Command(Output(\"a|b|c\")))"),
        other => panic!("unexpected {:?}", other),
    }
}

#[test]
fn template_variables() {
    let k = ctx(Bindable::new("y"), "my query", selection(("'c1'", "'c1' 'c2'"), ("'m1'", "'m1'")));
    let km = KeyMap::new();
    let step = k.compile_action(
        &UserAction::JujutsuPaged(vec![s("{query}"), s("{change:focused}"), s("{change:selected}"), s("{commit:selected}")]),
        &km,
        &Vec::new(),
    );
    match step {
        Step::Done(v) => assert_eq!(
            join_actions(&v),
            "execute(PagedCommand(command:Jujutsu([\"my query\",\"c1\",\"c1\\nc2\",\"m1\"]),interactive:false))+reload(Command(Log))"
        ),
        other => panic!("unexpected {:?}", other),
    }
}

#[test]
fn yank_runs_shell_then_clipboard() {
    let k = ctx(Bindable::new("y"), "y", selection(("", ""), ("'m1'", "")));
    let km = KeyMap::new();
    let a = UserAction::Yank(UserCommand::Shell { command: s("echo {commit:focused}") });
    match k.compile_action(&a, &km, &Vec::new()) {
        Step::Need(Effect::Shell(c)) => assert_eq!(c, "echo m1"),
        other => panic!("unexpected {:?}", other),
    }
    match k.compile_action(&a, &km, &vec![Ok(s("m1 \n"))]) {
        Step::Need(Effect::Clipboard(t)) => assert_eq!(t, "m1"),
        other => panic!("unexpected {:?}", other),
    }
    match k.compile_action(&a, &km, &vec![Ok(s("m1 \n")), Ok(s(""))]) {
        Step::Done(v) => assert!(v.is_empty()),
        other => panic!("unexpected {:?}", other),
    }
    match k.compile_action(&a, &km, &vec![Ok(s("m1 \n")), Err(s("boxed error: no clipboard"))]) {
        Step::Done(v) => assert_eq!(join_actions(&v), "execute(PagedCommand(command:Error(\"boxed error: no clipboard\"),interactive:false))"),
        other => panic!("unexpected {:?}", other),
    }
}

#[test]
fn mode_change_to_obslog_evaluates_revision() {
    let km = KeyMap::new();
    let k = ctx(Bindable::new("o"), "o", selection(("", ""), ("'m1'", "")));
    let a = UserAction::Mode(UserMode::Obslog(UserCommand::Plain(s("{commit:focused}"))));
    match k.compile_action(&a, &km, &Vec::new()) {
        Step::Done(v) => assert_eq!(
            join_actions(&v),
            "change-prompt(OBSLOG(\"m1\"): )+change-header(Press ? for help, q to quit)+reload(Command(Log))"
        ),
        other => panic!("unexpected {:?}", other),
    }
    match k.compile_action(&UserAction::Mode(UserMode::Revset), &km, &Vec::new()) {
        Step::Done(v) => assert_eq!(
            join_actions(&v),
            "change-prompt(REVSET: )+change-header(Press ? for help, ctrl+c to quit)+reload(Command(Log))"
        ),
        other => panic!("unexpected {:?}", other),
    }
}

#[test]
fn change_revset_and_accept() {
    let km = KeyMap::new();
    let k = ctx(Bindable::new("r"), "r", selection(("", ""), ("'m1'", "'m1' 'm2'")));
    match k.compile_action(&UserAction::ChangeRevset(UserCommand::Plain(s("{commit:selected_revset}"))), &km, &Vec::new()) {
        Step::Done(v) => assert_eq!(join_actions(&v), "change-border-label(m1|m2)+reload(Command(Log))"),
        other => panic!("unexpected {:?}", other),
    }
    match k.compile_action(&UserAction::Accept(UserCommand::Shell { command: s("echo x") }), &km, &vec![Ok(s("x\n"))]) {
        Step::Done(v) => assert_eq!(join_actions(&v), "become(Command(Output(\"x\")))"),
        other => panic!("unexpected {:?}", other),
    }
}

#[test]
fn evaluate_plain_and_shell_commands() {
    match UserCommand::Plain(s("text")).evaluate(&Vec::new()) {
        vjj::compile::Eval::Value(v, used) => {
            assert_eq!(v, "text");
            assert_eq!(used, 0);
        }
        other => panic!("unexpected {:?}", other),
    }
    let shell = UserCommand::Shell { command: s("echo hi") };
    assert!(matches!(shell.evaluate(&Vec::new()), vjj::compile::Eval::Need(Effect::Shell(c)) if c == "echo hi"));
    assert!(matches!(shell.evaluate(&vec![Ok(s("hi\t \n"))]), vjj::compile::Eval::Value(v, 1) if v == "hi"));
    assert!(matches!(shell.evaluate(&vec![Err(s("io error: x"))]), vjj::compile::Eval::Failed(m) if m == "io error: x"));
}

#[test]
fn keymap_table_per_mode() {
    let km = keymap_of("revset", vec![(Bindable::new("q"), bind("quit", vec![UserAction::Quit]))]);
    assert!(km.get_keymap(&Mode::Normal).is_none());
    assert_eq!(km.get_keymap(&Mode::Revset).unwrap().len(), 1);
    assert!(km.get_keymap(&Mode::Obslog(s("x"))).is_none());
}

#[test]
fn unreadable_keymap_reports_its_error_on_use() {
    let km = KeyMap::unreadable(s("ron error: 1:1: Expected map"));
    let r = ctx(Bindable::new("q"), "q", selection(("", ""), ("", ""))).handle_key_event(&km, &no_outcomes());
    assert_eq!(
        actions_text(r),
        "execute(PagedCommand(command:Error(\"ron error: 1:1: Expected map\"),interactive:false))"
    );
    assert_eq!(which_key(&km, &Mode::Normal, ""), None);
    let r = ctx(Bindable::new("?"), "?", selection(("", ""), ("", ""))).handle_key_event(&km, &no_outcomes());
    assert_eq!(actions_text(r), "execute(PagedCommand(command:Help,interactive:false))");
}

#[test]
fn status_key_with_failing_jj_shows_its_errors() {
    let km = keymap_of("normal", vec![(Bindable::new("s"), bind("status", vec![UserAction::Jujutsu(vec![s("status")])]))]);
    let k = ctx(Bindable::new("s"), "s", selection(("", ""), ("", "")));
    let outs = vec![vec![Ok(s("out\nError: failed\n"))]];
    let header = format!("{RED}s{RESET}  status │");
    assert_eq!(
        actions_text(k.handle_key_event(&km, &outs)),
        format!(
            "change-header({header})+reload(Command(Log))+change-preview(Command(Output(\"out\\nError: failed\\n\")))+change-preview-label(Output (jj status))"
        )
    );
}
