use vjj::command::{plan, Plan};
use vjj::common::{Mode, Selection};
use vjj::compile::ShellContext;
use vjj::fzf::{Bind, Event, FzfAction};
use vjj::keymap::{Bindable, KeyMap, Keybind, ModeTable, UserAction, UserCommand};
use vjj::protocol::{FzfBindHandler, InputKind, VjjCommand, VjjShellExpression};

fn s(x: &str) -> String {
    x.to_string()
}

fn round_trip(e: &VjjShellExpression) -> String {
    let text = e.encode();
    let back = VjjShellExpression::decode(&text).expect("decodes");
    assert_eq!(back.encode(), text);
    format!("{:?}", back)
}

#[test]
fn command_round_trips() {
    for c in [
        VjjCommand::Log,
        VjjCommand::Help,
        VjjCommand::Show(s("'abc'")),
        VjjCommand::Jujutsu(vec![]),
        VjjCommand::Jujutsu(vec![s("log"), s("-r"), s("a|b")]),
        VjjCommand::Output(s("say \"hi\" \\ (ok)\nnext")),
        VjjCommand::Error(s("")),
    ] {
        let dbg = format!("{:?}", VjjShellExpression::Command(c.clone()));
        assert_eq!(round_trip(&VjjShellExpression::Command(c.clone())), dbg);
        let paged = VjjShellExpression::PagedCommand { command: c, interactive: true };
        let dbg = format!("{:?}", paged);
        assert_eq!(round_trip(&paged), dbg);
    }
}

#[test]
fn handler_round_trips() {
    let focus = VjjShellExpression::Handler(FzfBindHandler::Focus {
        change: s("{2}"),
        commit: s("{3}"),
        action: s("{fzf:action}"),
    });
    assert_eq!(round_trip(&focus), format!("{:?}", focus));
    for kind in [InputKind::Change, InputKind::Enter, InputKind::Esc] {
        let input = VjjShellExpression::Handler(FzfBindHandler::Input {
            kind,
            selection: Selection::fzf_template(2, 13),
        });
        assert_eq!(round_trip(&input), format!("{:?}", input));
    }
}

#[test]
fn encoded_forms() {
    assert_eq!(VjjShellExpression::Command(VjjCommand::Show(s("a\"b"))).encode(), "Command(Show(\"a\\\"b\"))");
    assert_eq!(
        VjjShellExpression::PagedCommand { command: VjjCommand::Jujutsu(vec![s("x"), s("y")]), interactive: false }.encode(),
        "PagedCommand(command:Jujutsu([\"x\",\"y\"]),interactive:false)"
    );
    let input = FzfBindHandler::Input { kind: InputKind::Enter, selection: Selection::fzf_template(2, 3) };
    assert_eq!(
        input.encode(),
        "Handler(Input(kind:Enter,selection:(change:(\"{2}\",\"{+2}\"),commit:(\"{3}\",\"{+3}\"))))"
    );
}

#[test]
fn decode_rejects_malformed() {
    assert!(VjjShellExpression::decode("").is_none());
    assert!(VjjShellExpression::decode("Command(Log").is_none());
    assert!(VjjShellExpression::decode("Command(Log))").is_none());
    assert!(VjjShellExpression::decode("Command(Show(\"abc))").is_none());
    assert!(VjjShellExpression::decode("Command(Jujutsu([\"a\",]))").is_none());
    assert!(VjjShellExpression::decode("Paged(Log)").is_none());
}

#[test]
fn prompt_round_trip() {
    assert_eq!(Mode::Normal.prompt(), "NORMAL: ");
    assert_eq!(Mode::Obslog(s("x\"y")).prompt(), "OBSLOG(\"x\\\"y\"): ");
    for m in [Mode::Normal, Mode::Revset, Mode::Obslog(s("rev: 1"))] {
        assert_eq!(Mode::from_prompt(&m.prompt()), Some(m));
    }
    assert_eq!(Mode::from_prompt(""), None);
    assert_eq!(Mode::from_prompt("OTHER: "), None);
}

#[test]
fn action_texts() {
    assert_eq!(FzfAction::Abort.to_text(), "abort");
    assert_eq!(FzfAction::ClearQuery.to_text(), "clear-query");
    assert_eq!(FzfAction::ChangePrompt(Mode::Revset).to_text(), "change-prompt(REVSET: )");
    assert_eq!(FzfAction::ExecuteSilent(VjjCommand::Log).to_text(), "execute-silent(Command(Log))");
    assert_eq!(FzfAction::Preview(VjjCommand::Help).to_text(), "preview(Command(Help))");
    assert_eq!(
        FzfAction::Execute { command: VjjCommand::Help, interactive: true }.to_text(),
        "execute(PagedCommand(command:Help,interactive:true))"
    );
    assert_eq!(FzfAction::Up.params(), None);
}

#[test]
fn bind_flag_values() {
    let b = Bind::Actions(Event::Start, vec![FzfAction::Reload(VjjCommand::Log), FzfAction::Down]);
    assert_eq!(b.flag_value(), "start:reload(Command(Log))+down");
    let t = Bind::Transform(
        Event::Focus,
        FzfBindHandler::Focus { change: s("{2}"), commit: s("{3}"), action: s("{fzf:action}") },
    );
    assert_eq!(
        t.flag_value(),
        "focus:transform:Handler(Focus(change:\"{2}\",commit:\"{3}\",action:\"{fzf:action}\"))"
    );
}

#[test]
fn selection_parsing() {
    let sel = Selection::new((s("'abc'"), s("'abc' 'def'")), (s("''"), s("")));
    let c = sel.change();
    assert_eq!(c.focused, Some(s("abc")));
    assert_eq!(c.selected, vec![s("abc"), s("def")]);
    assert_eq!(c.selected_revset(), "abc|def");
    let m = sel.commit();
    assert_eq!(m.focused, None);
    assert!(m.selected.is_empty());
    assert_eq!(m.selected_revset(), "");
    let sel = Selection::new((s("x"), s("  'a'\t'b'  ")), (s("'a'"), s("'a' 'b' 'c'")));
    assert_eq!(sel.change().selected, vec![s("a"), s("b")]);
    assert_eq!(sel.commit().selected_revset(), "a|b|c");
}

#[test]
fn template_selection_placeholders() {
    let t = Selection::fzf_template(2, 13);
    assert_eq!(t.change_payload(), (s("{2}"), s("{+2}")));
    assert_eq!(t.commit_payload(), (s("{13}"), s("{+13}")));
}

#[test]
fn mode_header_and_keymap_names() {
    assert_eq!(Mode::Normal.header(), "Press ? for help, q to quit");
    assert_eq!(Mode::Obslog(s("x")).header(), "Press ? for help, q to quit");
    assert_eq!(Mode::Revset.header(), "Press ? for help, ctrl+c to quit");
    assert_eq!(Mode::Normal.keymap(), "normal");
    assert_eq!(Mode::Revset.keymap(), "revset");
    assert_eq!(Mode::Obslog(s("x")).keymap(), "obslog");
}

#[test]
fn table_insert_keeps_order_and_replaces() {
    let mut t = ModeTable::new();
    t.insert(Bindable::new("b"), Keybind(s("b1"), vec![]));
    t.insert(Bindable::new("a"), Keybind(s("a"), vec![]));
    t.insert(Bindable::Key(vjj::keymap::Key::Enter), Keybind(s("enter"), vec![]));
    t.insert(Bindable::Key(vjj::keymap::Key::Esc), Keybind(s("esc"), vec![]));
    t.insert(Bindable::new("b"), Keybind(s("b2"), vec![UserAction::Quit]));
    assert_eq!(t.len(), 4);
    let labels: Vec<String> = (0..t.len()).map(|i| t.entry(i).0.label()).collect();
    assert_eq!(labels, vec![s("esc"), s("enter"), s("a"), s("b")]);
    assert_eq!(t.get(&Bindable::new("b")).unwrap().0, "b2");
    assert!(t.get(&Bindable::new("c")).is_none());
}

fn run_args(p: Plan) -> Vec<String> {
    match p {
        Plan::Run(a) => a,
        other => panic!("unexpected {:?}", other),
    }
}

#[test]
fn plans_for_commands() {
    let km = KeyMap::new();
    let normal = ShellContext::new(Mode::Normal, s(""), None);
    assert_eq!(
        run_args(plan(&VjjCommand::Log, &normal, &km, "cfg")),
        vec![s("--ignore-working-copy"), s("--config-toml"), s("cfg"), s("log")]
    );
    let with_revset = ShellContext::new(Mode::Revset, s(""), Some(s("a|b")));
    assert_eq!(
        run_args(plan(&VjjCommand::Log, &with_revset, &km, "cfg")),
        vec![s("--ignore-working-copy"), s("--config-toml"), s("cfg"), s("log"), s("-r"), s("a|b")]
    );
    let obslog = ShellContext::new(Mode::Obslog(s("xyz")), s(""), Some(s("ignored")));
    assert_eq!(
        run_args(plan(&VjjCommand::Log, &obslog, &km, "cfg")),
        vec![s("--ignore-working-copy"), s("--config-toml"), s("cfg"), s("obslog"), s("-r"), s("xyz")]
    );
    assert_eq!(
        run_args(plan(&VjjCommand::Show(s("'abc'")), &normal, &km, "cfg")),
        vec![s("--ignore-working-copy"), s("show"), s("abc")]
    );
    assert!(matches!(plan(&VjjCommand::Show(s("''")), &normal, &km, "cfg"), Plan::Nothing));
    assert!(matches!(plan(&VjjCommand::Error(s("bad")), &normal, &km, "cfg"), Plan::PrintError(t) if t == "bad"));
    assert!(matches!(plan(&VjjCommand::Output(s("out")), &normal, &km, "cfg"), Plan::Print(t) if t == "out"));
    assert!(matches!(plan(&VjjCommand::Help, &normal, &km, "cfg"), Plan::Print(t) if t == "No Commands Available"));
}

#[test]
fn help_lists_bindings() {
    let mut t = ModeTable::new();
    t.insert(Bindable::new("q"), Keybind(s("quit"), vec![UserAction::Quit]));
    t.insert(Bindable::new("g g"), Keybind(s("top"), vec![]));
    t.insert(Bindable::Key(vjj::keymap::Key::Enter), Keybind(s("accept"), vec![]));
    let mut km = KeyMap::new();
    km.add_table(s("normal"), t);
    let normal = ShellContext::new(Mode::Normal, s(""), None);
    match plan(&VjjCommand::Help, &normal, &km, "") {
        Plan::Print(text) => assert_eq!(
            text,
            "### NORMAL MODE HELP ###\nenter      accept\ng<space>g  top\nq          quit"
        ),
        other => panic!("unexpected {:?}", other),
    }
}

#[test]
fn action_text_round_trips() {
    let actions = vec![
        FzfAction::ClearQuery,
        FzfAction::Abort,
        FzfAction::Up,
        FzfAction::Down,
        FzfAction::ChangePrompt(Mode::Obslog(s("r(1)"))),
        FzfAction::ChangeBorderLabel(s("a|b")),
        FzfAction::ChangePreview(VjjCommand::Output(s("x)y"))),
        FzfAction::ChangePreviewLabel(s("Output (jj st)")),
        FzfAction::Preview(VjjCommand::Show(s("'a'"))),
        FzfAction::ChangeHeader(s("h (1) + 2")),
        FzfAction::Become(VjjCommand::Output(s("done"))),
        FzfAction::Execute { command: VjjCommand::Jujutsu(vec![s("describe")]), interactive: true },
        FzfAction::ExecuteSilent(VjjCommand::Log),
        FzfAction::Reload(VjjCommand::Log),
    ];
    for a in actions {
        let text = a.to_text();
        let back = FzfAction::from_text(&text).expect("reads back");
        assert_eq!(format!("{:?}", back), format!("{:?}", a));
        assert_eq!(back.to_text(), text);
    }
    assert!(FzfAction::from_text("reload(Log)").is_none());
    assert!(FzfAction::from_text("jump").is_none());
    assert!(FzfAction::from_text("change-prompt(NORMAL)").is_none());
}

#[test]
fn user_command_round_trips() {
    let shell = UserCommand::Shell { command: s("jj log -r '{commit:focused}'") };
    assert_eq!(shell.encode(), "(command:\"jj log -r '{commit:focused}'\")");
    let plain = UserCommand::Plain(s("say \"x\""));
    assert_eq!(plain.encode(), "\"say \\\"x\\\"\"");
    for c in [shell, plain] {
        let back = UserCommand::decode(&c.encode()).expect("decodes");
        assert_eq!(format!("{:?}", back), format!("{:?}", c));
    }
    assert!(UserCommand::decode("(command:\"x\"").is_none());
    assert!(UserCommand::decode("plain").is_none());
}

#[test]
fn requests_are_one_line() {
    let e = VjjShellExpression::Command(VjjCommand::Output(s("line one\nline two\r\n\ttabbed")));
    let text = e.encode();
    assert!(!text.contains('\n'));
    assert!(!text.contains('\r'));
    assert_eq!(text, "Command(Output(\"line one\\nline two\\r\\n\\ttabbed\"))");
    let back = VjjShellExpression::decode(&text).unwrap();
    assert_eq!(format!("{:?}", back), format!("{:?}", e));
    let a = FzfAction::ChangePreview(VjjCommand::Output(s("a\nb")));
    assert_eq!(a.to_text(), "change-preview(Command(Output(\"a\\nb\")))");
    assert!(matches!(FzfAction::from_text(&a.to_text()), Some(FzfAction::ChangePreview(VjjCommand::Output(t))) if t == "a\nb"));
}

#[test]
fn help_reports_unreadable_keymap() {
    let km = KeyMap::unreadable(s("io error: not found"));
    let normal = ShellContext::new(Mode::Normal, s(""), None);
    assert!(matches!(plan(&VjjCommand::Help, &normal, &km, ""), Plan::PrintError(t) if t == "io error: not found"));
}

#[test]
fn selections_and_requests_clone() {
    let sel = Selection::new((s("'a'"), s("'a'")), (s("'b'"), s("'b'")));
    let copy = sel.clone();
    assert_eq!(copy.commit().focused, Some(s("b")));
    let e = VjjShellExpression::Handler(FzfBindHandler::Input { kind: InputKind::Esc, selection: sel });
    assert_eq!(e.clone().encode(), e.encode());
}
