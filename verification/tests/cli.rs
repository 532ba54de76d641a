use tokimo_bus::cli::{
    build_signature, collect_leaves, format_option_left, format_option_right, is_value_taking, render_help,
    trim_trailing_punctuation, ArgActionKind, ArgInfo, CommandInfo, Credentials, TokimoAuthArgs,
};

fn arg(id: &str) -> ArgInfo {
    ArgInfo {
        id: id.into(),
        long: None,
        positional: false,
        required: false,
        global: false,
        multiple: false,
        action: ArgActionKind::Store,
        value_name: None,
        help: None,
        env: None,
    }
}

fn positional(id: &str, required: bool, multiple: bool) -> ArgInfo {
    ArgInfo { positional: true, required, multiple, ..arg(id) }
}

fn leaf(name: &str, about: Option<&str>, args: Vec<ArgInfo>) -> CommandInfo {
    CommandInfo {
        name: name.into(),
        about: about.map(|s| s.to_string()),
        long_about: None,
        args,
        subcommands: vec![],
    }
}

fn group(name: &str, subcommands: Vec<CommandInfo>) -> CommandInfo {
    CommandInfo { name: name.into(), about: None, long_about: None, args: vec![], subcommands }
}

#[test]
fn blank_token_is_missing() {
    let e = Credentials::resolve(&TokimoAuthArgs { token: Some("  ".into()) }).unwrap_err();
    assert_eq!(
        e.message,
        "missing --tokimo-token (or TOKIMO_TOKEN env). Create one in the main server Settings → API Keys."
    );
}

#[test]
fn trims_trailing_punctuation() {
    assert_eq!(trim_trailing_punctuation("列出所有笔记。".into()), "列出所有笔记");
    assert_eq!(trim_trailing_punctuation("Done!?.".into()), "Done");
    assert_eq!(trim_trailing_punctuation("a, b".into()), "a, b");
    assert_eq!(trim_trailing_punctuation("…".into()), "");
    assert_eq!(trim_trailing_punctuation(String::new()), "");
}

#[test]
fn value_taking_actions() {
    assert!(is_value_taking(ArgActionKind::Store));
    assert!(is_value_taking(ArgActionKind::Append));
    assert!(is_value_taking(ArgActionKind::HelpShort));
    assert!(!is_value_taking(ArgActionKind::SetTrue));
    assert!(!is_value_taking(ArgActionKind::SetFalse));
    assert!(!is_value_taking(ArgActionKind::Count));
    assert!(!is_value_taking(ArgActionKind::Help));
    assert!(!is_value_taking(ArgActionKind::Version));
}

#[test]
fn signature_lists_positionals() {
    let cmd = leaf(
        "get",
        None,
        vec![positional("id", true, false), arg("verbose"), positional("fields", false, true)],
    );
    let path = vec!["notes".to_string(), "get".to_string()];
    assert_eq!(build_signature(&cmd, &path), "notes get <ID> [FIELDS]...");
}

#[test]
fn option_columns() {
    let mut a = arg("tokimo_token");
    a.long = Some("tokimo-token".into());
    a.help = Some("  API token  \nsecond line".into());
    a.env = Some("TOKIMO_TOKEN".into());
    assert_eq!(format_option_left(&a), "--tokimo-token <TOKIMO_TOKEN>");
    assert_eq!(format_option_right(&a), "API token  [env: TOKIMO_TOKEN]");
    a.value_name = Some("tok".into());
    assert_eq!(format_option_left(&a), "--tokimo-token <TOK>");
    let mut flag = arg("json");
    flag.long = Some("json".into());
    flag.action = ArgActionKind::SetTrue;
    assert_eq!(format_option_left(&flag), "--json");
    assert_eq!(format_option_right(&flag), "");
    flag.env = Some("JSON".into());
    assert_eq!(format_option_right(&flag), "[env: JSON]");
    assert_eq!(format_option_left(&arg("x")), "");
}

#[test]
fn leaves_flatten_depth_first() {
    let root = CommandInfo {
        name: "notes".into(),
        about: None,
        long_about: None,
        args: vec![],
        subcommands: vec![
            leaf("list", Some("List notes.\nMore text"), vec![]),
            group("tag", vec![leaf("add", Some("Add a tag。"), vec![positional("name", true, false)]), leaf("help", None, vec![])]),
            leaf("help", None, vec![]),
        ],
    };
    let rows = collect_leaves(&root, &vec![]);
    assert_eq!(
        rows,
        vec![
            ("list".to_string(), "List notes".to_string()),
            ("tag add <NAME>".to_string(), "Add a tag".to_string()),
        ]
    );
}

#[test]
fn unified_help_page() {
    let mut token = arg("tokimo_token");
    token.long = Some("tokimo-token".into());
    token.global = true;
    token.help = Some("API token".into());
    token.env = Some("TOKIMO_TOKEN".into());
    let mut help = arg("help");
    help.long = Some("help".into());
    help.global = true;
    help.action = ArgActionKind::Help;
    let root = CommandInfo {
        name: "notes".into(),
        about: Some("Notes CLI".into()),
        long_about: None,
        args: vec![token, help],
        subcommands: vec![
            leaf("list", Some("List notes."), vec![]),
            leaf("remove", None, vec![positional("id", true, false)]),
        ],
    };
    let lines = render_help(&root);
    assert_eq!(
        lines,
        vec![
            "Notes CLI",
            "",
            "Usage: notes [OPTIONS] <SUBCOMMAND>",
            "",
            "Commands:",
            "  list         List notes",
            "  remove <ID>",
            "",
            "Global Options:",
            "  --tokimo-token <TOKIMO_TOKEN>  API token  [env: TOKIMO_TOKEN]",
            "",
            "Run 'notes <subcommand> --help' for details on a specific command.",
        ]
    );
}

#[test]
fn help_page_without_commands_or_options() {
    let root = CommandInfo {
        name: "x".into(),
        about: Some("short".into()),
        long_about: Some("long".into()),
        args: vec![],
        subcommands: vec![],
    };
    assert_eq!(
        render_help(&root),
        vec![
            "long",
            "",
            "Usage: x [OPTIONS] <SUBCOMMAND>",
            "",
            "Run 'x <subcommand> --help' for details on a specific command.",
        ]
    );
}
