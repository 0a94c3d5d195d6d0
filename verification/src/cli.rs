//! Command-line parsing for the `tremolite` program.
use vstd::prelude::*;
use crate::text::{parse_uint, parse_uint_spec, str_eq, to_chars};

verus! {

/// Subcommands of the `tremolite` program.
#[derive(Debug)]
pub enum Subcommand {
    /// Interactive session (the default).
    Run,
    /// Daemon mode (HTTP API service).
    Daemon { port: u16, dashboard_port: u16 },
    /// Terminal UI.
    Tui,
    /// Web dashboard.
    Dashboard { port: u16, dashboard_port: u16 },
    /// Plan management.
    Plan { action: String, args: Vec<String> },
    /// Tool management.
    Tool { action: String, args: Vec<String> },
    /// Skill management.
    Skill { action: String, args: Vec<String> },
    /// Configuration management.
    Config { action: String, args: Vec<String> },
    /// Health check.
    Health,
    /// Session management.
    Session { action: String, args: Vec<String> },
    /// Version information.
    Version,
    /// Help text.
    Help,
}

/// The abstract value of a [`Subcommand`].
pub enum SubcommandView {
    Run,
    Daemon { port: u16, dashboard_port: u16 },
    Tui,
    Dashboard { port: u16, dashboard_port: u16 },
    Plan { action: Seq<char>, args: Seq<Seq<char>> },
    Tool { action: Seq<char>, args: Seq<Seq<char>> },
    Skill { action: Seq<char>, args: Seq<Seq<char>> },
    Config { action: Seq<char>, args: Seq<Seq<char>> },
    Health,
    Session { action: Seq<char>, args: Seq<Seq<char>> },
    Version,
    Help,
}

/// The character sequences of a list of strings.
pub open spec fn strings_view(v: Seq<String>) -> Seq<Seq<char>> {
    v.map_values(|s: String| s@)
}

/// The character sequence inside an optional string.
pub open spec fn opt_string_view(o: Option<String>) -> Option<Seq<char>> {
    match o {
        Some(s) => Some(s@),
        None => None,
    }
}

impl View for Subcommand {
    type V = SubcommandView;

    open spec fn view(&self) -> SubcommandView {
        match self {
            Subcommand::Run => SubcommandView::Run,
            Subcommand::Daemon { port, dashboard_port } => SubcommandView::Daemon {
                port: *port,
                dashboard_port: *dashboard_port,
            },
            Subcommand::Tui => SubcommandView::Tui,
            Subcommand::Dashboard { port, dashboard_port } => SubcommandView::Dashboard {
                port: *port,
                dashboard_port: *dashboard_port,
            },
            Subcommand::Plan { action, args } => SubcommandView::Plan {
                action: action@,
                args: strings_view(args@),
            },
            Subcommand::Tool { action, args } => SubcommandView::Tool {
                action: action@,
                args: strings_view(args@),
            },
            Subcommand::Skill { action, args } => SubcommandView::Skill {
                action: action@,
                args: strings_view(args@),
            },
            Subcommand::Config { action, args } => SubcommandView::Config {
                action: action@,
                args: strings_view(args@),
            },
            Subcommand::Health => SubcommandView::Health,
            Subcommand::Session { action, args } => SubcommandView::Session {
                action: action@,
                args: strings_view(args@),
            },
            Subcommand::Version => SubcommandView::Version,
            Subcommand::Help => SubcommandView::Help,
        }
    }
}

/// A fully parsed command line.
#[derive(Debug)]
pub struct ParsedCommand {
    pub subcommand: Subcommand,
    pub config_path: Option<String>,
    pub log_level: String,
    pub session_id: String,
    pub gateway_url: String,
}

// ─── Specification ───────────────────────────────

/// `a` starts with `-`.
pub open spec fn is_flag(a: Seq<char>) -> bool {
    a.len() > 0 && a[0] == '-'
}

/// The first index `j >= i` whose argument is one of `names`.
pub open spec fn first_named(args: Seq<Seq<char>>, names: Seq<Seq<char>>, i: int) -> Option<int>
    decreases args.len() - i,
{
    if i < 0 || i >= args.len() {
        None
    } else if names.contains(args[i]) {
        Some(i)
    } else {
        first_named(args, names, i + 1)
    }
}

/// The value after the first occurrence of one of `names` (`None` when that
/// occurrence is the last argument).
pub open spec fn opt_string_spec(args: Seq<Seq<char>>, names: Seq<Seq<char>>) -> Option<Seq<char>> {
    match first_named(args, names, 0) {
        Some(j) => if j + 1 < args.len() {
            Some(args[j + 1])
        } else {
            None
        },
        None => None,
    }
}

/// The first occurrence (from `i` on) of one of `names` that is followed by a
/// number not above `max`, and that number.
pub open spec fn opt_uint_spec(args: Seq<Seq<char>>, names: Seq<Seq<char>>, max: nat, i: int) -> Option<nat>
    decreases args.len() - i,
{
    if i < 0 || i >= args.len() {
        None
    } else if names.contains(args[i]) && i + 1 < args.len() && parse_uint_spec(args[i + 1], max) is Some {
        parse_uint_spec(args[i + 1], max)
    } else {
        opt_uint_spec(args, names, max, i + 1)
    }
}

/// Scans the arguments for `cmd`; after it, the first non-flag argument is the
/// action (an empty one is replaced by the next) and the later ones are the rest.
pub open spec fn double_fold(args: Seq<Seq<char>>, cmd: Seq<char>) -> (bool, Seq<char>, Seq<Seq<char>>)
    decreases args.len(),
{
    if args.len() == 0 {
        (false, Seq::empty(), Seq::empty())
    } else {
        let prev = double_fold(args.drop_last(), cmd);
        let arg = args.last();
        if !prev.0 && arg == cmd {
            (true, prev.1, prev.2)
        } else if prev.0 && !is_flag(arg) {
            if prev.1.len() == 0 {
                (true, arg, prev.2)
            } else {
                (true, prev.1, prev.2.push(arg))
            }
        } else {
            prev
        }
    }
}

/// The name of the subcommand: the first non-flag argument after the program name.
pub open spec fn first_positional(args: Seq<Seq<char>>, i: int) -> Option<Seq<char>>
    decreases args.len() - i,
{
    if i < 1 || i >= args.len() {
        None
    } else if !is_flag(args[i]) {
        Some(args[i])
    } else {
        first_positional(args, i + 1)
    }
}

/// The `--port` value (default 721).
pub open spec fn port_spec(args: Seq<Seq<char>>) -> u16 {
    match opt_uint_spec(args, seq!["--port"@], 65535, 0) {
        Some(n) => n as u16,
        None => 721,
    }
}

/// The `--dashboard-port` value (default 9090).
pub open spec fn dashboard_port_spec(args: Seq<Seq<char>>) -> u16 {
    match opt_uint_spec(args, seq!["--dashboard-port"@], 65535, 0) {
        Some(n) => n as u16,
        None => 9090,
    }
}

/// The subcommand that a command line selects.
pub open spec fn subcommand_spec(args: Seq<Seq<char>>) -> SubcommandView {
    let name = match first_positional(args, 1) {
        Some(n) => n,
        None => "run"@,
    };
    let port = port_spec(args);
    let dport = dashboard_port_spec(args);
    if name == "run"@ {
        SubcommandView::Run
    } else if name == "daemon"@ {
        SubcommandView::Daemon { port, dashboard_port: dport }
    } else if name == "tui"@ {
        SubcommandView::Tui
    } else if name == "dashboard"@ {
        SubcommandView::Dashboard { port, dashboard_port: dport }
    } else if name == "plan"@ {
        let f = double_fold(args, "plan"@);
        SubcommandView::Plan { action: f.1, args: f.2 }
    } else if name == "tool"@ {
        let f = double_fold(args, "tool"@);
        SubcommandView::Tool { action: f.1, args: f.2 }
    } else if name == "skill"@ {
        let f = double_fold(args, "skill"@);
        SubcommandView::Skill { action: f.1, args: f.2 }
    } else if name == "config"@ {
        let f = double_fold(args, "config"@);
        SubcommandView::Config { action: f.1, args: f.2 }
    } else if name == "health"@ {
        SubcommandView::Health
    } else if name == "session"@ {
        let f = double_fold(args, "session"@);
        SubcommandView::Session { action: f.1, args: f.2 }
    } else if name == "version"@ || name == "-v"@ || name == "--version"@ {
        SubcommandView::Version
    } else if name == "help"@ || name == "-h"@ || name == "--help"@ {
        SubcommandView::Help
    } else if args.contains("--daemon"@) {
        SubcommandView::Daemon { port, dashboard_port: dport }
    } else if args.contains("--tui"@) {
        SubcommandView::Tui
    } else if args.contains("--dashboard"@) {
        SubcommandView::Dashboard { port, dashboard_port: dport }
    } else {
        SubcommandView::Run
    }
}

// ─── Parsing ─────────────────────────────────────

/// Whether `a` is one of `names`.
fn is_one_of(a: &String, names: &Vec<&str>) -> (r: bool)
    ensures
        r == names@.map_values(|n: &str| n@).contains(a@),
{
    let ghost nv = names@.map_values(|n: &str| n@);
    let mut i: usize = 0;
    while i < names.len()
        invariant
            i <= names.len(),
            nv == names@.map_values(|n: &str| n@),
            forall|k: int| 0 <= k < i ==> nv[k] != a@,
        decreases names.len() - i,
    {
        if str_eq(a.as_str(), names[i]) {
            assert(nv[i as int] == a@);
            return true;
        }
        i += 1;
    }
    assert forall|k: int| 0 <= k < nv.len() implies nv[k] != a@ by {}
    false
}

/// Whether `s` starts with `-`.
fn starts_with_dash(s: &String) -> (r: bool)
    ensures
        r == is_flag(s@),
{
    let c = to_chars(s.as_str());
    c.len() > 0 && c[0] == '-'
}

/// The value following the first occurrence of one of `names`.
pub fn parse_opt_string(args: &Vec<String>, names: &Vec<&str>) -> (r: Option<String>)
    ensures
        opt_string_view(r) == opt_string_spec(
            strings_view(args@),
            names@.map_values(|n: &str| n@),
        ),
{
    let ghost av = strings_view(args@);
    let ghost nv = names@.map_values(|n: &str| n@);
    let mut i: usize = 0;
    while i < args.len()
        invariant
            i <= args.len(),
            av == strings_view(args@),
            nv == names@.map_values(|n: &str| n@),
            first_named(av, nv, 0) == first_named(av, nv, i as int),
        decreases args.len() - i,
    {
        if is_one_of(&args[i], names) {
            if i + 1 < args.len() {
                return Some(args[i + 1].clone());
            }
            return None;
        }
        i += 1;
    }
    None
}

/// The first number (at most `max`) that follows one of `names`.
pub fn parse_opt_uint(args: &Vec<String>, names: &Vec<&str>, max: u64) -> (r: Option<u64>)
    ensures
        match r {
            Some(n) => opt_uint_spec(strings_view(args@), names@.map_values(|n: &str| n@), max as nat, 0) == Some(n as nat),
            None => opt_uint_spec(strings_view(args@), names@.map_values(|n: &str| n@), max as nat, 0) is None,
        },
{
    let ghost av = strings_view(args@);
    let ghost nv = names@.map_values(|n: &str| n@);
    let mut i: usize = 0;
    while i < args.len()
        invariant
            i <= args.len(),
            av == strings_view(args@),
            nv == names@.map_values(|n: &str| n@),
            opt_uint_spec(av, nv, max as nat, 0) == opt_uint_spec(av, nv, max as nat, i as int),
        decreases args.len() - i,
    {
        if is_one_of(&args[i], names) && i + 1 < args.len() {
            let c = to_chars(args[i + 1].as_str());
            let p = parse_uint(c.as_slice(), max);
            if let Some(n) = p {
                return Some(n);
            }
        }
        i += 1;
    }
    None
}

/// The action and the remaining positional arguments after subcommand `cmd_name`.
pub fn parse_double_subcmd(args: &Vec<String>, cmd_name: &str) -> (r: (String, Vec<String>))
    ensures
        r.0@ == double_fold(strings_view(args@), cmd_name@).1,
        strings_view(r.1@) == double_fold(strings_view(args@), cmd_name@).2,
{
    let ghost av = strings_view(args@);
    let mut rest: Vec<String> = Vec::new();
    let mut found = false;
    let mut action = String::new();
    let mut i: usize = 0;
    while i < args.len()
        invariant
            i <= args.len(),
            av == strings_view(args@),
            double_fold(av.take(i as int), cmd_name@) == (found, action@, strings_view(rest@)),
        decreases args.len() - i,
    {
        let arg = &args[i];
        assert(av.take(i + 1).drop_last() == av.take(i as int));
        assert(av.take(i + 1).last() == arg@);
        if !found && str_eq(arg.as_str(), cmd_name) {
            found = true;
        } else if found && !starts_with_dash(arg) {
            if action.as_str().is_empty() {
                action = arg.clone();
            } else {
                let ghost before = strings_view(rest@);
                rest.push(arg.clone());
                assert(strings_view(rest@) =~= before.push(arg@));
            }
        }
        i += 1;
    }
    assert(av.take(args.len() as int) == av);
    (action, rest)
}

/// The first argument after the program name that is not a flag.
fn first_positional_exec(args: &Vec<String>) -> (r: Option<String>)
    ensures
        opt_string_view(r) == first_positional(strings_view(args@), 1),
{
    let ghost av = strings_view(args@);
    let mut i: usize = 1;
    while i < args.len()
        invariant
            1 <= i,
            av == strings_view(args@),
            first_positional(av, 1) == first_positional(av, i as int),
        decreases args.len() - i,
    {
        if !starts_with_dash(&args[i]) {
            return Some(args[i].clone());
        }
        i += 1;
    }
    None
}

/// Whether any argument equals `s`.
fn has_arg(args: &Vec<String>, s: &str) -> (r: bool)
    ensures
        r == strings_view(args@).contains(s@),
{
    let ghost av = strings_view(args@);
    let mut i: usize = 0;
    while i < args.len()
        invariant
            i <= args.len(),
            av == strings_view(args@),
            forall|k: int| 0 <= k < i ==> av[k] != s@,
        decreases args.len() - i,
    {
        if str_eq(args[i].as_str(), s) {
            assert(av[i as int] == s@);
            return true;
        }
        i += 1;
    }
    assert forall|k: int| 0 <= k < av.len() implies av[k] != s@ by {}
    false
}

/// A number after one of `names`, or `default` when there is none.
fn port_or(args: &Vec<String>, name: &str, default: u16) -> (r: u16)
    ensures
        r == (match opt_uint_spec(strings_view(args@), seq![name@], 65535, 0) {
            Some(n) => n as u16,
            None => default,
        }),
{
    let names: Vec<&str> = vec![name];
    assert(names@.map_values(|n: &str| n@) =~= seq![name@]);
    match parse_opt_uint(args, &names, 65535) {
        Some(n) => n as u16,
        None => default,
    }
}

/// Parses a full command line (`args[0]` is the program name) into a [`ParsedCommand`].
pub fn parse_args_from(args: &Vec<String>) -> (r: ParsedCommand)
    ensures
        r.subcommand@ == subcommand_spec(strings_view(args@)),
        opt_string_view(r.config_path) == opt_string_spec(
            strings_view(args@),
            seq!["-c"@, "--config"@],
        ),
        r.log_level@ == (match opt_string_spec(strings_view(args@), seq!["-l"@, "--log-level"@]) {
            Some(s) => s,
            None => "info"@,
        }),
        r.session_id@ == (match opt_string_spec(strings_view(args@), seq!["--session"@]) {
            Some(s) => s,
            None => Seq::<char>::empty(),
        }),
        r.gateway_url@ == (match opt_string_spec(strings_view(args@), seq!["--gateway-url"@]) {
            Some(s) => s,
            None => "http://localhost:8080"@,
        }),
{
    let ghost av = strings_view(args@);
    let config_names: Vec<&str> = vec!["-c", "--config"];
    assert(config_names@.map_values(|n: &str| n@) =~= seq!["-c"@, "--config"@]);
    let config_path = parse_opt_string(args, &config_names);
    let log_names: Vec<&str> = vec!["-l", "--log-level"];
    assert(log_names@.map_values(|n: &str| n@) =~= seq!["-l"@, "--log-level"@]);
    let log_level = match parse_opt_string(args, &log_names) {
        Some(s) => s,
        None => "info".to_string(),
    };
    let session_names: Vec<&str> = vec!["--session"];
    assert(session_names@.map_values(|n: &str| n@) =~= seq!["--session"@]);
    let session_id = match parse_opt_string(args, &session_names) {
        Some(s) => s,
        None => String::new(),
    };
    let gateway_names: Vec<&str> = vec!["--gateway-url"];
    assert(gateway_names@.map_values(|n: &str| n@) =~= seq!["--gateway-url"@]);
    let gateway_url = match parse_opt_string(args, &gateway_names) {
        Some(s) => s,
        None => "http://localhost:8080".to_string(),
    };
    let port = port_or(args, "--port", 721);
    let dashboard_port = port_or(args, "--dashboard-port", 9090);
    let name = match first_positional_exec(args) {
        Some(n) => n,
        None => "run".to_string(),
    };
    let n = name.as_str();
    let subcommand = if str_eq(n, "run") {
        Subcommand::Run
    } else if str_eq(n, "daemon") {
        Subcommand::Daemon { port, dashboard_port }
    } else if str_eq(n, "tui") {
        Subcommand::Tui
    } else if str_eq(n, "dashboard") {
        Subcommand::Dashboard { port, dashboard_port }
    } else if str_eq(n, "plan") {
        let (action, rest) = parse_double_subcmd(args, "plan");
        Subcommand::Plan { action, args: rest }
    } else if str_eq(n, "tool") {
        let (action, rest) = parse_double_subcmd(args, "tool");
        Subcommand::Tool { action, args: rest }
    } else if str_eq(n, "skill") {
        let (action, rest) = parse_double_subcmd(args, "skill");
        Subcommand::Skill { action, args: rest }
    } else if str_eq(n, "config") {
        let (action, rest) = parse_double_subcmd(args, "config");
        Subcommand::Config { action, args: rest }
    } else if str_eq(n, "health") {
        Subcommand::Health
    } else if str_eq(n, "session") {
        let (action, rest) = parse_double_subcmd(args, "session");
        Subcommand::Session { action, args: rest }
    } else if str_eq(n, "version") || str_eq(n, "-v") || str_eq(n, "--version") {
        Subcommand::Version
    } else if str_eq(n, "help") || str_eq(n, "-h") || str_eq(n, "--help") {
        Subcommand::Help
    } else if has_arg(args, "--daemon") {
        Subcommand::Daemon { port, dashboard_port }
    } else if has_arg(args, "--tui") {
        Subcommand::Tui
    } else if has_arg(args, "--dashboard") {
        Subcommand::Dashboard { port, dashboard_port }
    } else {
        Subcommand::Run
    };
    ParsedCommand { subcommand, config_path, log_level, session_id, gateway_url }
}

} // verus!
