//! The command line: what is asked for, and what it changes in the configuration.
use vstd::prelude::*;

use crate::config::{ConfigView, RlmConfig};
use crate::env::contexts_view;
use crate::setup::StartPolicy;
use crate::text::{
    begins, copy_opt, decimal, holds, is_space, opt_view, parse_u16, parse_u32, starts_with, trim, trimmed,
    unsigned_of_text, views, NumberError,
};
use crate::text_laws::{
    numbers_are_digits, parts_are_found, parts_of_parts_stand, trimming_takes_the_ends_only,
    written_numbers_read_back,
};

verus! {

/// How the program is used.
pub const USAGE: &'static str = "rlm — Recursive Language Model harness (Rust) over a local llama.cpp server

USAGE:
  rlm run  -q \"<question>\" [-c <file>]...   answer a question, optionally over long context files
  rlm chat [-c <file>]...                   interactive chat with recursive context management
  rlm serve                                 just start the model server and exit
  rlm daemon                                loopback-only control plane (bearer token: RLM_API_TOKEN)

OPTIONS:
  -q, --query <text>      the question (run mode)
  -c, --context <file>    load a file as navigable context (repeatable)
      --model <path>      GGUF model path (overrides config)
      --config <path>     config file (default: rlm-rs\\rlm.config.json, created if missing)
      --port <port>       llama-server port (overrides config)
      --iters <n>         max root-loop iterations
      --depth <n>         max recursion depth
      --no-server         fail instead of auto-starting llama-server
";

// ------------------------------------------------------------------ options

/// What a command line asks for.
pub struct Cli {
    pub command: String,
    pub query: Option<String>,
    pub context_files: Vec<String>,
    pub model: Option<String>,
    pub config_path: Option<String>,
    pub port: Option<u16>,
    pub iters: Option<u32>,
    pub depth: Option<u32>,
    pub no_server: bool,
}

/// What a command line holds.
pub struct CliView {
    pub command: Seq<char>,
    pub query: Option<Seq<char>>,
    pub context_files: Seq<Seq<char>>,
    pub model: Option<Seq<char>>,
    pub config_path: Option<Seq<char>>,
    pub port: Option<u16>,
    pub iters: Option<u32>,
    pub depth: Option<u32>,
    pub no_server: bool,
}

impl View for Cli {
    type V = CliView;

    open spec fn view(&self) -> CliView {
        CliView {
            command: self.command@,
            query: opt_view(self.query),
            context_files: views(self.context_files@),
            model: opt_view(self.model),
            config_path: opt_view(self.config_path),
            port: self.port,
            iters: self.iters,
            depth: self.depth,
            no_server: self.no_server,
        }
    }
}

/// Why a command line is not carried out.
pub enum CliStop {
    /// It asks how the program is used.
    Help,
    /// An option has no value.
    Missing(String),
    /// A value writes no number.
    Number(NumberError),
    /// An argument is unknown.
    Unknown(String),
}

pub enum StopView {
    Help,
    Missing(Seq<char>),
    Number(NumberError),
    Unknown(Seq<char>),
}

impl View for CliStop {
    type V = StopView;

    open spec fn view(&self) -> StopView {
        match self {
            CliStop::Help => StopView::Help,
            CliStop::Missing(name) => StopView::Missing(name@),
            CliStop::Number(e) => StopView::Number(*e),
            CliStop::Unknown(arg) => StopView::Unknown(arg@),
        }
    }
}

/// What is told where a command line is not carried out.
pub open spec fn stop_text(s: StopView) -> Seq<char> {
    match s {
        StopView::Help => USAGE@,
        StopView::Missing(name) => "missing value for "@ + name,
        StopView::Number(e) => e.text(),
        StopView::Unknown(arg) => "unknown argument: "@ + arg + "\n\n"@ + USAGE@,
    }
}

impl CliStop {
    /// What is told.
    pub fn message(&self) -> (r: String)
        ensures
            r@ == stop_text(self@),
    {
        match self {
            CliStop::Help => USAGE.to_owned(),
            CliStop::Missing(name) => {
                let mut r = "missing value for ".to_owned();
                r.append(name.as_str());
                r
            },
            CliStop::Number(e) => e.message(),
            CliStop::Unknown(arg) => {
                let mut r = "unknown argument: ".to_owned();
                r.append(arg.as_str());
                r.append("\n\n");
                r.append(USAGE);
                r
            },
        }
    }
}

/// The options that have a value behind them.
pub open spec fn takes_value(option: Seq<char>) -> bool {
    ||| option == "-q"@
    ||| option == "--query"@
    ||| option == "-c"@
    ||| option == "--context"@
    ||| option == "--model"@
    ||| option == "--config"@
    ||| option == "--port"@
    ||| option == "--iters"@
    ||| option == "--depth"@
}

/// A command line behind an option and its value.
pub open spec fn with_value(cli: CliView, option: Seq<char>, value: Seq<char>) -> Result<CliView, NumberError> {
    if option == "-q"@ || option == "--query"@ {
        Ok(CliView { query: Some(value), ..cli })
    } else if option == "-c"@ || option == "--context"@ {
        Ok(CliView { context_files: cli.context_files.push(value), ..cli })
    } else if option == "--model"@ {
        Ok(CliView { model: Some(value), ..cli })
    } else if option == "--config"@ {
        Ok(CliView { config_path: Some(value), ..cli })
    } else if option == "--port"@ {
        match unsigned_of_text(value, u16::MAX as nat) {
            Ok(n) => Ok(CliView { port: Some(n as u16), ..cli }),
            Err(e) => Err(e),
        }
    } else {
        match unsigned_of_text(value, u32::MAX as nat) {
            Ok(n) => Ok(
                if option == "--iters"@ {
                    CliView { iters: Some(n as u32), ..cli }
                } else {
                    CliView { depth: Some(n as u32), ..cli }
                },
            ),
            Err(e) => Err(e),
        }
    }
}

/// A command line behind its options.
pub open spec fn with_options(cli: CliView, args: Seq<Seq<char>>) -> Result<CliView, StopView>
    decreases args.len(),
{
    if args.len() == 0 {
        Ok(cli)
    } else if takes_value(args[0]) {
        if args.len() == 1 {
            Err(StopView::Missing(args[0]))
        } else {
            match with_value(cli, args[0], args[1]) {
                Ok(c) => with_options(c, args.skip(2)),
                Err(e) => Err(StopView::Number(e)),
            }
        }
    } else if args[0] == "--no-server"@ {
        with_options(CliView { no_server: true, ..cli }, args.skip(1))
    } else if args[0] == "-h"@ || args[0] == "--help"@ {
        Err(StopView::Help)
    } else {
        Err(StopView::Unknown(args[0]))
    }
}

/// A command line that asks for a command and nothing else.
pub open spec fn bare_cli(command: Seq<char>) -> CliView {
    CliView {
        command,
        query: None,
        context_files: seq![],
        model: None,
        config_path: None,
        port: None,
        iters: None,
        depth: None,
        no_server: false,
    }
}

/// What the arguments ask for: first the command, unless an option stands there, then options.
pub open spec fn parsed(args: Seq<Seq<char>>) -> Result<CliView, StopView> {
    if args.len() > 0 && !begins(args[0], "-"@) {
        with_options(bare_cli(args[0]), args.skip(1))
    } else {
        with_options(bare_cli("run"@), args)
    }
}

pub open spec fn cli_result(r: Result<Cli, CliStop>) -> Result<CliView, StopView> {
    match r {
        Ok(c) => Ok(c@),
        Err(e) => Err(e@),
    }
}

fn option_takes_value(option: &str) -> (r: bool)
    ensures
        r == takes_value(option@),
{
    option.eq("-q") || option.eq("--query") || option.eq("-c") || option.eq("--context") || option.eq("--model")
        || option.eq("--config") || option.eq("--port") || option.eq("--iters") || option.eq("--depth")
}

fn set_value(cli: &mut Cli, option: &str, value: &str) -> (r: Result<(), NumberError>)
    requires
        takes_value(option@),
    ensures
        match with_value(old(cli)@, option@, value@) {
            Ok(c) => r is Ok && final(cli)@ == c,
            Err(e) => r == Err::<(), NumberError>(e),
        },
{
    if option.eq("-q") || option.eq("--query") {
        cli.query = Some(value.to_owned());
    } else if option.eq("-c") || option.eq("--context") {
        let ghost was = cli.context_files@;
        cli.context_files.push(value.to_owned());
        assert(views(cli.context_files@) =~= views(was).push(value@));
    } else if option.eq("--model") {
        cli.model = Some(value.to_owned());
    } else if option.eq("--config") {
        cli.config_path = Some(value.to_owned());
    } else if option.eq("--port") {
        match parse_u16(value) {
            Ok(n) => {
                cli.port = Some(n);
            },
            Err(e) => {
                return Err(e);
            },
        }
    } else {
        match parse_u32(value) {
            Ok(n) => {
                if option.eq("--iters") {
                    cli.iters = Some(n);
                } else {
                    cli.depth = Some(n);
                }
            },
            Err(e) => {
                return Err(e);
            },
        }
    }
    Ok(())
}

/// Settles what the arguments ask for; the program's own name is not among them.
pub fn parse_cli(args: &Vec<String>) -> (r: Result<Cli, CliStop>)
    ensures
        cli_result(r) == parsed(views(args@)),
{
    let ghost all = views(args@);
    let mut cli = Cli {
        command: "run".to_owned(),
        query: None,
        context_files: Vec::new(),
        model: None,
        config_path: None,
        port: None,
        iters: None,
        depth: None,
        no_server: false,
    };
    assert(views(cli.context_files@) =~= seq![]);
    let n = args.len();
    let mut i: usize = 0;
    assert(all.skip(0) =~= all);
    if n > 0 {
        assert(all[0] == args@[0]@);
        if !starts_with(args[0].as_str(), "-") {
            cli.command = args[0].clone();
            i = 1;
        }
    }
    while i < n
        invariant
            n == args@.len(),
            i <= n,
            all == views(args@),
            parsed(all) == with_options(cli@, all.skip(i as int)),
        decreases n - i,
    {
        let ghost rest = all.skip(i as int);
        assert(rest[0] == args@[i as int]@);
        let arg = args[i].as_str();
        if option_takes_value(arg) {
            if i + 1 >= n {
                return Err(CliStop::Missing(arg.to_owned()));
            }
            assert(rest[1] == args@[i + 1]@);
            match set_value(&mut cli, arg, args[i + 1].as_str()) {
                Ok(_) => {},
                Err(e) => {
                    return Err(CliStop::Number(e));
                },
            }
            assert(rest.skip(2) =~= all.skip(i + 2));
            i = i + 2;
        } else if arg.eq("--no-server") {
            cli.no_server = true;
            assert(rest.skip(1) =~= all.skip(i + 1));
            i = i + 1;
        } else if arg.eq("-h") || arg.eq("--help") {
            return Err(CliStop::Help);
        } else {
            return Err(CliStop::Unknown(arg.to_owned()));
        }
    }
    Ok(cli)
}

/// A configuration behind what a command line overrides.
pub open spec fn overridden(cfg: ConfigView, cli: CliView) -> ConfigView {
    ConfigView {
        model_path: match cli.model {
            Some(m) => m,
            None => cfg.model_path,
        },
        port: match cli.port {
            Some(p) => p,
            None => cfg.port,
        },
        max_iterations: match cli.iters {
            Some(n) => n,
            None => cfg.max_iterations,
        },
        max_depth: match cli.depth {
            Some(n) => n,
            None => cfg.max_depth,
        },
        ..cfg
    }
}

impl Cli {
    /// Overrides the configuration by what the command line says.
    pub fn apply(&self, cfg: &mut RlmConfig)
        ensures
            final(cfg)@ == overridden(old(cfg)@, self@),
    {
        if let Some(m) = &self.model {
            cfg.model_path = m.clone();
        }
        if let Some(p) = self.port {
            cfg.port = p;
        }
        if let Some(n) = self.iters {
            cfg.max_iterations = n;
        }
        if let Some(n) = self.depth {
            cfg.max_depth = n;
        }
    }
}

// ----------------------------------------------------------------- commands

/// What the program does.
pub enum Command {
    /// Brings the servers up.
    Serve,
    /// Answers a question.
    Run { query: String, policy: StartPolicy },
    /// Chats.
    Chat { policy: StartPolicy },
    /// Runs the control plane.
    Daemon,
}

pub enum CommandView {
    Serve,
    Run { query: Seq<char>, policy: StartPolicy },
    Chat { policy: StartPolicy },
    Daemon,
}

impl View for Command {
    type V = CommandView;

    open spec fn view(&self) -> CommandView {
        match self {
            Command::Serve => CommandView::Serve,
            Command::Run { query, policy } => CommandView::Run { query: query@, policy: *policy },
            Command::Chat { policy } => CommandView::Chat { policy: *policy },
            Command::Daemon => CommandView::Daemon,
        }
    }
}

/// What a command line makes the program do, or what is told where it does nothing. Without
/// servers of its own, a run needs one that is up, and a chat takes it for granted.
pub open spec fn command_of(cli: CliView) -> Result<CommandView, Seq<char>> {
    if cli.command == "serve"@ {
        Ok(CommandView::Serve)
    } else if cli.command == "run"@ {
        match cli.query {
            Some(query) => Ok(
                CommandView::Run {
                    query,
                    policy: if cli.no_server {
                        StartPolicy::Attach
                    } else {
                        StartPolicy::Start
                    },
                },
            ),
            None => Err("run mode needs -q \"<question>\"\n\n"@ + USAGE@),
        }
    } else if cli.command == "chat"@ {
        Ok(
            CommandView::Chat {
                policy: if cli.no_server {
                    StartPolicy::Unchecked
                } else {
                    StartPolicy::Start
                },
            },
        )
    } else if cli.command == "daemon"@ {
        Ok(CommandView::Daemon)
    } else {
        Err("unknown command: "@ + cli.command + "\n\n"@ + USAGE@)
    }
}

pub open spec fn command_result(r: Result<Command, String>) -> Result<CommandView, Seq<char>> {
    match r {
        Ok(c) => Ok(c@),
        Err(e) => Err(e@),
    }
}

impl Cli {
    /// Settles what the program does.
    pub fn to_command(&self) -> (r: Result<Command, String>)
        ensures
            command_result(r) == command_of(self@),
    {
        let name = self.command.as_str();
        if name.eq("serve") {
            Ok(Command::Serve)
        } else if name.eq("run") {
            match copy_opt(&self.query) {
                Some(query) => Ok(
                    Command::Run {
                        query,
                        policy: if self.no_server {
                            StartPolicy::Attach
                        } else {
                            StartPolicy::Start
                        },
                    },
                ),
                None => {
                    let mut e = "run mode needs -q \"<question>\"\n\n".to_owned();
                    e.append(USAGE);
                    Err(e)
                },
            }
        } else if name.eq("chat") {
            Ok(
                Command::Chat {
                    policy: if self.no_server {
                        StartPolicy::Unchecked
                    } else {
                        StartPolicy::Start
                    },
                },
            )
        } else if name.eq("daemon") {
            Ok(Command::Daemon)
        } else {
            let mut e = "unknown command: ".to_owned();
            e.append(name);
            e.append("\n\n");
            e.append(USAGE);
            Err(e)
        }
    }
}

// --------------------------------------------------------------------- chat

/// What a line of a chat asks for.
pub enum ChatLine {
    /// Nothing.
    Skip,
    /// The end.
    Quit,
    /// An answer.
    Ask(String),
}

pub enum LineView {
    Skip,
    Quit,
    Ask(Seq<char>),
}

impl View for ChatLine {
    type V = LineView;

    open spec fn view(&self) -> LineView {
        match self {
            ChatLine::Skip => LineView::Skip,
            ChatLine::Quit => LineView::Quit,
            ChatLine::Ask(query) => LineView::Ask(query@),
        }
    }
}

/// What a line asks for.
pub open spec fn line_of(line: Seq<char>) -> LineView {
    let query = trimmed(line);
    if query.len() == 0 {
        LineView::Skip
    } else if query == "exit"@ || query == "quit"@ || query == "/exit"@ || query == "/quit"@ {
        LineView::Quit
    } else {
        LineView::Ask(query)
    }
}

/// Settles what a line of a chat asks for.
pub fn chat_line(line: &str) -> (r: ChatLine)
    ensures
        r@ == line_of(line@),
{
    let query = trim(line);
    let q = query.as_str();
    if q.is_empty() {
        ChatLine::Skip
    } else if q.eq("exit") || q.eq("quit") || q.eq("/exit") || q.eq("/quit") {
        ChatLine::Quit
    } else {
        ChatLine::Ask(query)
    }
}

/// A chat: the contexts that it began with, and what was said.
pub struct Chat {
    pub base: Vec<(String, String)>,
    pub conversation: String,
}

/// What was said, behind a question and its answer.
pub open spec fn conversed(conversation: Seq<char>, query: Seq<char>, answer: Seq<char>) -> Seq<char> {
    conversation + "USER: "@ + query + "\nASSISTANT: "@ + answer + "\n\n"@
}

/// The contexts of a question: those the chat began with, and what was said, where anything was.
pub open spec fn chat_contexts(
    base: Seq<(Seq<char>, Seq<char>)>,
    conversation: Seq<char>,
) -> Seq<(Seq<char>, Seq<char>)> {
    if conversation.len() == 0 {
        base
    } else {
        base.push(("conversation_history"@, conversation))
    }
}

impl Chat {
    /// A chat in which nothing was said yet.
    pub fn new(base: Vec<(String, String)>) -> (r: Chat)
        ensures
            r.base == base,
            r.conversation@ == Seq::<char>::empty(),
    {
        Chat { base, conversation: String::new() }
    }

    /// The contexts of the next question.
    pub fn contexts(&self) -> (r: Vec<(String, String)>)
        ensures
            contexts_view(r@) == chat_contexts(contexts_view(self.base@), self.conversation@),
    {
        let mut r: Vec<(String, String)> = Vec::new();
        let ghost want = contexts_view(self.base@);
        for i in 0..self.base.len()
            invariant
                want == contexts_view(self.base@),
                r@.len() == i,
                forall|j: int| 0 <= j < i ==> ((#[trigger] r@[j]).0@, r@[j].1@) == want[j],
        {
            r.push((self.base[i].0.clone(), self.base[i].1.clone()));
        }
        assert(contexts_view(r@) =~= want);
        if !self.conversation.as_str().is_empty() {
            r.push(("conversation_history".to_owned(), self.conversation.clone()));
            assert(contexts_view(r@) =~= chat_contexts(want, self.conversation@));
        }
        r
    }

    /// Notes a question and its answer.
    pub fn note(&mut self, query: &str, answer: &str)
        ensures
            final(self).base == old(self).base,
            final(self).conversation@ == conversed(old(self).conversation@, query@, answer@),
    {
        self.conversation.append("USER: ");
        self.conversation.append(query);
        self.conversation.append("\nASSISTANT: ");
        self.conversation.append(answer);
        self.conversation.append("\n\n");
    }
}

// --------------------------------------------------------------------- laws

/// Options are carried out from the front: what stands behind options that are sound is read as
/// if the command line had begun there with what they asked for.
pub proof fn options_are_read_in_order(cli: CliView, front: Seq<Seq<char>>, rest: Seq<Seq<char>>)
    requires
        with_options(cli, front) is Ok,
    ensures
        with_options(cli, front + rest) == with_options(with_options(cli, front)->Ok_0, rest),
    decreases front.len(),
{
    let all = front + rest;
    if front.len() == 0 {
        assert(all =~= rest);
    } else if takes_value(front[0]) {
        assert(all[0] == front[0] && all[1] == front[1]);
        assert(all.skip(2) =~= front.skip(2) + rest);
        options_are_read_in_order(with_value(cli, front[0], front[1])->Ok_0, front.skip(2), rest);
    } else {
        assert(all[0] == front[0]);
        assert(all.skip(1) =~= front.skip(1) + rest);
        options_are_read_in_order(CliView { no_server: true, ..cli }, front.skip(1), rest);
    }
}

/// A command line overrides the model, the port and the two loop bounds, each only where it says
/// so, and nothing else.
pub proof fn options_override_nothing_else(cfg: ConfigView, cli: CliView)
    ensures
        overridden(cfg, cli) == (ConfigView {
            model_path: overridden(cfg, cli).model_path,
            port: overridden(cfg, cli).port,
            max_iterations: overridden(cfg, cli).max_iterations,
            max_depth: overridden(cfg, cli).max_depth,
            ..cfg
        }),
        overridden(cfg, bare_cli(cli.command)) == cfg,
{
}

/// What was said in a chat is handed to the next question as a context of its own, in full, behind
/// the contexts that the chat began with.
pub proof fn history_is_a_context(
    base: Seq<(Seq<char>, Seq<char>)>,
    conversation: Seq<char>,
    query: Seq<char>,
    answer: Seq<char>,
)
    ensures
        chat_contexts(base, conversed(conversation, query, answer)).len() == base.len() + 1,
        chat_contexts(base, conversed(conversation, query, answer)).take(base.len() as int) == base,
        chat_contexts(base, conversed(conversation, query, answer)).last() == (
            "conversation_history"@,
            conversed(conversation, query, answer),
        ),
        conversed(conversation, query, answer).take(conversation.len() as int) == conversation,
{
    reveal_strlit("USER: ");
    assert(conversed(conversation, query, answer).take(conversation.len() as int) =~= conversation);
    assert(chat_contexts(base, conversed(conversation, query, answer)).take(base.len() as int) =~= base);
}

/// The options in words, told apart.
proof fn options_differ()
    ensures
        "-q"@.len() == 2 && "-q"@[1] == 'q',
        "-c"@.len() == 2 && "-c"@[1] == 'c',
        "-h"@.len() == 2 && "-h"@[1] == 'h',
        "--query"@.len() == 7 && "--query"@[2] == 'q',
        "--context"@.len() == 9,
        "--model"@.len() == 7 && "--model"@[2] == 'm',
        "--config"@.len() == 8,
        "--port"@.len() == 6 && "--port"@[2] == 'p',
        "--iters"@.len() == 7 && "--iters"@[2] == 'i',
        "--depth"@.len() == 7 && "--depth"@[2] == 'd',
        "--no-server"@.len() == 11,
        "--help"@.len() == 6 && "--help"@[2] == 'h',
{
    reveal_strlit("-q");
    reveal_strlit("-c");
    reveal_strlit("-h");
    reveal_strlit("--query");
    reveal_strlit("--context");
    reveal_strlit("--model");
    reveal_strlit("--config");
    reveal_strlit("--port");
    reveal_strlit("--iters");
    reveal_strlit("--depth");
    reveal_strlit("--no-server");
    reveal_strlit("--help");
}

proof fn an_option_is_read(cli: CliView, option: Seq<char>, value: Seq<char>, rest: Seq<Seq<char>>)
    requires
        takes_value(option),
        with_value(cli, option, value) is Ok,
    ensures
        with_options(cli, seq![option, value] + rest) == with_options(with_value(cli, option, value)->Ok_0, rest),
{
    let all = seq![option, value] + rest;
    assert(all[0] == option && all[1] == value);
    assert(all.skip(2) =~= rest);
}

proof fn an_option_is_refused(cli: CliView, option: Seq<char>, value: Seq<char>, rest: Seq<Seq<char>>)
    requires
        takes_value(option),
        with_value(cli, option, value) is Err,
    ensures
        with_options(cli, seq![option, value] + rest) == Err::<CliView, StopView>(
            StopView::Number(with_value(cli, option, value)->Err_0),
        ),
{
    let all = seq![option, value] + rest;
    assert(all[0] == option && all[1] == value);
}

/// Each option sets what it names to its value, and nothing else; a context is put behind those
/// that came before it. What follows is read on.
pub proof fn options_set_what_they_name(cli: CliView, value: Seq<char>, rest: Seq<Seq<char>>)
    ensures
        with_options(cli, seq!["-q"@, value] + rest) == with_options(CliView { query: Some(value), ..cli }, rest),
        with_options(cli, seq!["--query"@, value] + rest) == with_options(
            CliView { query: Some(value), ..cli },
            rest,
        ),
        with_options(cli, seq!["-c"@, value] + rest) == with_options(
            CliView { context_files: cli.context_files + seq![value], ..cli },
            rest,
        ),
        with_options(cli, seq!["--context"@, value] + rest) == with_options(
            CliView { context_files: cli.context_files + seq![value], ..cli },
            rest,
        ),
        with_options(cli, seq!["--model"@, value] + rest) == with_options(
            CliView { model: Some(value), ..cli },
            rest,
        ),
        with_options(cli, seq!["--config"@, value] + rest) == with_options(
            CliView { config_path: Some(value), ..cli },
            rest,
        ),
        with_options(cli, seq!["--no-server"@] + rest) == with_options(CliView { no_server: true, ..cli }, rest),
        with_options(cli, Seq::empty()) == Ok::<CliView, StopView>(cli),
{
    options_differ();
    assert(cli.context_files.push(value) =~= cli.context_files + seq![value]);
    an_option_is_read(cli, "-q"@, value, rest);
    an_option_is_read(cli, "--query"@, value, rest);
    an_option_is_read(cli, "-c"@, value, rest);
    an_option_is_read(cli, "--context"@, value, rest);
    an_option_is_read(cli, "--model"@, value, rest);
    an_option_is_read(cli, "--config"@, value, rest);
    let all = seq!["--no-server"@] + rest;
    assert(all[0] == "--no-server"@);
    assert(all.skip(1) =~= rest);
}

/// The options with numbers set them to what is written, for every number that fits.
pub proof fn options_take_numbers(cli: CliView, port: u16, n: u32, rest: Seq<Seq<char>>)
    ensures
        with_options(cli, seq!["--port"@, decimal(port as nat)] + rest) == with_options(
            CliView { port: Some(port), ..cli },
            rest,
        ),
        with_options(cli, seq!["--iters"@, decimal(n as nat)] + rest) == with_options(
            CliView { iters: Some(n), ..cli },
            rest,
        ),
        with_options(cli, seq!["--depth"@, decimal(n as nat)] + rest) == with_options(
            CliView { depth: Some(n), ..cli },
            rest,
        ),
{
    options_differ();
    written_numbers_read_back(port as nat, u16::MAX as nat);
    written_numbers_read_back(n as nat, u32::MAX as nat);
    an_option_is_read(cli, "--port"@, decimal(port as nat), rest);
    an_option_is_read(cli, "--iters"@, decimal(n as nat), rest);
    an_option_is_read(cli, "--depth"@, decimal(n as nat), rest);
}

/// A number that does not fit is refused, and so is a value that is none.
pub proof fn numbers_that_do_not_fit_are_refused(cli: CliView, n: nat, value: Seq<char>, rest: Seq<Seq<char>>)
    requires
        value.len() > 0,
        !(value[0] == '+'),
        !('0' <= value[0] <= '9'),
    ensures
        n > u16::MAX ==> with_options(cli, seq!["--port"@, decimal(n)] + rest) == Err::<CliView, StopView>(
            StopView::Number(NumberError::TooLarge),
        ),
        n > u32::MAX ==> with_options(cli, seq!["--iters"@, decimal(n)] + rest) == Err::<CliView, StopView>(
            StopView::Number(NumberError::TooLarge),
        ),
        n > u32::MAX ==> with_options(cli, seq!["--depth"@, decimal(n)] + rest) == Err::<CliView, StopView>(
            StopView::Number(NumberError::TooLarge),
        ),
        with_options(cli, seq!["--port"@, value] + rest) matches Err(StopView::Number(_)),
        with_options(cli, seq!["--iters"@, value] + rest) matches Err(StopView::Number(_)),
        with_options(cli, seq!["--depth"@, value] + rest) matches Err(StopView::Number(_)),
{
    options_differ();
    written_numbers_read_back(n, u16::MAX as nat);
    written_numbers_read_back(n, u32::MAX as nat);
    numbers_are_digits(value, u16::MAX as nat);
    numbers_are_digits(value, u32::MAX as nat);
    if n > u16::MAX {
        an_option_is_refused(cli, "--port"@, decimal(n), rest);
    }
    if n > u32::MAX {
        an_option_is_refused(cli, "--iters"@, decimal(n), rest);
        an_option_is_refused(cli, "--depth"@, decimal(n), rest);
    }
    an_option_is_refused(cli, "--port"@, value, rest);
    an_option_is_refused(cli, "--iters"@, value, rest);
    an_option_is_refused(cli, "--depth"@, value, rest);
}

/// An option without its value, an unknown argument and a call for help each end the reading, and
/// are told with what was written.
pub proof fn unsound_options_are_told(cli: CliView, arg: Seq<char>, rest: Seq<Seq<char>>)
    ensures
        arg == "-q"@ || arg == "--query"@ || arg == "-c"@ || arg == "--context"@ || arg == "--model"@ || arg
            == "--config"@ || arg == "--port"@ || arg == "--iters"@ || arg == "--depth"@ ==> with_options(
            cli,
            seq![arg],
        ) == Err::<CliView, StopView>(StopView::Missing(arg)),
        arg == "-h"@ || arg == "--help"@ ==> with_options(cli, seq![arg] + rest) == Err::<CliView, StopView>(
            StopView::Help,
        ),
        arg.len() == 0 || arg[0] != '-' ==> with_options(cli, seq![arg] + rest) == Err::<CliView, StopView>(
            StopView::Unknown(arg),
        ),
{
    options_differ();
    reveal_strlit("-q");
    reveal_strlit("-c");
    reveal_strlit("-h");
    reveal_strlit("--query");
    reveal_strlit("--context");
    reveal_strlit("--model");
    reveal_strlit("--config");
    reveal_strlit("--port");
    reveal_strlit("--iters");
    reveal_strlit("--depth");
    reveal_strlit("--no-server");
    reveal_strlit("--help");
    assert((seq![arg] + rest)[0] == arg);
}

/// The command is what stands first, unless that is an option; a command line without one asks for
/// a run. Nothing is asked for that is not written.
pub proof fn the_command_stands_first(args: Vec<String>, r: Result<Cli, CliStop>)
    requires
        call_ensures(parse_cli, (&args,), r),
    ensures
        args@.len() == 0 ==> r is Ok && r->Ok_0@ == nothing_asked("run"@),
        args@.len() == 1 && (args@[0]@.len() == 0 || args@[0]@[0] != '-') ==> r is Ok && r->Ok_0@ == nothing_asked(
            args@[0]@,
        ),
        args@.len() > 0 && (args@[0]@.len() == 0 || args@[0]@[0] != '-') ==> cli_result(r) == with_options(
            nothing_asked(args@[0]@),
            views(args@).skip(1),
        ),
        args@.len() > 0 && args@[0]@.len() > 0 && args@[0]@[0] == '-' ==> cli_result(r) == with_options(
            nothing_asked("run"@),
            views(args@),
        ),
{
    reveal_strlit("-");
    let all = views(args@);
    assert(all.len() == args@.len());
    if args@.len() > 0 {
        let first = args@[0]@;
        assert(all[0] == first);
        assert(begins(first, "-"@) <==> first.len() > 0 && first[0] == '-') by {
            if first.len() > 0 {
                assert(first.take(1)[0] == first[0]);
                if first[0] == '-' {
                    assert(first.take(1) =~= "-"@);
                }
            }
        }
    }
    assert(bare_cli("run"@) == nothing_asked("run"@));
    if args@.len() == 1 {
        assert(all.skip(1).len() == 0);
    }
}

/// A command line on which only the command is settled.
pub open spec fn nothing_asked(command: Seq<char>) -> CliView {
    CliView {
        command,
        query: None,
        context_files: Seq::empty(),
        model: None,
        config_path: None,
        port: None,
        iters: None,
        depth: None,
        no_server: false,
    }
}

/// What a command line overrides takes the place of what is configured, and only that.
pub proof fn what_is_said_overrides(cfg: ConfigView, cli: CliView)
    ensures
        cli.model matches Some(m) ==> overridden(cfg, cli).model_path == m,
        cli.model is None ==> overridden(cfg, cli).model_path == cfg.model_path,
        cli.port matches Some(p) ==> overridden(cfg, cli).port == p,
        cli.port is None ==> overridden(cfg, cli).port == cfg.port,
        cli.iters matches Some(n) ==> overridden(cfg, cli).max_iterations == n,
        cli.iters is None ==> overridden(cfg, cli).max_iterations == cfg.max_iterations,
        cli.depth matches Some(n) ==> overridden(cfg, cli).max_depth == n,
        cli.depth is None ==> overridden(cfg, cli).max_depth == cfg.max_depth,
{
}

/// A command is carried out as it is written: a run keeps its question, which it cannot do without,
/// and asks for no server of its own if and only if it was told so. Any other word is refused, and
/// told.
pub proof fn commands_are_carried_out(cli: Cli, r: Result<Command, String>)
    requires
        call_ensures(Cli::to_command, (&cli,), r),
    ensures
        cli.command@ == "serve"@ ==> r matches Ok(Command::Serve),
        cli.command@ == "daemon"@ ==> r matches Ok(Command::Daemon),
        cli.command@ == "run"@ && cli.query is Some ==> r is Ok && r->Ok_0@ == (CommandView::Run {
            query: cli.query->0@,
            policy: if cli.no_server {
                StartPolicy::Attach
            } else {
                StartPolicy::Start
            },
        }),
        cli.command@ == "run"@ && cli.query is None ==> r is Err,
        cli.command@ == "chat"@ ==> r is Ok && r->Ok_0@ == (CommandView::Chat {
            policy: if cli.no_server {
                StartPolicy::Unchecked
            } else {
                StartPolicy::Start
            },
        }),
        cli.command@ != "serve"@ && cli.command@ != "daemon"@ && cli.command@ != "run"@ && cli.command@ != "chat"@
            ==> r is Err && holds(r->Err_0@, cli.command@),
{
    reveal_strlit("serve");
    reveal_strlit("daemon");
    reveal_strlit("run");
    reveal_strlit("chat");
    assert("serve"@.len() == 5 && "daemon"@.len() == 6 && "run"@.len() == 3 && "chat"@.len() == 4);
    assert(command_result(r) == command_of(cli@));
    let name = cli.command@;
    let told = "unknown command: "@ + name + "\n\n"@ + USAGE@;
    parts_are_found("unknown command: "@, name, "\n\n"@ + USAGE@);
    assert(told =~= "unknown command: "@ + name + ("\n\n"@ + USAGE@));
}

/// What is told of a command line that is not carried out names what was wrong with it.
pub proof fn what_stops_is_named(s: CliStop, r: String)
    requires
        call_ensures(CliStop::message, (&s,), r),
    ensures
        s is Help ==> r@ == USAGE@,
        s matches CliStop::Missing(name) ==> holds(r@, name@),
        s matches CliStop::Unknown(arg) ==> holds(r@, arg@) && holds(r@, USAGE@),
{
    match s {
        CliStop::Missing(name) => {
            parts_are_found("missing value for "@, name@, Seq::empty());
            assert("missing value for "@ + name@ + Seq::empty() =~= r@);
        },
        CliStop::Unknown(arg) => {
            let front = "unknown argument: "@;
            parts_are_found(front, arg@, "\n\n"@ + USAGE@);
            assert(front + arg@ + ("\n\n"@ + USAGE@) =~= r@);
            parts_are_found(front + arg@ + "\n\n"@, USAGE@, Seq::empty());
            assert(front + arg@ + "\n\n"@ + USAGE@ + Seq::empty() =~= r@);
        },
        _ => {},
    }
}

/// A line of a chat is asked as it is written, without the space at its ends; one of nothing but
/// space asks for nothing.
pub proof fn a_line_is_asked_as_written(line: &str, r: ChatLine)
    requires
        call_ensures(chat_line, (line,), r),
    ensures
        r is Skip <==> forall|i: int| 0 <= i < line@.len() ==> is_space(#[trigger] line@[i]),
        r matches ChatLine::Ask(query) ==> query@.len() > 0 && exists|a: int, b: int|
            0 <= a < b <= line@.len() && query@ == #[trigger] line@.subrange(a, b) && (forall|i: int|
                0 <= i < a || b <= i < line@.len() ==> is_space(line@[i])),
        r is Quit ==> holds(line@, "exit"@) || holds(line@, "quit"@),
{
    let query = trimmed(line@);
    trimming_takes_the_ends_only(line@);
    let (a, b) = choose|a: int, b: int|
        0 <= a <= b <= line@.len() && query == #[trigger] line@.subrange(a, b) && (forall|i: int|
            0 <= i < a || b <= i < line@.len() ==> is_space(line@[i]));
    if r is Quit {
        quit_words_say_so(query);
        let word = if holds(query, "exit"@) {
            "exit"@
        } else {
            "quit"@
        };
        assert(line@ =~= line@.take(a) + query + line@.skip(b));
        parts_of_parts_stand(line@.take(a), query, line@.skip(b), word);
    }
}

proof fn quit_words_say_so(query: Seq<char>)
    requires
        query == "exit"@ || query == "quit"@ || query == "/exit"@ || query == "/quit"@,
    ensures
        holds(query, "exit"@) || holds(query, "quit"@),
{
    slashed_words();
    parts_are_found(Seq::empty(), "exit"@, Seq::empty());
    parts_are_found(Seq::empty(), "quit"@, Seq::empty());
    parts_are_found("/"@, "exit"@, Seq::empty());
    parts_are_found("/"@, "quit"@, Seq::empty());
    assert(Seq::empty() + "exit"@ + Seq::empty() =~= "exit"@);
    assert(Seq::empty() + "quit"@ + Seq::empty() =~= "quit"@);
    assert("/"@ + "exit"@ + Seq::empty() =~= "/"@ + "exit"@);
    assert("/"@ + "quit"@ + Seq::empty() =~= "/"@ + "quit"@);
}

proof fn slashed_words()
    ensures
        "/exit"@ == "/"@ + "exit"@,
        "/quit"@ == "/"@ + "quit"@,
{
    reveal_strlit("/");
    reveal_strlit("exit");
    reveal_strlit("quit");
    reveal_strlit("/exit");
    reveal_strlit("/quit");
    assert("/exit"@ =~= "/"@ + "exit"@);
    assert("/quit"@ =~= "/"@ + "quit"@);
}

/// What was said stands in the conversation, the answer behind its question, and both behind all
/// that was said before.
pub proof fn what_was_said_is_noted(conversation: Seq<char>, query: Seq<char>, answer: Seq<char>)
    ensures
        ({
            let now = conversed(conversation, query, answer);
            let asked = conversation.len() + 6;
            let answered = asked + query.len() + 12;
            &&& now.len() == answered + answer.len() + 2
            &&& forall|k: int| 0 <= k < conversation.len() ==> now[k] == conversation[k]
            &&& now.subrange(asked as int, (asked + query.len()) as int) == query
            &&& now.subrange(answered as int, (answered + answer.len()) as int) == answer
        }),
{
    reveal_strlit("USER: ");
    reveal_strlit("\nASSISTANT: ");
    reveal_strlit("\n\n");
    let now = conversed(conversation, query, answer);
    let asked = conversation.len() + 6;
    let answered = asked + query.len() + 12;
    assert(now.subrange(asked as int, (asked + query.len()) as int) =~= query);
    assert(now.subrange(answered as int, (answered + answer.len()) as int) =~= answer);
}

/// Each question has the contexts that the chat began with, as they are, and what was said behind
/// them if and only if anything was.
pub proof fn a_question_has_its_contexts(chat: Chat, r: Vec<(String, String)>)
    requires
        call_ensures(Chat::contexts, (&chat,), r),
    ensures
        r@.len() == chat.base@.len() + (if chat.conversation@.len() > 0 {
            1int
        } else {
            0
        }),
        forall|i: int|
            0 <= i < chat.base@.len() ==> (#[trigger] r@[i]).0@ == chat.base@[i].0@ && r@[i].1@
                == chat.base@[i].1@,
        chat.conversation@.len() > 0 ==> r@[chat.base@.len() as int].1@ == chat.conversation@
            && r@[chat.base@.len() as int].0@ == "conversation_history"@,
{
    let base = contexts_view(chat.base@);
    let got = contexts_view(r@);
    assert(got == chat_contexts(base, chat.conversation@));
    assert(got.len() == r@.len());
    assert forall|i: int| 0 <= i < chat.base@.len() implies (#[trigger] r@[i]).0@ == chat.base@[i].0@
        && r@[i].1@ == chat.base@[i].1@ by {
        assert(got[i] == (r@[i].0@, r@[i].1@));
        assert(base[i] == (chat.base@[i].0@, chat.base@[i].1@));
        assert(got[i] == base[i]);
    }
    if chat.conversation@.len() > 0 {
        let last = chat.base@.len() as int;
        assert(got[last] == (r@[last].0@, r@[last].1@));
    }
}

} // verus!
