//! The typed command model and its construction from raw command-line tokens:
//! four commands (`schedule`, `jobs`, `cancel`, `logs`), each with its
//! required flags and the global `--server` and `-v`/`--verbose` options.
//! Parsing fails before anything touches the network: an unknown command or
//! flag, a flag without its value, a repeated flag, a missing required flag,
//! or a malformed cron expression each yield their own error.

use vstd::prelude::*;

use crate::cron::{valid_cron, validate_cron_expression, CronError};
use crate::strutil::{contains_seq, lemma_concat_contains_suffix, str_eq};

verus! {

/// Global options shared across all commands.
#[derive(Debug)]
pub struct GlobalArgs {
    /// Server address, e.g. `http://localhost:8428`.
    pub server: String,
    /// Enable verbose diagnostic output.
    pub verbose: bool,
}

/// Arguments for the `schedule` command.
#[derive(Debug)]
pub struct ScheduleArgs {
    pub when: String,
    pub run: String,
    pub globals: GlobalArgs,
}

/// Arguments for the `jobs` command.
#[derive(Debug)]
pub struct JobsArgs {
    pub globals: GlobalArgs,
}

/// Arguments for the `cancel` command.
#[derive(Debug)]
pub struct CancelArgs {
    pub job_id: String,
    pub globals: GlobalArgs,
}

/// Arguments for the `logs` command.
#[derive(Debug)]
pub struct LogsArgs {
    pub job_id: String,
    pub globals: GlobalArgs,
}

/// The four commands.
#[derive(Debug)]
pub enum CliSubcommand {
    /// Schedule a new job.
    Schedule(ScheduleArgs),
    /// Show active or past jobs.
    Jobs(JobsArgs),
    /// Remove a job by its ID.
    Cancel(CancelArgs),
    /// View job execution logs by job ID.
    Logs(LogsArgs),
}

/// A parsed command line.
#[derive(Debug)]
pub struct CliArgs {
    subcommand: CliSubcommand,
}

/// Why a command line was rejected.
#[derive(Debug)]
pub enum ParseError {
    /// No command was given.
    MissingCommand,
    /// The first token is not one of the four commands.
    UnknownCommand(String),
    /// A token in flag position is not a flag of the command.
    UnknownFlag(String),
    /// A value flag stands at the end of the line, without its value.
    MissingValue(String),
    /// A flag was given twice.
    DuplicateFlag(String),
    /// A required flag is absent; carries the flag's name.
    MissingArg(String),
    /// The `--when` value is not a valid cron expression; carries the value.
    InvalidCron(String),
}

// ---------------------------------------------------------------------------
// The specification-level command model
// ---------------------------------------------------------------------------

/// Which command the tokens name.
#[derive(Debug, Clone, Copy, PartialEq, Eq, Structural)]
pub enum CmdKind {
    Schedule,
    Jobs,
    Cancel,
    Logs,
}

/// The command model at the specification level.
pub enum SpecCommand {
    Schedule { when: Seq<char>, run: Seq<char>, server: Seq<char>, verbose: bool },
    Jobs { server: Seq<char>, verbose: bool },
    Cancel { job_id: Seq<char>, server: Seq<char>, verbose: bool },
    Logs { job_id: Seq<char>, server: Seq<char>, verbose: bool },
}

/// The parse failures at the specification level.
pub enum SpecParseError {
    MissingCommand,
    UnknownCommand(Seq<char>),
    UnknownFlag(Seq<char>),
    MissingValue(Seq<char>),
    DuplicateFlag(Seq<char>),
    MissingArg(Seq<char>),
    InvalidCron(Seq<char>),
}

/// What a concrete parse error stands for.
pub open spec fn parse_error_view(e: ParseError) -> SpecParseError {
    match e {
        ParseError::MissingCommand => SpecParseError::MissingCommand,
        ParseError::UnknownCommand(s) => SpecParseError::UnknownCommand(s@),
        ParseError::UnknownFlag(s) => SpecParseError::UnknownFlag(s@),
        ParseError::MissingValue(s) => SpecParseError::MissingValue(s@),
        ParseError::DuplicateFlag(s) => SpecParseError::DuplicateFlag(s@),
        ParseError::MissingArg(s) => SpecParseError::MissingArg(s@),
        ParseError::InvalidCron(s) => SpecParseError::InvalidCron(s@),
    }
}

/// What a concrete command stands for.
pub open spec fn command_view(c: CliSubcommand) -> SpecCommand {
    match c {
        CliSubcommand::Schedule(a) => SpecCommand::Schedule {
            when: a.when@,
            run: a.run@,
            server: a.globals.server@,
            verbose: a.globals.verbose,
        },
        CliSubcommand::Jobs(a) => SpecCommand::Jobs {
            server: a.globals.server@,
            verbose: a.globals.verbose,
        },
        CliSubcommand::Cancel(a) => SpecCommand::Cancel {
            job_id: a.job_id@,
            server: a.globals.server@,
            verbose: a.globals.verbose,
        },
        CliSubcommand::Logs(a) => SpecCommand::Logs {
            job_id: a.job_id@,
            server: a.globals.server@,
            verbose: a.globals.verbose,
        },
    }
}

/// The flag state while scanning: the values of `--when`, `--run`,
/// `--job-id` and `--server` seen so far, and whether `-v` was seen.
pub open spec fn spec_parse_flags(
    kind: CmdKind,
    tokens: Seq<Seq<char>>,
    i: int,
    when: Option<Seq<char>>,
    run: Option<Seq<char>>,
    job_id: Option<Seq<char>>,
    server: Option<Seq<char>>,
    verbose: bool,
) -> Result<
    (Option<Seq<char>>, Option<Seq<char>>, Option<Seq<char>>, Option<Seq<char>>, bool),
    SpecParseError,
>
    decreases tokens.len() - i,
{
    if i >= tokens.len() {
        Ok((when, run, job_id, server, verbose))
    } else {
        let t = tokens[i];
        if t == "-v"@ || t == "--verbose"@ {
            spec_parse_flags(kind, tokens, i + 1, when, run, job_id, server, true)
        } else if t == "--server"@ {
            if i + 1 >= tokens.len() {
                Err(SpecParseError::MissingValue(t))
            } else if server is Some {
                Err(SpecParseError::DuplicateFlag(t))
            } else {
                spec_parse_flags(
                    kind,
                    tokens,
                    i + 2,
                    when,
                    run,
                    job_id,
                    Some(tokens[i + 1]),
                    verbose,
                )
            }
        } else if kind == CmdKind::Schedule && (t == "--when"@ || t == "-w"@) {
            if i + 1 >= tokens.len() {
                Err(SpecParseError::MissingValue(t))
            } else if when is Some {
                Err(SpecParseError::DuplicateFlag(t))
            } else if !valid_cron(tokens[i + 1]) {
                Err(SpecParseError::InvalidCron(tokens[i + 1]))
            } else {
                spec_parse_flags(
                    kind,
                    tokens,
                    i + 2,
                    Some(tokens[i + 1]),
                    run,
                    job_id,
                    server,
                    verbose,
                )
            }
        } else if kind == CmdKind::Schedule && (t == "--run"@ || t == "-r"@) {
            if i + 1 >= tokens.len() {
                Err(SpecParseError::MissingValue(t))
            } else if run is Some {
                Err(SpecParseError::DuplicateFlag(t))
            } else {
                spec_parse_flags(
                    kind,
                    tokens,
                    i + 2,
                    when,
                    Some(tokens[i + 1]),
                    job_id,
                    server,
                    verbose,
                )
            }
        } else if (kind == CmdKind::Cancel || kind == CmdKind::Logs) && (t == "--job-id"@ || t
            == "-j"@) {
            if i + 1 >= tokens.len() {
                Err(SpecParseError::MissingValue(t))
            } else if job_id is Some {
                Err(SpecParseError::DuplicateFlag(t))
            } else {
                spec_parse_flags(
                    kind,
                    tokens,
                    i + 2,
                    when,
                    run,
                    Some(tokens[i + 1]),
                    server,
                    verbose,
                )
            }
        } else {
            Err(SpecParseError::UnknownFlag(t))
        }
    }
}

/// The command the tokens name, where they name one.
pub open spec fn spec_command_kind(cmd: Seq<char>) -> Option<CmdKind> {
    if cmd == "schedule"@ {
        Some(CmdKind::Schedule)
    } else if cmd == "jobs"@ {
        Some(CmdKind::Jobs)
    } else if cmd == "cancel"@ {
        Some(CmdKind::Cancel)
    } else if cmd == "logs"@ {
        Some(CmdKind::Logs)
    } else {
        None
    }
}

/// What parsing a whole token list yields: the first token is the program
/// name, the second the command, the rest its flags. Missing required flags
/// are reported in the order `--server`, `--when`, `--run`, `--job-id`.
pub open spec fn spec_parse(tokens: Seq<Seq<char>>) -> Result<SpecCommand, SpecParseError> {
    if tokens.len() < 2 {
        Err(SpecParseError::MissingCommand)
    } else {
        match spec_command_kind(tokens[1]) {
            None => Err(SpecParseError::UnknownCommand(tokens[1])),
            Some(kind) => match spec_parse_flags(
                kind,
                tokens,
                2,
                None,
                None,
                None,
                None,
                false,
            ) {
                Err(e) => Err(e),
                Ok((when, run, job_id, server, verbose)) => {
                    if server is None {
                        Err(SpecParseError::MissingArg("--server"@))
                    } else {
                        match kind {
                            CmdKind::Schedule => {
                                if when is None {
                                    Err(SpecParseError::MissingArg("--when"@))
                                } else if run is None {
                                    Err(SpecParseError::MissingArg("--run"@))
                                } else {
                                    Ok(
                                        SpecCommand::Schedule {
                                            when: when->0,
                                            run: run->0,
                                            server: server->0,
                                            verbose,
                                        },
                                    )
                                }
                            },
                            CmdKind::Jobs => Ok(
                                SpecCommand::Jobs { server: server->0, verbose },
                            ),
                            CmdKind::Cancel => {
                                if job_id is None {
                                    Err(SpecParseError::MissingArg("--job-id"@))
                                } else {
                                    Ok(
                                        SpecCommand::Cancel {
                                            job_id: job_id->0,
                                            server: server->0,
                                            verbose,
                                        },
                                    )
                                }
                            },
                            CmdKind::Logs => {
                                if job_id is None {
                                    Err(SpecParseError::MissingArg("--job-id"@))
                                } else {
                                    Ok(
                                        SpecCommand::Logs {
                                            job_id: job_id->0,
                                            server: server->0,
                                            verbose,
                                        },
                                    )
                                }
                            },
                        }
                    }
                },
            },
        }
    }
}

// ---------------------------------------------------------------------------
// Executable parsing
// ---------------------------------------------------------------------------

/// What an optional owned string stands for.
pub open spec fn opt_str_view(o: Option<String>) -> Option<Seq<char>> {
    match o {
        None => None,
        Some(s) => Some(s@),
    }
}

/// Scans the flag tokens from position `i` on.
fn parse_flags(
    kind: CmdKind,
    tokens: &Vec<String>,
    i: usize,
    when: Option<String>,
    run: Option<String>,
    job_id: Option<String>,
    server: Option<String>,
    verbose: bool,
) -> (r: Result<(Option<String>, Option<String>, Option<String>, Option<String>, bool), ParseError>)
    ensures
        match spec_parse_flags(
            kind,
            tokens.deep_view(),
            i as int,
            opt_str_view(when),
            opt_str_view(run),
            opt_str_view(job_id),
            opt_str_view(server),
            verbose,
        ) {
            Ok((w, ru, j, se, vb)) => r is Ok && opt_str_view((r->Ok_0).0) == w && opt_str_view(
                (r->Ok_0).1,
            ) == ru && opt_str_view((r->Ok_0).2) == j && opt_str_view((r->Ok_0).3) == se && (
            r->Ok_0).4 == vb,
            Err(se) => r is Err && parse_error_view(r->Err_0) == se,
        },
    decreases tokens@.len() - i,
{
    proof {
        assert(tokens.deep_view().len() == tokens@.len());
    }
    if i >= tokens.len() {
        return Ok((when, run, job_id, server, verbose));
    }
    proof {
        assert(tokens.deep_view()[i as int] == tokens@[i as int]@);
    }
    let t = &tokens[i];
    if str_eq(t.as_str(), "-v") || str_eq(t.as_str(), "--verbose") {
        parse_flags(kind, tokens, i + 1, when, run, job_id, server, true)
    } else if str_eq(t.as_str(), "--server") {
        if i + 1 >= tokens.len() {
            Err(ParseError::MissingValue(t.clone()))
        } else if server.is_some() {
            Err(ParseError::DuplicateFlag(t.clone()))
        } else {
            proof {
                assert(tokens.deep_view()[i + 1] == tokens@[i + 1]@);
            }
            parse_flags(kind, tokens, i + 2, when, run, job_id, Some(tokens[i + 1].clone()), verbose)
        }
    } else if matches!(kind, CmdKind::Schedule) && (str_eq(t.as_str(), "--when") || str_eq(
        t.as_str(),
        "-w",
    )) {
        if i + 1 >= tokens.len() {
            Err(ParseError::MissingValue(t.clone()))
        } else if when.is_some() {
            Err(ParseError::DuplicateFlag(t.clone()))
        } else {
            proof {
                assert(tokens.deep_view()[i + 1] == tokens@[i + 1]@);
            }
            match validate_cron_expression(tokens[i + 1].as_str()) {
                Err(_) => Err(ParseError::InvalidCron(tokens[i + 1].clone())),
                Ok(validated) => parse_flags(
                    kind,
                    tokens,
                    i + 2,
                    Some(validated),
                    run,
                    job_id,
                    server,
                    verbose,
                ),
            }
        }
    } else if matches!(kind, CmdKind::Schedule) && (str_eq(t.as_str(), "--run") || str_eq(
        t.as_str(),
        "-r",
    )) {
        if i + 1 >= tokens.len() {
            Err(ParseError::MissingValue(t.clone()))
        } else if run.is_some() {
            Err(ParseError::DuplicateFlag(t.clone()))
        } else {
            proof {
                assert(tokens.deep_view()[i + 1] == tokens@[i + 1]@);
            }
            parse_flags(kind, tokens, i + 2, when, Some(tokens[i + 1].clone()), job_id, server, verbose)
        }
    } else if (matches!(kind, CmdKind::Cancel) || matches!(kind, CmdKind::Logs)) && (str_eq(
        t.as_str(),
        "--job-id",
    ) || str_eq(t.as_str(), "-j")) {
        if i + 1 >= tokens.len() {
            Err(ParseError::MissingValue(t.clone()))
        } else if job_id.is_some() {
            Err(ParseError::DuplicateFlag(t.clone()))
        } else {
            proof {
                assert(tokens.deep_view()[i + 1] == tokens@[i + 1]@);
            }
            parse_flags(kind, tokens, i + 2, when, run, Some(tokens[i + 1].clone()), server, verbose)
        }
    } else {
        Err(ParseError::UnknownFlag(t.clone()))
    }
}

impl CliArgs {
    /// The command this invocation asks for, as the contracts see it.
    pub closed spec fn spec_subcommand(self) -> CliSubcommand {
        self.subcommand
    }

    /// Parses a command line given as tokens, the program name first.
    pub fn try_parse_from(tokens: &Vec<String>) -> (r: Result<CliArgs, ParseError>)
        ensures
            match spec_parse(tokens.deep_view()) {
                Ok(sc) => r is Ok && command_view((r->Ok_0).spec_subcommand()) == sc,
                Err(se) => r is Err && parse_error_view(r->Err_0) == se,
            },
    {
        proof {
            assert(tokens.deep_view().len() == tokens@.len());
        }
        if tokens.len() < 2 {
            return Err(ParseError::MissingCommand);
        }
        proof {
            assert(tokens.deep_view()[1] == tokens@[1]@);
        }
        let cmd = &tokens[1];
        let kind: CmdKind;
        if str_eq(cmd.as_str(), "schedule") {
            kind = CmdKind::Schedule;
        } else if str_eq(cmd.as_str(), "jobs") {
            kind = CmdKind::Jobs;
        } else if str_eq(cmd.as_str(), "cancel") {
            kind = CmdKind::Cancel;
        } else if str_eq(cmd.as_str(), "logs") {
            kind = CmdKind::Logs;
        } else {
            return Err(ParseError::UnknownCommand(cmd.clone()));
        }
        match parse_flags(kind, tokens, 2, None, None, None, None, false) {
            Err(e) => Err(e),
            Ok((when, run, job_id, server, verbose)) => {
                let server = match server {
                    None => {
                        return Err(ParseError::MissingArg("--server".to_owned()));
                    },
                    Some(s) => s,
                };
                let globals = GlobalArgs { server, verbose };
                match kind {
                    CmdKind::Schedule => {
                        let when = match when {
                            None => {
                                return Err(ParseError::MissingArg("--when".to_owned()));
                            },
                            Some(w) => w,
                        };
                        let run = match run {
                            None => {
                                return Err(ParseError::MissingArg("--run".to_owned()));
                            },
                            Some(x) => x,
                        };
                        Ok(
                            CliArgs {
                                subcommand: CliSubcommand::Schedule(
                                    ScheduleArgs { when, run, globals },
                                ),
                            },
                        )
                    },
                    CmdKind::Jobs => Ok(
                        CliArgs { subcommand: CliSubcommand::Jobs(JobsArgs { globals }) },
                    ),
                    CmdKind::Cancel => {
                        let job_id = match job_id {
                            None => {
                                return Err(ParseError::MissingArg("--job-id".to_owned()));
                            },
                            Some(j) => j,
                        };
                        Ok(
                            CliArgs {
                                subcommand: CliSubcommand::Cancel(CancelArgs { job_id, globals }),
                            },
                        )
                    },
                    CmdKind::Logs => {
                        let job_id = match job_id {
                            None => {
                                return Err(ParseError::MissingArg("--job-id".to_owned()));
                            },
                            Some(j) => j,
                        };
                        Ok(
                            CliArgs {
                                subcommand: CliSubcommand::Logs(LogsArgs { job_id, globals }),
                            },
                        )
                    },
                }
            },
        }
    }

    /// The command this invocation asks for.
    pub fn subcommand(&self) -> (r: &CliSubcommand)
        ensures
            *r == self.spec_subcommand(),
    {
        &self.subcommand
    }
}

impl ScheduleArgs {
    /// Validates a cron expression for the `--when` flag: hands the input back
    /// unchanged exactly when it is a valid six-field expression.
    pub fn cron_expression_validator(cron: &str) -> (r: Result<String, CronError>)
        ensures
            r is Ok <==> valid_cron(cron@),
            r is Ok ==> (r->Ok_0)@ == cron@,
    {
        validate_cron_expression(cron)
    }

    pub fn isverbose(&self) -> (r: bool)
        ensures
            r == self.globals.verbose,
    {
        self.globals.verbose
    }

    pub fn server(&self) -> (r: &str)
        ensures
            r@ == self.globals.server@,
    {
        self.globals.server.as_str()
    }

    pub fn run(&self) -> (r: &str)
        ensures
            r@ == self.run@,
    {
        self.run.as_str()
    }

    pub fn when(&self) -> (r: &str)
        ensures
            r@ == self.when@,
    {
        self.when.as_str()
    }
}

impl CancelArgs {
    pub fn job_id(&self) -> (r: &str)
        ensures
            r@ == self.job_id@,
    {
        self.job_id.as_str()
    }

    pub fn server(&self) -> (r: &str)
        ensures
            r@ == self.globals.server@,
    {
        self.globals.server.as_str()
    }

    pub fn isverbose(&self) -> (r: bool)
        ensures
            r == self.globals.verbose,
    {
        self.globals.verbose
    }
}

impl JobsArgs {
    pub fn server(&self) -> (r: &str)
        ensures
            r@ == self.globals.server@,
    {
        self.globals.server.as_str()
    }

    pub fn isverbose(&self) -> (r: bool)
        ensures
            r == self.globals.verbose,
    {
        self.globals.verbose
    }
}

impl LogsArgs {
    pub fn job_id(&self) -> (r: &str)
        ensures
            r@ == self.job_id@,
    {
        self.job_id.as_str()
    }

    pub fn server(&self) -> (r: &str)
        ensures
            r@ == self.globals.server@,
    {
        self.globals.server.as_str()
    }

    pub fn isverbose(&self) -> (r: bool)
        ensures
            r == self.globals.verbose,
    {
        self.globals.verbose
    }
}

/// The rendered message of each parse failure.
pub open spec fn spec_parse_error_message(e: ParseError) -> Seq<char> {
    match e {
        ParseError::MissingCommand => "no command given"@,
        ParseError::UnknownCommand(s) => "unrecognized command: "@ + s@,
        ParseError::UnknownFlag(s) => "unexpected argument: "@ + s@,
        ParseError::MissingValue(s) => "a value is required for "@ + s@,
        ParseError::DuplicateFlag(s) => "the argument cannot be used multiple times: "@ + s@,
        ParseError::MissingArg(s) => "the following required arguments were not provided: "@ + s@,
        ParseError::InvalidCron(s) => "Invalid cron expression: "@ + s@,
    }
}

impl ParseError {
    /// Renders the parse failure for the user.
    pub fn message(&self) -> (m: String)
        ensures
            m@ == spec_parse_error_message(*self),
    {
        match self {
            ParseError::MissingCommand => "no command given".to_owned(),
            ParseError::UnknownCommand(s) => {
                let mut m = String::new();
                m.append("unrecognized command: ");
                m.append(s.as_str());
                m
            },
            ParseError::UnknownFlag(s) => {
                let mut m = String::new();
                m.append("unexpected argument: ");
                m.append(s.as_str());
                m
            },
            ParseError::MissingValue(s) => {
                let mut m = String::new();
                m.append("a value is required for ");
                m.append(s.as_str());
                m
            },
            ParseError::DuplicateFlag(s) => {
                let mut m = String::new();
                m.append("the argument cannot be used multiple times: ");
                m.append(s.as_str());
                m
            },
            ParseError::MissingArg(s) => {
                let mut m = String::new();
                m.append("the following required arguments were not provided: ");
                m.append(s.as_str());
                m
            },
            ParseError::InvalidCron(s) => {
                let mut m = String::new();
                m.append("Invalid cron expression: ");
                m.append(s.as_str());
                m
            },
        }
    }
}

// ---------------------------------------------------------------------------
// Laws of command-line parsing
// ---------------------------------------------------------------------------

/// The flag scan records a server only when a `--server` token occurs.
proof fn lemma_flags_server_source(
    kind: CmdKind,
    tokens: Seq<Seq<char>>,
    i: int,
    when: Option<Seq<char>>,
    run: Option<Seq<char>>,
    job_id: Option<Seq<char>>,
    server: Option<Seq<char>>,
    verbose: bool,
)
    requires
        spec_parse_flags(kind, tokens, i, when, run, job_id, server, verbose) is Ok,
        ((spec_parse_flags(kind, tokens, i, when, run, job_id, server, verbose)->Ok_0).3) is Some,
        server is None,
    ensures
        exists|j: int| i <= j < tokens.len() && tokens[j] == "--server"@,
    decreases tokens.len() - i,
{
    if i < tokens.len() {
        let t = tokens[i];
        if t == "--server"@ {
            assert(tokens[i] == "--server"@);
        } else if t == "-v"@ || t == "--verbose"@ {
            lemma_flags_server_source(kind, tokens, i + 1, when, run, job_id, server, true);
        } else if kind == CmdKind::Schedule && (t == "--when"@ || t == "-w"@) {
            lemma_flags_server_source(
                kind,
                tokens,
                i + 2,
                Some(tokens[i + 1]),
                run,
                job_id,
                server,
                verbose,
            );
        } else if kind == CmdKind::Schedule && (t == "--run"@ || t == "-r"@) {
            lemma_flags_server_source(
                kind,
                tokens,
                i + 2,
                when,
                Some(tokens[i + 1]),
                job_id,
                server,
                verbose,
            );
        } else if (kind == CmdKind::Cancel || kind == CmdKind::Logs) && (t == "--job-id"@ || t
            == "-j"@) {
            lemma_flags_server_source(
                kind,
                tokens,
                i + 2,
                when,
                run,
                Some(tokens[i + 1]),
                server,
                verbose,
            );
        }
    }
}

/// Law: no command line parses without `--server`. A token list that holds no
/// `--server` token never yields a command, and where its flags scan cleanly
/// it fails naming exactly that flag.
pub proof fn lemma_missing_server_rejected(tokens: Seq<Seq<char>>)
    requires
        forall|j: int| 0 <= j < tokens.len() ==> tokens[j] != "--server"@,
    ensures
        !(spec_parse(tokens) is Ok),
        (tokens.len() >= 2 && spec_command_kind(tokens[1]) is Some && spec_parse_flags(
            spec_command_kind(tokens[1])->0,
            tokens,
            2,
            None,
            None,
            None,
            None,
            false,
        ) is Ok) ==> spec_parse(tokens) == Err::<SpecCommand, SpecParseError>(
            SpecParseError::MissingArg("--server"@),
        ),
{
    if tokens.len() >= 2 {
        match spec_command_kind(tokens[1]) {
            None => {},
            Some(kind) => {
                match spec_parse_flags(kind, tokens, 2, None, None, None, None, false) {
                    Err(e) => {},
                    Ok((when, run, job_id, server, verbose)) => {
                        if server is Some {
                            lemma_flags_server_source(
                                kind,
                                tokens,
                                2,
                                None,
                                None,
                                None,
                                None,
                                false,
                            );
                        }
                    },
                }
            },
        }
    }
}

/// Law: an error about a missing required flag names that flag in its
/// rendered message.
pub proof fn lemma_missing_arg_message_names_flag(flag: String)
    ensures
        contains_seq(spec_parse_error_message(ParseError::MissingArg(flag)), flag@),
{
    lemma_concat_contains_suffix(
        "the following required arguments were not provided: "@,
        flag@,
    );
}

} // verus!
