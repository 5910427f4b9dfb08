use vstd::prelude::*;

verus! {

/// The command line of the generator.
#[derive(Clone, Copy, Debug, PartialEq, Eq)]
pub struct JetbrainsToolBoxContextArguments {
    /// The command to run; without one, the generator scans.
    pub subcommands: Option<SubCommands>,
    /// Suppress all output except for errors and formatted responses.
    pub quiet: bool,
    /// Output more information.
    pub verbose: bool,
}

/// The commands of the generator.
#[derive(Clone, Copy, Debug, PartialEq, Eq, Structural)]
pub enum SubCommands {
    /// Scan for JetBrains Toolbox installations and add context menu entries for them.
    Scan,
    /// Remove the context menu entries for JetBrains Toolbox installations.
    Uninstall,
}

/// Where the context menu entries are installed.
#[derive(Clone, Debug, PartialEq, Eq)]
pub struct InstallArguments {
    /// The path to the directory to install the context menu entries.
    pub path: String,
}

/// Options of the release check.
#[derive(Clone, Copy, Debug, PartialEq, Eq)]
pub struct UpdateArguments {
    /// Download the latest version even when it is the current one.
    pub force: bool,
    /// Only show the version number, changelog and download links.
    pub dry_run: bool,
    /// Show all releases, not only the latest one.
    pub all: bool,
    /// The format of the output.
    pub style: FormatOptions,
}

/// Why the options of the release check were refused.
#[derive(Clone, Copy, Debug, PartialEq, Eq, Structural)]
pub enum UpdateArgumentsError {
    /// `--force` cannot be used together with `--dry-run`.
    ForceWithDryRun,
    /// `--all` requires `--dry-run`.
    AllWithoutDryRun,
}

/// Whether the options of the release check go together: `--force`
/// conflicts with `--dry-run`, and `--all` requires `--dry-run`.
pub open spec fn update_arguments_check(args: UpdateArguments) -> Result<(), UpdateArgumentsError> {
    if args.force && args.dry_run {
        Err(UpdateArgumentsError::ForceWithDryRun)
    } else if args.all && !args.dry_run {
        Err(UpdateArgumentsError::AllWithoutDryRun)
    } else {
        Ok(())
    }
}

impl UpdateArguments {
    /// Checks that the options go together: `--force` conflicts with
    /// `--dry-run`, and `--all` requires `--dry-run`.
    pub fn check(&self) -> (result: Result<(), UpdateArgumentsError>)
        ensures
            result == update_arguments_check(*self),
    {
        if self.force && self.dry_run {
            Err(UpdateArgumentsError::ForceWithDryRun)
        } else if self.all && !self.dry_run {
            Err(UpdateArgumentsError::AllWithoutDryRun)
        } else {
            Ok(())
        }
    }
}

/// The output format of release information.
#[derive(Clone, Copy, Debug, PartialEq, Eq, Structural)]
pub enum FormatOptions {
    Json,
    Yaml,
    PlainText,
}

/// How much the generator logs.
#[derive(Clone, Copy, Debug, PartialEq, Eq, Structural)]
pub enum LogLevel {
    /// Errors only.
    Error,
    /// Everything.
    Trace,
    /// Errors, warnings and progress.
    Info,
}

/// The name of a log level as the logger reads it.
pub open spec fn level_name(level: LogLevel) -> Seq<char> {
    match level {
        LogLevel::Error => "error"@,
        LogLevel::Trace => "trace"@,
        LogLevel::Info => "info"@,
    }
}

impl LogLevel {
    /// The name of the level as the logger reads it: "error", "trace" or "info".
    pub fn as_str(&self) -> (name: &'static str)
        ensures
            name@ == level_name(*self),
    {
        match self {
            LogLevel::Error => "error",
            LogLevel::Trace => "trace",
            LogLevel::Info => "info",
        }
    }
}

/// The log level for the `--quiet` and `--verbose` flags: quiet wins over
/// verbose, and without either the generator logs at the info level.
pub fn log_level(quiet: bool, verbose: bool) -> (level: LogLevel)
    ensures
        quiet ==> level == LogLevel::Error,
        !quiet && verbose ==> level == LogLevel::Trace,
        !quiet && !verbose ==> level == LogLevel::Info,
{
    if quiet {
        LogLevel::Error
    } else if verbose {
        LogLevel::Trace
    } else {
        LogLevel::Info
    }
}

/// What a run of the generator does, decided from its command line.
#[derive(Clone, Copy, Debug, PartialEq, Eq)]
pub struct RunPlan {
    pub log_level: LogLevel,
    pub command: SubCommands,
    /// Show the "installed" message after a successful scan.
    pub show_installed_message: bool,
}

/// The command that runs: the one given, or `Scan` when none is.
pub open spec fn chosen_command(subcommands: Option<SubCommands>) -> SubCommands {
    match subcommands {
        Some(command) => command,
        None => SubCommands::Scan,
    }
}

impl JetbrainsToolBoxContextArguments {
    /// What a run with these arguments does: it logs at the level the flags
    /// ask for, runs the command given or scans when none is, and shows the
    /// "installed" message only when no command was given.
    pub fn plan(&self) -> (plan: RunPlan)
        ensures
            plan.log_level == (if self.quiet {
                LogLevel::Error
            } else if self.verbose {
                LogLevel::Trace
            } else {
                LogLevel::Info
            }),
            plan.command == chosen_command(self.subcommands),
            plan.show_installed_message == (self.subcommands is None),
    {
        let command = match self.subcommands {
            Some(command) => command,
            None => SubCommands::Scan,
        };
        RunPlan {
            log_level: log_level(self.quiet, self.verbose),
            command,
            show_installed_message: self.subcommands.is_none(),
        }
    }
}

/// Whether the generator attaches to the console it was started from: when
/// it was given arguments (beside its own name) or its error output is a
/// terminal.
pub fn should_attach_console(argument_count: usize, stderr_is_terminal: bool) -> (attach: bool)
    ensures
        attach == (argument_count > 1 || stderr_is_terminal),
{
    argument_count > 1 || stderr_is_terminal
}

/// The release-check options are refused exactly in the two combinations that
/// do not go together: `--force` with `--dry-run`, and `--all` without
/// `--dry-run`; every other combination (`--dry-run` alone, `--dry-run` with
/// `--all`, `--force` alone, no option) is accepted.
pub proof fn lemma_update_arguments_refusals(args: UpdateArguments)
    ensures
        (update_arguments_check(args) == Err::<(), UpdateArgumentsError>(UpdateArgumentsError::ForceWithDryRun)) <==> (
        args.force && args.dry_run),
        (update_arguments_check(args) == Err::<(), UpdateArgumentsError>(UpdateArgumentsError::AllWithoutDryRun)) <==> (
        args.all && !args.dry_run),
        (update_arguments_check(args) is Ok) <==> (!(args.force && args.dry_run) && !(args.all && !args.dry_run)),
        !args.force && !args.all ==> update_arguments_check(args) is Ok,
{
}

} // verus!
