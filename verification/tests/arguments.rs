use toolbox_context_menu::arguments::{FormatOptions, UpdateArguments, UpdateArgumentsError};
use toolbox_context_menu::arguments::{
    log_level, should_attach_console, JetbrainsToolBoxContextArguments, LogLevel, SubCommands,
};

fn args(subcommands: Option<SubCommands>, quiet: bool, verbose: bool) -> JetbrainsToolBoxContextArguments {
    JetbrainsToolBoxContextArguments { subcommands, quiet, verbose }
}

#[test]
fn quiet_wins_over_verbose() {
    assert_eq!(log_level(true, true), LogLevel::Error);
    assert_eq!(log_level(true, false), LogLevel::Error);
    assert_eq!(log_level(false, true), LogLevel::Trace);
    assert_eq!(log_level(false, false), LogLevel::Info);
}

#[test]
fn level_names() {
    assert_eq!(LogLevel::Error.as_str(), "error");
    assert_eq!(LogLevel::Trace.as_str(), "trace");
    assert_eq!(LogLevel::Info.as_str(), "info");
}

#[test]
fn no_command_means_scan_with_message() {
    let plan = args(None, false, false).plan();
    assert_eq!(plan.command, SubCommands::Scan);
    assert!(plan.show_installed_message);
    assert_eq!(plan.log_level, LogLevel::Info);
}

#[test]
fn explicit_scan_shows_no_message() {
    let plan = args(Some(SubCommands::Scan), true, false).plan();
    assert_eq!(plan.command, SubCommands::Scan);
    assert!(!plan.show_installed_message);
    assert_eq!(plan.log_level, LogLevel::Error);
}

#[test]
fn uninstall_is_run_when_asked() {
    let plan = args(Some(SubCommands::Uninstall), false, true).plan();
    assert_eq!(plan.command, SubCommands::Uninstall);
    assert!(!plan.show_installed_message);
    assert_eq!(plan.log_level, LogLevel::Trace);
}

#[test]
fn console_is_attached_with_arguments_or_terminal() {
    assert!(!should_attach_console(1, false));
    assert!(should_attach_console(2, false));
    assert!(should_attach_console(1, true));
    assert!(should_attach_console(0, true));
    assert!(!should_attach_console(0, false));
}

#[test]
fn release_check_options_must_go_together() {
    let args = |force: bool, dry_run: bool, all: bool| UpdateArguments { force, dry_run, all, style: FormatOptions::PlainText };
    assert_eq!(args(true, true, false).check(), Err(UpdateArgumentsError::ForceWithDryRun));
    assert_eq!(args(false, false, true).check(), Err(UpdateArgumentsError::AllWithoutDryRun));
    assert_eq!(args(true, false, false).check(), Ok(()));
    assert_eq!(args(false, true, true).check(), Ok(()));
    assert_eq!(args(false, false, false).check(), Ok(()));
}
