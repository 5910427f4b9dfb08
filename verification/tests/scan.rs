use toolbox_context_menu::registry::{add_self_to_context_menu, create_context_menu, remove_existing_context_menu};
use toolbox_context_menu::scan::{
    scan, uninstall_plan, ScanAction, ScanError, ScanEvent, ScanOutcome, ScanState, SelfPathProblem,
};
use toolbox_context_menu::toolbox_state::Tool;

fn tools() -> Vec<Tool> {
    vec![Tool::new("GoLand".to_string(), "C:\\GoLand".to_string(), "bin\\goland64.exe".to_string())]
}

/// Feeds the events in turn, checking that each is expected, and returns the actions.
fn drive(events: Vec<ScanEvent>) -> (ScanState, Vec<ScanAction>) {
    let mut state = ScanState::Start;
    let mut actions = Vec::new();
    for event in events {
        assert!(state.accepts(&event), "{:?} does not accept {:?}", state, event);
        let (next, action) = scan(state, event);
        state = next;
        actions.push(action);
    }
    (state, actions)
}

fn toolbox() -> String {
    "C:\\Users\\me\\AppData\\Local\\JetBrains\\Toolbox\\bin".to_string()
}

fn exe() -> String {
    format!("{}\\jetbrains-toolbox.exe", toolbox())
}

fn state_file() -> String {
    "C:\\Users\\me\\AppData\\Local\\JetBrains\\Toolbox\\state.json".to_string()
}

#[test]
fn full_scan() {
    let (state, actions) = drive(vec![
        ScanEvent::Begin,
        ScanEvent::ToolboxPathRead(Some(toolbox())),
        ScanEvent::ExecutableChecked { path: exe(), exists: true },
        ScanEvent::StateFileChecked { path: state_file(), exists: true },
        ScanEvent::MenusRemoved,
        ScanEvent::ToolsRead(Some(tools())),
        ScanEvent::RegistryWritten(Ok(())),
        ScanEvent::SelfPathRead(Ok("C:\\gen.exe".to_string())),
        ScanEvent::RegistryWritten(Ok(())),
    ]);
    assert_eq!(state, ScanState::Finished);
    assert_eq!(
        actions,
        vec![
            ScanAction::ReadToolboxPath,
            ScanAction::CheckExecutable { toolbox_path: toolbox(), file_name: "jetbrains-toolbox.exe".to_string() },
            ScanAction::LocateStateFile { toolbox_path: toolbox(), file_name: "state.json".to_string() },
            ScanAction::RemoveMenus { keys: remove_existing_context_menu() },
            ScanAction::ReadTools { state_file: state_file() },
            ScanAction::WriteRegistry { ops: create_context_menu(&exe(), &tools()) },
            ScanAction::ReadSelfPath,
            ScanAction::WriteRegistry { ops: add_self_to_context_menu("C:\\gen.exe") },
            ScanAction::Finish(Ok(ScanOutcome::Completed)),
        ]
    );
    assert!(!state.accepts(&ScanEvent::Begin));
}

#[test]
fn unreadable_state_file_still_adds_own_entries() {
    let (_, actions) = drive(vec![
        ScanEvent::Begin,
        ScanEvent::ToolboxPathRead(Some(toolbox())),
        ScanEvent::ExecutableChecked { path: exe(), exists: true },
        ScanEvent::StateFileChecked { path: state_file(), exists: true },
        ScanEvent::MenusRemoved,
        ScanEvent::ToolsRead(None),
        ScanEvent::SelfPathRead(Ok("g".to_string())),
        ScanEvent::RegistryWritten(Ok(())),
    ]);
    assert_eq!(actions[5], ScanAction::ReadSelfPath);
    assert_eq!(actions[6], ScanAction::WriteRegistry { ops: add_self_to_context_menu("g") });
    assert_eq!(actions[7], ScanAction::Finish(Ok(ScanOutcome::Completed)));
}

#[test]
fn toolbox_not_registered() {
    let (state, actions) = drive(vec![ScanEvent::Begin, ScanEvent::ToolboxPathRead(None)]);
    assert_eq!(state, ScanState::Finished);
    assert_eq!(actions[1], ScanAction::Finish(Err(ScanError::ToolboxNotRegistered)));
    assert_eq!(ScanError::ToolboxNotRegistered.message(), "JetBrains Toolbox not found in registry");
}

#[test]
fn missing_executable_ends_without_error() {
    let (state, actions) = drive(vec![
        ScanEvent::Begin,
        ScanEvent::ToolboxPathRead(Some(toolbox())),
        ScanEvent::ExecutableChecked { path: exe(), exists: false },
    ]);
    assert_eq!(state, ScanState::Finished);
    assert_eq!(actions[2], ScanAction::Finish(Ok(ScanOutcome::ExecutableMissing)));
}

#[test]
fn no_parent_directory() {
    let (_, actions) = drive(vec![
        ScanEvent::Begin,
        ScanEvent::ToolboxPathRead(Some("C:\\".to_string())),
        ScanEvent::ExecutableChecked { path: "C:\\jetbrains-toolbox.exe".to_string(), exists: true },
        ScanEvent::ParentDirectoryMissing,
    ]);
    let error = ScanError::NoParentDirectory { toolbox_path: "C:\\".to_string() };
    assert_eq!(error.message(), "Failed to locate parent directory for C:\\");
    assert_eq!(actions[3], ScanAction::Finish(Err(error)));
}

#[test]
fn missing_state_file() {
    let (_, actions) = drive(vec![
        ScanEvent::Begin,
        ScanEvent::ToolboxPathRead(Some(toolbox())),
        ScanEvent::ExecutableChecked { path: exe(), exists: true },
        ScanEvent::StateFileChecked { path: state_file(), exists: false },
    ]);
    let error = ScanError::StateFileMissing { path: state_file() };
    assert_eq!(error.message(), format!("state.json not found at {}", state_file()));
    assert_eq!(actions[3], ScanAction::Finish(Err(error)));
    assert!(!actions.iter().any(|a| matches!(a, ScanAction::RemoveMenus { .. } | ScanAction::WriteRegistry { .. })));
}

#[test]
fn failed_menu_write_ends_scan() {
    let (state, actions) = drive(vec![
        ScanEvent::Begin,
        ScanEvent::ToolboxPathRead(Some(toolbox())),
        ScanEvent::ExecutableChecked { path: exe(), exists: true },
        ScanEvent::StateFileChecked { path: state_file(), exists: true },
        ScanEvent::MenusRemoved,
        ScanEvent::ToolsRead(Some(tools())),
        ScanEvent::RegistryWritten(Err("Failed to set MUIVerb value".to_string())),
    ]);
    assert_eq!(state, ScanState::Finished);
    let error = ScanError::RegistryWriteFailed { failure: "Failed to set MUIVerb value".to_string() };
    assert_eq!(error.message(), "Failed to set MUIVerb value");
    assert_eq!(actions[6], ScanAction::Finish(Err(error)));
}

#[test]
fn failed_self_entry_write_ends_scan() {
    let (_, actions) = drive(vec![
        ScanEvent::Begin,
        ScanEvent::ToolboxPathRead(Some(toolbox())),
        ScanEvent::ExecutableChecked { path: exe(), exists: true },
        ScanEvent::StateFileChecked { path: state_file(), exists: true },
        ScanEvent::MenusRemoved,
        ScanEvent::ToolsRead(None),
        ScanEvent::SelfPathRead(Ok("g".to_string())),
        ScanEvent::RegistryWritten(Err("Failed to set scan command".to_string())),
    ]);
    assert_eq!(
        actions[7],
        ScanAction::Finish(Err(ScanError::RegistryWriteFailed { failure: "Failed to set scan command".to_string() }))
    );
}

#[test]
fn unknown_self_path() {
    for problem in [SelfPathProblem::Unavailable, SelfPathProblem::NotUnicode] {
        let (_, actions) = drive(vec![
            ScanEvent::Begin,
            ScanEvent::ToolboxPathRead(Some(toolbox())),
            ScanEvent::ExecutableChecked { path: exe(), exists: true },
            ScanEvent::StateFileChecked { path: state_file(), exists: true },
            ScanEvent::MenusRemoved,
            ScanEvent::ToolsRead(Some(tools())),
            ScanEvent::RegistryWritten(Ok(())),
            ScanEvent::SelfPathRead(Err(problem)),
        ]);
        assert_eq!(actions[7], ScanAction::Finish(Err(ScanError::SelfPathUnavailable(problem))));
    }
    assert_eq!(
        ScanError::SelfPathUnavailable(SelfPathProblem::Unavailable).message(),
        "Failed to get current executable path"
    );
    assert_eq!(ScanError::SelfPathUnavailable(SelfPathProblem::NotUnicode).message(), "Failed to convert path to string");
}

#[test]
fn removal_comes_before_any_write() {
    let (_, actions) = drive(vec![
        ScanEvent::Begin,
        ScanEvent::ToolboxPathRead(Some(toolbox())),
        ScanEvent::ExecutableChecked { path: exe(), exists: true },
        ScanEvent::StateFileChecked { path: state_file(), exists: true },
        ScanEvent::MenusRemoved,
        ScanEvent::ToolsRead(Some(tools())),
        ScanEvent::RegistryWritten(Ok(())),
        ScanEvent::SelfPathRead(Ok("g".to_string())),
        ScanEvent::RegistryWritten(Ok(())),
    ]);
    let removal = actions.iter().position(|a| matches!(a, ScanAction::RemoveMenus { .. })).unwrap();
    let first_write = actions.iter().position(|a| matches!(a, ScanAction::WriteRegistry { .. })).unwrap();
    assert!(removal < first_write);
}

#[test]
fn states_accept_only_their_events() {
    assert!(ScanState::Start.accepts(&ScanEvent::Begin));
    assert!(!ScanState::Start.accepts(&ScanEvent::MenusRemoved));
    assert!(ScanState::ReadingToolboxPath.accepts(&ScanEvent::ToolboxPathRead(None)));
    assert!(!ScanState::WritingMenus.accepts(&ScanEvent::ToolsRead(None)));
    assert!(ScanState::AddingSelf.accepts(&ScanEvent::RegistryWritten(Ok(()))));
    assert!(!ScanState::Finished.accepts(&ScanEvent::RegistryWritten(Ok(()))));
}

#[test]
fn uninstall_removes_menus_then_runs_uninstaller() {
    let plan = uninstall_plan();
    assert_eq!(plan.keys, remove_existing_context_menu());
    assert_eq!(plan.uninstaller, "uninstall.exe");
}
