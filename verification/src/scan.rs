use vstd::prelude::*;

use crate::registry::{
    add_self_to_context_menu, background_menu_key, context_menu_model, create_context_menu, directory_menu_key,
    lemma_removal_covers_scan, lemma_tool_items_layout, lies_within, menu_model, shell_key, ops_model, remove_existing_context_menu, removed_keys_model, removed_with,
    self_menu_model, strings_model, text_with, RegistryOp, RegistryOpModel,
};
use crate::registry_state::{
    apply_ops, deleted_by, folded, lemma_apply_ops_concat, lemma_on_path_within, lemma_removal_idempotent,
    lemma_removal_undoes_writes, lemma_rewrite_after_removal, on_path, remove_trees, RegistryTree,
};
use crate::toolbox_state::Tool;

verus! {

/// Why the generator could not find its own executable's path.
#[derive(Clone, Copy, Debug, PartialEq, Eq, Structural)]
pub enum SelfPathProblem {
    /// The operating system did not give the path.
    Unavailable,
    /// The path is not valid Unicode.
    NotUnicode,
}

/// How a scan that did not fail ended.
#[derive(Clone, Copy, Debug, PartialEq, Eq, Structural)]
pub enum ScanOutcome {
    /// The menus were rebuilt.
    Completed,
    /// Toolbox is registered but its executable is not where the registry
    /// says: nothing was changed.
    ExecutableMissing,
}

/// Why a scan failed.
#[derive(Clone, Debug, PartialEq, Eq)]
pub enum ScanError {
    /// The registry does not name a Toolbox installation.
    ToolboxNotRegistered,
    /// The Toolbox directory `toolbox_path` has no parent directory, where
    /// `state.json` lives.
    NoParentDirectory { toolbox_path: String },
    /// There is no `state.json` at `path`, beside the Toolbox directory.
    StateFileMissing { path: String },
    /// The generator's own path, which its menu entries run, is unknown.
    SelfPathUnavailable(SelfPathProblem),
    /// A registry value could not be written; `failure` says which.
    RegistryWriteFailed { failure: String },
}

/// `ScanError` with its strings as character sequences.
pub enum ScanErrorModel {
    ToolboxNotRegistered,
    NoParentDirectory(Seq<char>),
    StateFileMissing(Seq<char>),
    SelfPathUnavailable(SelfPathProblem),
    RegistryWriteFailed(Seq<char>),
}

impl View for ScanError {
    type V = ScanErrorModel;

    open spec fn view(&self) -> ScanErrorModel {
        match self {
            ScanError::ToolboxNotRegistered => ScanErrorModel::ToolboxNotRegistered,
            ScanError::NoParentDirectory { toolbox_path } => ScanErrorModel::NoParentDirectory(toolbox_path@),
            ScanError::StateFileMissing { path } => ScanErrorModel::StateFileMissing(path@),
            ScanError::SelfPathUnavailable(problem) => ScanErrorModel::SelfPathUnavailable(*problem),
            ScanError::RegistryWriteFailed { failure } => ScanErrorModel::RegistryWriteFailed(failure@),
        }
    }
}

/// The message a failed scan reports.
pub open spec fn error_message(error: ScanErrorModel) -> Seq<char> {
    match error {
        ScanErrorModel::ToolboxNotRegistered => "JetBrains Toolbox not found in registry"@,
        ScanErrorModel::NoParentDirectory(toolbox_path) => "Failed to locate parent directory for "@ + toolbox_path,
        ScanErrorModel::StateFileMissing(path) => "state.json not found at "@ + path,
        ScanErrorModel::SelfPathUnavailable(SelfPathProblem::Unavailable) => "Failed to get current executable path"@,
        ScanErrorModel::SelfPathUnavailable(SelfPathProblem::NotUnicode) => "Failed to convert path to string"@,
        ScanErrorModel::RegistryWriteFailed(failure) => failure,
    }
}

impl ScanError {
    /// The message the failed scan reports: "JetBrains Toolbox not found in
    /// registry", "Failed to locate parent directory for " and the Toolbox
    /// directory, "state.json not found at " and the path looked at, "Failed
    /// to get current executable path", "Failed to convert path to string", or
    /// the failure message of the registry write that failed.
    pub fn message(&self) -> (text: String)
        ensures
            text@ == error_message(self@),
    {
        match self {
            ScanError::ToolboxNotRegistered => String::from_str("JetBrains Toolbox not found in registry"),
            ScanError::NoParentDirectory { toolbox_path } => text_with(
                "Failed to locate parent directory for ",
                toolbox_path.as_str(),
            ),
            ScanError::StateFileMissing { path } => text_with("state.json not found at ", path.as_str()),
            ScanError::SelfPathUnavailable(SelfPathProblem::Unavailable) => String::from_str(
                "Failed to get current executable path",
            ),
            ScanError::SelfPathUnavailable(SelfPathProblem::NotUnicode) => String::from_str(
                "Failed to convert path to string",
            ),
            ScanError::RegistryWriteFailed { failure } => failure.clone(),
        }
    }
}

/// The model of a scan's result.
pub open spec fn result_model(result: Result<ScanOutcome, ScanError>) -> Result<ScanOutcome, ScanErrorModel> {
    match result {
        Ok(outcome) => Ok(outcome),
        Err(error) => Err(error@),
    }
}

/// Where a scan stands.
#[derive(Debug, PartialEq, Eq)]
pub enum ScanState {
    /// Nothing has been done yet.
    Start,
    /// Waiting for the Toolbox path from the registry.
    ReadingToolboxPath,
    /// Waiting to learn whether the Toolbox executable exists.
    CheckingExecutable { toolbox_path: String },
    /// Waiting for the `state.json` beside the Toolbox directory.
    LocatingStateFile { toolbox_path: String, executable: String },
    /// Waiting for the old menus to be removed.
    RemovingMenus { executable: String, state_file: String },
    /// Waiting for the tools listed in `state.json`.
    ReadingTools { executable: String },
    /// Waiting for the menus to be written.
    WritingMenus,
    /// Waiting for the generator's own path.
    ReadingSelfPath,
    /// Waiting for the generator's own entries to be written.
    AddingSelf,
    /// The scan has ended.
    Finished,
}

/// What the outside world reports back to a scan.
#[derive(Debug, PartialEq, Eq)]
pub enum ScanEvent {
    /// The scan is started.
    Begin,
    /// The Toolbox path read from the registry, if any.
    ToolboxPathRead(Option<String>),
    /// The path of `jetbrains-toolbox.exe` in the Toolbox directory, and
    /// whether it exists.
    ExecutableChecked { path: String, exists: bool },
    /// The Toolbox directory has no parent directory.
    ParentDirectoryMissing,
    /// The path of `state.json` beside the Toolbox directory, and whether it exists.
    StateFileChecked { path: String, exists: bool },
    /// The old menus were deleted (a key that was not there is no failure).
    MenusRemoved,
    /// The tools read from `state.json`, or `None` when it could not be read.
    ToolsRead(Option<Vec<Tool>>),
    /// Whether the registry writes succeeded, or the failure message of the
    /// write that failed and ended them.
    RegistryWritten(Result<(), String>),
    /// The generator's own executable path.
    SelfPathRead(Result<String, SelfPathProblem>),
}

/// What a scan asks the outside world to do next.
#[derive(Debug, PartialEq, Eq)]
pub enum ScanAction {
    /// Read the Toolbox path from `HKCU\SOFTWARE\JetBrains\Toolbox`.
    ReadToolboxPath,
    /// Check whether the file `file_name` exists in the directory `toolbox_path`.
    CheckExecutable { toolbox_path: String, file_name: String },
    /// Find the file `file_name` in the parent directory of `toolbox_path`.
    LocateStateFile { toolbox_path: String, file_name: String },
    /// Delete each of `keys` with everything below it, ignoring keys that are missing.
    RemoveMenus { keys: Vec<String> },
    /// Read the tools listed in `state_file`.
    ReadTools { state_file: String },
    /// Carry out `ops` in order.
    WriteRegistry { ops: Vec<RegistryOp> },
    /// Find the generator's own executable path.
    ReadSelfPath,
    /// The scan is over, with this result.
    Finish(Result<ScanOutcome, ScanError>),
}

/// A scan action, with its strings as character sequences.
pub enum ScanActionModel {
    ReadToolboxPath,
    CheckExecutable(Seq<char>, Seq<char>),
    LocateStateFile(Seq<char>, Seq<char>),
    RemoveMenus(Seq<Seq<char>>),
    ReadTools(Seq<char>),
    WriteRegistry(Seq<RegistryOpModel>),
    ReadSelfPath,
    Finish(Result<ScanOutcome, ScanErrorModel>),
}

impl View for ScanAction {
    type V = ScanActionModel;

    open spec fn view(&self) -> ScanActionModel {
        match self {
            ScanAction::ReadToolboxPath => ScanActionModel::ReadToolboxPath,
            ScanAction::CheckExecutable { toolbox_path, file_name } => ScanActionModel::CheckExecutable(
                toolbox_path@,
                file_name@,
            ),
            ScanAction::LocateStateFile { toolbox_path, file_name } => ScanActionModel::LocateStateFile(
                toolbox_path@,
                file_name@,
            ),
            ScanAction::RemoveMenus { keys } => ScanActionModel::RemoveMenus(strings_model(keys@)),
            ScanAction::ReadTools { state_file } => ScanActionModel::ReadTools(state_file@),
            ScanAction::WriteRegistry { ops } => ScanActionModel::WriteRegistry(ops_model(ops@)),
            ScanAction::ReadSelfPath => ScanActionModel::ReadSelfPath,
            ScanAction::Finish(result) => ScanActionModel::Finish(result_model(*result)),
        }
    }
}

/// The file name of the Toolbox executable, looked for in the Toolbox directory.
pub open spec fn toolbox_executable_name() -> Seq<char> {
    "jetbrains-toolbox.exe"@
}

/// The file name of Toolbox's state, looked for in the parent directory of the
/// Toolbox directory.
pub open spec fn state_file_name() -> Seq<char> {
    "state.json"@
}

/// The events that a scan waits for in each state.
pub open spec fn expects(state: ScanState, event: ScanEvent) -> bool {
    match state {
        ScanState::Start => event is Begin,
        ScanState::ReadingToolboxPath => event is ToolboxPathRead,
        ScanState::CheckingExecutable { .. } => event is ExecutableChecked,
        ScanState::LocatingStateFile { .. } => event is ParentDirectoryMissing || event is StateFileChecked,
        ScanState::RemovingMenus { .. } => event is MenusRemoved,
        ScanState::ReadingTools { .. } => event is ToolsRead,
        ScanState::WritingMenus => event is RegistryWritten,
        ScanState::ReadingSelfPath => event is SelfPathRead,
        ScanState::AddingSelf => event is RegistryWritten,
        ScanState::Finished => false,
    }
}

/// One step of a scan: the state it moves to and the action it asks for.
///
/// The scan looks up Toolbox in the registry and stops with an error when it
/// is not there; when Toolbox's executable is missing it stops without
/// changing anything; it stops with an error when `state.json` is not beside
/// the Toolbox directory. Otherwise it removes the old menus, rebuilds them
/// from the tools in `state.json` (skipping that when the file cannot be
/// read), and adds its own entries. (For a pair that `expects` rules out the
/// result only keeps the function total.)
pub open spec fn scan_step(state: ScanState, event: ScanEvent) -> (ScanState, ScanActionModel) {
    match state {
        ScanState::Start => (ScanState::ReadingToolboxPath, ScanActionModel::ReadToolboxPath),
        ScanState::ReadingToolboxPath => match event {
            ScanEvent::ToolboxPathRead(Some(path)) => (
                ScanState::CheckingExecutable { toolbox_path: path },
                ScanActionModel::CheckExecutable(path@, toolbox_executable_name()),
            ),
            _ => (ScanState::Finished, ScanActionModel::Finish(Err(ScanErrorModel::ToolboxNotRegistered))),
        },
        ScanState::CheckingExecutable { toolbox_path } => match event {
            ScanEvent::ExecutableChecked { path, exists } => if exists {
                (
                    ScanState::LocatingStateFile { toolbox_path, executable: path },
                    ScanActionModel::LocateStateFile(toolbox_path@, state_file_name()),
                )
            } else {
                (ScanState::Finished, ScanActionModel::Finish(Ok(ScanOutcome::ExecutableMissing)))
            },
            _ => (ScanState::Finished, ScanActionModel::ReadSelfPath),
        },
        ScanState::LocatingStateFile { toolbox_path, executable } => match event {
            ScanEvent::StateFileChecked { path, exists } => if exists {
                (
                    ScanState::RemovingMenus { executable, state_file: path },
                    ScanActionModel::RemoveMenus(removed_keys_model()),
                )
            } else {
                (ScanState::Finished, ScanActionModel::Finish(Err(ScanErrorModel::StateFileMissing(path@))))
            },
            _ => (ScanState::Finished, ScanActionModel::Finish(Err(ScanErrorModel::NoParentDirectory(toolbox_path@)))),
        },
        ScanState::RemovingMenus { executable, state_file } => (
            ScanState::ReadingTools { executable },
            ScanActionModel::ReadTools(state_file@),
        ),
        ScanState::ReadingTools { executable } => match event {
            ScanEvent::ToolsRead(Some(tools)) => (
                ScanState::WritingMenus,
                ScanActionModel::WriteRegistry(context_menu_model(executable@, tools@)),
            ),
            _ => (ScanState::ReadingSelfPath, ScanActionModel::ReadSelfPath),
        },
        ScanState::WritingMenus => match event {
            ScanEvent::RegistryWritten(Err(failure)) => (
                ScanState::Finished,
                ScanActionModel::Finish(Err(ScanErrorModel::RegistryWriteFailed(failure@))),
            ),
            _ => (ScanState::ReadingSelfPath, ScanActionModel::ReadSelfPath),
        },
        ScanState::ReadingSelfPath => match event {
            ScanEvent::SelfPathRead(Ok(path)) => (
                ScanState::AddingSelf,
                ScanActionModel::WriteRegistry(self_menu_model(path@)),
            ),
            ScanEvent::SelfPathRead(Err(problem)) => (
                ScanState::Finished,
                ScanActionModel::Finish(Err(ScanErrorModel::SelfPathUnavailable(problem))),
            ),
            _ => (ScanState::Finished, ScanActionModel::ReadSelfPath),
        },
        ScanState::AddingSelf => match event {
            ScanEvent::RegistryWritten(Err(failure)) => (
                ScanState::Finished,
                ScanActionModel::Finish(Err(ScanErrorModel::RegistryWriteFailed(failure@))),
            ),
            _ => (ScanState::Finished, ScanActionModel::Finish(Ok(ScanOutcome::Completed))),
        },
        ScanState::Finished => (ScanState::Finished, ScanActionModel::ReadSelfPath),
    }
}

impl ScanState {
    /// Whether the scan, standing here, waits for `event`.
    pub fn accepts(&self, event: &ScanEvent) -> (r: bool)
        ensures
            r == expects(*self, *event),
    {
        match self {
            ScanState::Start => matches!(event, ScanEvent::Begin),
            ScanState::ReadingToolboxPath => matches!(event, ScanEvent::ToolboxPathRead(_)),
            ScanState::CheckingExecutable { .. } => matches!(event, ScanEvent::ExecutableChecked { .. }),
            ScanState::LocatingStateFile { .. } => matches!(
                event,
                ScanEvent::ParentDirectoryMissing | ScanEvent::StateFileChecked { .. }
            ),
            ScanState::RemovingMenus { .. } => matches!(event, ScanEvent::MenusRemoved),
            ScanState::ReadingTools { .. } => matches!(event, ScanEvent::ToolsRead(_)),
            ScanState::WritingMenus => matches!(event, ScanEvent::RegistryWritten(_)),
            ScanState::ReadingSelfPath => matches!(event, ScanEvent::SelfPathRead(_)),
            ScanState::AddingSelf => matches!(event, ScanEvent::RegistryWritten(_)),
            ScanState::Finished => false,
        }
    }
}

/// Scans the JetBrains Toolbox installation and rebuilds the "Open with
/// JetBrains" menus: one step, from the state the scan stands in and the
/// event it waits for, to its next state and the action it asks for, as
/// `scan_step` states.
pub fn scan(state: ScanState, event: ScanEvent) -> (res: (ScanState, ScanAction))
    requires
        expects(state, event),
    ensures
        res.0 == scan_step(state, event).0,
        res.1@ == scan_step(state, event).1,
{
    match state {
        ScanState::Start => (ScanState::ReadingToolboxPath, ScanAction::ReadToolboxPath),
        ScanState::ReadingToolboxPath => match event {
            ScanEvent::ToolboxPathRead(Some(path)) => {
                let toolbox_path = path.clone();
                let file_name = String::from_str("jetbrains-toolbox.exe");
                (
                    ScanState::CheckingExecutable { toolbox_path: path },
                    ScanAction::CheckExecutable { toolbox_path, file_name },
                )
            },
            _ => (ScanState::Finished, ScanAction::Finish(Err(ScanError::ToolboxNotRegistered))),
        },
        ScanState::CheckingExecutable { toolbox_path } => match event {
            ScanEvent::ExecutableChecked { path, exists } => if exists {
                let file_name = String::from_str("state.json");
                let looked_in = toolbox_path.clone();
                (
                    ScanState::LocatingStateFile { toolbox_path, executable: path },
                    ScanAction::LocateStateFile { toolbox_path: looked_in, file_name },
                )
            } else {
                (ScanState::Finished, ScanAction::Finish(Ok(ScanOutcome::ExecutableMissing)))
            },
            _ => {
                proof {
                    assert(false);
                }
                (ScanState::Finished, ScanAction::ReadSelfPath)
            },
        },
        ScanState::LocatingStateFile { toolbox_path, executable } => match event {
            ScanEvent::StateFileChecked { path, exists } => if exists {
                let keys = remove_existing_context_menu();
                (ScanState::RemovingMenus { executable, state_file: path }, ScanAction::RemoveMenus { keys })
            } else {
                (ScanState::Finished, ScanAction::Finish(Err(ScanError::StateFileMissing { path })))
            },
            _ => (ScanState::Finished, ScanAction::Finish(Err(ScanError::NoParentDirectory { toolbox_path }))),
        },
        ScanState::RemovingMenus { executable, state_file } => (
            ScanState::ReadingTools { executable },
            ScanAction::ReadTools { state_file },
        ),
        ScanState::ReadingTools { executable } => match event {
            ScanEvent::ToolsRead(Some(tools)) => {
                let ops = create_context_menu(executable.as_str(), tools.as_slice());
                (ScanState::WritingMenus, ScanAction::WriteRegistry { ops })
            },
            _ => (ScanState::ReadingSelfPath, ScanAction::ReadSelfPath),
        },
        ScanState::WritingMenus => match event {
            ScanEvent::RegistryWritten(Err(failure)) => (
                ScanState::Finished,
                ScanAction::Finish(Err(ScanError::RegistryWriteFailed { failure })),
            ),
            _ => (ScanState::ReadingSelfPath, ScanAction::ReadSelfPath),
        },
        ScanState::ReadingSelfPath => match event {
            ScanEvent::SelfPathRead(Ok(path)) => {
                let ops = add_self_to_context_menu(path.as_str());
                (ScanState::AddingSelf, ScanAction::WriteRegistry { ops })
            },
            ScanEvent::SelfPathRead(Err(problem)) => (
                ScanState::Finished,
                ScanAction::Finish(Err(ScanError::SelfPathUnavailable(problem))),
            ),
            _ => {
                proof {
                    assert(false);
                }
                (ScanState::Finished, ScanAction::ReadSelfPath)
            },
        },
        ScanState::AddingSelf => match event {
            ScanEvent::RegistryWritten(Err(failure)) => (
                ScanState::Finished,
                ScanAction::Finish(Err(ScanError::RegistryWriteFailed { failure })),
            ),
            _ => (ScanState::Finished, ScanAction::Finish(Ok(ScanOutcome::Completed))),
        },
        ScanState::Finished => {
            proof {
                assert(false);
            }
            (ScanState::Finished, ScanAction::ReadSelfPath)
        },
    }
}

/// Once `state.json` has been read, the scan writes both "Open with
/// JetBrains" menus, whatever tools it lists (none included): the folder
/// background menu first, then the folder menu, each created from
/// `HKEY_CURRENT_USER`, labelled "Open with JetBrains", made a cascading menu,
/// showing the Toolbox executable (between double quotes) as its icon, and
/// given its `shell` key, which the tools' entries (five operations each)
/// follow.
pub proof fn lemma_tools_read_writes_both_menus(executable: String, tools: Vec<Tool>)
    ensures
        scan_step(ScanState::ReadingTools { executable }, ScanEvent::ToolsRead(Some(tools))).0 == ScanState::WritingMenus,
        scan_step(ScanState::ReadingTools { executable }, ScanEvent::ToolsRead(Some(tools))).1 is WriteRegistry,
        ({
            let ops = scan_step(ScanState::ReadingTools { executable }, ScanEvent::ToolsRead(Some(tools))).1->WriteRegistry_0;
            let o: int = 5 + 5 * tools@.len() as int;
            &&& ops.len() == 2 * o
            &&& ops[0] == (RegistryOpModel::CreateKey { path: "Software\\Classes\\Directory\\Background\\shell\\JetBrainsToolbox"@, parent: None })
            &&& ops[1] == (RegistryOpModel::SetValue {
                path: "Software\\Classes\\Directory\\Background\\shell\\JetBrainsToolbox"@,
                name: "MUIVerb"@,
                data: "Open with JetBrains"@,
                failure: "Failed to set MUIVerb value"@,
            })
            &&& ops[2] == (RegistryOpModel::SetValue {
                path: "Software\\Classes\\Directory\\Background\\shell\\JetBrainsToolbox"@,
                name: "SubCommands"@,
                data: Seq::empty(),
                failure: "Failed to set SubCommands value"@,
            })
            &&& ops[3] == (RegistryOpModel::SetValue {
                path: "Software\\Classes\\Directory\\Background\\shell\\JetBrainsToolbox"@,
                name: "Icon"@,
                data: "\""@ + executable@ + "\""@,
                failure: "Failed to set Icon value"@,
            })
            &&& ops[4] == (RegistryOpModel::CreateKey { path: "Software\\Classes\\Directory\\Background\\shell\\JetBrainsToolbox"@ + "\\shell"@, parent: Some("Software\\Classes\\Directory\\Background\\shell\\JetBrainsToolbox"@) })
            &&& ops[o] == (RegistryOpModel::CreateKey { path: "Software\\Classes\\Directory\\shell\\JetBrainsToolbox"@, parent: None })
            &&& ops[o + 1] == (RegistryOpModel::SetValue {
                path: "Software\\Classes\\Directory\\shell\\JetBrainsToolbox"@,
                name: "MUIVerb"@,
                data: "Open with JetBrains"@,
                failure: "Failed to set MUIVerb value"@,
            })
            &&& ops[o + 2] == (RegistryOpModel::SetValue {
                path: "Software\\Classes\\Directory\\shell\\JetBrainsToolbox"@,
                name: "SubCommands"@,
                data: Seq::empty(),
                failure: "Failed to set SubCommands value"@,
            })
            &&& ops[o + 3] == (RegistryOpModel::SetValue {
                path: "Software\\Classes\\Directory\\shell\\JetBrainsToolbox"@,
                name: "Icon"@,
                data: "\""@ + executable@ + "\""@,
                failure: "Failed to set Icon value"@,
            })
            &&& ops[o + 4] == (RegistryOpModel::CreateKey { path: "Software\\Classes\\Directory\\shell\\JetBrainsToolbox"@ + "\\shell"@, parent: Some("Software\\Classes\\Directory\\shell\\JetBrainsToolbox"@) })
        }),
{
    let e = executable@;
    let t = tools@;
    let ops = context_menu_model(e, t);
    let bg = menu_model(background_menu_key(), e, t);
    lemma_tool_items_layout(shell_key(background_menu_key()), t);
    lemma_tool_items_layout(shell_key(directory_menu_key()), t);
    assert(bg.len() == 5 + 5 * t.len());
    assert forall|k: int| 0 <= k < 5 implies ops[k] == bg[k] by {}
    assert forall|k: int| 0 <= k < 5 implies ops[bg.len() + k] == menu_model(directory_menu_key(), e, t)[k] by {}
}

/// How a scan looks Toolbox up and reacts to what it finds: no Toolbox in the
/// registry fails with "JetBrains Toolbox not found in registry"; a found
/// directory is searched for `jetbrains-toolbox.exe`, whose absence ends the
/// scan without error and without change; `state.json` is then looked for
/// beside the Toolbox directory, its absence failing with the path looked at,
/// and a Toolbox directory without a parent failing with that directory;
/// when it is there, both menus are deleted and the tools are read from the
/// very file found. A `state.json` that cannot be read still leads to the
/// generator's own entries.
pub proof fn lemma_scan_lookups(toolbox: String, exe: String, state_file: String)
    ensures
        scan_step(ScanState::ReadingToolboxPath, ScanEvent::ToolboxPathRead(None)).0 == ScanState::Finished,
        scan_step(ScanState::ReadingToolboxPath, ScanEvent::ToolboxPathRead(None)).1 == ScanActionModel::Finish(
            Err(ScanErrorModel::ToolboxNotRegistered),
        ),
        error_message(ScanErrorModel::ToolboxNotRegistered) == "JetBrains Toolbox not found in registry"@,
        scan_step(ScanState::ReadingToolboxPath, ScanEvent::ToolboxPathRead(Some(toolbox))).1
            == ScanActionModel::CheckExecutable(toolbox@, "jetbrains-toolbox.exe"@),
        scan_step(
            ScanState::CheckingExecutable { toolbox_path: toolbox },
            ScanEvent::ExecutableChecked { path: exe, exists: false },
        ).1 == ScanActionModel::Finish(Ok(ScanOutcome::ExecutableMissing)),
        scan_step(
            ScanState::CheckingExecutable { toolbox_path: toolbox },
            ScanEvent::ExecutableChecked { path: exe, exists: true },
        ).1 == ScanActionModel::LocateStateFile(toolbox@, "state.json"@),
        scan_step(
            ScanState::LocatingStateFile { toolbox_path: toolbox, executable: exe },
            ScanEvent::StateFileChecked { path: state_file, exists: false },
        ).1 == ScanActionModel::Finish(Err(ScanErrorModel::StateFileMissing(state_file@))),
        error_message(ScanErrorModel::StateFileMissing(state_file@)) == "state.json not found at "@ + state_file@,
        scan_step(
            ScanState::LocatingStateFile { toolbox_path: toolbox, executable: exe },
            ScanEvent::ParentDirectoryMissing,
        ).1 == ScanActionModel::Finish(Err(ScanErrorModel::NoParentDirectory(toolbox@))),
        error_message(ScanErrorModel::NoParentDirectory(toolbox@)) == "Failed to locate parent directory for "@
            + toolbox@,
        scan_step(
            ScanState::LocatingStateFile { toolbox_path: toolbox, executable: exe },
            ScanEvent::StateFileChecked { path: state_file, exists: true },
        ).1 == ScanActionModel::RemoveMenus(
            seq![
                "Software\\Classes\\Directory\\Background\\shell\\JetBrainsToolbox"@,
                "Software\\Classes\\Directory\\shell\\JetBrainsToolbox"@,
            ],
        ),
        scan_step(ScanState::RemovingMenus { executable: exe, state_file }, ScanEvent::MenusRemoved).1
            == ScanActionModel::ReadTools(state_file@),
        scan_step(ScanState::ReadingTools { executable: exe }, ScanEvent::ToolsRead(None)).1
            == ScanActionModel::ReadSelfPath,
{
}

/// The generator's own entries are written with the path it found for
/// itself, and a failed lookup of that path, or a failed registry write,
/// ends the scan with its message: "Failed to get current executable path",
/// "Failed to convert path to string", or the failed write's own message.
pub proof fn lemma_self_path_and_failures(g: String, failure: String, problem: SelfPathProblem)
    ensures
        scan_step(ScanState::ReadingSelfPath, ScanEvent::SelfPathRead(Ok(g))).0 == ScanState::AddingSelf,
        scan_step(ScanState::ReadingSelfPath, ScanEvent::SelfPathRead(Ok(g))).1 == ScanActionModel::WriteRegistry(
            self_menu_model(g@),
        ),
        scan_step(ScanState::ReadingSelfPath, ScanEvent::SelfPathRead(Err(problem))).1 == ScanActionModel::Finish(
            Err(ScanErrorModel::SelfPathUnavailable(problem)),
        ),
        error_message(ScanErrorModel::SelfPathUnavailable(SelfPathProblem::Unavailable))
            == "Failed to get current executable path"@,
        error_message(ScanErrorModel::SelfPathUnavailable(SelfPathProblem::NotUnicode))
            == "Failed to convert path to string"@,
        scan_step(ScanState::WritingMenus, ScanEvent::RegistryWritten(Err(failure))).1 == ScanActionModel::Finish(
            Err(ScanErrorModel::RegistryWriteFailed(failure@)),
        ),
        scan_step(ScanState::AddingSelf, ScanEvent::RegistryWritten(Err(failure))).1 == ScanActionModel::Finish(
            Err(ScanErrorModel::RegistryWriteFailed(failure@)),
        ),
        error_message(ScanErrorModel::RegistryWriteFailed(failure@)) == failure@,
        scan_step(ScanState::WritingMenus, ScanEvent::RegistryWritten(Ok(()))).1 == ScanActionModel::ReadSelfPath,
        scan_step(ScanState::AddingSelf, ScanEvent::RegistryWritten(Ok(()))).1 == ScanActionModel::Finish(
            Ok(ScanOutcome::Completed),
        ),
{
}

/// The actions that a scan started in `state` asks for while it is handed
/// `events` in turn, up to the first event that it does not wait for.
pub open spec fn scan_run(state: ScanState, events: Seq<ScanEvent>) -> Seq<ScanActionModel>
    decreases events.len(),
{
    if events.len() == 0 || !expects(state, events[0]) {
        Seq::empty()
    } else {
        seq![scan_step(state, events[0]).1] + scan_run(scan_step(state, events[0]).0, events.drop_first())
    }
}

/// The action writes to the registry.
pub open spec fn writes_registry(action: ScanActionModel) -> bool {
    action is WriteRegistry
}

/// The action deletes the old menus.
pub open spec fn removes_menus(action: ScanActionModel) -> bool {
    action is RemoveMenus
}

/// The action ends the scan early: Toolbox, its executable or its
/// `state.json` was not found.
pub open spec fn ends_before_removal(action: ScanActionModel) -> bool {
    match action {
        ScanActionModel::Finish(Ok(ScanOutcome::ExecutableMissing)) => true,
        ScanActionModel::Finish(Err(ScanErrorModel::ToolboxNotRegistered)) => true,
        ScanActionModel::Finish(Err(ScanErrorModel::NoParentDirectory(_))) => true,
        ScanActionModel::Finish(Err(ScanErrorModel::StateFileMissing(_))) => true,
        _ => false,
    }
}

/// The scan has not yet asked for the old menus to be removed.
pub open spec fn before_removal(state: ScanState) -> bool {
    ||| state is Start
    ||| state is ReadingToolboxPath
    ||| state is CheckingExecutable
    ||| state is LocatingStateFile
}

proof fn lemma_run_after_removal(state: ScanState, events: Seq<ScanEvent>)
    requires
        !before_removal(state),
    ensures
        forall|j: int| 0 <= j < scan_run(state, events).len() ==> !ends_before_removal(
            #[trigger] scan_run(state, events)[j],
        ),
    decreases events.len(),
{
    if events.len() > 0 && expects(state, events[0]) {
        let next = scan_step(state, events[0]);
        lemma_run_after_removal(next.0, events.drop_first());
        let run = scan_run(state, events);
        let rest = scan_run(next.0, events.drop_first());
        assert forall|j: int| 0 <= j < run.len() implies !ends_before_removal(#[trigger] run[j]) by {
            if j > 0 {
                assert(run[j] == rest[j - 1]);
            }
        }
    }
}

proof fn lemma_run_before_removal(state: ScanState, events: Seq<ScanEvent>)
    requires
        before_removal(state),
    ensures
        forall|j: int|
            0 <= j < scan_run(state, events).len() && writes_registry(
                #[trigger] scan_run(state, events)[j],
            ) ==> exists|k: int| 0 <= k < j && removes_menus(#[trigger] scan_run(state, events)[k]),
        forall|j: int, k: int|
            0 <= j < scan_run(state, events).len() && 0 <= k < scan_run(state, events).len()
                && ends_before_removal(#[trigger] scan_run(state, events)[j]) ==> !writes_registry(
                #[trigger] scan_run(state, events)[k],
            ) && !removes_menus(scan_run(state, events)[k]),
    decreases events.len(),
{
    if events.len() > 0 && expects(state, events[0]) {
        let next = scan_step(state, events[0]);
        let run = scan_run(state, events);
        let rest = scan_run(next.0, events.drop_first());
        assert(run[0] == next.1);
        assert forall|j: int| 1 <= j < run.len() implies run[j] == rest[j - 1] by {}
        if before_removal(next.0) {
            lemma_run_before_removal(next.0, events.drop_first());
            assert forall|j: int| 0 <= j < run.len() && writes_registry(#[trigger] run[j]) implies exists|
                k: int,
            | 0 <= k < j && removes_menus(#[trigger] run[k]) by {
                assert(j > 0);
                let k = choose|k: int| 0 <= k < j - 1 && removes_menus(#[trigger] rest[k]);
                assert(run[k + 1] == rest[k]);
            }
            assert forall|j: int, k: int|
                0 <= j < run.len() && 0 <= k < run.len() && ends_before_removal(
                    #[trigger] run[j],
                ) implies !writes_registry(#[trigger] run[k]) && !removes_menus(run[k]) by {
                if j > 0 && k > 0 {
                    assert(run[j] == rest[j - 1]);
                    assert(run[k] == rest[k - 1]);
                }
            }
        } else if next.0 is Finished {
            assert(rest.len() == 0);
        } else {
            lemma_run_after_removal(next.0, events.drop_first());
            assert(removes_menus(run[0]));
            assert forall|j: int| 0 <= j < run.len() && writes_registry(#[trigger] run[j]) implies exists|
                k: int,
            | 0 <= k < j && removes_menus(#[trigger] run[k]) by {
                assert(removes_menus(run[0]));
            }
            assert forall|j: int, k: int|
                0 <= j < run.len() && 0 <= k < run.len() && ends_before_removal(
                    #[trigger] run[j],
                ) implies !writes_registry(#[trigger] run[k]) && !removes_menus(run[k]) by {
                if j > 0 {
                    assert(run[j] == rest[j - 1]);
                }
            }
        }
    }
}

/// A scan writes to the registry only after it has asked for the old menus
/// to be removed, so that a rescan replaces the menus rather than adding to
/// them.
pub proof fn lemma_removal_before_writes(events: Seq<ScanEvent>, j: int)
    requires
        0 <= j < scan_run(ScanState::Start, events).len(),
        writes_registry(scan_run(ScanState::Start, events)[j]),
    ensures
        exists|k: int| 0 <= k < j && removes_menus(#[trigger] scan_run(ScanState::Start, events)[k]),
{
    lemma_run_before_removal(ScanState::Start, events);
}

/// A scan that finds no Toolbox installation, no Toolbox executable, or no
/// `state.json` beside the Toolbox directory neither deletes nor writes
/// anything in the registry.
pub proof fn lemma_failed_lookup_changes_nothing(events: Seq<ScanEvent>, j: int, k: int)
    requires
        0 <= j < scan_run(ScanState::Start, events).len(),
        0 <= k < scan_run(ScanState::Start, events).len(),
        ends_before_removal(scan_run(ScanState::Start, events)[j]),
    ensures
        !writes_registry(scan_run(ScanState::Start, events)[k]),
        !removes_menus(scan_run(ScanState::Start, events)[k]),
{
    lemma_run_before_removal(ScanState::Start, events);
}

/// The action writes the generator's own "Refresh" and "Uninstall" entries.
pub open spec fn writes_own_entries(action: ScanActionModel) -> bool {
    exists|g: Seq<char>| action == ScanActionModel::WriteRegistry(#[trigger] self_menu_model(g))
}

proof fn lemma_completion_follows_own_entries(state: ScanState, events: Seq<ScanEvent>)
    ensures
        forall|j: int|
            0 <= j < scan_run(state, events).len() && #[trigger] scan_run(state, events)[j]
                == ScanActionModel::Finish(Ok(ScanOutcome::Completed)) ==> (j == 0 && state is AddingSelf)
                || (j > 0 && writes_own_entries(scan_run(state, events)[j - 1])),
    decreases events.len(),
{
    if events.len() > 0 && expects(state, events[0]) {
        let next = scan_step(state, events[0]);
        let run = scan_run(state, events);
        let rest = scan_run(next.0, events.drop_first());
        lemma_completion_follows_own_entries(next.0, events.drop_first());
        assert forall|j: int|
            0 <= j < run.len() && #[trigger] run[j] == ScanActionModel::Finish(Ok(ScanOutcome::Completed)) implies (
            j == 0 && state is AddingSelf) || (j > 0 && writes_own_entries(run[j - 1])) by {
            if j > 0 {
                assert(run[j] == rest[j - 1]);
                if j == 1 {
                    assert(next.0 is AddingSelf);
                    assert(state is ReadingSelfPath);
                    let g = events[0]->SelfPathRead_0->Ok_0;
                    assert(run[0] == ScanActionModel::WriteRegistry(self_menu_model(g@)));
                } else {
                    assert(run[j - 1] == rest[j - 2]);
                }
            }
        }
    }
}

/// A scan reports success only right after it has written the generator's
/// own menu entries.
pub proof fn lemma_success_after_own_entries(events: Seq<ScanEvent>, j: int)
    requires
        0 <= j < scan_run(ScanState::Start, events).len(),
        scan_run(ScanState::Start, events)[j] == ScanActionModel::Finish(Ok(ScanOutcome::Completed)),
    ensures
        j > 0,
        writes_own_entries(scan_run(ScanState::Start, events)[j - 1]),
{
    lemma_completion_follows_own_entries(ScanState::Start, events);
}

/// What uninstalling does: delete `keys`, each with everything below it,
/// then start the file `uninstaller` found beside the generator, when it is there.
#[derive(Debug, PartialEq, Eq)]
pub struct UninstallPlan {
    pub keys: Vec<String>,
    pub uninstaller: String,
}

/// The plan of an uninstall: remove both menus, then run `uninstall.exe`
/// from the generator's directory.
pub fn uninstall_plan() -> (plan: UninstallPlan)
    ensures
        strings_model(plan.keys@) == removed_keys_model(),
        plan.uninstaller@ == "uninstall.exe"@,
{
    UninstallPlan { keys: remove_existing_context_menu(), uninstaller: String::from_str("uninstall.exe") }
}

/// What an action does to the registry when it succeeds.
pub open spec fn action_effect(reg: RegistryTree, action: ScanActionModel, fold: spec_fn(char) -> char) -> RegistryTree {
    match action {
        ScanActionModel::RemoveMenus(keys) => remove_trees(reg, keys, fold),
        ScanActionModel::WriteRegistry(ops) => apply_ops(reg, ops, fold),
        _ => reg,
    }
}

/// What a list of actions does to the registry when each succeeds.
pub open spec fn run_effect(reg: RegistryTree, actions: Seq<ScanActionModel>, fold: spec_fn(char) -> char) -> RegistryTree
    decreases actions.len(),
{
    if actions.len() == 0 {
        reg
    } else {
        run_effect(action_effect(reg, actions[0], fold), actions.drop_first(), fold)
    }
}

/// Every write in the list comes after a removal.
pub open spec fn removal_first(actions: Seq<ScanActionModel>) -> bool {
    forall|j: int|
        0 <= j < actions.len() && writes_registry(#[trigger] actions[j]) ==> exists|k: int|
            0 <= k < j && removes_menus(#[trigger] actions[k])
}

/// The list holds at most one removal.
pub open spec fn single_removal(actions: Seq<ScanActionModel>) -> bool {
    forall|j: int, k: int|
        0 <= j < actions.len() && 0 <= k < actions.len() && removes_menus(#[trigger] actions[j]) && removes_menus(
            #[trigger] actions[k],
        ) ==> j == k
}

/// The registry operations of the writes in the list, in order.
pub open spec fn writes_of(actions: Seq<ScanActionModel>) -> Seq<RegistryOpModel>
    decreases actions.len(),
{
    if actions.len() == 0 {
        Seq::empty()
    } else {
        (match actions[0] {
            ScanActionModel::WriteRegistry(ops) => ops,
            _ => Seq::empty(),
        }) + writes_of(actions.drop_first())
    }
}

proof fn lemma_run_without_removal(reg: RegistryTree, actions: Seq<ScanActionModel>, fold: spec_fn(char) -> char)
    requires
        forall|j: int| 0 <= j < actions.len() ==> !removes_menus(#[trigger] actions[j]),
    ensures
        run_effect(reg, actions, fold) == apply_ops(reg, writes_of(actions), fold),
    decreases actions.len(),
{
    if actions.len() > 0 {
        let rest = actions.drop_first();
        assert forall|j: int| 0 <= j < rest.len() implies !removes_menus(#[trigger] rest[j]) by {
            assert(rest[j] == actions[j + 1]);
        }
        assert(!removes_menus(actions[0]));
        let first = action_effect(reg, actions[0], fold);
        lemma_run_without_removal(first, rest, fold);
        match actions[0] {
            ScanActionModel::WriteRegistry(ops) => {
                lemma_apply_ops_concat(reg, ops, writes_of(rest), fold);
            },
            _ => {
                assert(writes_of(actions) =~= writes_of(rest));
            },
        }
    }
}

proof fn lemma_run_effect_idempotent(reg: RegistryTree, actions: Seq<ScanActionModel>, fold: spec_fn(char) -> char)
    requires
        forall|j: int|
            0 <= j < actions.len() && removes_menus(#[trigger] actions[j]) ==> actions[j]
                == ScanActionModel::RemoveMenus(removed_keys_model()),
        removal_first(actions),
        single_removal(actions),
    ensures
        run_effect(run_effect(reg, actions, fold), actions, fold) == run_effect(reg, actions, fold),
    decreases actions.len(),
{
    if actions.len() > 0 {
        let rest = actions.drop_first();
        let first = actions[0];
        assert forall|j: int| 0 <= j < rest.len() implies rest[j] == actions[j + 1] by {}
        if removes_menus(first) {
            assert(first == ScanActionModel::RemoveMenus(removed_keys_model()));
            assert forall|j: int| 0 <= j < rest.len() implies !removes_menus(#[trigger] rest[j]) by {
                assert(rest[j] == actions[j + 1]);
                if removes_menus(actions[j + 1]) {
                    assert(removes_menus(actions[0]));
                }
            }
            let keys = removed_keys_model();
            let base = remove_trees(reg, keys, fold);
            let once = run_effect(base, rest, fold);
            assert(run_effect(reg, actions, fold) == once);
            assert(run_effect(once, actions, fold) == run_effect(remove_trees(once, keys, fold), rest, fold));
            lemma_run_without_removal(base, rest, fold);
            lemma_run_without_removal(remove_trees(once, keys, fold), rest, fold);
            lemma_removal_idempotent(reg, fold);
            lemma_rewrite_after_removal(base, writes_of(rest), keys, fold);
        } else if writes_registry(first) {
            assert(writes_registry(actions[0]));
        } else {
            assert(action_effect(reg, first, fold) == reg);
            assert(removal_first(rest)) by {
                assert forall|j: int| 0 <= j < rest.len() && writes_registry(#[trigger] rest[j]) implies exists|
                    k: int,
                | 0 <= k < j && removes_menus(#[trigger] rest[k]) by {
                    assert(writes_registry(actions[j + 1]));
                    let k = choose|k: int| 0 <= k < j + 1 && removes_menus(#[trigger] actions[k]);
                    assert(k != 0);
                    assert(rest[k - 1] == actions[k]);
                }
            }
            assert(single_removal(rest)) by {
                assert forall|j: int, k: int|
                    0 <= j < rest.len() && 0 <= k < rest.len() && removes_menus(#[trigger] rest[j])
                        && removes_menus(#[trigger] rest[k]) implies j == k by {
                    assert(removes_menus(actions[j + 1]) && removes_menus(actions[k + 1]));
                }
            }
            lemma_run_effect_idempotent(reg, rest, fold);
            let once = run_effect(reg, actions, fold);
            assert(action_effect(once, first, fold) == once);
        }
    }
}

proof fn lemma_run_removals(state: ScanState, events: Seq<ScanEvent>)
    ensures
        forall|j: int|
            0 <= j < scan_run(state, events).len() && removes_menus(#[trigger] scan_run(state, events)[j])
                ==> scan_run(state, events)[j] == ScanActionModel::RemoveMenus(removed_keys_model()),
        single_removal(scan_run(state, events)),
        !before_removal(state) ==> forall|j: int|
            0 <= j < scan_run(state, events).len() ==> !removes_menus(#[trigger] scan_run(state, events)[j]),
    decreases events.len(),
{
    if events.len() > 0 && expects(state, events[0]) {
        let next = scan_step(state, events[0]);
        let run = scan_run(state, events);
        let rest = scan_run(next.0, events.drop_first());
        lemma_run_removals(next.0, events.drop_first());
        assert forall|j: int| 1 <= j < run.len() implies run[j] == rest[j - 1] by {}
        assert(run[0] == next.1);
        if removes_menus(next.1) {
            assert(state is LocatingStateFile);
            assert(!before_removal(next.0));
        }
        assert forall|j: int, k: int|
            0 <= j < run.len() && 0 <= k < run.len() && removes_menus(#[trigger] run[j]) && removes_menus(
                #[trigger] run[k],
            ) implies j == k by {
            if j > 0 && k > 0 {
                assert(removes_menus(rest[j - 1]) && removes_menus(rest[k - 1]));
            } else if j > 0 {
                assert(removes_menus(rest[j - 1]));
            } else if k > 0 {
                assert(removes_menus(rest[k - 1]));
            }
        }
    }
}

/// Scanning is idempotent: when a scan completes, scanning again with the
/// same findings (the same Toolbox, tools and generator path, every write
/// succeeding) leaves the registry exactly as the first scan left it. This
/// holds with Windows' comparison of names without regard to case (`fold`,
/// see `RegistryTree`), and with the keys above the menus that the first scan
/// made.
pub proof fn lemma_scan_idempotent(reg: RegistryTree, events: Seq<ScanEvent>, fold: spec_fn(char) -> char)
    requires
        scan_run(ScanState::Start, events).len() > 0,
        scan_run(ScanState::Start, events).last() == ScanActionModel::Finish(Ok(ScanOutcome::Completed)),
    ensures
        run_effect(
            run_effect(reg, scan_run(ScanState::Start, events), fold),
            scan_run(ScanState::Start, events),
            fold,
        ) == run_effect(reg, scan_run(ScanState::Start, events), fold),
{
    let run = scan_run(ScanState::Start, events);
    lemma_run_removals(ScanState::Start, events);
    lemma_run_before_removal(ScanState::Start, events);
    lemma_run_effect_idempotent(reg, run, fold);
}

/// Every write in the list acts on one of the menus that a scan removes, or
/// on a key below one.
pub open spec fn writes_within_menus(actions: Seq<ScanActionModel>) -> bool {
    forall|j: int, i: int|
        0 <= j < actions.len() && (#[trigger] actions[j]) is WriteRegistry && 0 <= i
            < actions[j]->WriteRegistry_0.len() ==> removed_with(
            (#[trigger] actions[j]->WriteRegistry_0[i]).path(),
            removed_keys_model(),
        )
}

proof fn lemma_run_writes_within_menus(state: ScanState, events: Seq<ScanEvent>)
    ensures
        writes_within_menus(scan_run(state, events)),
    decreases events.len(),
{
    if events.len() > 0 && expects(state, events[0]) {
        let next = scan_step(state, events[0]);
        let run = scan_run(state, events);
        let rest = scan_run(next.0, events.drop_first());
        lemma_run_writes_within_menus(next.0, events.drop_first());
        assert forall|j: int| 1 <= j < run.len() implies run[j] == rest[j - 1] by {}
        match next.1 {
            ScanActionModel::WriteRegistry(ops) => {
                match state {
                    ScanState::ReadingTools { executable } => {
                        let tools = events[0]->ToolsRead_0->Some_0;
                        lemma_removal_covers_scan(executable@, tools@, Seq::empty());
                    },
                    _ => {
                        let g = events[0]->SelfPathRead_0->Ok_0;
                        lemma_removal_covers_scan(Seq::empty(), Seq::empty(), g@);
                    },
                }
            },
            _ => {},
        }
    }
}

proof fn lemma_writes_of_within(actions: Seq<ScanActionModel>)
    requires
        writes_within_menus(actions),
    ensures
        forall|i: int|
            0 <= i < writes_of(actions).len() ==> removed_with(
                (#[trigger] writes_of(actions)[i]).path(),
                removed_keys_model(),
            ),
    decreases actions.len(),
{
    if actions.len() > 0 {
        let rest = actions.drop_first();
        assert forall|j: int, i: int|
            0 <= j < rest.len() && (#[trigger] rest[j]) is WriteRegistry && 0 <= i < rest[j]->WriteRegistry_0.len()
                implies removed_with((#[trigger] rest[j]->WriteRegistry_0[i]).path(), removed_keys_model()) by {
            assert(actions[j + 1] == rest[j]);
        }
        lemma_writes_of_within(rest);
        let first: Seq<RegistryOpModel> = match actions[0] {
            ScanActionModel::WriteRegistry(ops) => ops,
            _ => Seq::empty(),
        };
        assert(writes_of(actions) == first + writes_of(rest));
        assert forall|i: int| 0 <= i < writes_of(actions).len() implies removed_with(
            (#[trigger] writes_of(actions)[i]).path(),
            removed_keys_model(),
        ) by {
            if i < first.len() {
                assert(actions[0]->WriteRegistry_0[i] == first[i]);
            } else {
                assert(writes_of(actions)[i] == writes_of(rest)[i - first.len()]);
            }
        }
    }
}

/// The keys above the two menus (those that removing the menus leaves in
/// place) exist.
pub open spec fn menu_parents_exist(reg: RegistryTree, fold: spec_fn(char) -> char) -> bool {
    forall|p: Seq<char>|
        #![trigger on_path(p, background_menu_key(), fold)]
        #![trigger on_path(p, directory_menu_key(), fold)]
        (on_path(p, background_menu_key(), fold) || on_path(p, directory_menu_key(), fold)) && !deleted_by(
            p,
            removed_keys_model(),
            fold,
        ) ==> reg.dom().contains(p)
}

proof fn lemma_removal_after_run(reg: RegistryTree, actions: Seq<ScanActionModel>, fold: spec_fn(char) -> char)
    requires
        forall|j: int|
            0 <= j < actions.len() && removes_menus(#[trigger] actions[j]) ==> actions[j]
                == ScanActionModel::RemoveMenus(removed_keys_model()),
        removal_first(actions),
        single_removal(actions),
        writes_within_menus(actions),
        menu_parents_exist(reg, fold),
    ensures
        remove_trees(run_effect(reg, actions, fold), removed_keys_model(), fold) == remove_trees(
            reg,
            removed_keys_model(),
            fold,
        ),
    decreases actions.len(),
{
    let keys = removed_keys_model();
    if actions.len() > 0 {
        let rest = actions.drop_first();
        let first = actions[0];
        assert forall|j: int| 0 <= j < rest.len() implies rest[j] == actions[j + 1] by {}
        assert(writes_within_menus(rest)) by {
            assert forall|j: int, i: int|
                0 <= j < rest.len() && (#[trigger] rest[j]) is WriteRegistry && 0 <= i
                    < rest[j]->WriteRegistry_0.len() implies removed_with(
                (#[trigger] rest[j]->WriteRegistry_0[i]).path(),
                keys,
            ) by {
                assert(actions[j + 1] == rest[j]);
            }
        }
        if removes_menus(first) {
            assert(first == ScanActionModel::RemoveMenus(keys));
            assert forall|j: int| 0 <= j < rest.len() implies !removes_menus(#[trigger] rest[j]) by {
                assert(rest[j] == actions[j + 1]);
                if removes_menus(actions[j + 1]) {
                    assert(removes_menus(actions[0]));
                }
            }
            let base = remove_trees(reg, keys, fold);
            let w = writes_of(rest);
            lemma_run_without_removal(base, rest, fold);
            lemma_writes_of_within(rest);
            assert forall|i: int, p: Seq<char>|
                #![trigger on_path(p, w[i].path(), fold)]
                0 <= i < w.len() && on_path(p, w[i].path(), fold) && !deleted_by(p, keys, fold) implies base.dom().contains(
                p,
            ) by {
                let path = w[i].path();
                assert(removed_with(path, keys));
                let k = choose|k: int| 0 <= k < keys.len() && lies_within(path, #[trigger] keys[k]);
                if deleted_by(p, seq![keys[k]], fold) {
                    let d = choose|d: int|
                        0 <= d < 1 && (p == folded(seq![keys[k]][d], fold) || folded(
                            seq![keys[k]][d] + "\\"@,
                            fold,
                        ).is_prefix_of(p));
                    assert(seq![keys[k]][d] == keys[k]);
                    assert(deleted_by(p, keys, fold));
                }
                lemma_on_path_within(p, path, keys[k], fold);
                if k == 0 {
                    assert(on_path(p, background_menu_key(), fold));
                } else {
                    assert(on_path(p, directory_menu_key(), fold));
                }
            }
            lemma_removal_undoes_writes(base, w, keys, fold);
            lemma_removal_idempotent(reg, fold);
        } else if writes_registry(first) {
            assert(writes_registry(actions[0]));
        } else {
            assert(action_effect(reg, first, fold) == reg);
            assert(removal_first(rest)) by {
                assert forall|j: int| 0 <= j < rest.len() && writes_registry(#[trigger] rest[j]) implies exists|
                    k: int,
                | 0 <= k < j && removes_menus(#[trigger] rest[k]) by {
                    assert(writes_registry(actions[j + 1]));
                    let k = choose|k: int| 0 <= k < j + 1 && removes_menus(#[trigger] actions[k]);
                    assert(k != 0);
                    assert(rest[k - 1] == actions[k]);
                }
            }
            assert(single_removal(rest)) by {
                assert forall|j: int, k: int|
                    0 <= j < rest.len() && 0 <= k < rest.len() && removes_menus(#[trigger] rest[j])
                        && removes_menus(#[trigger] rest[k]) implies j == k by {
                    assert(removes_menus(actions[j + 1]) && removes_menus(actions[k + 1]));
                }
            }
            lemma_removal_after_run(reg, rest, fold);
        }
    }
}

/// Uninstalling undoes a scan: deleting the menus, as `uninstall_plan` does,
/// after a scan (every action of it succeeding) leaves the registry as
/// deleting them without the scan does, when the keys above the two menus
/// exist (a scan makes those that are missing, and they stay).
pub proof fn lemma_uninstall_undoes_scan(reg: RegistryTree, events: Seq<ScanEvent>, fold: spec_fn(char) -> char)
    requires
        menu_parents_exist(reg, fold),
    ensures
        remove_trees(run_effect(reg, scan_run(ScanState::Start, events), fold), removed_keys_model(), fold)
            == remove_trees(reg, removed_keys_model(), fold),
{
    lemma_run_removals(ScanState::Start, events);
    lemma_run_before_removal(ScanState::Start, events);
    lemma_run_writes_within_menus(ScanState::Start, events);
    lemma_removal_after_run(reg, scan_run(ScanState::Start, events), fold);
}

proof fn lemma_removal_followed_by_reading(state: ScanState, events: Seq<ScanEvent>)
    ensures
        forall|j: int|
            0 <= j && j + 1 < scan_run(state, events).len() && removes_menus(
                #[trigger] scan_run(state, events)[j],
            ) ==> scan_run(state, events)[j + 1] is ReadTools,
    decreases events.len(),
{
    if events.len() > 0 && expects(state, events[0]) {
        let next = scan_step(state, events[0]);
        let run = scan_run(state, events);
        let rest = scan_run(next.0, events.drop_first());
        lemma_removal_followed_by_reading(next.0, events.drop_first());
        assert forall|j: int| 1 <= j < run.len() implies run[j] == rest[j - 1] by {}
        if removes_menus(next.1) && rest.len() > 0 {
            assert(next.0 is RemovingMenus);
            assert(rest[0] is ReadTools);
        }
    }
}

/// Removing the old menus never fails a scan: whatever the registry holds,
/// the step after the removal reads the tools.
pub proof fn lemma_removal_never_fails(events: Seq<ScanEvent>, j: int)
    requires
        0 <= j,
        j + 1 < scan_run(ScanState::Start, events).len(),
        removes_menus(scan_run(ScanState::Start, events)[j]),
    ensures
        scan_run(ScanState::Start, events)[j + 1] is ReadTools,
{
    lemma_removal_followed_by_reading(ScanState::Start, events);
}

} // verus!
