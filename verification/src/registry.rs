use vstd::prelude::*;

use crate::toolbox_state::Tool;

verus! {

/// A registry operation under `HKEY_CURRENT_USER`, with its strings as
/// character sequences.
pub enum RegistryOpModel {
    CreateKey { path: Seq<char>, parent: Option<Seq<char>> },
    SetValue { path: Seq<char>, name: Seq<char>, data: Seq<char>, failure: Seq<char> },
}

/// A registry operation under `HKEY_CURRENT_USER` that the generator asks for.
///
/// A list of operations is carried out in order, as `start_registry_ops` and
/// `after_registry_op` direct.
/// `CreateKey` opens or creates the key at `path`, starting from the key
/// `parent` (from `HKEY_CURRENT_USER` itself when there is none); it is
/// skipped when `parent` was not created before it, and a failure to create
/// the key is no error. `SetValue` stores the string `data` as the value `name`
/// (the empty name is the key's default value) of the key at `path`; it is
/// skipped when that key was not created before it, and a failure to store
/// the value ends the list with the error `failure`.
#[derive(Clone, Debug, PartialEq, Eq)]
pub enum RegistryOp {
    CreateKey { path: String, parent: Option<String> },
    SetValue { path: String, name: String, data: String, failure: String },
}

/// The model of an optional string.
pub open spec fn option_model(s: Option<String>) -> Option<Seq<char>> {
    match s {
        Some(s) => Some(s@),
        None => None,
    }
}

impl View for RegistryOp {
    type V = RegistryOpModel;

    open spec fn view(&self) -> RegistryOpModel {
        match self {
            RegistryOp::CreateKey { path, parent } => RegistryOpModel::CreateKey {
                path: path@,
                parent: option_model(*parent),
            },
            RegistryOp::SetValue { path, name, data, failure } => RegistryOpModel::SetValue {
                path: path@,
                name: name@,
                data: data@,
                failure: failure@,
            },
        }
    }
}

impl RegistryOpModel {
    /// The key that the operation acts on.
    pub open spec fn path(self) -> Seq<char> {
        match self {
            RegistryOpModel::CreateKey { path, .. } => path,
            RegistryOpModel::SetValue { path, .. } => path,
        }
    }
}

/// The models of a list of operations.
pub open spec fn ops_model(ops: Seq<RegistryOp>) -> Seq<RegistryOpModel> {
    ops.map_values(|op: RegistryOp| op@)
}

/// The models of a list of strings.
pub open spec fn strings_model(strings: Seq<String>) -> Seq<Seq<char>> {
    strings.map_values(|s: String| s@)
}

/// The menu shown when right-clicking the background of a folder.
pub open spec fn background_menu_key() -> Seq<char> {
    "Software\\Classes\\Directory\\Background\\shell\\JetBrainsToolbox"@
}

/// The menu shown when right-clicking a folder.
pub open spec fn directory_menu_key() -> Seq<char> {
    "Software\\Classes\\Directory\\shell\\JetBrainsToolbox"@
}

/// `s` between double quotes.
pub open spec fn quoted(s: Seq<char>) -> Seq<char> {
    "\""@ + s + "\""@
}

/// The key `name` directly below `parent`.
pub open spec fn subkey(parent: Seq<char>, name: Seq<char>) -> Seq<char> {
    parent + "\\"@ + name
}

/// The launcher of a tool: its install location and launch command joined by `/`.
pub open spec fn tool_executable(tool: Tool) -> Seq<char> {
    tool.install_location@ + "/"@ + tool.launch_command@
}

/// The key of a tool's menu entry below the `shell` key of a menu.
pub open spec fn tool_item_key(shell: Seq<char>, tool: Tool) -> Seq<char> {
    subkey(shell, tool.display_name@)
}

/// The key that holds the command a tool's menu entry runs.
pub open spec fn tool_command_key(shell: Seq<char>, tool: Tool) -> Seq<char> {
    tool_item_key(shell, tool) + "\\command"@
}

/// The command of a tool's menu entry: the quoted launcher, then the quoted
/// folder that Explorer fills in for `%V`.
pub open spec fn tool_command(tool: Tool) -> Seq<char> {
    quoted(tool_executable(tool)) + " \"%V\""@
}

/// The operations that give one tool an entry below `shell`: the entry with
/// its label and icon, then its command. Both keys are created from `shell`,
/// so the command is written even when the entry's own key could not be made.
pub open spec fn tool_item_model(shell: Seq<char>, tool: Tool) -> Seq<RegistryOpModel> {
    let item = tool_item_key(shell, tool);
    let command = tool_command_key(shell, tool);
    let name = tool.display_name@;
    seq![
        RegistryOpModel::CreateKey { path: item, parent: Some(shell) },
        RegistryOpModel::SetValue {
            path: item,
            name: "MUIVerb"@,
            data: name,
            failure: "Failed to set MUIVerb for "@ + name,
        },
        RegistryOpModel::SetValue {
            path: item,
            name: "Icon"@,
            data: quoted(tool_executable(tool)),
            failure: "Failed to set Icon for "@ + name,
        },
        RegistryOpModel::CreateKey { path: command, parent: Some(shell) },
        RegistryOpModel::SetValue {
            path: command,
            name: Seq::empty(),
            data: tool_command(tool),
            failure: "Failed to set command for "@ + name,
        },
    ]
}

/// The entries of all `tools`, in their order.
pub open spec fn tool_items_model(shell: Seq<char>, tools: Seq<Tool>) -> Seq<RegistryOpModel>
    decreases tools.len(),
{
    if tools.len() == 0 {
        Seq::empty()
    } else {
        tool_items_model(shell, tools.drop_last()) + tool_item_model(shell, tools.last())
    }
}

/// The `shell` key below a menu key, which holds the menu's entries.
pub open spec fn shell_key(menu: Seq<char>) -> Seq<char> {
    menu + "\\shell"@
}

/// The operations that fill the menu at `menu` with one entry per tool.
pub open spec fn menu_items_model(menu: Seq<char>, tools: Seq<Tool>) -> Seq<RegistryOpModel> {
    seq![RegistryOpModel::CreateKey { path: shell_key(menu), parent: Some(menu) }] + tool_items_model(
        shell_key(menu),
        tools,
    )
}

/// The operations that make the cascading menu at `menu`, with the Toolbox
/// icon and one entry per tool.
pub open spec fn menu_model(menu: Seq<char>, toolbox_path: Seq<char>, tools: Seq<Tool>) -> Seq<RegistryOpModel> {
    seq![
        RegistryOpModel::CreateKey { path: menu, parent: None },
        RegistryOpModel::SetValue {
            path: menu,
            name: "MUIVerb"@,
            data: "Open with JetBrains"@,
            failure: "Failed to set MUIVerb value"@,
        },
        RegistryOpModel::SetValue {
            path: menu,
            name: "SubCommands"@,
            data: Seq::empty(),
            failure: "Failed to set SubCommands value"@,
        },
        RegistryOpModel::SetValue {
            path: menu,
            name: "Icon"@,
            data: quoted(toolbox_path),
            failure: "Failed to set Icon value"@,
        },
    ] + menu_items_model(menu, tools)
}

/// The operations that make both menus, the folder background's first.
pub open spec fn context_menu_model(toolbox_path: Seq<char>, tools: Seq<Tool>) -> Seq<RegistryOpModel> {
    menu_model(background_menu_key(), toolbox_path, tools) + menu_model(directory_menu_key(), toolbox_path, tools)
}

/// The key of the generator's own "Refresh" entry.
pub open spec fn scan_entry_key() -> Seq<char> {
    background_menu_key() + "\\shell\\scan"@
}

/// The key of the command of the "Refresh" entry.
pub open spec fn scan_command_key() -> Seq<char> {
    background_menu_key() + "\\shell\\scan\\command"@
}

/// The key of the generator's own "Uninstall" entry.
pub open spec fn uninstall_entry_key() -> Seq<char> {
    background_menu_key() + "\\shell\\uninstall"@
}

/// The key of the command of the "Uninstall" entry.
pub open spec fn uninstall_command_key() -> Seq<char> {
    background_menu_key() + "\\shell\\uninstall\\command"@
}

/// The operations that add the generator's own entries to the folder
/// background menu: "Refresh", which runs `scan` quietly, and "Uninstall",
/// which runs `uninstall` quietly; each shows the generator's icon. Every key
/// is created from `HKEY_CURRENT_USER` itself.
pub open spec fn self_menu_model(generator_path: Seq<char>) -> Seq<RegistryOpModel> {
    seq![
        RegistryOpModel::CreateKey { path: scan_command_key(), parent: None },
        RegistryOpModel::SetValue {
            path: scan_command_key(),
            name: Seq::empty(),
            data: quoted(generator_path) + " -q scan"@,
            failure: "Failed to set scan command"@,
        },
        RegistryOpModel::CreateKey { path: scan_entry_key(), parent: None },
        RegistryOpModel::SetValue {
            path: scan_entry_key(),
            name: "MUIVerb"@,
            data: "Refresh"@,
            failure: "Failed to set Refresh MUIVerb"@,
        },
        RegistryOpModel::SetValue {
            path: scan_entry_key(),
            name: "Icon"@,
            data: quoted(generator_path),
            failure: "Failed to set Refresh Icon"@,
        },
        RegistryOpModel::CreateKey { path: uninstall_command_key(), parent: None },
        RegistryOpModel::SetValue {
            path: uninstall_command_key(),
            name: Seq::empty(),
            data: quoted(generator_path) + " -q uninstall"@,
            failure: "Failed to set uninstall command"@,
        },
        RegistryOpModel::CreateKey { path: uninstall_entry_key(), parent: None },
        RegistryOpModel::SetValue {
            path: uninstall_entry_key(),
            name: "MUIVerb"@,
            data: "Uninstall"@,
            failure: "Failed to set Uninstall MUIVerb"@,
        },
        RegistryOpModel::SetValue {
            path: uninstall_entry_key(),
            name: "Icon"@,
            data: quoted(generator_path),
            failure: "Failed to set Uninstall Icon"@,
        },
    ]
}

/// The keys that are deleted, with everything below them, to remove the menus.
pub open spec fn removed_keys_model() -> Seq<Seq<char>> {
    seq![background_menu_key(), directory_menu_key()]
}

fn push_create(ops: &mut Vec<RegistryOp>, path: &String, parent: Option<String>)
    ensures
        ops_model(final(ops)@) == ops_model(old(ops)@).push(
            RegistryOpModel::CreateKey { path: path@, parent: option_model(parent) },
        ),
{
    let ghost before = ops@;
    let ghost op = RegistryOpModel::CreateKey { path: path@, parent: option_model(parent) };
    ops.push(RegistryOp::CreateKey { path: path.clone(), parent });
    assert(ops_model(ops@) =~= ops_model(before).push(op));
}

fn push_set(ops: &mut Vec<RegistryOp>, path: &String, name: String, data: String, failure: String)
    ensures
        ops_model(final(ops)@) == ops_model(old(ops)@).push(
            RegistryOpModel::SetValue { path: path@, name: name@, data: data@, failure: failure@ },
        ),
{
    let ghost before = ops@;
    let ghost op = RegistryOpModel::SetValue { path: path@, name: name@, data: data@, failure: failure@ };
    ops.push(RegistryOp::SetValue { path: path.clone(), name, data, failure });
    assert(ops_model(ops@) =~= ops_model(before).push(op));
}

fn quote(s: &str) -> (res: String)
    ensures
        res@ == quoted(s@),
{
    let mut res = String::from_str("\"");
    res.append(s);
    res.append("\"");
    res
}

fn join_key(parent: &String, name: &str) -> (res: String)
    ensures
        res@ == subkey(parent@, name@),
{
    let mut res = parent.clone();
    res.append("\\");
    res.append(name);
    res
}

pub(crate) fn text_with(prefix: &str, rest: &str) -> (res: String)
    ensures
        res@ == prefix@ + rest@,
{
    let mut res = String::from_str(prefix);
    res.append(rest);
    res
}

fn push_tool_item(ops: &mut Vec<RegistryOp>, shell: &String, tool: &Tool)
    ensures
        ops_model(final(ops)@) == ops_model(old(ops)@) + tool_item_model(shell@, *tool),
{
    let ghost before = ops_model(ops@);
    let name = tool.display_name.as_str();
    let mut exe = tool.install_location.clone();
    exe.append("/");
    exe.append(tool.launch_command.as_str());
    let item = join_key(shell, name);
    let mut command = item.clone();
    command.append("\\command");
    let mut run = quote(exe.as_str());
    run.append(" \"%V\"");

    push_create(ops, &item, Some(shell.clone()));
    push_set(
        ops,
        &item,
        String::from_str("MUIVerb"),
        tool.display_name.clone(),
        text_with("Failed to set MUIVerb for ", name),
    );
    push_set(ops, &item, String::from_str("Icon"), quote(exe.as_str()), text_with("Failed to set Icon for ", name));
    push_create(ops, &command, Some(shell.clone()));
    push_set(ops, &command, String::new(), run, text_with("Failed to set command for ", name));
    assert(ops_model(ops@) =~= before + tool_item_model(shell@, *tool));
}

/// The operations that fill the menu at `key` with one entry per tool: below
/// `key\shell`, a key named after each tool with the tool's name as label and
/// its launcher as icon, and beside it a `command` key whose default value
/// runs the launcher on the folder that was clicked.
pub fn create_context_menu_item(key: &str, tools: &[Tool]) -> (ops: Vec<RegistryOp>)
    ensures
        ops_model(ops@) == menu_items_model(key@, tools@),
{
    let mut ops: Vec<RegistryOp> = Vec::new();
    let mut shell = String::from_str(key);
    shell.append("\\shell");
    push_create(&mut ops, &shell, Some(String::from_str(key)));
    let ghost first = RegistryOpModel::CreateKey { path: shell@, parent: Some(key@) };
    let n = tools.len();
    for i in 0..n
        invariant
            n == tools@.len(),
            shell@ == shell_key(key@),
            first == (RegistryOpModel::CreateKey { path: shell@, parent: Some(key@) }),
            ops_model(ops@) == seq![first] + tool_items_model(shell@, tools@.take(i as int)),
    {
        push_tool_item(&mut ops, &shell, &tools[i]);
        assert(tools@.take(i + 1).drop_last() =~= tools@.take(i as int));
        assert(tools@.take(i + 1).last() == tools@[i as int]);
        assert(ops_model(ops@) =~= seq![first] + tool_items_model(shell@, tools@.take(i + 1)));
    }
    assert(tools@.take(n as int) =~= tools@);
    ops
}

fn push_menu(ops: &mut Vec<RegistryOp>, menu: &String, toolbox_path: &str, tools: &[Tool])
    ensures
        ops_model(final(ops)@) == ops_model(old(ops)@) + menu_model(menu@, toolbox_path@, tools@),
{
    let ghost before = ops_model(ops@);
    push_create(ops, menu, None);
    push_set(
        ops,
        menu,
        String::from_str("MUIVerb"),
        String::from_str("Open with JetBrains"),
        String::from_str("Failed to set MUIVerb value"),
    );
    push_set(
        ops,
        menu,
        String::from_str("SubCommands"),
        String::new(),
        String::from_str("Failed to set SubCommands value"),
    );
    push_set(
        ops,
        menu,
        String::from_str("Icon"),
        quote(toolbox_path),
        String::from_str("Failed to set Icon value"),
    );
    let ghost head = ops_model(ops@);
    let mut items = create_context_menu_item(menu.as_str(), tools);
    let ghost items_ops = items@;
    ops.append(&mut items);
    assert(ops_model(ops@) =~= head + ops_model(items_ops));
    assert(ops_model(ops@) =~= before + menu_model(menu@, toolbox_path@, tools@));
}

/// The operations that make the "Open with JetBrains" menus, for the folder
/// background and for folders, each with the Toolbox icon at `toolbox_path`
/// and one entry per tool.
pub fn create_context_menu(toolbox_path: &str, tools: &[Tool]) -> (ops: Vec<RegistryOp>)
    ensures
        ops_model(ops@) == context_menu_model(toolbox_path@, tools@),
{
    let mut ops: Vec<RegistryOp> = Vec::new();
    let background = String::from_str("Software\\Classes\\Directory\\Background\\shell\\JetBrainsToolbox");
    let directory = String::from_str("Software\\Classes\\Directory\\shell\\JetBrainsToolbox");
    push_menu(&mut ops, &background, toolbox_path, tools);
    push_menu(&mut ops, &directory, toolbox_path, tools);
    assert(ops_model(ops@) =~= context_menu_model(toolbox_path@, tools@));
    ops
}

fn background_key_with(suffix: &str) -> (res: String)
    ensures
        res@ == background_menu_key() + suffix@,
{
    let mut res = String::from_str("Software\\Classes\\Directory\\Background\\shell\\JetBrainsToolbox");
    res.append(suffix);
    res
}

fn quoted_with(s: &str, suffix: &str) -> (res: String)
    ensures
        res@ == quoted(s@) + suffix@,
{
    let mut res = quote(s);
    res.append(suffix);
    res
}

/// The operations that add the generator's own "Refresh" and "Uninstall"
/// entries, which run the generator at `generator_path` quietly with `scan`
/// and `uninstall`, to the folder background menu.
pub fn add_self_to_context_menu(generator_path: &str) -> (ops: Vec<RegistryOp>)
    ensures
        ops_model(ops@) == self_menu_model(generator_path@),
{
    let mut ops: Vec<RegistryOp> = Vec::new();
    let scan_command = background_key_with("\\shell\\scan\\command");
    let scan_entry = background_key_with("\\shell\\scan");
    let uninstall_command = background_key_with("\\shell\\uninstall\\command");
    let uninstall_entry = background_key_with("\\shell\\uninstall");

    push_create(&mut ops, &scan_command, None);
    push_set(
        &mut ops,
        &scan_command,
        String::new(),
        quoted_with(generator_path, " -q scan"),
        String::from_str("Failed to set scan command"),
    );
    push_create(&mut ops, &scan_entry, None);
    push_set(
        &mut ops,
        &scan_entry,
        String::from_str("MUIVerb"),
        String::from_str("Refresh"),
        String::from_str("Failed to set Refresh MUIVerb"),
    );
    push_set(
        &mut ops,
        &scan_entry,
        String::from_str("Icon"),
        quote(generator_path),
        String::from_str("Failed to set Refresh Icon"),
    );

    push_create(&mut ops, &uninstall_command, None);
    push_set(
        &mut ops,
        &uninstall_command,
        String::new(),
        quoted_with(generator_path, " -q uninstall"),
        String::from_str("Failed to set uninstall command"),
    );
    push_create(&mut ops, &uninstall_entry, None);
    push_set(
        &mut ops,
        &uninstall_entry,
        String::from_str("MUIVerb"),
        String::from_str("Uninstall"),
        String::from_str("Failed to set Uninstall MUIVerb"),
    );
    push_set(
        &mut ops,
        &uninstall_entry,
        String::from_str("Icon"),
        quote(generator_path),
        String::from_str("Failed to set Uninstall Icon"),
    );

    assert(ops_model(ops@) =~= self_menu_model(generator_path@));
    ops
}

/// The keys to delete, each with everything below it, to remove the menus:
/// the folder background's menu and the folders' menu. A key that is missing
/// or cannot be deleted is skipped: removal never fails.
pub fn remove_existing_context_menu() -> (keys: Vec<String>)
    ensures
        strings_model(keys@) == removed_keys_model(),
{
    let mut keys: Vec<String> = Vec::new();
    keys.push(String::from_str("Software\\Classes\\Directory\\Background\\shell\\JetBrainsToolbox"));
    keys.push(String::from_str("Software\\Classes\\Directory\\shell\\JetBrainsToolbox"));
    assert(strings_model(keys@) =~= removed_keys_model());
    keys
}


/// Whether an operation is carried out once the keys in `created` have been
/// created: a key made from `HKEY_CURRENT_USER` always is; a key made from a
/// parent key, or a value stored in a key, only when that key was created.
pub open spec fn attempted(op: RegistryOpModel, created: Seq<Seq<char>>) -> bool {
    match op {
        RegistryOpModel::CreateKey { parent, .. } => match parent {
            Some(p) => created.contains(p),
            None => true,
        },
        RegistryOpModel::SetValue { path, .. } => created.contains(path),
    }
}

/// The first operation at or after `from` that is carried out, given the keys
/// created so far.
pub open spec fn next_attempt_from(ops: Seq<RegistryOpModel>, from: int, created: Seq<Seq<char>>) -> Option<int>
    decreases ops.len() - from,
{
    if from < 0 || from >= ops.len() {
        None
    } else if attempted(ops[from], created) {
        Some(from)
    } else {
        next_attempt_from(ops, from + 1, created)
    }
}

/// The model of an optional index.
pub open spec fn index_model(i: Option<usize>) -> Option<int> {
    match i {
        Some(i) => Some(i as int),
        None => None,
    }
}

fn contains_key(keys: &[String], key: &String) -> (found: bool)
    ensures
        found == strings_model(keys@).contains(key@),
{
    let n = keys.len();
    for i in 0..n
        invariant
            n == keys@.len(),
            forall|j: int| 0 <= j < i ==> keys@[j]@ != key@,
    {
        if keys[i] == *key {
            assert(strings_model(keys@)[i as int] == key@);
            return true;
        }
    }
    assert forall|j: int| 0 <= j < strings_model(keys@).len() implies strings_model(keys@)[j] != key@ by {
        assert(strings_model(keys@)[j] == keys@[j]@);
    }
    false
}

fn is_attempted(op: &RegistryOp, created: &[String]) -> (r: bool)
    ensures
        r == attempted(op@, strings_model(created@)),
{
    match op {
        RegistryOp::CreateKey { parent, .. } => match parent {
            Some(p) => contains_key(created, p),
            None => true,
        },
        RegistryOp::SetValue { path, .. } => contains_key(created, path),
    }
}

/// Where the carrying out of `ops` goes on: the index of the first operation
/// at or after `from` that is attempted, given the keys in `created` (those
/// created so far), or `None` when none is left. A `CreateKey` whose parent
/// key was not created, and a `SetValue` whose key was not created, are
/// skipped; a failed `SetValue` ends the list with its `failure` message,
/// which the caller reports.
pub fn next_attempt(ops: &[RegistryOp], from: usize, created: &[String]) -> (next: Option<usize>)
    ensures
        index_model(next) == next_attempt_from(ops_model(ops@), from as int, strings_model(created@)),
{
    let n = ops.len();
    let ghost model = ops_model(ops@);
    let ghost keys = strings_model(created@);
    let mut i = from;
    while i < n
        invariant
            n == ops@.len(),
            model == ops_model(ops@),
            keys == strings_model(created@),
            from <= i,
            next_attempt_from(model, from as int, keys) == next_attempt_from(model, i as int, keys),
        decreases n - i,
    {
        assert(model[i as int] == ops@[i as int]@);
        if is_attempted(&ops[i], created) {
            return Some(i);
        }
        i = i + 1;
    }
    None
}

/// How carrying out a list of operations goes on.
#[derive(Debug, PartialEq, Eq)]
pub enum RegistryProgress {
    /// Carry out the operation at this index next.
    Attempt(usize),
    /// Every operation has been carried out or skipped.
    Completed,
    /// A value could not be stored: the list ends with the error `failure`,
    /// and no later operation is carried out.
    Failed { failure: String },
}

/// `RegistryProgress` with its strings as character sequences.
pub enum RegistryProgressModel {
    Attempt(int),
    Completed,
    Failed(Seq<char>),
}

impl View for RegistryProgress {
    type V = RegistryProgressModel;

    open spec fn view(&self) -> RegistryProgressModel {
        match self {
            RegistryProgress::Attempt(i) => RegistryProgressModel::Attempt(*i as int),
            RegistryProgress::Completed => RegistryProgressModel::Completed,
            RegistryProgress::Failed { failure } => RegistryProgressModel::Failed(failure@),
        }
    }
}

/// The next operation at or after `from` to carry out, or the end of the list.
pub open spec fn progress_from(ops: Seq<RegistryOpModel>, from: int, created: Seq<Seq<char>>) -> RegistryProgressModel {
    match next_attempt_from(ops, from, created) {
        Some(j) => RegistryProgressModel::Attempt(j),
        None => RegistryProgressModel::Completed,
    }
}

/// The keys created so far, once `op` has been carried out with the result
/// `succeeded`: a key that was created joins them.
pub open spec fn created_after(op: RegistryOpModel, succeeded: bool, created: Seq<Seq<char>>) -> Seq<Seq<char>> {
    match op {
        RegistryOpModel::CreateKey { path, .. } => if succeeded {
            created.push(path)
        } else {
            created
        },
        _ => created,
    }
}

/// How the list goes on once the operation at `index` has been carried out
/// with the result `succeeded`: a value that could not be stored ends the
/// list with its failure message; anything else goes on with the next
/// operation that is not skipped.
pub open spec fn progress_after(
    ops: Seq<RegistryOpModel>,
    index: int,
    succeeded: bool,
    created: Seq<Seq<char>>,
) -> RegistryProgressModel {
    match ops[index] {
        RegistryOpModel::SetValue { failure, .. } => if succeeded {
            progress_from(ops, index + 1, created)
        } else {
            RegistryProgressModel::Failed(failure)
        },
        RegistryOpModel::CreateKey { .. } => progress_from(
            ops,
            index + 1,
            created_after(ops[index], succeeded, created),
        ),
    }
}

/// Where carrying out `ops` starts, given the keys that already exist as
/// handles (`created`; none for the generator's plans).
pub fn start_registry_ops(ops: &[RegistryOp], created: &[String]) -> (progress: RegistryProgress)
    ensures
        progress@ == progress_from(ops_model(ops@), 0, strings_model(created@)),
{
    match next_attempt(ops, 0, created) {
        Some(j) => RegistryProgress::Attempt(j),
        None => RegistryProgress::Completed,
    }
}

/// How carrying out `ops` goes on once the operation at `index` was carried
/// out with the result `succeeded`; `created` gains the key that was created.
/// A value that could not be stored ends the list with that operation's
/// failure message, so no later operation is carried out.
pub fn after_registry_op(ops: &[RegistryOp], index: usize, succeeded: bool, created: &mut Vec<String>) -> (progress: RegistryProgress)
    requires
        index < ops@.len(),
    ensures
        strings_model(final(created)@) == created_after(
            ops_model(ops@)[index as int],
            succeeded,
            strings_model(old(created)@),
        ),
        progress@ == progress_after(ops_model(ops@), index as int, succeeded, strings_model(old(created)@)),
{
    let ghost before = created@;
    assert(ops_model(ops@)[index as int] == ops@[index as int]@);
    match &ops[index] {
        RegistryOp::SetValue { failure, .. } => {
            if !succeeded {
                return RegistryProgress::Failed { failure: failure.clone() };
            }
        },
        RegistryOp::CreateKey { path, .. } => {
            if succeeded {
                created.push(path.clone());
                assert(strings_model(created@) =~= strings_model(before).push(path@));
            }
        },
    }
    if index + 1 >= ops.len() {
        return RegistryProgress::Completed;
    }
    match next_attempt(ops, index + 1, created.as_slice()) {
        Some(j) => RegistryProgress::Attempt(j),
        None => RegistryProgress::Completed,
    }
}

/// The keys that the `CreateKey` operations in `ops` name, in order.
pub open spec fn created_keys(ops: Seq<RegistryOpModel>) -> Seq<Seq<char>>
    decreases ops.len(),
{
    if ops.len() == 0 {
        Seq::empty()
    } else {
        created_keys(ops.drop_last()) + match ops.last() {
            RegistryOpModel::CreateKey { path, .. } => seq![path],
            _ => Seq::empty(),
        }
    }
}

/// When every key creation succeeds, every operation of `ops` is carried out:
/// each key's parent, and each written key, is created before it.
pub open spec fn runs_fully(ops: Seq<RegistryOpModel>) -> bool {
    forall|i: int| 0 <= i < ops.len() ==> attempted(#[trigger] ops[i], created_keys(ops.take(i)))
}

proof fn lemma_created_before(ops: Seq<RegistryOpModel>, k: int, i: int)
    requires
        0 <= k < i <= ops.len(),
        ops[k] is CreateKey,
    ensures
        created_keys(ops.take(i)).contains(ops[k].path()),
    decreases i,
{
    let pre = ops.take(i);
    assert(pre.drop_last() =~= ops.take(i - 1));
    assert(pre.last() == ops[i - 1]);
    if k == i - 1 {
        let keys = created_keys(pre);
        assert(keys[keys.len() - 1] == ops[k].path());
    } else {
        lemma_created_before(ops, k, i - 1);
        let before = created_keys(ops.take(i - 1));
        let w = choose|w: int| 0 <= w < before.len() && before[w] == ops[k].path();
        assert(created_keys(pre)[w] == before[w]);
    }
}

proof fn lemma_menu_runs_fully(
    ops: Seq<RegistryOpModel>,
    o: int,
    menu: Seq<char>,
    toolbox_path: Seq<char>,
    tools: Seq<Tool>,
)
    requires
        0 <= o,
        o + menu_model(menu, toolbox_path, tools).len() <= ops.len(),
        forall|j: int|
            0 <= j < menu_model(menu, toolbox_path, tools).len() ==> ops[o + j]
                == #[trigger] menu_model(menu, toolbox_path, tools)[j],
    ensures
        forall|j: int|
            0 <= j < menu_model(menu, toolbox_path, tools).len() ==> attempted(
                #[trigger] ops[o + j],
                created_keys(ops.take(o + j)),
            ),
{
    let m = menu_model(menu, toolbox_path, tools);
    let shell = shell_key(menu);
    lemma_tool_items_layout(shell, tools);
    assert(m[0] == ops[o + 0]);
    assert(m[4] == ops[o + 4]);
    assert forall|j: int| 0 <= j < m.len() implies attempted(#[trigger] ops[o + j], created_keys(ops.take(o + j))) by {
        assert(ops[o + j] == m[j]);
        if 1 <= j <= 4 {
            lemma_created_before(ops, o, o + j);
        } else if j >= 5 {
            let t = (j - 5) / 5;
            let r = (j - 5) % 5;
            assert(j == 5 + 5 * t + r);
            assert(0 <= t < tools.len());
            assert(m[j] == tool_items_model(shell, tools)[5 * t + r]);
            assert(m[j] == tool_item_model(shell, tools[t])[r]);
            if r == 0 || r == 3 {
                lemma_created_before(ops, o + 4, o + j);
            } else if r == 1 || r == 2 {
                assert(m[j - r] == tool_item_model(shell, tools[t])[0]);
                assert(ops[o + j - r] == m[j - r]);
                lemma_created_before(ops, o + j - r, o + j);
            } else {
                assert(m[j - 1] == tool_item_model(shell, tools[t])[3]);
                assert(ops[o + j - 1] == m[j - 1]);
                lemma_created_before(ops, o + j - 1, o + j);
            }
        }
    }
}

/// When no key creation fails, every operation that `create_context_menu` and
/// `add_self_to_context_menu` plan is carried out: `next_attempt`, given the
/// keys created so far, never skips one.
pub proof fn lemma_plans_run_fully(toolbox_path: Seq<char>, tools: Seq<Tool>, generator_path: Seq<char>)
    ensures
        runs_fully(context_menu_model(toolbox_path, tools)),
        runs_fully(self_menu_model(generator_path)),
        forall|i: int|
            0 <= i < context_menu_model(toolbox_path, tools).len() ==> #[trigger] next_attempt_from(
                context_menu_model(toolbox_path, tools),
                i,
                created_keys(context_menu_model(toolbox_path, tools).take(i)),
            ) == Some(i),
        forall|i: int|
            0 <= i < self_menu_model(generator_path).len() ==> #[trigger] next_attempt_from(
                self_menu_model(generator_path),
                i,
                created_keys(self_menu_model(generator_path).take(i)),
            ) == Some(i),
{
    let all = context_menu_model(toolbox_path, tools);
    let background = menu_model(background_menu_key(), toolbox_path, tools);
    let directory = menu_model(directory_menu_key(), toolbox_path, tools);
    lemma_menu_runs_fully(all, 0, background_menu_key(), toolbox_path, tools);
    lemma_menu_runs_fully(all, background.len() as int, directory_menu_key(), toolbox_path, tools);
    assert forall|i: int| 0 <= i < all.len() implies attempted(#[trigger] all[i], created_keys(all.take(i))) by {
        if i < background.len() {
            assert(all[0 + i] == all[i]);
        } else {
            let j = i - background.len();
            assert(all[background.len() + j] == all[i]);
        }
    }
    let own = self_menu_model(generator_path);
    assert forall|i: int| 0 <= i < own.len() implies attempted(#[trigger] own[i], created_keys(own.take(i))) by {
        if i == 1 {
            lemma_created_before(own, 0, 1);
        } else if i == 3 || i == 4 {
            lemma_created_before(own, 2, i);
        } else if i == 6 {
            lemma_created_before(own, 5, 6);
        } else if i == 8 || i == 9 {
            lemma_created_before(own, 7, i);
        }
    }
}

/// `path` is `key` or a key below it.
pub open spec fn lies_within(path: Seq<char>, key: Seq<char>) -> bool {
    path == key || (key + "\\"@).is_prefix_of(path)
}

/// `path` is deleted together with one of `keys`.
pub open spec fn removed_with(path: Seq<char>, keys: Seq<Seq<char>>) -> bool {
    exists|i: int| 0 <= i < keys.len() && lies_within(path, #[trigger] keys[i])
}

proof fn lemma_child_within(key: Seq<char>, rest: Seq<char>)
    requires
        rest.len() >= 1,
        rest[0] == '\\',
    ensures
        (key + "\\"@).is_prefix_of(key + rest),
{
    reveal_strlit("\\");
    assert((key + rest).subrange(0, (key + "\\"@).len() as int) =~= key + "\\"@);
}

proof fn lemma_extend_within(prefix: Seq<char>, path: Seq<char>, more: Seq<char>)
    requires
        prefix.is_prefix_of(path),
    ensures
        prefix.is_prefix_of(path + more),
{
    assert((path + more).subrange(0, prefix.len() as int) =~= path.subrange(0, prefix.len() as int));
}

proof fn lemma_tool_items_within(menu: Seq<char>, tools: Seq<Tool>)
    requires
        (menu + "\\"@).is_prefix_of(shell_key(menu)),
    ensures
        forall|j: int|
            0 <= j < tool_items_model(shell_key(menu), tools).len() ==> (menu + "\\"@).is_prefix_of(
                (#[trigger] tool_items_model(shell_key(menu), tools)[j]).path(),
            ),
    decreases tools.len(),
{
    let shell = shell_key(menu);
    if tools.len() > 0 {
        lemma_tool_items_within(menu, tools.drop_last());
        let tool = tools.last();
        lemma_extend_within(menu + "\\"@, shell, "\\"@);
        lemma_extend_within(menu + "\\"@, shell + "\\"@, tool.display_name@);
        lemma_extend_within(menu + "\\"@, tool_item_key(shell, tool), "\\command"@);
        let items = tool_items_model(shell, tools);
        let head = tool_items_model(shell, tools.drop_last());
        assert forall|j: int| 0 <= j < items.len() implies (menu + "\\"@).is_prefix_of(
            (#[trigger] items[j]).path(),
        ) by {
            if j < head.len() {
                assert(items[j] == head[j]);
            }
        }
    }
}

proof fn lemma_menu_within(menu: Seq<char>, toolbox_path: Seq<char>, tools: Seq<Tool>)
    ensures
        forall|j: int|
            0 <= j < menu_model(menu, toolbox_path, tools).len() ==> lies_within(
                (#[trigger] menu_model(menu, toolbox_path, tools)[j]).path(),
                menu,
            ),
{
    reveal_strlit("\\shell");
    lemma_child_within(menu, "\\shell"@);
    lemma_tool_items_within(menu, tools);
    let ops = menu_model(menu, toolbox_path, tools);
    let items = tool_items_model(shell_key(menu), tools);
    assert forall|j: int| 0 <= j < ops.len() implies lies_within((#[trigger] ops[j]).path(), menu) by {
        if j >= 5 {
            assert(ops[j] == items[j - 5]);
        }
    }
}

/// Removing the menus removes everything that a scan writes: every key that
/// `create_context_menu` or `add_self_to_context_menu` creates or writes to
/// is one of the keys that `remove_existing_context_menu` deletes, or lies
/// below one of them.
pub proof fn lemma_removal_covers_scan(toolbox_path: Seq<char>, tools: Seq<Tool>, generator_path: Seq<char>)
    ensures
        forall|j: int|
            0 <= j < context_menu_model(toolbox_path, tools).len() ==> removed_with(
                (#[trigger] context_menu_model(toolbox_path, tools)[j]).path(),
                removed_keys_model(),
            ),
        forall|j: int|
            0 <= j < self_menu_model(generator_path).len() ==> removed_with(
                (#[trigger] self_menu_model(generator_path)[j]).path(),
                removed_keys_model(),
            ),
{
    let keys = removed_keys_model();
    let background = menu_model(background_menu_key(), toolbox_path, tools);
    let directory = menu_model(directory_menu_key(), toolbox_path, tools);
    lemma_menu_within(background_menu_key(), toolbox_path, tools);
    lemma_menu_within(directory_menu_key(), toolbox_path, tools);
    let all = context_menu_model(toolbox_path, tools);
    assert forall|j: int| 0 <= j < all.len() implies removed_with((#[trigger] all[j]).path(), keys) by {
        if j < background.len() {
            assert(all[j] == background[j]);
            assert(lies_within(all[j].path(), keys[0]));
        } else {
            assert(all[j] == directory[j - background.len()]);
            assert(lies_within(all[j].path(), keys[1]));
        }
    }
    reveal_strlit("\\shell\\scan");
    reveal_strlit("\\shell\\scan\\command");
    reveal_strlit("\\shell\\uninstall");
    reveal_strlit("\\shell\\uninstall\\command");
    lemma_child_within(background_menu_key(), "\\shell\\scan"@);
    lemma_child_within(background_menu_key(), "\\shell\\scan\\command"@);
    lemma_child_within(background_menu_key(), "\\shell\\uninstall"@);
    lemma_child_within(background_menu_key(), "\\shell\\uninstall\\command"@);
    let own = self_menu_model(generator_path);
    assert forall|j: int| 0 <= j < own.len() implies removed_with((#[trigger] own[j]).path(), keys) by {
        assert(lies_within(own[j].path(), keys[0]));
    }
}

pub(crate) proof fn lemma_tool_items_layout(shell: Seq<char>, tools: Seq<Tool>)
    ensures
        tool_items_model(shell, tools).len() == 5 * tools.len(),
        forall|i: int, k: int|
            0 <= i < tools.len() && 0 <= k < 5 ==> tool_items_model(shell, tools)[5 * i + k]
                == #[trigger] tool_item_model(shell, tools[i])[k],
    decreases tools.len(),
{
    if tools.len() > 0 {
        let head = tools.drop_last();
        lemma_tool_items_layout(shell, head);
        let items = tool_items_model(shell, tools);
        assert forall|i: int, k: int| 0 <= i < tools.len() && 0 <= k < 5 implies items[5 * i + k]
            == #[trigger] tool_item_model(shell, tools[i])[k] by {
            if i < tools.len() - 1 {
                assert(tools[i] == head[i]);
                assert(tool_item_model(shell, head[i])[k] == tool_items_model(shell, head)[5 * i + k]);
            }
        }
    }
}

/// Every tool gets an entry in both menus, and the entry's command opens the
/// clicked folder with the tool's launcher.
pub proof fn lemma_every_tool_has_command(toolbox_path: Seq<char>, tools: Seq<Tool>, i: int)
    requires
        0 <= i < tools.len(),
    ensures
        context_menu_model(toolbox_path, tools).contains(
            RegistryOpModel::SetValue {
                path: tool_command_key(shell_key(background_menu_key()), tools[i]),
                name: Seq::empty(),
                data: tool_command(tools[i]),
                failure: "Failed to set command for "@ + tools[i].display_name@,
            },
        ),
        context_menu_model(toolbox_path, tools).contains(
            RegistryOpModel::SetValue {
                path: tool_command_key(shell_key(directory_menu_key()), tools[i]),
                name: Seq::empty(),
                data: tool_command(tools[i]),
                failure: "Failed to set command for "@ + tools[i].display_name@,
            },
        ),
{
    let all = context_menu_model(toolbox_path, tools);
    let background = menu_model(background_menu_key(), toolbox_path, tools);
    let bg_shell = shell_key(background_menu_key());
    let dir_shell = shell_key(directory_menu_key());
    lemma_tool_items_layout(bg_shell, tools);
    lemma_tool_items_layout(dir_shell, tools);
    assert(tool_item_model(bg_shell, tools[i])[4] == tool_items_model(bg_shell, tools)[5 * i + 4]);
    assert(tool_item_model(dir_shell, tools[i])[4] == tool_items_model(dir_shell, tools)[5 * i + 4]);
    assert(all[5 + 5 * i + 4] == tool_item_model(bg_shell, tools[i])[4]);
    assert(all[background.len() + 5 + 5 * i + 4] == tool_item_model(dir_shell, tools[i])[4]);
}

/// Each tool's entry in a menu built at `key` is labelled with the tool's
/// whole display name, shows the tool's launcher (its install location and
/// launch command joined by `/`) between double quotes as its icon, and its
/// command runs that launcher on the clicked folder (`"%V"`). The menu's
/// `shell` key comes first, then five operations per tool, in the tools' order.
pub proof fn lemma_tool_entry_contents(key: Seq<char>, tools: Seq<Tool>, t: int)
    requires
        0 <= t < tools.len(),
    ensures
        menu_items_model(key, tools).len() == 1 + 5 * tools.len(),
        menu_items_model(key, tools)[0] == (RegistryOpModel::CreateKey { path: key + "\\shell"@, parent: Some(key) }),
        menu_items_model(key, tools)[5 * t + 1] == (RegistryOpModel::CreateKey {
            path: key + "\\shell"@ + "\\"@ + tools[t].display_name@,
            parent: Some(key + "\\shell"@),
        }),
        menu_items_model(key, tools)[5 * t + 2] == (RegistryOpModel::SetValue {
            path: key + "\\shell"@ + "\\"@ + tools[t].display_name@,
            name: "MUIVerb"@,
            data: tools[t].display_name@,
            failure: "Failed to set MUIVerb for "@ + tools[t].display_name@,
        }),
        menu_items_model(key, tools)[5 * t + 3] == (RegistryOpModel::SetValue {
            path: key + "\\shell"@ + "\\"@ + tools[t].display_name@,
            name: "Icon"@,
            data: "\""@ + (tools[t].install_location@ + "/"@ + tools[t].launch_command@) + "\""@,
            failure: "Failed to set Icon for "@ + tools[t].display_name@,
        }),
        menu_items_model(key, tools)[5 * t + 4] == (RegistryOpModel::CreateKey {
            path: key + "\\shell"@ + "\\"@ + tools[t].display_name@ + "\\command"@,
            parent: Some(key + "\\shell"@),
        }),
        menu_items_model(key, tools)[5 * t + 5] == (RegistryOpModel::SetValue {
            path: key + "\\shell"@ + "\\"@ + tools[t].display_name@ + "\\command"@,
            name: Seq::empty(),
            data: "\""@ + (tools[t].install_location@ + "/"@ + tools[t].launch_command@) + "\""@ + " \"%V\""@,
            failure: "Failed to set command for "@ + tools[t].display_name@,
        }),
{
    let shell = shell_key(key);
    let m = menu_items_model(key, tools);
    lemma_tool_items_layout(shell, tools);
    let item = tool_item_model(shell, tools[t]);
    assert(m[5 * t + 1] == tool_items_model(shell, tools)[5 * t + 0]);
    assert(m[5 * t + 2] == tool_items_model(shell, tools)[5 * t + 1]);
    assert(m[5 * t + 3] == tool_items_model(shell, tools)[5 * t + 2]);
    assert(m[5 * t + 4] == tool_items_model(shell, tools)[5 * t + 3]);
    assert(m[5 * t + 5] == tool_items_model(shell, tools)[5 * t + 4]);
    assert(item[0] == tool_items_model(shell, tools)[5 * t + 0]);
    assert(item[1] == tool_items_model(shell, tools)[5 * t + 1]);
    assert(item[2] == tool_items_model(shell, tools)[5 * t + 2]);
    assert(item[3] == tool_items_model(shell, tools)[5 * t + 3]);
    assert(item[4] == tool_items_model(shell, tools)[5 * t + 4]);
}

/// The generator's own entries run it quietly, through its whole path between
/// double quotes whatever characters the path holds (spaces included):
/// "Refresh" runs `"<path>" -q scan` and "Uninstall" runs `"<path>" -q
/// uninstall`, both below the folder background menu, and both show the
/// generator's icon.
pub proof fn lemma_own_entries_run_generator(g: Seq<char>)
    ensures
        self_menu_model(g).len() == 10,
        self_menu_model(g)[0] == (RegistryOpModel::CreateKey {
            path: "Software\\Classes\\Directory\\Background\\shell\\JetBrainsToolbox"@ + "\\shell\\scan\\command"@,
            parent: None,
        }),
        self_menu_model(g)[1] == (RegistryOpModel::SetValue {
            path: "Software\\Classes\\Directory\\Background\\shell\\JetBrainsToolbox"@ + "\\shell\\scan\\command"@,
            name: Seq::empty(),
            data: "\""@ + g + "\""@ + " -q scan"@,
            failure: "Failed to set scan command"@,
        }),
        self_menu_model(g)[3] == (RegistryOpModel::SetValue {
            path: "Software\\Classes\\Directory\\Background\\shell\\JetBrainsToolbox"@ + "\\shell\\scan"@,
            name: "MUIVerb"@,
            data: "Refresh"@,
            failure: "Failed to set Refresh MUIVerb"@,
        }),
        self_menu_model(g)[4] == (RegistryOpModel::SetValue {
            path: "Software\\Classes\\Directory\\Background\\shell\\JetBrainsToolbox"@ + "\\shell\\scan"@,
            name: "Icon"@,
            data: "\""@ + g + "\""@,
            failure: "Failed to set Refresh Icon"@,
        }),
        self_menu_model(g)[6] == (RegistryOpModel::SetValue {
            path: "Software\\Classes\\Directory\\Background\\shell\\JetBrainsToolbox"@ + "\\shell\\uninstall\\command"@,
            name: Seq::empty(),
            data: "\""@ + g + "\""@ + " -q uninstall"@,
            failure: "Failed to set uninstall command"@,
        }),
        self_menu_model(g)[8] == (RegistryOpModel::SetValue {
            path: "Software\\Classes\\Directory\\Background\\shell\\JetBrainsToolbox"@ + "\\shell\\uninstall"@,
            name: "MUIVerb"@,
            data: "Uninstall"@,
            failure: "Failed to set Uninstall MUIVerb"@,
        }),
        self_menu_model(g)[9] == (RegistryOpModel::SetValue {
            path: "Software\\Classes\\Directory\\Background\\shell\\JetBrainsToolbox"@ + "\\shell\\uninstall"@,
            name: "Icon"@,
            data: "\""@ + g + "\""@,
            failure: "Failed to set Uninstall Icon"@,
        }),
{
}

proof fn lemma_next_attempt_range(ops: Seq<RegistryOpModel>, from: int, created: Seq<Seq<char>>)
    requires
        0 <= from,
    ensures
        match next_attempt_from(ops, from, created) {
            Some(j) => from <= j < ops.len() && attempted(ops[j], created) && forall|k: int|
                from <= k < j ==> !attempted(#[trigger] ops[k], created),
            None => forall|k: int| from <= k < ops.len() ==> !attempted(#[trigger] ops[k], created),
        },
    decreases ops.len() - from,
{
    if from < ops.len() && !attempted(ops[from], created) {
        lemma_next_attempt_range(ops, from + 1, created);
    }
}

/// A value that cannot be stored ends the list with that operation's failure
/// message, wherever it stands in the list (the last operation included),
/// whatever keys were created.
pub proof fn lemma_failed_value_ends_list(ops: Seq<RegistryOpModel>, index: int, created: Seq<Seq<char>>)
    requires
        0 <= index < ops.len(),
        ops[index] is SetValue,
    ensures
        progress_after(ops, index, false, created) == RegistryProgressModel::Failed(ops[index]->failure),
{
}

/// After an operation that did not fail a value write (one that succeeded, or
/// a key that could not be created) the list never ends with a failure: it
/// goes on with the first later operation that is not skipped, given the keys
/// created by then (a created key joins them), or it is complete when every
/// later operation is skipped.
pub proof fn lemma_list_goes_on(ops: Seq<RegistryOpModel>, index: int, succeeded: bool, created: Seq<Seq<char>>)
    requires
        0 <= index < ops.len(),
        succeeded || ops[index] is CreateKey,
    ensures
        ({
            let keys = if succeeded && ops[index] is CreateKey {
                created.push(ops[index].path())
            } else {
                created
            };
            match progress_after(ops, index, succeeded, created) {
                RegistryProgressModel::Attempt(j) => index < j < ops.len() && attempted(ops[j], keys) && forall|k: int|
                    index < k < j ==> !attempted(#[trigger] ops[k], keys),
                RegistryProgressModel::Completed => forall|k: int|
                    index < k < ops.len() ==> !attempted(#[trigger] ops[k], keys),
                RegistryProgressModel::Failed(_) => false,
            }
        }),
{
    let keys = if succeeded && ops[index] is CreateKey {
        created.push(ops[index].path())
    } else {
        created
    };
    assert(created_after(ops[index], succeeded, created) == keys);
    lemma_next_attempt_range(ops, index + 1, keys);
}

} // verus!
