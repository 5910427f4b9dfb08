use toolbox_context_menu::registry::{
    add_self_to_context_menu, after_registry_op, create_context_menu, create_context_menu_item, next_attempt,
    remove_existing_context_menu, start_registry_ops, RegistryOp, RegistryProgress,
};
use toolbox_context_menu::toolbox_state::Tool;

const BACKGROUND: &str = "Software\\Classes\\Directory\\Background\\shell\\JetBrainsToolbox";
const DIRECTORY: &str = "Software\\Classes\\Directory\\shell\\JetBrainsToolbox";

fn create(path: &str, parent: Option<&str>) -> RegistryOp {
    RegistryOp::CreateKey { path: path.to_string(), parent: parent.map(|p| p.to_string()) }
}

fn set(path: &str, name: &str, data: &str, failure: &str) -> RegistryOp {
    RegistryOp::SetValue {
        path: path.to_string(),
        name: name.to_string(),
        data: data.to_string(),
        failure: failure.to_string(),
    }
}

fn idea() -> Tool {
    Tool::new(
        "IntelliJ IDEA".to_string(),
        "C:\\Users\\me\\AppData\\Local\\Programs\\IntelliJ IDEA".to_string(),
        "bin\\idea64.exe".to_string(),
    )
}

fn rider() -> Tool {
    Tool::new("Rider".to_string(), "D:\\Rider".to_string(), "bin\\rider64.exe".to_string())
}

fn item_ops(shell: &str, tool: &Tool) -> Vec<RegistryOp> {
    let item = format!("{}\\{}", shell, tool.display_name);
    let command = format!("{}\\command", item);
    let exe = format!("{}/{}", tool.install_location, tool.launch_command);
    let name = &tool.display_name;
    vec![
        create(&item, Some(shell)),
        set(&item, "MUIVerb", name, &format!("Failed to set MUIVerb for {}", name)),
        set(&item, "Icon", &format!("\"{}\"", exe), &format!("Failed to set Icon for {}", name)),
        create(&command, Some(shell)),
        set(&command, "", &format!("\"{}\" \"%V\"", exe), &format!("Failed to set command for {}", name)),
    ]
}

#[test]
fn menu_item_without_tools_only_creates_shell_key() {
    let ops = create_context_menu_item("Root", &[]);
    assert_eq!(ops, vec![create("Root\\shell", Some("Root"))]);
}

#[test]
fn menu_item_for_one_tool() {
    let ops = create_context_menu_item("Root", &[idea()]);
    assert_eq!(
        ops,
        vec![
            create("Root\\shell", Some("Root")),
            create("Root\\shell\\IntelliJ IDEA", Some("Root\\shell")),
            set("Root\\shell\\IntelliJ IDEA", "MUIVerb", "IntelliJ IDEA", "Failed to set MUIVerb for IntelliJ IDEA"),
            set(
                "Root\\shell\\IntelliJ IDEA",
                "Icon",
                "\"C:\\Users\\me\\AppData\\Local\\Programs\\IntelliJ IDEA/bin\\idea64.exe\"",
                "Failed to set Icon for IntelliJ IDEA"
            ),
            create("Root\\shell\\IntelliJ IDEA\\command", Some("Root\\shell")),
            set(
                "Root\\shell\\IntelliJ IDEA\\command",
                "",
                "\"C:\\Users\\me\\AppData\\Local\\Programs\\IntelliJ IDEA/bin\\idea64.exe\" \"%V\"",
                "Failed to set command for IntelliJ IDEA"
            ),
        ]
    );
}

#[test]
fn menu_items_keep_tool_order() {
    let ops = create_context_menu_item("Root", &[idea(), rider()]);
    let mut expected = vec![create("Root\\shell", Some("Root"))];
    expected.extend(item_ops("Root\\shell", &idea()));
    expected.extend(item_ops("Root\\shell", &rider()));
    assert_eq!(ops, expected);
}

#[test]
fn context_menu_builds_background_then_directory_menu() {
    let toolbox = "C:\\Toolbox\\bin\\jetbrains-toolbox.exe";
    let ops = create_context_menu(toolbox, &[rider()]);
    let mut expected = Vec::new();
    for root in [BACKGROUND, DIRECTORY] {
        expected.push(create(root, None));
        expected.push(set(root, "MUIVerb", "Open with JetBrains", "Failed to set MUIVerb value"));
        expected.push(set(root, "SubCommands", "", "Failed to set SubCommands value"));
        expected.push(set(
            root,
            "Icon",
            "\"C:\\Toolbox\\bin\\jetbrains-toolbox.exe\"",
            "Failed to set Icon value",
        ));
        let shell = format!("{}\\shell", root);
        expected.push(create(&shell, Some(root)));
        expected.extend(item_ops(&shell, &rider()));
    }
    assert_eq!(ops, expected);
    assert_eq!(ops.len(), 2 * (4 + 1 + 5));
}

#[test]
fn context_menu_without_tools() {
    let ops = create_context_menu("t.exe", &[]);
    assert_eq!(
        ops,
        vec![
            create(BACKGROUND, None),
            set(BACKGROUND, "MUIVerb", "Open with JetBrains", "Failed to set MUIVerb value"),
            set(BACKGROUND, "SubCommands", "", "Failed to set SubCommands value"),
            set(BACKGROUND, "Icon", "\"t.exe\"", "Failed to set Icon value"),
            create(&format!("{}\\shell", BACKGROUND), Some(BACKGROUND)),
            create(DIRECTORY, None),
            set(DIRECTORY, "MUIVerb", "Open with JetBrains", "Failed to set MUIVerb value"),
            set(DIRECTORY, "SubCommands", "", "Failed to set SubCommands value"),
            set(DIRECTORY, "Icon", "\"t.exe\"", "Failed to set Icon value"),
            create(&format!("{}\\shell", DIRECTORY), Some(DIRECTORY)),
        ]
    );
}

#[test]
fn self_entries_run_the_generator_quietly() {
    let ops = add_self_to_context_menu("C:\\Tools\\generator.exe");
    let scan = format!("{}\\shell\\scan", BACKGROUND);
    let uninstall = format!("{}\\shell\\uninstall", BACKGROUND);
    assert_eq!(
        ops,
        vec![
            create(&format!("{}\\command", scan), None),
            set(
                &format!("{}\\command", scan),
                "",
                "\"C:\\Tools\\generator.exe\" -q scan",
                "Failed to set scan command"
            ),
            create(&scan, None),
            set(&scan, "MUIVerb", "Refresh", "Failed to set Refresh MUIVerb"),
            set(&scan, "Icon", "\"C:\\Tools\\generator.exe\"", "Failed to set Refresh Icon"),
            create(&format!("{}\\command", uninstall), None),
            set(
                &format!("{}\\command", uninstall),
                "",
                "\"C:\\Tools\\generator.exe\" -q uninstall",
                "Failed to set uninstall command"
            ),
            create(&uninstall, None),
            set(&uninstall, "MUIVerb", "Uninstall", "Failed to set Uninstall MUIVerb"),
            set(&uninstall, "Icon", "\"C:\\Tools\\generator.exe\"", "Failed to set Uninstall Icon"),
        ]
    );
}

#[test]
fn removal_deletes_both_menus() {
    assert_eq!(remove_existing_context_menu(), vec![BACKGROUND.to_string(), DIRECTORY.to_string()]);
}

#[test]
fn removal_covers_every_written_key() {
    let keys = remove_existing_context_menu();
    let mut ops = create_context_menu("t.exe", &[idea(), rider()]);
    ops.extend(add_self_to_context_menu("g.exe"));
    for op in ops {
        let path = match op {
            RegistryOp::CreateKey { path, .. } => path,
            RegistryOp::SetValue { path, .. } => path,
        };
        assert!(keys.iter().any(|k| path == *k || path.starts_with(&format!("{}\\", k))), "{}", path);
    }
}

#[test]
fn every_tool_gets_a_command_in_both_menus() {
    let tools = [idea(), rider()];
    let ops = create_context_menu("t.exe", &tools);
    for tool in &tools {
        for root in [BACKGROUND, DIRECTORY] {
            let command = format!("{}\\shell\\{}\\command", root, tool.display_name);
            let data = format!("\"{}/{}\" \"%V\"", tool.install_location, tool.launch_command);
            let failure = format!("Failed to set command for {}", tool.display_name);
            assert!(ops.contains(&set(&command, "", &data, &failure)));
        }
    }
}

/// Carries out `ops` in a simulated registry where the keys in `failing` cannot
/// be created; returns the indices attempted.
/// Carries out `ops` as the library directs: the keys in `failing` cannot be
/// created, and the values of the keys in `failing_values` cannot be stored.
/// Returns the operations attempted and the failure that ended the list.
fn run(ops: &[RegistryOp], existing: &[&str], failing: &[&str], failing_values: &[&str]) -> (Vec<usize>, Option<String>) {
    let mut created: Vec<String> = existing.iter().map(|k| k.to_string()).collect();
    let mut attempted = Vec::new();
    let mut progress = start_registry_ops(ops, &created);
    loop {
        match progress {
            RegistryProgress::Attempt(i) => {
                attempted.push(i);
                let succeeded = match &ops[i] {
                    RegistryOp::CreateKey { path, .. } => !failing.contains(&path.as_str()),
                    RegistryOp::SetValue { path, .. } => !failing_values.contains(&path.as_str()),
                };
                progress = after_registry_op(ops, i, succeeded, &mut created);
            }
            RegistryProgress::Completed => return (attempted, None),
            RegistryProgress::Failed { failure } => return (attempted, Some(failure)),
        }
    }
}

fn simulate(ops: &[RegistryOp], existing: &[&str], failing: &[&str]) -> Vec<usize> {
    let (attempted, failure) = run(ops, existing, failing, &[]);
    assert_eq!(failure, None);
    attempted
}

#[test]
fn first_failed_value_ends_the_list() {
    let ops = create_context_menu("t.exe", &[rider()]);
    let (attempted, failure) = run(&ops, &[], &[], &[BACKGROUND]);
    // The background menu key is created, its first value fails, and nothing after it runs.
    assert_eq!(attempted, vec![0, 1]);
    assert_eq!(failure, Some("Failed to set MUIVerb value".to_string()));
}

#[test]
fn failed_tool_value_reports_the_tool() {
    let ops = create_context_menu_item("Root", &[rider(), idea()]);
    let (attempted, failure) = run(&ops, &["Root"], &[], &["Root\\shell\\Rider"]);
    assert_eq!(attempted, vec![0, 1, 2]);
    assert_eq!(failure, Some("Failed to set MUIVerb for Rider".to_string()));
}

#[test]
fn failed_self_command_value_stops_before_refresh_entry() {
    let ops = add_self_to_context_menu("g.exe");
    let scan_command = format!("{}\\shell\\scan\\command", BACKGROUND);
    let (attempted, failure) = run(&ops, &[], &[], &[scan_command.as_str()]);
    assert_eq!(attempted, vec![0, 1]);
    assert_eq!(failure, Some("Failed to set scan command".to_string()));
}

#[test]
fn every_operation_runs_when_nothing_fails() {
    let mut ops = create_context_menu("t.exe", &[idea(), rider()]);
    ops.extend(add_self_to_context_menu("g.exe"));
    let attempted = simulate(&ops, &[], &[]);
    assert_eq!(attempted, (0..ops.len()).collect::<Vec<_>>());
}

#[test]
fn failed_tool_key_still_writes_its_command() {
    let ops = create_context_menu_item("Root", &[rider()]);
    // Skipped: the label and icon of the entry whose key could not be made.
    assert_eq!(simulate(&ops, &["Root"], &["Root\\shell\\Rider"]), vec![0, 1, 4, 5]);
}

#[test]
fn failed_shell_key_skips_every_entry() {
    let ops = create_context_menu_item("Root", &[rider(), idea()]);
    assert_eq!(simulate(&ops, &["Root"], &["Root\\shell"]), vec![0]);
}

#[test]
fn failed_menu_key_skips_the_whole_menu() {
    let ops = create_context_menu("t.exe", &[rider()]);
    let attempted = simulate(&ops, &[], &[BACKGROUND]);
    assert_eq!(attempted, vec![0, 10, 11, 12, 13, 14, 15, 16, 17, 18, 19]);
}

#[test]
fn own_entries_are_independent() {
    let ops = add_self_to_context_menu("g.exe");
    let scan_command = format!("{}\\shell\\scan\\command", BACKGROUND);
    assert_eq!(simulate(&ops, &[], &[scan_command.as_str()]), vec![0, 2, 3, 4, 5, 6, 7, 8, 9]);
}

#[test]
fn next_attempt_from_the_end_is_none() {
    let ops = add_self_to_context_menu("g.exe");
    assert_eq!(next_attempt(&ops, ops.len(), &[]), None);
    assert_eq!(next_attempt(&ops, 1, &[]), Some(2));
}
