use std::collections::BTreeMap;
use toolbox_context_menu::registry::{
    add_self_to_context_menu, create_context_menu, create_context_menu_item, remove_existing_context_menu,
    RegistryOp,
};
use toolbox_context_menu::toolbox_state::Tool;

type Registry = BTreeMap<String, BTreeMap<String, String>>;

/// Names compared as Windows compares them, without regard to (ASCII) case.
fn fold(s: &str) -> String {
    s.to_ascii_lowercase()
}

/// Makes the key `path` and every key above it, as creating a key does.
fn make_keys(reg: &mut Registry, path: &str) {
    for (i, c) in path.char_indices() {
        if c == '\\' {
            reg.entry(fold(&path[..i])).or_default();
        }
    }
    reg.entry(fold(path)).or_default();
}

fn apply(reg: &mut Registry, ops: &[RegistryOp]) {
    for op in ops {
        match op {
            RegistryOp::CreateKey { path, .. } => make_keys(reg, path),
            RegistryOp::SetValue { path, name, data, .. } => {
                make_keys(reg, path);
                reg.get_mut(&fold(path)).unwrap().insert(fold(name), data.clone());
            }
        }
    }
}

fn remove(reg: &mut Registry, keys: &[String]) {
    reg.retain(|k, _| !keys.iter().any(|r| *k == fold(r) || k.starts_with(&fold(&format!("{}\\", r)))));
}

fn tools() -> Vec<Tool> {
    vec![
        Tool::new("PyCharm".to_string(), "C:\\PyCharm".to_string(), "bin\\pycharm64.exe".to_string()),
        Tool::new("WebStorm".to_string(), "C:\\WebStorm".to_string(), "bin\\webstorm64.exe".to_string()),
    ]
}

fn scan_once(reg: &mut Registry) {
    remove(reg, &remove_existing_context_menu());
    apply(reg, &create_context_menu("C:\\Toolbox\\jetbrains-toolbox.exe", &tools()));
    apply(reg, &add_self_to_context_menu("C:\\gen.exe"));
}

fn sample_registry() -> Registry {
    let mut reg = Registry::new();
    make_keys(&mut reg, "Software\\Other");
    reg.get_mut(&fold("Software\\Other")).unwrap().insert("x".to_string(), "1".to_string());
    make_keys(&mut reg, "Software\\Classes\\Directory\\shell\\JetBrainsToolbox\\shell\\Old");
    reg
}

#[test]
fn scanning_twice_equals_scanning_once() {
    let mut once = sample_registry();
    scan_once(&mut once);
    let mut twice = once.clone();
    scan_once(&mut twice);
    assert_eq!(once, twice);
    assert!(!once.contains_key(&fold("Software\\Classes\\Directory\\shell\\JetBrainsToolbox\\shell\\Old")));
    assert!(once.contains_key(&fold("Software\\Other")));
    // The keys above the menus, made by the first scan, stay.
    assert!(once.contains_key(&fold("Software\\Classes\\Directory\\Background\\shell")));
}

#[test]
fn removing_twice_equals_removing_once() {
    let mut reg = sample_registry();
    scan_once(&mut reg);
    remove(&mut reg, &remove_existing_context_menu());
    let after_once = reg.clone();
    remove(&mut reg, &remove_existing_context_menu());
    assert_eq!(reg, after_once);
    assert!(!reg.keys().any(|k| k.contains("jetbrainstoolbox")));
    assert!(reg.contains_key(&fold("Software\\Other")));
}

#[test]
fn adding_own_entries_twice_equals_once() {
    let mut reg = Registry::new();
    apply(&mut reg, &add_self_to_context_menu("C:\\gen.exe"));
    let once = reg.clone();
    apply(&mut reg, &add_self_to_context_menu("C:\\gen.exe"));
    assert_eq!(reg, once);
}

#[test]
fn menu_items_of_concatenated_tools() {
    let all = tools();
    let mut together = Registry::new();
    apply(&mut together, &create_context_menu_item("Root", &all));
    let mut apart = Registry::new();
    apply(&mut apart, &create_context_menu_item("Root", &all[..1]));
    apply(&mut apart, &create_context_menu_item("Root", &all[1..]));
    assert_eq!(together, apart);
}

#[test]
fn tools_differing_only_in_case_share_one_entry() {
    let tools = vec![
        Tool::new("Rider".to_string(), "C:\\A".to_string(), "a.exe".to_string()),
        Tool::new("RIDER".to_string(), "C:\\B".to_string(), "b.exe".to_string()),
    ];
    let mut reg = Registry::new();
    apply(&mut reg, &create_context_menu_item("Root", &tools));
    let entries: Vec<&String> = reg.keys().filter(|k| k.starts_with("root\\shell\\") && !k.ends_with("command")).collect();
    assert_eq!(entries, vec![&fold("Root\\shell\\Rider")]);
    // The later tool's values replace the earlier one's.
    assert_eq!(reg[&fold("Root\\shell\\Rider")]["muiverb"], "RIDER");
}

#[test]
fn uninstalling_after_a_scan_equals_uninstalling_before() {
    let mut before = sample_registry();
    make_keys(&mut before, "Software\\Classes\\Directory\\Background\\shell");
    let mut scanned = before.clone();
    scan_once(&mut scanned);
    remove(&mut scanned, &remove_existing_context_menu());
    remove(&mut before, &remove_existing_context_menu());
    assert_eq!(scanned, before);
}
