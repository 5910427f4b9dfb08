use toolbox_context_menu::toolbox_state::{Tool, ToolboxState};

#[test]
fn tool_keeps_its_fields() {
    let tool = Tool::new("CLion".to_string(), "C:\\CLion".to_string(), "bin\\clion64.exe".to_string());
    assert_eq!(tool.display_name, "CLion");
    assert_eq!(tool.install_location, "C:\\CLion");
    assert_eq!(tool.launch_command, "bin\\clion64.exe");
    let state = ToolboxState { tools: vec![tool.clone()] };
    assert_eq!(state.tools, vec![tool]);
}
