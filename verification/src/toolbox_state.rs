use vstd::prelude::*;

verus! {

/// One tool installed by JetBrains Toolbox, as listed in its `state.json`.
#[derive(Clone, Debug, PartialEq, Eq)]
pub struct Tool {
    /// The name shown to the user, such as "IntelliJ IDEA Ultimate".
    pub display_name: String,
    /// The directory the tool is installed in.
    pub install_location: String,
    /// The launcher, relative to `install_location`.
    pub launch_command: String,
}

/// The part of Toolbox's `state.json` that the generator reads.
#[derive(Clone, Debug, PartialEq, Eq)]
pub struct ToolboxState {
    pub tools: Vec<Tool>,
}

impl Tool {
    /// Builds a tool from its three fields.
    pub fn new(display_name: String, install_location: String, launch_command: String) -> (tool: Tool)
        ensures
            tool.display_name == display_name,
            tool.install_location == install_location,
            tool.launch_command == launch_command,
    {
        Tool { display_name, install_location, launch_command }
    }
}

} // verus!
