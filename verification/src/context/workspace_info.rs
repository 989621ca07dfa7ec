//! Where the agent stands: its directory, system and shell.
use vstd::prelude::*;

use crate::list::put;
use crate::text::concat3;
use crate::tools::run_command::Shell;
use crate::workspace::Workspace;

use super::{with_section, ContextProvider, PromptContext};

verus! {

pub struct WorkspaceInfo {
    shell_label: &'static str,
    os: String,
}

/// The section on the environment.
pub open spec fn environment_text(root: Seq<char>, os: Seq<char>, shell: Seq<char>) -> Seq<char> {
    "Environment:\n- Working directory: "@ + root + "\n- OS: "@ + os
        + "\n- Shell for run_command: "@ + shell
}

impl WorkspaceInfo {
    pub closed spec fn parts(&self) -> (Seq<char>, Seq<char>) {
        (self.shell_label@, self.os@)
    }

    /// `os` is the name of the operating system.
    pub fn new(shell: &Shell, os: String) -> (w: WorkspaceInfo)
        ensures
            w.parts() == (shell.label_text(), os@),
    {
        WorkspaceInfo { shell_label: shell.label(), os }
    }
}

impl ContextProvider for WorkspaceInfo {
    fn name(&self) -> (s: &'static str)
        ensures
            s@ == "workspace_info"@,
    {
        "workspace_info"
    }

    fn contribute(&self, prompt: &mut PromptContext, ws: &Workspace)
        ensures
            final(prompt).deep_view() == with_section(
                old(prompt).deep_view(),
                environment_text(ws@, self.parts().1, self.parts().0),
            ),
    {
        let mut section = concat3(
            "Environment:\n- Working directory: ",
            ws.root(),
            "\n- OS: ",
        );
        section.push_str(self.os.as_str());
        section.push_str("\n- Shell for run_command: ");
        section.push_str(self.shell_label);
        put(&mut prompt.system_sections, section);
    }
}

} // verus!
