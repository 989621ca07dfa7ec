//! The rules of conduct: the first system section.
use vstd::prelude::*;

use crate::list::put;
use crate::workspace::Workspace;

use super::{with_section, ContextProvider, PromptContext};

verus! {

pub struct Instructions {
    text: String,
}

/// The rules where the configuration gives none.
pub open spec fn default_instructions() -> Seq<char> {
    "You are Onemore, a coding agent running in a terminal.\n\nGuidelines:\n- Use the provided tools to inspect and modify files and to run commands. Do not guess file contents: read before you edit.\n- edit_file does exact string replacement. Copy the original text verbatim (including indentation) from a previous read_file result.\n- Commands must be non-interactive. Never start commands that wait for input.\n- After changing code, verify it when possible (build / run tests).\n- Reply in the same language the user uses. Be concise; avoid dumping large file contents into your reply unless asked."@
}

impl Instructions {
    pub closed spec fn content(&self) -> Seq<char> {
        self.text@
    }

    pub fn new(override_text: Option<String>) -> (i: Instructions)
        ensures
            i.content() == (match override_text {
                Some(text) => text@,
                None => default_instructions(),
            }),
    {
        let text = match override_text {
            Some(text) => text,
            None =>
                "You are Onemore, a coding agent running in a terminal.\n\nGuidelines:\n- Use the provided tools to inspect and modify files and to run commands. Do not guess file contents: read before you edit.\n- edit_file does exact string replacement. Copy the original text verbatim (including indentation) from a previous read_file result.\n- Commands must be non-interactive. Never start commands that wait for input.\n- After changing code, verify it when possible (build / run tests).\n- Reply in the same language the user uses. Be concise; avoid dumping large file contents into your reply unless asked.".to_owned(),
        };
        Instructions { text }
    }
}

impl ContextProvider for Instructions {
    fn name(&self) -> (s: &'static str)
        ensures
            s@ == "instructions"@,
    {
        "instructions"
    }

    fn contribute(&self, prompt: &mut PromptContext, _ws: &Workspace)
        ensures
            final(prompt).deep_view() == with_section(old(prompt).deep_view(), self.content()),
    {
        put(&mut prompt.system_sections, self.text.clone());
    }
}

} // verus!
