//! What the model sees at each call: system sections from pluggable providers, and messages that
//! are projected from the session log and fitted into the budget.
use vstd::prelude::*;

use crate::list::empty;
use crate::message::{ChatMessage, MessageView};
use crate::text::{join, joined};
use crate::workspace::Workspace;

pub mod budget;
pub mod conversation;
pub mod instructions;
pub mod skills;
pub mod workspace_info;

verus! {

/// The prompt of one request.
#[derive(Debug)]
pub struct PromptContext {
    pub system_sections: Vec<String>,
    pub messages: Vec<ChatMessage>,
}

#[verifier::ext_equal]
pub struct PromptView {
    pub system_sections: Seq<Seq<char>>,
    pub messages: Seq<MessageView>,
}

impl DeepView for PromptContext {
    type V = PromptView;

    open spec fn deep_view(&self) -> PromptView {
        PromptView {
            system_sections: self.system_sections.deep_view(),
            messages: self.messages.deep_view(),
        }
    }
}

impl Default for PromptContext {
    fn default() -> (p: PromptContext)
        ensures
            p.deep_view() == (PromptView { system_sections: seq![], messages: seq![] }),
    {
        PromptContext { system_sections: empty(), messages: empty() }
    }
}

/// The system text of a prompt: its sections with blank lines between them.
pub open spec fn system_of(prompt: PromptView) -> Seq<char> {
    joined(prompt.system_sections, "\n\n"@)
}

impl PromptContext {
    pub fn system_text(&self) -> (s: String)
        ensures
            s@ == system_of(self.deep_view()),
    {
        join(&self.system_sections, "\n\n")
    }
}

/// Something that adds to every prompt.
pub trait ContextProvider {
    fn name(&self) -> (s: &'static str);

    fn contribute(&self, prompt: &mut PromptContext, ws: &Workspace);
}

/// A prompt with one more system section.
pub open spec fn with_section(prompt: PromptView, section: Seq<char>) -> PromptView {
    PromptView { system_sections: prompt.system_sections.push(section), ..prompt }
}

} // verus!
