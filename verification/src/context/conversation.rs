//! The history as a provider of messages.
use vstd::prelude::*;

use crate::list::{empty, extend, put};
use crate::message::{copy_messages, ChatMessage, MessageView};
use crate::workspace::Workspace;

use super::{ContextProvider, PromptContext, PromptView};

verus! {

pub struct Conversation {
    messages: Vec<ChatMessage>,
}

impl DeepView for Conversation {
    type V = Seq<MessageView>;

    closed spec fn deep_view(&self) -> Seq<MessageView> {
        self.messages.deep_view()
    }
}

impl Conversation {
    pub fn new() -> (c: Conversation)
        ensures
            c.deep_view() == Seq::<MessageView>::empty(),
    {
        Conversation { messages: empty() }
    }

    pub fn push(&mut self, m: ChatMessage)
        ensures
            final(self).deep_view() == old(self).deep_view().push(m.deep_view()),
    {
        put(&mut self.messages, m);
    }

    pub fn from_messages(messages: Vec<ChatMessage>) -> (c: Conversation)
        ensures
            c.deep_view() == messages.deep_view(),
    {
        Conversation { messages }
    }

    pub fn clear(&mut self)
        ensures
            final(self).deep_view() == Seq::<MessageView>::empty(),
    {
        self.messages = empty();
    }

    pub fn len(&self) -> (n: usize)
        ensures
            n == self.deep_view().len(),
    {
        self.messages.len()
    }

    pub fn is_empty(&self) -> (r: bool)
        ensures
            r == (self.deep_view().len() == 0),
    {
        self.messages.len() == 0
    }
}

impl ContextProvider for Conversation {
    fn name(&self) -> (s: &'static str)
        ensures
            s@ == "conversation"@,
    {
        "conversation"
    }

    fn contribute(&self, prompt: &mut PromptContext, _ws: &Workspace)
        ensures
            final(prompt).deep_view() == (PromptView {
                messages: old(prompt).deep_view().messages + self.deep_view(),
                ..old(prompt).deep_view()
            }),
    {
        extend(&mut prompt.messages, copy_messages(&self.messages));
    }
}

} // verus!
