//! The skills that can be loaded, as a section of the system text.
use std::sync::Arc;

use vstd::prelude::*;

use crate::context::{with_section, ContextProvider, PromptContext};
use crate::list::put;
use crate::skills::{catalog_text, SkillCatalog};
use crate::workspace::Workspace;

verus! {

#[derive(Debug)]
pub struct SkillsContext {
    pub catalog: Arc<SkillCatalog>,
}

impl SkillsContext {
    pub fn new(catalog: Arc<SkillCatalog>) -> (c: SkillsContext)
        ensures
            c.catalog == catalog,
    {
        SkillsContext { catalog }
    }
}

impl ContextProvider for SkillsContext {
    fn name(&self) -> (s: &'static str)
        ensures
            s@ == "skills"@,
    {
        "skills"
    }

    fn contribute(&self, prompt: &mut PromptContext, ws: &Workspace)
        ensures
            ({
                let text = catalog_text(self.catalog.deep_view().ordered);
                final(prompt).deep_view() == (if text.len() == 0 {
                    old(prompt).deep_view()
                } else {
                    with_section(old(prompt).deep_view(), text)
                })
            }),
    {
        let rendered = self.catalog.render_prompt();
        if rendered.as_str().unicode_len() > 0 {
            put(&mut prompt.system_sections, rendered);
        }
    }
}

} // verus!
