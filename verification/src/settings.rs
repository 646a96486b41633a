use vstd::prelude::*;
use vstd::string::StringExecFns;

verus! {

/// Configuration fixed at the turn boundary, plus the working system prompt.
///
/// `system_prompt` starts out as the configured prompt and may be extended
/// (`update`) or replaced (`mutate`) while a turn is composed; `reset`
/// restores it from `initial_system_prompt`.  The remaining fields never
/// change during a turn.
#[derive(Debug, Clone)]
pub struct ContentSettings {
    pub initial_system_prompt: String,
    pub system_prompt: String,
    pub post_prompt: String,
    pub error_mesg: String,
    pub no_answer_mesg: String,
    pub collection_name: String,
}

impl ContentSettings {
    pub fn new(
        initial_system_prompt: String,
        system_prompt: String,
        post_prompt: String,
        error_mesg: String,
        no_answer_mesg: String,
        collection_name: String,
    ) -> (r: Self)
        ensures
            r.initial_system_prompt == initial_system_prompt,
            r.system_prompt == system_prompt,
            r.post_prompt == post_prompt,
            r.error_mesg == error_mesg,
            r.no_answer_mesg == no_answer_mesg,
            r.collection_name == collection_name,
    {
        Self {
            initial_system_prompt,
            system_prompt,
            post_prompt,
            error_mesg,
            no_answer_mesg,
            collection_name,
        }
    }

    /// Replace the working system prompt outright.
    pub fn mutate(&mut self, new_prompt: String)
        ensures
            final(self).system_prompt == new_prompt,
            final(self).initial_system_prompt == old(self).initial_system_prompt,
            final(self).post_prompt == old(self).post_prompt,
            final(self).error_mesg == old(self).error_mesg,
            final(self).no_answer_mesg == old(self).no_answer_mesg,
            final(self).collection_name == old(self).collection_name,
    {
        self.system_prompt = new_prompt;
    }

    /// Append to the working system prompt.
    pub fn update(&mut self, new_content: String)
        ensures
            final(self).system_prompt@ == old(self).system_prompt@ + new_content@,
            final(self).initial_system_prompt == old(self).initial_system_prompt,
            final(self).post_prompt == old(self).post_prompt,
            final(self).error_mesg == old(self).error_mesg,
            final(self).no_answer_mesg == old(self).no_answer_mesg,
            final(self).collection_name == old(self).collection_name,
    {
        let s = self.system_prompt.clone();
        self.system_prompt = s.concat(new_content.as_str());
    }

    /// Restore the working system prompt from the configured initial prompt.
    pub fn reset(&mut self)
        ensures
            final(self).system_prompt == old(self).initial_system_prompt,
            final(self).initial_system_prompt == old(self).initial_system_prompt,
            final(self).post_prompt == old(self).post_prompt,
            final(self).error_mesg == old(self).error_mesg,
            final(self).no_answer_mesg == old(self).no_answer_mesg,
            final(self).collection_name == old(self).collection_name,
    {
        self.system_prompt = self.initial_system_prompt.clone();
    }

    pub fn post_prompt(&self) -> (r: &str)
        ensures
            r@ == self.post_prompt@,
    {
        self.post_prompt.as_str()
    }

    pub fn error_mesg(&self) -> (r: &str)
        ensures
            r@ == self.error_mesg@,
    {
        self.error_mesg.as_str()
    }

    pub fn no_answer_mesg(&self) -> (r: &str)
        ensures
            r@ == self.no_answer_mesg@,
    {
        self.no_answer_mesg.as_str()
    }

    pub fn collection_name(&self) -> (r: &str)
        ensures
            r@ == self.collection_name@,
    {
        self.collection_name.as_str()
    }
}

} // verus!
