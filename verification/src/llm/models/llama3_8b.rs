//! Llama 3 with eight billion parameters: its limits and its prompt
//! template.

use crate::llm::models::model_core::config::ModelConfig;
use crate::llm::traits::template::Template;
use crate::text::{push_str, string_from_chars};
use vstd::prelude::*;

verus! {

/// The limits of a loaded Llama 3 model.
#[derive(Clone, Copy, Debug, PartialEq, Eq, Structural)]
pub struct Llama3_8b {
    pub max_seq_len: usize,
    pub max_sample_len: usize,
}

/// The prompt of Llama 3 for a system message and a user message.
pub open spec fn llama3_prompt(system_msg: Seq<char>, user_message: Seq<char>) -> Seq<char> {
    "<|begin_of_text|><|start_header_id|>system<|end_header_id|>\n\n"@ + system_msg
        + "<|eot_id|><|start_header_id|>user<|end_header_id|>\n\n"@ + user_message
        + "<|eot_id|><|start_header_id|>assistant<|end_header_id|>\n\n"@
}

impl Llama3_8b {
    /// The model of a configuration.
    pub fn try_from(config: &ModelConfig) -> (model: Llama3_8b)
        ensures
            model.max_seq_len == config.max_seq_len,
            model.max_sample_len == config.max_sample_len,
    {
        Llama3_8b { max_seq_len: config.max_seq_len, max_sample_len: config.max_sample_len }
    }

    /// Tokens generated for one prompt, at most.
    pub fn get_max_sample_len(&self) -> (len: usize)
        ensures
            len == self.max_sample_len,
    {
        self.max_sample_len
    }

    /// Tokens that the model's context holds.
    pub fn get_max_sequence_len(&self) -> (len: usize)
        ensures
            len == self.max_seq_len,
    {
        self.max_seq_len
    }

    /// The name of the model.
    pub fn get_model_name(&self) -> (name: String)
        ensures
            name@ == "Llama3_8b"@,
    {
        "Llama3_8b".to_owned()
    }
}

impl Template for Llama3_8b {
    fn prompt_template(&self, system_msg: &String, user_message: &String) -> (prompt: String)
        ensures
            prompt@ == llama3_prompt(system_msg@, user_message@),
    {
        let mut out: Vec<char> = Vec::new();
        push_str(&mut out, "<|begin_of_text|><|start_header_id|>system<|end_header_id|>\n\n");
        push_str(&mut out, system_msg.as_str());
        push_str(&mut out, "<|eot_id|><|start_header_id|>user<|end_header_id|>\n\n");
        push_str(&mut out, user_message.as_str());
        push_str(&mut out, "<|eot_id|><|start_header_id|>assistant<|end_header_id|>\n\n");
        assert(out@ =~= llama3_prompt(system_msg@, user_message@));
        string_from_chars(&out)
    }

    fn get_eos(&self) -> (eos: String)
        ensures
            eos@ == "<|eot_id|>"@,
    {
        "<|eot_id|>".to_owned()
    }
}

} // verus!
