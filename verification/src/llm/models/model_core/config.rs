//! The configuration of a loaded model.

use crate::text::{push_str, same_text, string_from_chars};
use crate::ws::messages::variants::incomming::load_models::RequestModelConfig;
use vstd::prelude::*;

verus! {

/// Tokens that the context of a Llama 3 model holds.
pub const LLAMA_MAX_SEQ_LEN: usize = 4096;

/// The configuration of a loaded model. It never changes once made.
#[derive(Debug)]
pub struct ModelConfig {
    /// The identifier of the model's worker.
    pub id: String,
    pub model_name: String,
    pub model_path: String,
    pub tokenizer_path: String,
    /// The device wished for.
    pub device: usize,
    pub max_seq_len: usize,
    pub max_sample_len: usize,
    /// The task that asked for the model.
    pub request_packet_id: String,
}

/// What of a configuration is told to the hub: no paths.
#[derive(Debug)]
pub struct ModelConfigPublic {
    pub model_name: String,
    pub max_seq_len: usize,
    pub max_sample_len: usize,
}

/// The models that a node can load.
#[derive(Clone, Copy, Debug, PartialEq, Eq, Structural)]
pub enum ModelIdentifier {
    Llama3_8b,
}

/// A fresh identifier from `uuid::Uuid::new_v4`, as text. It is random:
/// nothing is claimed of it.
#[verifier::external_body]
fn fresh_id() -> String {
    uuid::Uuid::new_v4().to_string()
}

impl ModelIdentifier {
    /// The model of a name, or what is wrong with the name. The one name
    /// known is `llama3_8b`.
    pub fn try_from(name: &String) -> (model: Result<ModelIdentifier, String>)
        ensures
            name@ == "llama3_8b"@ ==> model == Ok::<ModelIdentifier, String>(
                ModelIdentifier::Llama3_8b,
            ),
            name@ != "llama3_8b"@ ==> model is Err && model->Err_0@
                == "Unknown model identifier: \""@ + name@ + "\""@,
    {
        if same_text(name.as_str(), "llama3_8b") {
            Ok(ModelIdentifier::Llama3_8b)
        } else {
            let mut out: Vec<char> = Vec::new();
            push_str(&mut out, "Unknown model identifier: \"");
            push_str(&mut out, name.as_str());
            push_str(&mut out, "\"");
            assert(out@ =~= "Unknown model identifier: \""@ + name@ + "\""@);
            Err(string_from_chars(&out))
        }
    }
}

impl ModelConfigPublic {
    /// The public part of a configuration.
    pub fn from(conf: &ModelConfig) -> (public: ModelConfigPublic)
        ensures
            public.model_name@ == conf.model_name@,
            public.max_seq_len == conf.max_seq_len,
            public.max_sample_len == conf.max_sample_len,
    {
        ModelConfigPublic {
            model_name: conf.model_name.clone(),
            max_seq_len: conf.max_seq_len,
            max_sample_len: conf.max_sample_len,
        }
    }
}

/// Where the weights and the tokenizer of a model lie.
pub fn get_model_file_paths(model: &ModelIdentifier) -> (paths: (String, String))
    ensures
        paths.0@ == "./resources/llama3-8b/Meta-Llama-3-8B-Instruct.Q5_K_M.gguf"@,
        paths.1@ == "./resources/llama3-8b/tokenizer.json"@,
{
    match model {
        ModelIdentifier::Llama3_8b => (
            "./resources/llama3-8b/Meta-Llama-3-8B-Instruct.Q5_K_M.gguf".to_owned(),
            "./resources/llama3-8b/tokenizer.json".to_owned(),
        ),
    }
}

/// Tokens that the context of a model holds.
pub fn get_model_max_seq_len(model: &ModelIdentifier) -> (len: usize)
    ensures
        len == LLAMA_MAX_SEQ_LEN,
{
    match model {
        ModelIdentifier::Llama3_8b => LLAMA_MAX_SEQ_LEN,
    }
}

impl ModelConfig {
    /// Whether this is the configuration made for `settings`, asked for by
    /// the task `task_id`, under the identifier `id`.
    pub open spec fn made_for(&self, settings: RequestModelConfig, task_id: Seq<char>, id: Seq<char>) -> bool {
        &&& self.id@ == id
        &&& self.model_name@ == settings.model_name@
        &&& self.model_path@ == "./resources/llama3-8b/Meta-Llama-3-8B-Instruct.Q5_K_M.gguf"@
        &&& self.tokenizer_path@ == "./resources/llama3-8b/tokenizer.json"@
        &&& self.device == settings.device
        &&& self.max_seq_len == LLAMA_MAX_SEQ_LEN
        &&& self.max_sample_len == settings.max_sample_len
        &&& self.request_packet_id@ == task_id
    }

    /// The configuration for a model to load, under the identifier `id`, or
    /// what is wrong with the model's name.
    pub fn with_id(settings: RequestModelConfig, task_id: String, id: String) -> (config: Result<
        ModelConfig,
        String,
    >)
        ensures
            settings.model_name@ == "llama3_8b"@ ==> config is Ok && config->Ok_0.made_for(
                settings,
                task_id@,
                id@,
            ),
            settings.model_name@ != "llama3_8b"@ ==> config is Err && config->Err_0@
                == "Unknown model identifier: \""@ + settings.model_name@ + "\""@,
    {
        let model = match ModelIdentifier::try_from(&settings.model_name) {
            Ok(m) => m,
            Err(e) => {
                return Err(e);
            },
        };
        let (model_path, tokenizer_path) = get_model_file_paths(&model);
        let max_seq_len = get_model_max_seq_len(&model);
        Ok(
            ModelConfig {
                id,
                model_name: settings.model_name,
                model_path,
                tokenizer_path,
                device: settings.device,
                max_seq_len,
                max_sample_len: settings.max_sample_len,
                request_packet_id: task_id,
            },
        )
    }

    /// The configuration for a model to load, under a fresh identifier, or
    /// what is wrong with the model's name.
    pub fn try_from(settings: RequestModelConfig, task_id: String) -> (config: Result<
        ModelConfig,
        String,
    >)
        ensures
            settings.model_name@ == "llama3_8b"@ ==> config is Ok && config->Ok_0.made_for(
                settings,
                task_id@,
                config->Ok_0.id@,
            ),
            settings.model_name@ != "llama3_8b"@ ==> config is Err && config->Err_0@
                == "Unknown model identifier: \""@ + settings.model_name@ + "\""@,
    {
        ModelConfig::with_id(settings, task_id, fresh_id())
    }
}

} // verus!
