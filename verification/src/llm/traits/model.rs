//! The kinds of models and what each can be asked.

use crate::llm::models::llama3_8b::Llama3_8b;
use crate::llm::models::model_core::config::{ModelConfig, ModelIdentifier};
use crate::llm::traits::inferance::{
    generation_start, Generation, GenerationSettings, GenerationView, GenerationWork,
    GenerationWorkView,
};
use crate::llm::traits::template::Template;
use crate::llm::traits::tokenize::encode_ids;
use crate::managers::errors::ModelManagerError;
use crate::ws::messages::message::IncommingMessage;
use crate::ws::messages::message_type::IncommingMessageBody;
use crate::ws::messages::variants::incomming::submit_embed::SubmitEmbed;
use crate::ws::messages::variants::incomming::submit_prompt::SubmitPrompt;
use vstd::prelude::*;

verus! {

/// A loaded model: one that embeds texts, or one that answers prompts.
#[derive(Clone, Copy, Debug, PartialEq, Eq, Structural)]
pub enum Model {
    EmbeddingModel,
    LanguageModel(Llama3_8b),
}

impl Model {
    /// The model of a configuration, or what is wrong with its name.
    pub fn try_from(model_config: &ModelConfig) -> (model: Result<Model, String>)
        ensures
            model_config.model_name@ == "llama3_8b"@ ==> model == Ok::<Model, String>(
                Model::LanguageModel(
                    Llama3_8b {
                        max_seq_len: model_config.max_seq_len,
                        max_sample_len: model_config.max_sample_len,
                    },
                ),
            ),
            model_config.model_name@ != "llama3_8b"@ ==> model is Err && model->Err_0@
                == "Unknown model identifier: \""@ + model_config.model_name@ + "\""@,
    {
        match ModelIdentifier::try_from(&model_config.model_name) {
            Ok(ModelIdentifier::Llama3_8b) => Ok(
                Model::LanguageModel(Llama3_8b::try_from(model_config)),
            ),
            Err(e) => Err(e),
        }
    }

    /// Takes a prompt for the model: the job and its prompt, where the
    /// model answers prompts and the envelope holds one; `InvalidModelAction`
    /// under the envelope's task otherwise.
    pub fn prompt(&self, message: IncommingMessage) -> (job: Result<
        (String, SubmitPrompt),
        ModelManagerError,
    >)
        ensures
            match (*self, message.body) {
                (Model::LanguageModel(_), IncommingMessageBody::SubmitPrompt(b)) => job == Ok::<
                    (String, SubmitPrompt),
                    ModelManagerError,
                >((message.task_id, b)),
                _ => job == Err::<(String, SubmitPrompt), ModelManagerError>(
                    ModelManagerError::InvalidModelAction(message.task_id),
                ),
            },
    {
        match (self, message.body) {
            (Model::LanguageModel(_), IncommingMessageBody::SubmitPrompt(b)) => Ok(
                (message.task_id, b),
            ),
            _ => Err(ModelManagerError::InvalidModelAction(message.task_id)),
        }
    }

    /// Takes a text to embed with the model: the job and its text, where
    /// the model embeds texts and the envelope holds one;
    /// `InvalidModelAction` under the envelope's task otherwise.
    pub fn embed(&self, message: IncommingMessage) -> (job: Result<
        (String, SubmitEmbed),
        ModelManagerError,
    >)
        ensures
            match (*self, message.body) {
                (Model::EmbeddingModel, IncommingMessageBody::SubmitEmbed(b)) => job == Ok::<
                    (String, SubmitEmbed),
                    ModelManagerError,
                >((message.task_id, b)),
                _ => job == Err::<(String, SubmitEmbed), ModelManagerError>(
                    ModelManagerError::InvalidModelAction(message.task_id),
                ),
            },
    {
        match (self, message.body) {
            (Model::EmbeddingModel, IncommingMessageBody::SubmitEmbed(b)) => Ok(
                (message.task_id, b),
            ),
            _ => Err(ModelManagerError::InvalidModelAction(message.task_id)),
        }
    }
}

/// What a call to begin a generation gave, as a mathematical value.
pub open spec fn begun_view(begun: Result<(Generation, GenerationWork), String>) -> Result<
    (GenerationView, GenerationWorkView),
    Seq<char>,
> {
    match begun {
        Ok((g, work)) => Ok((g@, work@)),
        Err(e) => Err(e@),
    }
}

/// What the tokenizer gave, as a mathematical value.
pub open spec fn encoded_view(encoded: Result<Vec<u32>, String>) -> Result<Seq<u32>, Seq<char>> {
    match encoded {
        Ok(tokens) => Ok(tokens@),
        Err(e) => Err(e@),
    }
}

/// The generation begun for what the tokenizer gave: for tokens, the
/// generation of those tokens with its first work; for an error, that
/// error and no generation.
pub open spec fn prompt_generation(
    settings: GenerationSettings,
    encoded: Result<Seq<u32>, Seq<char>>,
) -> Result<(GenerationView, GenerationWorkView), Seq<char>> {
    match encoded {
        Ok(tokens) => Ok(generation_start(settings, tokens)),
        Err(e) => Err(e),
    }
}

/// Begins the generation for what the tokenizer gave: the tokens of a
/// prompt, or its error, which comes back as it stands.
pub fn begin_generation(settings: GenerationSettings, encoded: Result<Vec<u32>, String>) -> (begun:
    Result<(Generation, GenerationWork), String>)
    ensures
        begun_view(begun) == prompt_generation(settings, encoded_view(encoded)),
        begun matches Ok((g, _)) ==> g@.wf(),
{
    match encoded {
        Ok(tokens) => {
            let (g, work) = Generation::start(settings, &tokens);
            Ok((g, work))
        },
        Err(e) => Err(e),
    }
}

/// Begins the answer to a prompt: the prompt is laid out by the model's
/// template and handed to the tokenizer, and the generation is begun for
/// what the tokenizer gives, as `begin_generation` begins it. Whether the
/// tokenizer gives tokens, and which, lies with the tokenizer.
pub fn language_prompt(
    model: &Llama3_8b,
    tokenizer: &tokenizers::Tokenizer,
    settings: GenerationSettings,
    task: &SubmitPrompt,
) -> (begun: Result<(Generation, GenerationWork), String>)
    ensures
        exists|encoded: Result<Seq<u32>, Seq<char>>|
            begun_view(begun) == #[trigger] prompt_generation(settings, encoded),
        begun matches Ok((g, _)) ==> g@.wf(),
{
    let prompt = model.prompt_template(&task.system_mesage, &task.prompt);
    let encoded = encode_ids(tokenizer, prompt);
    let ghost given = encoded_view(encoded);
    let begun = begin_generation(settings, encoded);
    assert(begun_view(begun) == prompt_generation(settings, given));
    begun
}

} // verus!
