use hive_node::llm::models::llama3_8b::Llama3_8b;
use hive_node::llm::models::model_core::config::{
    get_model_file_paths, get_model_max_seq_len, ModelConfig, ModelConfigPublic, ModelIdentifier,
    LLAMA_MAX_SEQ_LEN,
};
use hive_node::llm::traits::model::Model;
use hive_node::llm::traits::template::Template;
use hive_node::managers::errors::{error_message, ModelManagerError, ProtocolError};
use hive_node::managers::manager::State;
use hive_node::managers::model_manager::{ModelAction, ModelManager};
use hive_node::managers::protocol_manager::{
    handle_unreachable_model, ProtocolAction, ProtocolManager,
};
use hive_node::protocol::os_util::get_ollama_version;
use hive_node::ws::client::{recieve_message_form_server, send_error_to_server, ReceiveFailure};
use hive_node::ws::messages::message::{IncommingMessage, OutgoingMessage};
use hive_node::ws::messages::message_type::{
    IncommingMessageBody, IncommingMessageType, OutgoingMessageBody, OutgoingMessageType,
};
use hive_node::ws::messages::variants::bidirectional::error::ErrorMessage;
use hive_node::ws::messages::variants::bidirectional::success::SuccessMessage;
use hive_node::ws::messages::variants::incomming::load_models::{LoadModels, RequestModelConfig};
use hive_node::ws::messages::variants::incomming::submit_embed::SubmitEmbed;
use hive_node::ws::messages::variants::incomming::submit_prompt::SubmitPrompt;

fn success(task: &str) -> IncommingMessage {
    IncommingMessage {
        message_type: IncommingMessageType::Success,
        task_id: task.to_string(),
        body: IncommingMessageBody::Success(SuccessMessage { code: 200, message: "ok".to_string() }),
    }
}

fn load(task: &str, names: &[&str]) -> IncommingMessage {
    IncommingMessage {
        message_type: IncommingMessageType::LoadModels,
        task_id: task.to_string(),
        body: IncommingMessageBody::LoadModels(LoadModels {
            model: names
                .iter()
                .map(|n| RequestModelConfig { model_name: n.to_string(), device: 1, max_sample_len: 128 })
                .collect(),
        }),
    }
}

fn prompt(task: &str, model_id: &str) -> IncommingMessage {
    IncommingMessage {
        message_type: IncommingMessageType::SubmitPrompt,
        task_id: task.to_string(),
        body: IncommingMessageBody::SubmitPrompt(SubmitPrompt {
            stream: true,
            model_id: model_id.to_string(),
            system_mesage: "sys".to_string(),
            mode: "chat".to_string(),
            history: vec![],
            prompt: "hello".to_string(),
        }),
    }
}

fn embed(task: &str, model: &str) -> IncommingMessage {
    IncommingMessage {
        message_type: IncommingMessageType::SubmitEmbed,
        task_id: task.to_string(),
        body: IncommingMessageBody::SubmitEmbed(SubmitEmbed { model: model.to_string(), polling: "p".to_string(), data: "d".to_string() }),
    }
}

fn error_of(m: &OutgoingMessage) -> (String, u32, String) {
    assert_eq!(m.message_type, OutgoingMessageType::Error);
    match &m.body {
        OutgoingMessageBody::Error(e) => (m.task_id.clone(), e.code, e.message.clone()),
        other => panic!("expected an error, got {:?}", other),
    }
}

fn reply_error(a: &ProtocolAction) -> (String, u32, String) {
    match a {
        ProtocolAction::Reply(m) => error_of(m),
        other => panic!("expected a reply, got {:?}", other),
    }
}

fn ready() -> (ProtocolManager, String) {
    let mut pm = ProtocolManager::new();
    assert!(pm.start());
    assert!(pm.handle_incomming_message(success("t0")).is_empty());
    let actions = pm.handle_incomming_message(load("t1", &["llama3_8b"]));
    let id = match &actions[0] {
        ProtocolAction::Spawn(c) => c.id.clone(),
        other => panic!("expected a worker, got {:?}", other),
    };
    assert_eq!(*pm.get_state(), State::Ready);
    (pm, id)
}

#[test]
fn supervisor_follows_the_states() {
    let mut pm = ProtocolManager::new();
    assert_eq!(*pm.get_state(), State::Offline);
    assert!(pm.start());
    assert!(!pm.start());
    assert_eq!(*pm.get_state(), State::Unauthenticated);
    assert!(pm.handle_incomming_message(success("t0")).is_empty());
    assert_eq!(*pm.get_state(), State::Authenticated);
    let actions = pm.handle_incomming_message(load("t1", &["llama3_8b"]));
    assert_eq!(actions.len(), 1);
    assert_eq!(*pm.get_state(), State::Ready);
    assert!(pm.set_state(State::Offline));
    assert_eq!(*pm.get_state(), State::Offline);
}

#[test]
fn message_in_wrong_state_is_bad_request() {
    let mut pm = ProtocolManager::new();
    let a = pm.handle_incomming_message(success("t9"));
    assert_eq!(a.len(), 1);
    assert_eq!(reply_error(&a[0]), ("t9".to_string(), 300, "The node does not allow the request in this state: Offline".to_string()));
    pm.start();
    let a = pm.handle_incomming_message(load("t8", &["llama3_8b"]));
    assert_eq!(reply_error(&a[0]), ("t8".to_string(), 300, "The node does not allow the request in this state: Unauthenticated".to_string()));
    assert_eq!(*pm.get_state(), State::Unauthenticated);
    pm.handle_incomming_message(success("t0"));
    let a = pm.handle_incomming_message(prompt("t7", "x"));
    assert_eq!(reply_error(&a[0]), ("t7".to_string(), 300, "The node does not allow the request in this state: Authenticated".to_string()));
    let a = pm.handle_incomming_message(success("t6"));
    assert_eq!(reply_error(&a[0]).1, 300);
    assert_eq!(*pm.get_state(), State::Authenticated);
}

#[test]
fn envelope_whose_kind_and_body_differ_is_bad_request() {
    let (mut pm, id) = ready();
    let mut m = prompt("t5", &id);
    m.message_type = IncommingMessageType::Error;
    let a = pm.handle_incomming_message(m);
    assert_eq!(reply_error(&a[0]), ("t5".to_string(), 300, "The node does not allow the request in this state: Ready".to_string()));
}

#[test]
fn load_models_with_one_valid_and_one_invalid_model() {
    let mut pm = ProtocolManager::new();
    pm.start();
    pm.handle_incomming_message(success("t0"));
    let actions = pm.handle_incomming_message(load("task-42", &["llama3_8b", "gpt-17"]));
    assert_eq!(actions.len(), 2);
    let config = match &actions[0] {
        ProtocolAction::Spawn(c) => c,
        other => panic!("expected a worker, got {:?}", other),
    };
    assert_eq!(config.model_name, "llama3_8b");
    assert_eq!(config.request_packet_id, "task-42");
    assert_eq!(config.device, 1);
    assert_eq!(config.max_sample_len, 128);
    assert_eq!(config.max_seq_len, 4096);
    assert_eq!(config.id.len(), 36);
    assert_eq!(reply_error(&actions[1]), ("task-42".to_string(), 422, "Unknown model identifier: \"gpt-17\"".to_string()));
    assert_eq!(*pm.get_state(), State::Ready);
    assert!(pm.is_registered(&config.id));

    let mut actions = actions;
    let config = match actions.remove(0) {
        ProtocolAction::Spawn(c) => c,
        other => panic!("expected a worker, got {:?}", other),
    };
    let id = config.id.clone();
    let mut worker = ModelManager::try_from(config).unwrap();
    let ack = worker.start().unwrap();
    assert_eq!(ack.message_type, OutgoingMessageType::ResponseLoadModel);
    assert_eq!(ack.task_id, "task-42");
    match ack.body {
        OutgoingMessageBody::ResponseLoadModel(r) => {
            assert_eq!(r.handler_id, id);
            assert_eq!(r.config.model_name, "llama3_8b");
            assert_eq!(r.config.max_seq_len, 4096);
            assert_eq!(r.config.max_sample_len, 128);
        }
        other => panic!("expected an acknowledgment, got {:?}", other),
    }
}

#[test]
fn invalid_model_first_does_not_abort_the_rest() {
    let mut pm = ProtocolManager::new();
    pm.start();
    pm.handle_incomming_message(success("t0"));
    let actions = pm.handle_incomming_message(load("t", &["nope", "llama3_8b", "llama3_8b"]));
    assert_eq!(reply_error(&actions[0]).1, 422);
    assert!(matches!(actions[1], ProtocolAction::Spawn(_)));
    assert!(matches!(actions[2], ProtocolAction::Spawn(_)));
}

#[test]
fn load_of_nothing_loadable_leaves_state() {
    let mut pm = ProtocolManager::new();
    pm.start();
    pm.handle_incomming_message(success("t0"));
    let actions = pm.handle_incomming_message(load("t", &["nope"]));
    assert_eq!(actions.len(), 1);
    assert_eq!(*pm.get_state(), State::Authenticated);
    assert!(pm.handle_incomming_message(load("t", &[])).is_empty());
    assert_eq!(*pm.get_state(), State::Authenticated);
}

#[test]
fn fresh_ids_differ() {
    let (mut pm, first) = ready();
    let actions = pm.handle_incomming_message(load("t2", &["llama3_8b"]));
    match &actions[0] {
        ProtocolAction::Spawn(c) => assert_ne!(c.id, first),
        other => panic!("expected a worker, got {:?}", other),
    }
}

#[test]
fn prompt_is_routed_to_registered_model() {
    let (mut pm, id) = ready();
    let a = pm.handle_incomming_message(prompt("t3", &id));
    assert_eq!(a.len(), 1);
    match &a[0] {
        ProtocolAction::Forward { model_id, message } => {
            assert_eq!(*model_id, id);
            assert_eq!(message.task_id, "t3");
            assert_eq!(message.message_type, IncommingMessageType::SubmitPrompt);
        }
        other => panic!("expected a hand-over, got {:?}", other),
    }
    assert!(matches!(pm.handle_incomming_message(embed("t4", &id))[0], ProtocolAction::Forward { .. }));
}

#[test]
fn model_not_found_iff_absent_from_registry() {
    let (mut pm, id) = ready();
    let a = pm.handle_incomming_message(prompt("t3", "no-such-id"));
    assert_eq!(reply_error(&a[0]), ("t3".to_string(), 404, "Model identifier not found".to_string()));
    assert!(!pm.is_registered("no-such-id"));
    assert!(pm.is_registered(&id));
    assert_eq!(reply_error(&pm.handle_prompt_request(prompt("t5", ""))).1, 404);
    assert!(matches!(pm.handle_prompt_request(prompt("t6", &id)), ProtocolAction::Forward { .. }));
}

#[test]
fn unreachable_worker_is_reported() {
    let m = handle_unreachable_model(prompt("t3", "id"));
    assert_eq!(error_of(&m), ("t3".to_string(), 500, "Can't reach model".to_string()));
}

#[test]
fn rejection_names_state() {
    let pm = ProtocolManager::new();
    let m = pm.reject_incomming_message("t".to_string());
    assert_eq!(error_of(&m).2, "The node does not allow the request in this state: Offline");
}

fn config(name: &str) -> ModelConfig {
    ModelConfig {
        id: "worker-1".to_string(),
        model_name: name.to_string(),
        model_path: "m".to_string(),
        tokenizer_path: "t".to_string(),
        device: 0,
        max_seq_len: 4096,
        max_sample_len: 64,
        request_packet_id: "load-1".to_string(),
    }
}

#[test]
fn worker_is_not_ready_before_start() {
    let w = ModelManager::try_from(config("llama3_8b")).unwrap();
    assert_eq!(*w.get_state(), State::Offline);
    match w.handle_incomming_message(prompt("t1", "worker-1")) {
        ModelAction::Reply(m) => assert_eq!(error_of(&m), ("t1".to_string(), 500, "Model is not ready for action.".to_string())),
        other => panic!("expected a reply, got {:?}", other),
    }
}

#[test]
fn worker_for_unknown_model_cannot_be_made() {
    assert_eq!(ModelManager::try_from(config("bert")).err(), Some("Unknown model identifier: \"bert\"".to_string()));
}

#[test]
fn worker_acknowledges_once_and_takes_prompts() {
    let mut w = ModelManager::try_from(config("llama3_8b")).unwrap();
    assert_eq!(w.get_id(), "worker-1");
    assert_eq!(w.get_loaded_config().max_sample_len, 64);
    assert!(w.start().is_some());
    assert!(w.start().is_none());
    assert_eq!(*w.get_state(), State::Ready);
    match w.handle_incomming_message(prompt("t1", "worker-1")) {
        ModelAction::Prompt { task_id, body } => {
            assert_eq!(task_id, "t1");
            assert_eq!(body.prompt, "hello");
        }
        other => panic!("expected a prompt, got {:?}", other),
    }
}

#[test]
fn embed_on_language_model_is_invalid_action() {
    let mut w = ModelManager::try_from(config("llama3_8b")).unwrap();
    w.start();
    match w.handle_incomming_message(embed("t2", "worker-1")) {
        ModelAction::Reply(m) => assert_eq!(error_of(&m), ("t2".to_string(), 300, "This action is not avalible for the chosen model".to_string())),
        other => panic!("expected a reply, got {:?}", other),
    }
}

#[test]
fn worker_turns_other_envelopes_down() {
    let mut w = ModelManager::try_from(config("llama3_8b")).unwrap();
    w.start();
    match w.handle_incomming_message(success("t3")) {
        ModelAction::Reply(m) => assert_eq!(error_of(&m), ("t3".to_string(), 300, "The model manager does not allow the request in this state: Ready".to_string())),
        other => panic!("expected a reply, got {:?}", other),
    }
    let mut m = prompt("t4", "worker-1");
    m.message_type = IncommingMessageType::SubmitEmbed;
    match w.handle_incomming_message(m) {
        ModelAction::Reply(m) => assert_eq!(error_of(&m).1, 300),
        other => panic!("expected a reply, got {:?}", other),
    }
    assert!(w.set_state(State::Offline));
    assert_eq!(*w.get_state(), State::Offline);
}

#[test]
fn model_kinds_take_what_they_can() {
    let language = Model::try_from(&config("llama3_8b")).unwrap();
    assert_eq!(language, Model::LanguageModel(Llama3_8b { max_seq_len: 4096, max_sample_len: 64 }));
    assert!(language.prompt(prompt("t", "x")).is_ok());
    assert!(matches!(language.embed(embed("t5", "x")), Err(ModelManagerError::InvalidModelAction(t)) if t == "t5"));
    assert!(matches!(language.prompt(embed("t6", "x")), Err(ModelManagerError::InvalidModelAction(t)) if t == "t6"));
    let embedding = Model::EmbeddingModel;
    assert!(embedding.embed(embed("t", "x")).is_ok());
    assert!(matches!(embedding.prompt(prompt("t7", "x")), Err(ModelManagerError::InvalidModelAction(t)) if t == "t7"));
    assert!(Model::try_from(&config("x")).is_err());
}

#[test]
fn errors_become_envelopes_with_their_task() {
    assert_eq!(error_of(&ProtocolError::BadRequest("why".to_string(), "a".to_string()).into_message()), ("a".to_string(), 300, "why".to_string()));
    assert_eq!(error_of(&ProtocolError::UnableToLoadModel("bad".to_string(), "b".to_string()).into_message()), ("b".to_string(), 422, "bad".to_string()));
    assert_eq!(error_of(&ProtocolError::ModelNotFound("c".to_string()).into_message()), ("c".to_string(), 404, "Model identifier not found".to_string()));
    assert_eq!(error_of(&ProtocolError::CantReachModel("d".to_string()).into_message()), ("d".to_string(), 500, "Can't reach model".to_string()));
    assert_eq!(error_of(&ModelManagerError::ModelNotReady("e".to_string()).into_message()), ("e".to_string(), 500, "Model is not ready for action.".to_string()));
    assert_eq!(
        error_of(&ModelManagerError::InvalidModelAction("f".to_string()).into_message()),
        ("f".to_string(), 300, "This action is not avalible for the chosen model".to_string())
    );
    assert_eq!(error_of(&error_message("g".to_string(), 7, "m".to_string())), ("g".to_string(), 7, "m".to_string()));
}

#[test]
fn errors_in_words() {
    assert_eq!(ProtocolError::BadRequest("why".to_string(), "a".to_string()).to_string(), "[TASK: a] Bad request: why");
    assert_eq!(ProtocolError::UnableToLoadModel("bad".to_string(), "b".to_string()).to_string(), "[TASK: b] Unable to load model: bad");
    assert_eq!(ProtocolError::ModelNotFound("c".to_string()).to_string(), "[TASK: c] Model identifier not found");
    assert_eq!(ProtocolError::CantReachModel("d".to_string()).to_string(), "[TASK: d] Can't reach model");
    assert_eq!(ModelManagerError::ModelNotReady("e".to_string()).to_string(), "[TASK: e] Model is not ready for action.");
    assert_eq!(ModelManagerError::InvalidModelAction("f".to_string()).to_string(), "[TASK: f] This action is not available for the chosen model.");
}

#[test]
fn state_names() {
    assert_eq!(State::Offline.name(), "Offline");
    assert_eq!(State::Unauthenticated.name(), "Unauthenticated");
    assert_eq!(State::Authenticated.name(), "Authenticated");
    assert_eq!(State::Ready.name(), "Ready");
}

#[test]
fn model_identifier_and_paths() {
    assert_eq!(ModelIdentifier::try_from(&"llama3_8b".to_string()), Ok(ModelIdentifier::Llama3_8b));
    assert_eq!(ModelIdentifier::try_from(&"Llama3_8b".to_string()), Err("Unknown model identifier: \"Llama3_8b\"".to_string()));
    let (weights, tokenizer) = get_model_file_paths(&ModelIdentifier::Llama3_8b);
    assert_eq!(weights, "./resources/llama3-8b/Meta-Llama-3-8B-Instruct.Q5_K_M.gguf");
    assert_eq!(tokenizer, "./resources/llama3-8b/tokenizer.json");
    assert_eq!(get_model_max_seq_len(&ModelIdentifier::Llama3_8b), 4096);
    assert_eq!(LLAMA_MAX_SEQ_LEN, 4096);
}

#[test]
fn model_config_for_request() {
    let settings = RequestModelConfig { model_name: "llama3_8b".to_string(), device: 2, max_sample_len: 77 };
    let c = ModelConfig::with_id(settings, "task".to_string(), "the-id".to_string()).unwrap();
    assert_eq!(c.id, "the-id");
    assert_eq!(c.model_name, "llama3_8b");
    assert_eq!(c.model_path, "./resources/llama3-8b/Meta-Llama-3-8B-Instruct.Q5_K_M.gguf");
    assert_eq!(c.tokenizer_path, "./resources/llama3-8b/tokenizer.json");
    assert_eq!((c.device, c.max_seq_len, c.max_sample_len), (2, 4096, 77));
    assert_eq!(c.request_packet_id, "task");
    let public = ModelConfigPublic::from(&c);
    assert_eq!(public.model_name, "llama3_8b");
    assert_eq!((public.max_seq_len, public.max_sample_len), (4096, 77));
    let bad = RequestModelConfig { model_name: "x".to_string(), device: 0, max_sample_len: 1 };
    assert_eq!(ModelConfig::try_from(bad, "t".to_string()).err(), Some("Unknown model identifier: \"x\"".to_string()));
    let good = RequestModelConfig { model_name: "llama3_8b".to_string(), device: 0, max_sample_len: 1 };
    let a = ModelConfig::try_from(good, "t".to_string()).unwrap();
    assert_eq!(a.id.len(), 36);
    assert_eq!(a.id.chars().filter(|c| *c == '-').count(), 4);
}

#[test]
fn llama_template() {
    let m = Llama3_8b::try_from(&config("llama3_8b"));
    assert_eq!(m.get_max_sequence_len(), 4096);
    assert_eq!(m.get_max_sample_len(), 64);
    assert_eq!(m.get_model_name(), "Llama3_8b");
    assert_eq!(m.get_eos(), "<|eot_id|>");
    assert_eq!(
        m.prompt_template(&"be kind".to_string(), &"hi".to_string()),
        "<|begin_of_text|><|start_header_id|>system<|end_header_id|>\n\nbe kind<|eot_id|><|start_header_id|>user<|end_header_id|>\n\nhi<|eot_id|><|start_header_id|>assistant<|end_header_id|>\n\n"
    );
}

#[test]
fn installed_backend_version() {
    assert_eq!(get_ollama_version(Some("ollama version is 0.6.8\n")), "0.6.8");
    assert_eq!(get_ollama_version(Some("0.1.0")), "0.1.0");
    assert_eq!(get_ollama_version(Some("  ")), "");
    assert_eq!(get_ollama_version(Some("a  b ")), "b");
    assert_eq!(get_ollama_version(None), "Unknown");
}

#[test]
fn client_errors_go_under_task_zero() {
    assert_eq!(error_of(&send_error_to_server(3, "m".to_string())), ("0".to_string(), 3, "m".to_string()));
    assert_eq!(error_of(&recieve_message_form_server(ReceiveFailure::NotText)), ("0".to_string(), 0, "Can't parse message type".to_string()));
    assert_eq!(
        error_of(&recieve_message_form_server(ReceiveFailure::Parse("eof".to_string()))),
        ("0".to_string(), 0, "Failed while parsing message: eof".to_string())
    );
    assert_eq!(
        error_of(&recieve_message_form_server(ReceiveFailure::Forward("closed".to_string()))),
        ("0".to_string(), 0, "Failed passing message to protocol: closed".to_string())
    );
}

#[test]
fn envelope_kind_matches_body() {
    assert!(success("t").is_well_formed());
    let mut m = success("t");
    m.message_type = IncommingMessageType::LoadModels;
    assert!(!m.is_well_formed());
    let e = IncommingMessage {
        message_type: IncommingMessageType::Error,
        task_id: "t".to_string(),
        body: IncommingMessageBody::Error(ErrorMessage { code: 1, message: "m".to_string() }),
    };
    assert!(e.is_well_formed());
    assert_eq!(e.body.message_type(), IncommingMessageType::Error);
}
