use hive_node::config::{
    NO_PENALTY, REPEAT_LAST_N, REPEAT_PENALTY, SAMPLE_LEN, SEED, SPLIT_PROMPT, TEMPERATURE, TOP_K,
    TOP_P,
};
use hive_node::llm::traits::inferance::{
    copy_range, send_response, send_token, setup_sampling, truncate_prompt, Generation,
    GenerationEvent, GenerationSettings, GenerationStep, GenerationWork, Sampling,
};
use hive_node::ws::messages::message_type::{OutgoingMessageBody, OutgoingMessageType};
use hive_node::ws::messages::variants::incomming::submit_prompt::SubmitPrompt;

fn settings(max_sample_len: usize, max_sequence_len: usize, penalty: u32) -> GenerationSettings {
    GenerationSettings {
        max_sample_len,
        max_sequence_len,
        eos_token: 99,
        repeat_penalty: penalty,
        repeat_last_n: 2,
        split_prompt: false,
    }
}

fn forward(work: &GenerationWork) -> (Vec<u32>, usize, Option<Vec<u32>>) {
    match work {
        GenerationWork::Forward { input, position, penalty } => (input.clone(), *position, penalty.clone()),
        other => panic!("expected a run of the model, got {:?}", other),
    }
}

fn sampled(g: &mut Generation, token: u32) -> GenerationStep {
    let step = g.step(GenerationEvent::Sampled(token));
    assert!(step.emit.is_none());
    match step.work {
        GenerationWork::Decode(t) => assert_eq!(t, token),
        ref other => panic!("expected a decode, got {:?}", other),
    }
    step
}

#[test]
fn constants() {
    assert_eq!(SEED, 42);
    assert_eq!(TEMPERATURE, 400);
    assert_eq!(SAMPLE_LEN, 1000);
    assert_eq!(TOP_K, None);
    assert_eq!(TOP_P, None);
    assert!(!SPLIT_PROMPT);
    assert_eq!(REPEAT_PENALTY, 1100);
    assert_eq!(REPEAT_LAST_N, 64);
    assert_eq!(NO_PENALTY, 1000);
}

#[test]
fn sampling_is_greedy_at_zero_or_below() {
    assert_eq!(setup_sampling(0, Some(5), Some(900)), Sampling::ArgMax);
    assert_eq!(setup_sampling(-1, None, None), Sampling::ArgMax);
}

#[test]
fn sampling_follows_limits() {
    assert_eq!(setup_sampling(400, None, None), Sampling::All { temperature: 400 });
    assert_eq!(setup_sampling(400, Some(5), None), Sampling::TopK { k: 5, temperature: 400 });
    assert_eq!(setup_sampling(400, None, Some(900)), Sampling::TopP { p: 900, temperature: 400 });
    assert_eq!(setup_sampling(400, Some(5), Some(900)), Sampling::TopKThenTopP { k: 5, p: 900, temperature: 400 });
    assert_eq!(setup_sampling(TEMPERATURE, TOP_K, TOP_P), Sampling::All { temperature: 400 });
}

#[test]
fn prompt_that_fits_is_kept_whole() {
    assert_eq!(truncate_prompt(&vec![1, 2, 3], 5, 8), vec![1, 2, 3]);
    assert_eq!(truncate_prompt(&vec![], 5, 8), Vec::<u32>::new());
}

#[test]
fn prompt_is_truncated_from_the_front() {
    assert_eq!(truncate_prompt(&vec![1, 2, 3, 4, 5, 6], 5, 8), vec![4, 5, 6]);
    assert_eq!(truncate_prompt(&vec![1, 2, 3, 4, 5, 6], 7, 8), vec![6]);
}

#[test]
fn truncated_prompt_never_exceeds_context() {
    let prompt: Vec<u32> = (0..100).collect();
    for to_sample in [0usize, 1, 10, 49, 50, 51, 1000] {
        let kept = truncate_prompt(&prompt, to_sample, 50);
        assert!(kept.len() <= 50);
        assert_eq!(kept[..], prompt[prompt.len() - kept.len()..]);
        if to_sample <= 50 {
            assert_eq!(kept.len() + to_sample, 50);
        } else {
            assert!(kept.is_empty());
        }
    }
}

#[test]
fn budget_that_fills_context_leaves_no_prompt() {
    assert_eq!(truncate_prompt(&vec![1, 2, 3], 8, 8), Vec::<u32>::new());
    assert_eq!(truncate_prompt(&vec![1, 2, 3], usize::MAX, 8), Vec::<u32>::new());
}

#[test]
fn copy_range_copies() {
    assert_eq!(copy_range(&vec![5, 6, 7, 8], 1, 3), vec![6, 7]);
}

#[test]
fn generation_streams_fragments_and_ends_at_budget() {
    let (mut g, work) = Generation::start(settings(3, 16, 1100), &vec![10, 11, 12]);
    assert_eq!(forward(&work), (vec![10, 11, 12], 0, None));
    sampled(&mut g, 20);
    let step = g.step(GenerationEvent::Decoded(Some("Hel".to_string())));
    assert_eq!(step.emit, Some("Hel".to_string()));
    assert_eq!(forward(&step.work), (vec![20], 3, Some(vec![20])));
    sampled(&mut g, 21);
    let step = g.step(GenerationEvent::Decoded(None));
    assert_eq!(step.emit, None);
    assert_eq!(forward(&step.work), (vec![21], 4, Some(vec![20, 21])));
    sampled(&mut g, 22);
    let step = g.step(GenerationEvent::Decoded(Some("lo".to_string())));
    assert_eq!(step.emit, Some("lo".to_string()));
    match step.work {
        GenerationWork::Finish(text) => assert_eq!(text, "Hello"),
        other => panic!("expected the end, got {:?}", other),
    }
}

#[test]
fn penalty_looks_at_last_tokens_only() {
    let (mut g, _) = Generation::start(settings(10, 64, 1100), &vec![1]);
    sampled(&mut g, 5);
    let mut step = g.step(GenerationEvent::Decoded(None));
    for t in [6u32, 7, 8] {
        sampled(&mut g, t);
        step = g.step(GenerationEvent::Decoded(None));
    }
    assert_eq!(forward(&step.work), (vec![8], 4, Some(vec![7, 8])));
}

#[test]
fn unit_penalty_asks_for_no_penalty() {
    let (mut g, _) = Generation::start(settings(5, 64, 1000), &vec![1, 2]);
    sampled(&mut g, 5);
    let step = g.step(GenerationEvent::Decoded(Some("a".to_string())));
    assert_eq!(forward(&step.work), (vec![5], 2, None));
    sampled(&mut g, 6);
    let step = g.step(GenerationEvent::Decoded(Some("b".to_string())));
    assert_eq!(forward(&step.work), (vec![6], 3, None));
}

#[test]
fn generation_stops_at_end_of_sequence() {
    let (mut g, _) = Generation::start(settings(100, 256, 1000), &vec![1, 2]);
    sampled(&mut g, 5);
    g.step(GenerationEvent::Decoded(Some("x".to_string())));
    sampled(&mut g, 99);
    let step = g.step(GenerationEvent::Decoded(Some("".to_string())));
    assert_eq!(step.emit, None);
    match step.work {
        GenerationWork::Finish(text) => assert_eq!(text, "x"),
        other => panic!("expected the end, got {:?}", other),
    }
}

#[test]
fn first_token_does_not_end_the_sequence() {
    let (mut g, _) = Generation::start(settings(100, 256, 1000), &vec![1, 2]);
    sampled(&mut g, 99);
    let step = g.step(GenerationEvent::Decoded(None));
    assert_eq!(forward(&step.work), (vec![99], 2, None));
}

#[test]
fn budget_of_one_yields_one_token() {
    let (mut g, _) = Generation::start(settings(1, 16, 1100), &vec![1]);
    sampled(&mut g, 5);
    let step = g.step(GenerationEvent::Decoded(Some("only".to_string())));
    assert_eq!(step.emit, Some("only".to_string()));
    match step.work {
        GenerationWork::Finish(text) => assert_eq!(text, "only"),
        other => panic!("expected the end, got {:?}", other),
    }
}

#[test]
fn long_prompt_is_cut_before_the_first_run() {
    let prompt: Vec<u32> = (0..20).collect();
    let (_, work) = Generation::start(settings(5, 10, 1100), &prompt);
    assert_eq!(forward(&work), ((14..20).collect(), 0, None));
}

#[test]
fn split_prompt_is_fed_token_by_token() {
    let mut s = settings(2, 16, 1000);
    s.split_prompt = true;
    let (mut g, work) = Generation::start(s, &vec![7, 8, 9]);
    assert_eq!(forward(&work), (vec![7], 0, None));
    let step = g.step(GenerationEvent::Sampled(1));
    assert_eq!(forward(&step.work), (vec![8], 1, None));
    let step = g.step(GenerationEvent::Sampled(2));
    assert_eq!(forward(&step.work), (vec![9], 2, None));
    sampled(&mut g, 3);
    let step = g.step(GenerationEvent::Decoded(Some("z".to_string())));
    assert_eq!(forward(&step.work), (vec![3], 3, None));
}

#[test]
fn empty_split_prompt_starts_with_token_zero() {
    let mut s = settings(2, 16, 1000);
    s.split_prompt = true;
    let (_, work) = Generation::start(s, &vec![]);
    match work {
        GenerationWork::Decode(t) => assert_eq!(t, 0),
        other => panic!("expected a decode, got {:?}", other),
    }
}

#[test]
fn failure_and_answers_out_of_turn_abort() {
    let (mut g, _) = Generation::start(settings(5, 16, 1000), &vec![1]);
    let step = g.step(GenerationEvent::Failed);
    assert!(matches!(step.work, GenerationWork::Abort));
    let step = g.step(GenerationEvent::Sampled(1));
    assert!(matches!(step.work, GenerationWork::Abort));
    let (mut g, _) = Generation::start(settings(5, 16, 1000), &vec![1]);
    let step = g.step(GenerationEvent::Decoded(None));
    assert!(matches!(step.work, GenerationWork::Abort));
}

#[test]
fn same_answers_give_same_generation() {
    let run = || {
        let (mut g, _) = Generation::start(settings(4, 16, 1100), &vec![1, 2, 3]);
        let mut out = Vec::new();
        for (t, f) in [(5u32, "a"), (6, "b"), (7, "c"), (8, "d")] {
            g.step(GenerationEvent::Sampled(t));
            let step = g.step(GenerationEvent::Decoded(Some(f.to_string())));
            out.push(format!("{:?}", step));
        }
        out
    };
    assert_eq!(run(), run());
}

#[test]
fn token_envelope() {
    let m = send_token("t1".to_string(), "Llama3_8b".to_string(), "Hi".to_string());
    assert_eq!(m.message_type, OutgoingMessageType::ResponsePromptToken);
    assert_eq!(m.task_id, "t1");
    match m.body {
        OutgoingMessageBody::ResponsePromptToken(b) => {
            assert_eq!(b.model, "Llama3_8b");
            assert_eq!(b.token, "Hi");
        }
        other => panic!("wrong body {:?}", other),
    }
}

#[test]
fn response_envelope_echoes_request() {
    let task = SubmitPrompt {
        stream: true,
        model_id: "id".to_string(),
        system_mesage: "be brief".to_string(),
        mode: "chat".to_string(),
        history: vec![],
        prompt: "hello".to_string(),
    };
    let m = send_response("t2".to_string(), "Llama3_8b".to_string(), task, "world".to_string());
    assert_eq!(m.message_type, OutgoingMessageType::ResponsePrompt);
    assert_eq!(m.task_id, "t2");
    match m.body {
        OutgoingMessageBody::ResponsePrompt(b) => {
            assert_eq!(b.model, "Llama3_8b");
            assert_eq!(b.system_mesage, "be brief");
            assert_eq!(b.mode, "chat");
            assert_eq!(b.response, "world");
            assert_eq!((b.tokenizer_time, b.inference_time, b.tokens_processed, b.tokens_generated), (0, 0, 0, 0));
        }
        other => panic!("wrong body {:?}", other),
    }
}
