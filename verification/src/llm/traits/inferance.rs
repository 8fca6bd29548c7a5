//! Sequence generation: how much of the prompt is kept, how tokens are
//! sampled, and which work is asked of the model step by step.

use crate::config::NO_PENALTY;
use crate::text::{chars_of, push_chars, string_from_chars};
use crate::ws::messages::message::{OutgoingMessage, OutgoingMessageView};
use crate::ws::messages::message_type::{OutgoingBodyView, OutgoingMessageBody, OutgoingMessageType};
use crate::ws::messages::variants::incomming::submit_prompt::SubmitPrompt;
use crate::ws::messages::variants::outgoing::response_prompt::ResponsePrompt;
use crate::ws::messages::variants::outgoing::response_prompt_token::ResponsePromptToken;
use vstd::prelude::*;

verus! {

/// How the next token is picked from the model's output.
#[derive(Clone, Copy, Debug, PartialEq, Eq, Structural)]
pub enum Sampling {
    /// The most likely token.
    ArgMax,
    /// Any token, at the given temperature.
    All { temperature: i64 },
    /// One of the `k` most likely tokens.
    TopK { k: usize, temperature: i64 },
    /// One of the most likely tokens whose probabilities add up to `p`.
    TopP { p: i64, temperature: i64 },
    /// One of the `k` most likely tokens, then limited to `p`.
    TopKThenTopP { k: usize, p: i64, temperature: i64 },
}

/// The sampling strategy for a temperature and the two optional limits, all
/// fractions in thousandths: a temperature of zero or below always picks the
/// most likely token.
pub open spec fn sampling_for(temperature: i64, top_k: Option<usize>, top_p: Option<i64>) -> Sampling {
    if temperature <= 0 {
        Sampling::ArgMax
    } else {
        match (top_k, top_p) {
            (None, None) => Sampling::All { temperature },
            (Some(k), None) => Sampling::TopK { k, temperature },
            (None, Some(p)) => Sampling::TopP { p, temperature },
            (Some(k), Some(p)) => Sampling::TopKThenTopP { k, p, temperature },
        }
    }
}

/// Chooses the sampling strategy.
pub fn setup_sampling(temperature: i64, top_k: Option<usize>, top_p: Option<i64>) -> (sampling:
    Sampling)
    ensures
        sampling == sampling_for(temperature, top_k, top_p),
        temperature <= 0 ==> sampling == Sampling::ArgMax,
{
    if temperature <= 0 {
        Sampling::ArgMax
    } else {
        match (top_k, top_p) {
            (None, None) => Sampling::All { temperature },
            (Some(k), None) => Sampling::TopK { k, temperature },
            (None, Some(p)) => Sampling::TopP { p, temperature },
            (Some(k), Some(p)) => Sampling::TopKThenTopP { k, p, temperature },
        }
    }
}

/// At a temperature of zero or below the strategy is the same whatever the
/// limits: the most likely token, which needs no random number.
pub proof fn lemma_greedy_sampling(
    temperature: i64,
    top_k: Option<usize>,
    top_p: Option<i64>,
    other_k: Option<usize>,
    other_p: Option<i64>,
)
    requires
        temperature <= 0,
    ensures
        sampling_for(temperature, top_k, top_p) == Sampling::ArgMax,
        sampling_for(temperature, top_k, top_p) == sampling_for(temperature, other_k, other_p),
{
}

/// Number of tokens at the front of a prompt of `len` tokens that must go so
/// that what is left and `to_sample` further tokens fit in `max_seq`.
pub open spec fn dropped(len: nat, to_sample: nat, max_seq: nat) -> nat {
    if len + to_sample <= max_seq {
        0
    } else if to_sample >= max_seq {
        len
    } else {
        (len + to_sample - max_seq) as nat
    }
}

/// The part of the prompt that is kept: its end.
pub open spec fn kept_prompt(prompt: Seq<u32>, to_sample: nat, max_seq: nat) -> Seq<u32> {
    prompt.skip(dropped(prompt.len(), to_sample, max_seq) as int)
}

/// A copy of `v[from..to]`.
pub fn copy_range(v: &Vec<u32>, from: usize, to: usize) -> (out: Vec<u32>)
    requires
        from <= to <= v.len(),
    ensures
        out@ == v@.subrange(from as int, to as int),
{
    let mut out: Vec<u32> = Vec::new();
    let mut i: usize = from;
    while i < to
        invariant
            from <= i <= to <= v.len(),
            out@ == v@.subrange(from as int, i as int),
        decreases to - i,
    {
        out.push(v[i]);
        assert(out@ =~= v@.subrange(from as int, i + 1));
        i += 1;
    }
    out
}

/// Cuts a prompt down, from the front, so that it and the tokens still to be
/// sampled fit the model's context.
///
/// The result is always an end of the prompt. It is the whole prompt when
/// that fits; otherwise it is as long as the context allows beside the
/// sample budget, and empty when the budget alone fills the context.
pub fn truncate_prompt(prompt_tokens: &Vec<u32>, to_sample: usize, max_sequence_len: usize) -> (kept:
    Vec<u32>)
    ensures
        kept@ == kept_prompt(prompt_tokens@, to_sample as nat, max_sequence_len as nat),
        kept.len() <= prompt_tokens.len(),
        kept@ == prompt_tokens@.skip(prompt_tokens.len() - kept.len()),
        kept.len() <= max_sequence_len,
        to_sample <= max_sequence_len ==> kept.len() + to_sample <= max_sequence_len,
        prompt_tokens.len() + to_sample <= max_sequence_len ==> kept@ == prompt_tokens@,
{
    let len = prompt_tokens.len();
    let drop: usize = if to_sample >= max_sequence_len {
        len
    } else {
        let room: usize = max_sequence_len - to_sample;
        if len <= room {
            0
        } else {
            len - room
        }
    };
    let kept = copy_range(prompt_tokens, drop, len);
    proof {
        assert(prompt_tokens@.subrange(drop as int, len as int) =~= prompt_tokens@.skip(drop as int));
        assert(prompt_tokens@.skip(0) =~= prompt_tokens@);
    }
    kept
}


/// The limits and switches of one generation.
#[derive(Clone, Copy, Debug, PartialEq, Eq, Structural)]
pub struct GenerationSettings {
    /// Tokens generated for one prompt, at most.
    pub max_sample_len: usize,
    /// Tokens that the model's context holds.
    pub max_sequence_len: usize,
    /// The token that ends a sequence.
    pub eos_token: u32,
    /// Factor of the repetition penalty, in thousandths.
    pub repeat_penalty: u32,
    /// Number of most recent tokens that the repetition penalty looks at.
    pub repeat_last_n: usize,
    /// Whether the prompt is fed to the model one token at a time.
    pub split_prompt: bool,
}

impl GenerationSettings {
    /// Number of tokens sampled after the first one, at most.
    pub open spec fn to_sample(&self) -> nat {
        if self.max_sample_len == 0 {
            0
        } else {
            (self.max_sample_len - 1) as nat
        }
    }
}

/// Where a generation stands.
#[derive(Clone, Copy, Debug, PartialEq, Eq, Structural)]
pub enum GenerationPhase {
    /// The model works on the prompt.
    Prompting,
    /// The first token is being decoded.
    FirstDecoding,
    /// The model works on the next token.
    Sampling,
    /// A further token is being decoded.
    Decoding,
    /// Nothing is left to do.
    Finished,
}

/// A generation in progress.
#[derive(Debug)]
pub struct Generation {
    settings: GenerationSettings,
    phase: GenerationPhase,
    prompt: Vec<u32>,
    fed: usize,
    all_tokens: Vec<u32>,
    text: Vec<char>,
    index: usize,
}

/// A generation as a mathematical value.
pub struct GenerationView {
    pub settings: GenerationSettings,
    pub phase: GenerationPhase,
    /// The prompt as the model sees it.
    pub prompt: Seq<u32>,
    /// Number of prompt tokens passed on so far, when the prompt is split.
    pub fed: nat,
    /// The tokens generated so far.
    pub all_tokens: Seq<u32>,
    /// The text decoded so far.
    pub text: Seq<char>,
    /// Number of tokens generated after the first one.
    pub index: nat,
}

/// What the model or the decoder answered.
#[derive(Debug)]
pub enum GenerationEvent {
    /// The model ran and this token was sampled from its output.
    Sampled(u32),
    /// The last token was decoded; `None` while the decoder holds text back.
    Decoded(Option<String>),
    /// The model or the decoder failed.
    Failed,
}

/// What the model or the decoder answered, as a mathematical value.
pub enum GenerationEventView {
    Sampled(u32),
    Decoded(Option<Seq<char>>),
    Failed,
}

impl View for GenerationEvent {
    type V = GenerationEventView;

    open spec fn view(&self) -> GenerationEventView {
        match self {
            GenerationEvent::Sampled(t) => GenerationEventView::Sampled(*t),
            GenerationEvent::Decoded(Some(s)) => GenerationEventView::Decoded(Some(s@)),
            GenerationEvent::Decoded(None) => GenerationEventView::Decoded(None),
            GenerationEvent::Failed => GenerationEventView::Failed,
        }
    }
}

/// The work asked of the model or the decoder.
#[derive(Debug)]
pub enum GenerationWork {
    /// Run the model over `input`, whose first token stands at `position`;
    /// where `penalty` holds tokens, penalize their repetition in the
    /// output; then sample one token.
    Forward { input: Vec<u32>, position: usize, penalty: Option<Vec<u32>> },
    /// Decode this token after the ones decoded before.
    Decode(u32),
    /// The generation is complete and this is its text.
    Finish(String),
    /// The generation ends without a text.
    Abort,
}

/// The work asked of the model or the decoder, as a mathematical value.
pub enum GenerationWorkView {
    Forward { input: Seq<u32>, position: nat, penalty: Option<Seq<u32>> },
    Decode(u32),
    Finish(Seq<char>),
    Abort,
}

impl View for GenerationWork {
    type V = GenerationWorkView;

    open spec fn view(&self) -> GenerationWorkView {
        match self {
            GenerationWork::Forward { input, position, penalty } => GenerationWorkView::Forward {
                input: input@,
                position: *position as nat,
                penalty: match penalty {
                    Some(p) => Some(p@),
                    None => None,
                },
            },
            GenerationWork::Decode(t) => GenerationWorkView::Decode(*t),
            GenerationWork::Finish(s) => GenerationWorkView::Finish(s@),
            GenerationWork::Abort => GenerationWorkView::Abort,
        }
    }
}

/// One step of a generation: the fragment to stream at once, if any, and the
/// work to do next.
#[derive(Debug)]
pub struct GenerationStep {
    pub emit: Option<String>,
    pub work: GenerationWork,
}

/// One step of a generation, as a mathematical value.
pub struct GenerationStepView {
    pub emit: Option<Seq<char>>,
    pub work: GenerationWorkView,
}

impl View for GenerationStep {
    type V = GenerationStepView;

    open spec fn view(&self) -> GenerationStepView {
        GenerationStepView {
            emit: match self.emit {
                Some(s) => Some(s@),
                None => None,
            },
            work: self.work@,
        }
    }
}

/// The tokens whose repetition is penalized: none at the factor that changes
/// nothing, else the `last_n` most recent ones.
pub open spec fn penalty_context(tokens: Seq<u32>, factor: u32, last_n: nat) -> Option<Seq<u32>> {
    if factor == NO_PENALTY {
        None
    } else if tokens.len() <= last_n {
        Some(tokens)
    } else {
        Some(tokens.skip(tokens.len() - last_n))
    }
}

/// The fragment that a decoded token adds to the text: nothing while the
/// decoder holds text back or gives an empty text.
pub open spec fn fragment(decoded: Option<Seq<char>>) -> Option<Seq<char>> {
    match decoded {
        Some(s) => if s.len() > 0 {
            Some(s)
        } else {
            None
        },
        None => None,
    }
}

/// `text` with the fragment, if any, behind it.
pub open spec fn with_fragment(text: Seq<char>, decoded: Option<Seq<char>>) -> Seq<char> {
    match fragment(decoded) {
        Some(s) => text + s,
        None => text,
    }
}

/// The end of a generation without a text.
pub open spec fn aborted(g: GenerationView) -> (GenerationView, GenerationStepView) {
    (
        GenerationView { phase: GenerationPhase::Finished, ..g },
        GenerationStepView { emit: None, work: GenerationWorkView::Abort },
    )
}

/// The run of the model over the last token generated.
pub open spec fn forward_last(g: GenerationView) -> GenerationWorkView {
    GenerationWorkView::Forward {
        input: seq![g.all_tokens.last()],
        position: g.prompt.len() + g.index,
        penalty: penalty_context(
            g.all_tokens,
            g.settings.repeat_penalty,
            g.settings.repeat_last_n as nat,
        ),
    }
}

/// The generation for a prompt and the first work it asks for.
///
/// The prompt is cut down from the front to fit the context. The model then
/// runs over all of it at once, or, where the prompt is split, over its
/// first token; a split prompt that is empty yields the token `0` without a
/// run.
pub open spec fn generation_start(settings: GenerationSettings, prompt: Seq<u32>) -> (
    GenerationView,
    GenerationWorkView,
) {
    let kept = kept_prompt(prompt, settings.to_sample(), settings.max_sequence_len as nat);
    let g = GenerationView {
        settings,
        phase: GenerationPhase::Prompting,
        prompt: kept,
        fed: 0,
        all_tokens: Seq::empty(),
        text: Seq::empty(),
        index: 0,
    };
    if !settings.split_prompt {
        (g, GenerationWorkView::Forward { input: kept, position: 0, penalty: None })
    } else if kept.len() == 0 {
        (
            GenerationView { phase: GenerationPhase::FirstDecoding, all_tokens: seq![0u32], ..g },
            GenerationWorkView::Decode(0),
        )
    } else {
        (g, GenerationWorkView::Forward { input: seq![kept[0]], position: 0, penalty: None })
    }
}

/// The next state and step of a generation.
///
/// The token sampled from the prompt is the first one generated. Each token
/// generated is decoded, and a fragment that is not empty is streamed at
/// once and added to the text. After the first token up to `to_sample`
/// further ones are generated, each from a run of the model over the token
/// before it; the generation ends early with the token that ends a sequence.
/// A failure, or an answer that was not asked for, ends it without a text.
pub open spec fn generation_step(g: GenerationView, e: GenerationEventView) -> (
    GenerationView,
    GenerationStepView,
) {
    match (g.phase, e) {
        (GenerationPhase::Prompting, GenerationEventView::Sampled(t)) => {
            if g.settings.split_prompt && g.fed + 1 < g.prompt.len() {
                (
                    GenerationView { fed: g.fed + 1, ..g },
                    GenerationStepView {
                        emit: None,
                        work: GenerationWorkView::Forward {
                            input: seq![g.prompt[g.fed + 1 as int]],
                            position: g.fed + 1,
                            penalty: None,
                        },
                    },
                )
            } else {
                (
                    GenerationView {
                        phase: GenerationPhase::FirstDecoding,
                        all_tokens: seq![t],
                        ..g
                    },
                    GenerationStepView { emit: None, work: GenerationWorkView::Decode(t) },
                )
            }
        },
        (GenerationPhase::FirstDecoding, GenerationEventView::Decoded(d)) => {
            let text = with_fragment(g.text, d);
            if g.all_tokens.len() == 0 {
                aborted(g)
            } else if g.settings.to_sample() == 0 {
                (
                    GenerationView { phase: GenerationPhase::Finished, text, ..g },
                    GenerationStepView { emit: fragment(d), work: GenerationWorkView::Finish(text) },
                )
            } else {
                let next = GenerationView { phase: GenerationPhase::Sampling, text, index: 0, ..g };
                (next, GenerationStepView { emit: fragment(d), work: forward_last(next) })
            }
        },
        (GenerationPhase::Sampling, GenerationEventView::Sampled(t)) => (
            GenerationView {
                phase: GenerationPhase::Decoding,
                all_tokens: g.all_tokens.push(t),
                ..g
            },
            GenerationStepView { emit: None, work: GenerationWorkView::Decode(t) },
        ),
        (GenerationPhase::Decoding, GenerationEventView::Decoded(d)) => {
            let text = with_fragment(g.text, d);
            if g.all_tokens.len() == 0 {
                aborted(g)
            } else if g.all_tokens.last() == g.settings.eos_token || g.index + 1
                >= g.settings.to_sample() {
                (
                    GenerationView {
                        phase: GenerationPhase::Finished,
                        text,
                        index: g.index + 1,
                        ..g
                    },
                    GenerationStepView { emit: fragment(d), work: GenerationWorkView::Finish(text) },
                )
            } else {
                let next = GenerationView {
                    phase: GenerationPhase::Sampling,
                    text,
                    index: g.index + 1,
                    ..g
                };
                (next, GenerationStepView { emit: fragment(d), work: forward_last(next) })
            }
        },
        _ => aborted(g),
    }
}

impl View for Generation {
    type V = GenerationView;

    closed spec fn view(&self) -> GenerationView {
        GenerationView {
            settings: self.settings,
            phase: self.phase,
            prompt: self.prompt@,
            fed: self.fed as nat,
            all_tokens: self.all_tokens@,
            text: self.text@,
            index: self.index as nat,
        }
    }
}

impl GenerationView {
    /// The states that a generation can reach: the kept prompt and the
    /// tokens still to be sampled can be counted, the prompt is fed no
    /// further than it goes, and the tokens generated are as many as the
    /// phase says (none while the prompt is worked on, one while the first
    /// is decoded, one more than those sampled after it from then on), never
    /// more than the sample budget.
    pub open spec fn wf(&self) -> bool {
        &&& self.prompt.len() + self.settings.to_sample() <= usize::MAX
        &&& self.fed <= self.prompt.len()
        &&& match self.phase {
            GenerationPhase::Prompting => self.index == 0 && self.all_tokens.len() == 0 && (
            self.settings.split_prompt ==> self.fed < self.prompt.len()),
            GenerationPhase::FirstDecoding => self.index == 0 && self.all_tokens.len() == 1,
            GenerationPhase::Sampling => self.index < self.settings.to_sample()
                && self.all_tokens.len() == self.index + 1,
            GenerationPhase::Decoding => self.index < self.settings.to_sample()
                && self.all_tokens.len() == self.index + 2,
            GenerationPhase::Finished => self.all_tokens.len() <= self.settings.to_sample() + 1,
        }
    }
}


impl Generation {
    /// Begins the generation for a prompt; `work` is the first work to do.
    pub fn start(settings: GenerationSettings, prompt_tokens: &Vec<u32>) -> (started: (
        Generation,
        GenerationWork,
    ))
        ensures
            (started.0@, started.1@) == generation_start(settings, prompt_tokens@),
            started.0@.wf(),
    {
        let to_sample: usize = if settings.max_sample_len == 0 {
            0
        } else {
            settings.max_sample_len - 1
        };
        let kept = truncate_prompt(prompt_tokens, to_sample, settings.max_sequence_len);
        let mut g = Generation {
            settings,
            phase: GenerationPhase::Prompting,
            prompt: kept,
            fed: 0,
            all_tokens: Vec::new(),
            text: Vec::new(),
            index: 0,
        };
        if !settings.split_prompt {
            let input = copy_range(&g.prompt, 0, g.prompt.len());
            assert(g.prompt@.subrange(0, g.prompt.len() as int) =~= g.prompt@);
            (g, GenerationWork::Forward { input, position: 0, penalty: None })
        } else if g.prompt.len() == 0 {
            g.phase = GenerationPhase::FirstDecoding;
            g.all_tokens.push(0);
            assert(g.all_tokens@ =~= seq![0u32]);
            (g, GenerationWork::Decode(0))
        } else {
            let input = copy_range(&g.prompt, 0, 1);
            assert(g.prompt@.subrange(0, 1) =~= seq![g.prompt@[0]]);
            (g, GenerationWork::Forward { input, position: 0, penalty: None })
        }
    }

    /// Ends the generation without a text.
    fn abort(&mut self) -> (step: GenerationStep)
        ensures
            (final(self)@, step@) == aborted(old(self)@),
    {
        self.phase = GenerationPhase::Finished;
        GenerationStep { emit: None, work: GenerationWork::Abort }
    }

    /// The tokens whose repetition is penalized in the next run.
    fn penalty(&self) -> (context: Option<Vec<u32>>)
        ensures
            (match context {
                Some(c) => Some(c@),
                None => None,
            }) == penalty_context(
                self@.all_tokens,
                self@.settings.repeat_penalty,
                self@.settings.repeat_last_n as nat,
            ),
    {
        if self.settings.repeat_penalty == NO_PENALTY {
            None
        } else {
            let n = self.all_tokens.len();
            let from: usize = if n <= self.settings.repeat_last_n {
                0
            } else {
                n - self.settings.repeat_last_n
            };
            let c = copy_range(&self.all_tokens, from, n);
            proof {
                assert(self.all_tokens@.subrange(from as int, n as int) =~= self.all_tokens@.skip(
                    from as int,
                ));
                assert(self.all_tokens@.skip(0) =~= self.all_tokens@);
            }
            Some(c)
        }
    }

    /// The run of the model over the last token generated.
    fn forward(&self) -> (work: GenerationWork)
        requires
            self@.wf(),
            self@.all_tokens.len() > 0,
            self@.index < self@.settings.to_sample(),
        ensures
            work@ == forward_last(self@),
    {
        let n = self.all_tokens.len();
        let input = copy_range(&self.all_tokens, n - 1, n);
        assert(self.all_tokens@.subrange(n - 1, n as int) =~= seq![self.all_tokens@.last()]);
        GenerationWork::Forward {
            input,
            position: self.prompt.len() + self.index,
            penalty: self.penalty(),
        }
    }

    /// Adds what the decoder gave to the text and hands it back for
    /// streaming, unless it is empty.
    fn absorb(&mut self, decoded: Option<String>) -> (emit: Option<String>)
        ensures
            final(self)@ == (GenerationView {
                text: with_fragment(
                    old(self)@.text,
                    match decoded {
                        Some(s) => Some(s@),
                        None => None,
                    },
                ),
                ..old(self)@
            }),
            (match emit {
                Some(s) => Some(s@),
                None => None,
            }) == fragment(
                match decoded {
                    Some(s) => Some(s@),
                    None => None,
                },
            ),
    {
        match decoded {
            Some(s) => {
                let chars = chars_of(s.as_str());
                if chars.len() > 0 {
                    push_chars(&mut self.text, &chars);
                    Some(s)
                } else {
                    None
                }
            },
            None => None,
        }
    }

    /// Takes the answer to the last work and says what to stream and what
    /// to do next.
    pub fn step(&mut self, event: GenerationEvent) -> (step: GenerationStep)
        requires
            old(self)@.wf(),
        ensures
            (final(self)@, step@) == generation_step(old(self)@, event@),
            final(self)@.wf(),
    {
        match event {
            GenerationEvent::Sampled(t) => {
                match self.phase {
                    GenerationPhase::Prompting => {
                        if self.settings.split_prompt && self.fed + 1 < self.prompt.len() {
                            self.fed = self.fed + 1;
                            let input = copy_range(&self.prompt, self.fed, self.fed + 1);
                            assert(self.prompt@.subrange(self.fed as int, self.fed + 1) =~= seq![
                                self.prompt@[self.fed as int],
                            ]);
                            GenerationStep {
                                emit: None,
                                work: GenerationWork::Forward {
                                    input,
                                    position: self.fed,
                                    penalty: None,
                                },
                            }
                        } else {
                            self.phase = GenerationPhase::FirstDecoding;
                            let mut first: Vec<u32> = Vec::new();
                            first.push(t);
                            assert(first@ =~= seq![t]);
                            self.all_tokens = first;
                            GenerationStep { emit: None, work: GenerationWork::Decode(t) }
                        }
                    },
                    GenerationPhase::Sampling => {
                        self.phase = GenerationPhase::Decoding;
                        self.all_tokens.push(t);
                        GenerationStep { emit: None, work: GenerationWork::Decode(t) }
                    },
                    _ => self.abort(),
                }
            },
            GenerationEvent::Decoded(decoded) => {
                match self.phase {
                    GenerationPhase::FirstDecoding => {
                        let emit = self.absorb(decoded);
                        if self.settings.max_sample_len <= 1 {
                            self.phase = GenerationPhase::Finished;
                            let response = string_from_chars(&self.text);
                            GenerationStep { emit, work: GenerationWork::Finish(response) }
                        } else {
                            self.phase = GenerationPhase::Sampling;
                            self.index = 0;
                            let work = self.forward();
                            GenerationStep { emit, work }
                        }
                    },
                    GenerationPhase::Decoding => {
                        let emit = self.absorb(decoded);
                        let last = self.all_tokens[self.all_tokens.len() - 1];
                        self.index = self.index + 1;
                        if last == self.settings.eos_token || self.index
                            >= self.settings.max_sample_len - 1 {
                            self.phase = GenerationPhase::Finished;
                            let response = string_from_chars(&self.text);
                            GenerationStep { emit, work: GenerationWork::Finish(response) }
                        } else {
                            self.phase = GenerationPhase::Sampling;
                            let work = self.forward();
                            GenerationStep { emit, work }
                        }
                    },
                    _ => self.abort(),
                }
            },
            GenerationEvent::Failed => self.abort(),
        }
    }
}

/// At the factor that changes nothing no token is penalized, whatever was
/// generated: every run asked of the model is the run without a penalty.
pub proof fn lemma_unit_penalty_is_noop(g: GenerationView, e: GenerationEventView)
    requires
        g.settings.repeat_penalty == NO_PENALTY,
    ensures
        generation_step(g, e).1.work matches GenerationWorkView::Forward { penalty, .. }
            ==> penalty is None,
        forall|tokens: Seq<u32>, last_n: nat| penalty_context(tokens, NO_PENALTY, last_n) is None,
{
}

/// The kept prompt is an end of the prompt, never longer than the context,
/// and leaves room for the tokens to be sampled whenever those fit at all.
pub proof fn lemma_kept_prompt(prompt: Seq<u32>, to_sample: nat, max_seq: nat)
    ensures
        kept_prompt(prompt, to_sample, max_seq).len() <= max_seq,
        kept_prompt(prompt, to_sample, max_seq).len() <= prompt.len(),
        kept_prompt(prompt, to_sample, max_seq) == prompt.skip(
            prompt.len() - kept_prompt(prompt, to_sample, max_seq).len(),
        ),
        to_sample <= max_seq ==> kept_prompt(prompt, to_sample, max_seq).len() + to_sample
            <= max_seq,
        prompt.len() + to_sample > max_seq && to_sample <= max_seq ==> kept_prompt(
            prompt,
            to_sample,
            max_seq,
        ).len() + to_sample == max_seq,
{
}

/// A generation never yields more tokens than its sample budget, and its
/// text grows only by the fragments that are streamed.
pub proof fn lemma_generation_step(g: GenerationView, e: GenerationEventView)
    requires
        g.wf(),
    ensures
        generation_step(g, e).0.wf(),
        generation_step(g, e).0.all_tokens.len() <= g.settings.to_sample() + 1,
        generation_step(g, e).0.prompt == g.prompt,
        generation_step(g, e).0.text == (match generation_step(g, e).1.emit {
            Some(s) => g.text + s,
            None => g.text,
        }),
        generation_step(g, e).1.work matches GenerationWorkView::Finish(text)
            ==> text == generation_step(g, e).0.text,
{
}


/// A model and decoder that answer each piece of work in a fixed way,
/// given all the work asked of them so far.
pub type Engine = spec_fn(Seq<GenerationWorkView>) -> GenerationEventView;

/// A piece of work with the repetition penalty left out.
pub open spec fn without_penalty(work: GenerationWorkView) -> GenerationWorkView {
    match work {
        GenerationWorkView::Forward { input, position, .. } => GenerationWorkView::Forward {
            input,
            position,
            penalty: None,
        },
        other => other,
    }
}

/// The engine that never penalizes a repetition: it answers as `engine`
/// answers the same work without penalties.
pub open spec fn penalty_disabled(engine: Engine) -> Engine {
    |asked: Seq<GenerationWorkView>| engine(asked.map_values(|w| without_penalty(w)))
}

/// The state in which a generation stands after at most `steps` answers of
/// `engine`, from the state `g` with `work` to do and `asked` done before.
pub open spec fn generation_run(
    g: GenerationView,
    work: GenerationWorkView,
    engine: Engine,
    asked: Seq<GenerationWorkView>,
    steps: nat,
) -> GenerationView
    decreases steps,
{
    if steps == 0 || work is Finish || work is Abort {
        g
    } else {
        let next = generation_step(g, engine(asked.push(work)));
        generation_run(next.0, next.1.work, engine, asked.push(work), (steps - 1) as nat)
    }
}

/// At the factor that changes nothing the generation is the one with the
/// penalty disabled: with the same engine, the same tokens and the same
/// text come out.
pub proof fn lemma_unit_penalty_run(
    g: GenerationView,
    work: GenerationWorkView,
    engine: Engine,
    asked: Seq<GenerationWorkView>,
    steps: nat,
)
    requires
        g.settings.repeat_penalty == NO_PENALTY,
        without_penalty(work) == work,
        forall|i: int| 0 <= i < asked.len() ==> without_penalty(#[trigger] asked[i]) == asked[i],
    ensures
        generation_run(g, work, engine, asked, steps) == generation_run(
            g,
            work,
            penalty_disabled(engine),
            asked,
            steps,
        ),
    decreases steps,
{
    if steps == 0 || work is Finish || work is Abort {
    } else {
        let now = asked.push(work);
        assert(now.map_values(|w| without_penalty(w)) =~= now);
        let next = generation_step(g, engine(now));
        lemma_unit_penalty_run(next.0, next.1.work, engine, now, (steps - 1) as nat);
    }
}

/// A generation begun twice for the same prompt, with engines that answer
/// alike, yields the same tokens and the same text: nothing but the prompt
/// and the engine's answers decides it. With a temperature of zero or below
/// the engine's choice of a token needs no random number.
pub proof fn lemma_same_answers_same_generation(
    settings: GenerationSettings,
    prompt: Seq<u32>,
    first: Engine,
    second: Engine,
    steps: nat,
)
    requires
        forall|asked: Seq<GenerationWorkView>| #[trigger] first(asked) == second(asked),
    ensures
        generation_run(
            generation_start(settings, prompt).0,
            generation_start(settings, prompt).1,
            first,
            Seq::empty(),
            steps,
        ) == generation_run(
            generation_start(settings, prompt).0,
            generation_start(settings, prompt).1,
            second,
            Seq::empty(),
            steps,
        ),
{
    lemma_same_engine_same_run(
        generation_start(settings, prompt).0,
        generation_start(settings, prompt).1,
        first,
        second,
        Seq::empty(),
        steps,
    );
}

/// Engines that answer alike carry a generation to the same state.
pub proof fn lemma_same_engine_same_run(
    g: GenerationView,
    work: GenerationWorkView,
    first: Engine,
    second: Engine,
    asked: Seq<GenerationWorkView>,
    steps: nat,
)
    requires
        forall|all: Seq<GenerationWorkView>| #[trigger] first(all) == second(all),
    ensures
        generation_run(g, work, first, asked, steps) == generation_run(
            g,
            work,
            second,
            asked,
            steps,
        ),
    decreases steps,
{
    if steps == 0 || work is Finish || work is Abort {
    } else {
        let now = asked.push(work);
        let next = generation_step(g, first(now));
        lemma_same_engine_same_run(next.0, next.1.work, first, second, now, (steps - 1) as nat);
    }
}

/// The envelope that streams one fragment of the answer to the task.
pub fn send_token(task_id: String, model_name: String, token: String) -> (envelope: OutgoingMessage)
    ensures
        envelope.well_formed(),
        envelope@ == (OutgoingMessageView {
            message_type: OutgoingMessageType::ResponsePromptToken,
            task_id: task_id@,
            body: OutgoingBodyView::ResponsePromptToken { model: model_name@, token: token@ },
        }),
{
    OutgoingMessage {
        message_type: OutgoingMessageType::ResponsePromptToken,
        task_id,
        body: OutgoingMessageBody::ResponsePromptToken(
            ResponsePromptToken { model: model_name, token },
        ),
    }
}

/// The envelope that ends the task: the whole answer, with the system
/// message and the mode of the request, and no measurements.
pub fn send_response(task_id: String, model_name: String, task: SubmitPrompt, response: String) -> (envelope:
    OutgoingMessage)
    ensures
        envelope.well_formed(),
        envelope@ == (OutgoingMessageView {
            message_type: OutgoingMessageType::ResponsePrompt,
            task_id: task_id@,
            body: OutgoingBodyView::ResponsePrompt {
                model: model_name@,
                system_mesage: task.system_mesage@,
                mode: task.mode@,
                response: response@,
                tokenizer_time: 0,
                inference_time: 0,
                tokens_processed: 0,
                tokens_generated: 0,
            },
        }),
{
    OutgoingMessage {
        message_type: OutgoingMessageType::ResponsePrompt,
        task_id,
        body: OutgoingMessageBody::ResponsePrompt(
            ResponsePrompt {
                model: model_name,
                system_mesage: task.system_mesage,
                mode: task.mode,
                response,
                tokenizer_time: 0,
                inference_time: 0,
                tokens_processed: 0,
                tokens_generated: 0,
            },
        ),
    }
}

} // verus!
