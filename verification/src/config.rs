//! The fixed knobs of generation.

use vstd::prelude::*;

verus! {

/// Seed of the sampler.
pub const SEED: u64 = 42;

/// Sampling temperature, in thousandths.
pub const TEMPERATURE: i64 = 400;

/// Tokens generated for one prompt, at most.
pub const SAMPLE_LEN: usize = 1000;

/// Number of most likely tokens to sample from, if limited.
pub const TOP_K: Option<usize> = None;

/// Cumulative probability to sample from, in thousandths, if limited.
pub const TOP_P: Option<i64> = None;

/// Whether the prompt is fed to the model one token at a time.
pub const SPLIT_PROMPT: bool = false;

/// Factor by which repeated tokens are penalized, in thousandths.
pub const REPEAT_PENALTY: u32 = 1100;

/// Number of most recent tokens that the repetition penalty looks at.
pub const REPEAT_LAST_N: usize = 64;

/// The factor, in thousandths, at which the repetition penalty changes
/// nothing.
pub const NO_PENALTY: u32 = 1000;

} // verus!
