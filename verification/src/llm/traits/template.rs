//! The prompt template of a model.

use vstd::prelude::*;

verus! {

/// A model's way of laying out a prompt.
pub trait Template {
    /// The prompt as the model takes it, from the system's and the user's
    /// message.
    fn prompt_template(&self, system_msg: &String, user_message: &String) -> String;

    /// The text of the token that ends a sequence.
    fn get_eos(&self) -> String;
}

} // verus!
