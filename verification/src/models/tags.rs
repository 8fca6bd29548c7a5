//! The model catalog as the backend reports it.

use vstd::prelude::*;

verus! {

/// The details of a model in the catalog.
#[derive(Debug)]
pub struct ModelDetails {
    pub parent_model: String,
    pub format: String,
    pub family: String,
    pub families: Vec<String>,
    pub parameter_size: String,
    pub quantization_level: String,
}

/// A model in the catalog.
#[derive(Debug)]
pub struct Model {
    pub name: String,
    pub model: String,
    pub modified_at: String,
    pub size: u64,
    pub digest: String,
    pub details: ModelDetails,
}

/// The catalog: the models that the backend can serve, in its order.
#[derive(Debug)]
pub struct Tags {
    pub models: Vec<Model>,
}

/// The names of a list of models.
pub open spec fn model_names(models: Seq<Model>) -> Seq<Seq<char>> {
    Seq::new(models.len(), |i: int| models[i].name@)
}

impl Tags {
    /// The names of the models of the catalog, in its order.
    pub open spec fn names(&self) -> Seq<Seq<char>> {
        model_names(self.models@)
    }
}

} // verus!
