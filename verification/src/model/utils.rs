//! Where the trained model is kept, and whether it is there.

use vstd::prelude::*;
use crate::data_retrieve::checks::{listing_has, lists, optional_listing};
use crate::data_retrieve::paths::{join, joined};

verus! {

/// Name of the model directory inside the working directory.
pub const MODEL_FOLDER: &'static str = "deepmath_model";

/// Name of the model file inside the model directory.
pub const MODEL_FILE: &'static str = "model.dat";

/// The model file that belongs to the working directory `current_dir`.
pub fn model_location(current_dir: &str) -> (file: String)
    ensures
        file@ == joined(joined(current_dir@, MODEL_FOLDER@), MODEL_FILE@),
{
    let folder = join(current_dir, MODEL_FOLDER);
    join(folder.as_str(), MODEL_FILE)
}

/// What a listing of the model directory says about the model. `None`
/// stands for a directory that does not exist.
pub open spec fn model_listed(listing: Option<Seq<Seq<char>>>) -> bool {
    match listing {
        None => false,
        Some(names) => lists(names, MODEL_FILE@),
    }
}

/// Decides from a listing of the model directory whether a trained model
/// is there.
pub fn model_present(listing: &Option<Vec<String>>) -> (present: bool)
    ensures
        present == model_listed(optional_listing(*listing)),
{
    match listing {
        None => false,
        Some(names) => listing_has(names, MODEL_FILE),
    }
}

} // verus!
