//! Where the dataset lives, and whether it is already there.

use vstd::prelude::*;
use crate::data_retrieve::paths::{join, joined};

verus! {

/// Name of the dataset directory inside the working directory.
pub const DATA_FOLDER: &'static str = "deepmath_data";

/// Name of the file that marks a dataset directory as complete. It is
/// written last, after every archive entry has been unpacked.
pub const COMPLETE_MARKER: &'static str = ".deepmath_complete";

/// The dataset directory that belongs to the working directory `current_dir`.
pub fn data_location(current_dir: &str) -> (folder: String)
    ensures
        folder@ == joined(current_dir@, DATA_FOLDER@),
{
    join(current_dir, DATA_FOLDER)
}

/// Whether `name` is among the names of `listing`.
pub open spec fn lists(listing: Seq<Seq<char>>, name: Seq<char>) -> bool {
    exists|i: int| 0 <= i < listing.len() && #[trigger] listing[i] == name
}

/// The characters of each name of a listing.
pub open spec fn listing_view(listing: Seq<String>) -> Seq<Seq<char>> {
    listing.map_values(|name: String| name@)
}

/// The characters of each name of a listing that may be missing.
pub open spec fn optional_listing(listing: Option<Vec<String>>) -> Option<Seq<Seq<char>>> {
    match listing {
        None => None,
        Some(names) => Some(listing_view(names@)),
    }
}

/// What a listing of the dataset directory says about the dataset. `None`
/// stands for a directory that does not exist. The dataset counts as present
/// only when the completion marker is listed: a missing directory, an empty
/// one, and one that holds the archive or a part of its entries are absent.
pub open spec fn dataset_complete(listing: Option<Seq<Seq<char>>>) -> bool {
    match listing {
        None => false,
        Some(names) => lists(names, COMPLETE_MARKER@),
    }
}

/// Whether `listing` holds an entry called `name`.
pub fn listing_has(listing: &Vec<String>, name: &str) -> (found: bool)
    ensures
        found == lists(listing_view(listing@), name@),
{
    let wanted = name.to_owned();
    let mut i: usize = 0;
    while i < listing.len()
        invariant
            i <= listing.len(),
            wanted@ == name@,
            forall|j: int| 0 <= j < i ==> (#[trigger] listing@[j])@ != name@,
        decreases listing.len() - i,
    {
        if listing[i] == wanted {
            assert(listing_view(listing@)[i as int] == name@);
            return true;
        }
        i += 1;
    }
    assert forall|j: int| 0 <= j < listing_view(listing@).len() implies #[trigger] listing_view(
        listing@,
    )[j] != name@ by {
        assert(listing@[j]@ != name@);
    }
    false
}

/// Decides from a listing of the dataset directory whether the dataset is
/// already materialized.
pub fn data_present(listing: &Option<Vec<String>>) -> (present: bool)
    ensures
        present == dataset_complete(optional_listing(*listing)),
{
    match listing {
        None => false,
        Some(names) => listing_has(names, COMPLETE_MARKER),
    }
}

} // verus!
