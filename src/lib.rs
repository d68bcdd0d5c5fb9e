//! Replaces the user's home directory at the start of a path with another
//! string, for display (`/home/alice/notes` becomes `~/notes`).
//!
//! Paths are compared by their segments, never as raw text, so that
//! `/home/alice2` does not count as lying under `/home/alice`.
use vstd::prelude::*;

pub mod lemmas;
pub mod path_model;
pub mod reduce;
pub mod segments;

pub use reduce::{reduced_by, replace_homedir_in, replace_homedir_in_with};

use path_model::reduced;

verus! {

/// Relies on dirs::home_dir for the current user's home directory. One that
/// is not valid UTF-8 is given as `None`: no `&str` path can lie below it.
#[verifier::external_body]
fn current_home_dir() -> (r: Option<String>) {
    match dirs::home_dir() {
        Some(h) => h.into_os_string().into_string().ok(),
        None => None,
    }
}

/// Replaces the current user's home directory at the start of `path` with
/// `replacement`; a path elsewhere, or one given where no home directory is
/// known, comes back unchanged.
pub fn replace_homedir(path: &str, replacement: &str) -> (r: String)
    ensures
        exists|home: Option<Seq<char>>| r@ == #[trigger] reduced(path@, home, replacement@),
{
    let home = current_home_dir();
    match &home {
        Some(h) => replace_homedir_in(path, Some(h.as_str()), replacement),
        None => replace_homedir_in(path, None, replacement),
    }
}

/// As `replace_homedir`, with the replacement made by `replacement_fn` from
/// the home directory, which is called only where `path` lies at or below it.
pub fn replace_homedir_with<F>(path: &str, replacement_fn: F) -> (r: String)
    where
        F: FnOnce(&str) -> String,
    requires
        forall|h: &str| replacement_fn.requires((h,)),
    ensures
        exists|home: Option<&str>| #[trigger] reduced_by(path@, home, replacement_fn, r@),
{
    let home = current_home_dir();
    match &home {
        Some(h) => replace_homedir_in_with(path, Some(h.as_str()), replacement_fn),
        None => replace_homedir_in_with(path, None, replacement_fn),
    }
}

} // verus!
