// Rebuilds, on local disk, one subdirectory of a remote repository from its browsing URL:
// the URL is read into repository coordinates (`locator`), the directory tree is walked
// depth-first through the listing API (`traversal`), and each file found gets a local
// destination (`path`, `model`), its inline content decoded where the API sends it
// (`inline`). Command-line arguments are sorted by `cli`.
use vstd::prelude::*;

pub mod cli;
pub mod inline;
pub mod locator;
pub mod model;
pub mod path;
pub mod text;
pub mod traversal;

verus! {

} // verus!
