pub mod value;
pub mod rewrite;
pub mod codec;
pub mod fingerprint;
pub mod locate;
pub mod manifest;
pub mod orchestrate;

use vstd::prelude::*;

verus! {

/// The closed set of failures: every error aborts the run.
#[derive(Clone, Copy, PartialEq, Eq, Structural, Debug)]
pub enum Error {
    Io,
    Parse,
    Subprocess,
    Spawn,
}

} // verus!
