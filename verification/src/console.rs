//! Writing text to standard output.

use vstd::prelude::*;

verus! {

/// Writes `text` to standard output (`std::io::Stdout::write_all`); a write
/// error is ignored. Nothing is stated of the effect.
#[verifier::external_body]
pub(crate) fn emit(text: &str) {
    let _ = std::io::Write::write_all(&mut std::io::stdout(), text.as_bytes());
}

} // verus!
