//! What the compiler stage reports for one source file.
use vstd::prelude::*;

verus! {

/// One source file in the compiler's output: its id, and its AST as JSON text
/// (`None` where the compiler gave none).
#[derive(Clone, Debug, PartialEq, Eq)]
pub struct AstSourceFile {
    pub id: u32,
    pub ast: Option<String>,
}

} // verus!
