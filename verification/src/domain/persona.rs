//! Personas.

use vstd::prelude::*;

verus! {

/// A persona, known by its name.
#[derive(Debug, Clone)]
pub struct Persona {
    pub name: String,
}

} // verus!
