//! The two families of models.

use crate::base::error::CoreError;
use crate::text::{concat3, same_text};
use vstd::prelude::*;

verus! {

/// Whether a model computes with real or with complex numbers.
#[derive(Clone, Copy, Debug, PartialEq, Eq, Structural)]
pub enum ModelType {
    Real,
    Complex,
}

/// The type of that name.
pub open spec fn model_type_named(name: Seq<char>) -> Option<ModelType> {
    if name == "real"@ {
        Some(ModelType::Real)
    } else if name == "complex"@ {
        Some(ModelType::Complex)
    } else {
        None
    }
}

/// The message for a name that no type has.
pub open spec fn unknown_model_type(name: Seq<char>) -> Seq<char> {
    "unknown model type '"@ + name + "', expected: real, complex"@
}

impl ModelType {
    /// The name.
    pub open spec fn label(self) -> Seq<char> {
        match self {
            ModelType::Real => "real"@,
            ModelType::Complex => "complex"@,
        }
    }

    /// The name.
    pub fn as_str(self) -> (result: &'static str)
        ensures
            result@ == self.label(),
    {
        match self {
            ModelType::Real => "real",
            ModelType::Complex => "complex",
        }
    }

    /// The type of that name.
    pub fn from_name(name: &str) -> (result: Result<ModelType, CoreError>)
        ensures
            result is Ok <==> model_type_named(name@) is Some,
            result matches Ok(model_type) ==> model_type_named(name@) == Some(model_type),
            result matches Err(e) ==> e.says(unknown_model_type(name@)),
    {
        if same_text(name, "real") {
            Ok(ModelType::Real)
        } else if same_text(name, "complex") {
            Ok(ModelType::Complex)
        } else {
            Err(CoreError::Msg(concat3("unknown model type '", name, "', expected: real, complex")))
        }
    }
}

/// A type is found again under its name.
pub proof fn model_type_names_round_trip(model_type: ModelType)
    ensures
        model_type_named(model_type.label()) == Some(model_type),
{
    reveal_strlit("real");
    reveal_strlit("complex");
    assert("real"@.len() == 4 && "complex"@.len() == 7);
}

} // verus!
