use vstd::prelude::*;
use vstd::string::*;

verus! {

/// Every way a run can fail. Each stage short-circuits the pipeline
/// with one of these; cancellation is deliberate and may stay silent.
#[derive(Debug)]
pub enum PipelineError {
    /// The input text is not valid JSON; carries the parser's message.
    DecodeError(String),
    /// A navigation segment was missing or met a non-object; carries
    /// the failing segment.
    PathNotFound(String),
    /// The located value is not an array.
    NotAnArray,
    /// The located array has no elements.
    EmptyArray,
    /// An output field list was given but the selected value is not an
    /// object.
    NotAnObject,
    /// The user abandoned the selection.
    InteractionCancelled,
    /// The selection widget reported a failure; carries its message.
    InteractionIOError(String),
}

impl PipelineError {
    /// The diagnostic text for standard error; empty for a deliberate
    /// cancellation.
    pub fn message(&self) -> (r: String)
        ensures
            match self {
                PipelineError::DecodeError(m) => r@ == "Failed to parse JSON: "@ + m@,
                PipelineError::PathNotFound(seg) => r@ == "Path component '"@ + seg@
                    + "' not found"@,
                PipelineError::NotAnArray => r@ == "Input must be a JSON array (or use --dig to extract an array)"@,
                PipelineError::EmptyArray => r@ == "Input array is empty"@,
                PipelineError::NotAnObject => r@ == "Cannot filter fields on non-object value"@,
                PipelineError::InteractionCancelled => r@ == Seq::<char>::empty(),
                PipelineError::InteractionIOError(m) => r@ == m@,
            },
    {
        match self {
            PipelineError::DecodeError(m) => {
                let mut s = String::from_str("Failed to parse JSON: ");
                s.append(m.as_str());
                s
            }
            PipelineError::PathNotFound(seg) => {
                let mut s = String::from_str("Path component '");
                s.append(seg.as_str());
                s.append("' not found");
                s
            }
            PipelineError::NotAnArray => String::from_str(
                "Input must be a JSON array (or use --dig to extract an array)",
            ),
            PipelineError::EmptyArray => String::from_str("Input array is empty"),
            PipelineError::NotAnObject => String::from_str("Cannot filter fields on non-object value"),
            PipelineError::InteractionCancelled => String::new(),
            PipelineError::InteractionIOError(m) => m.clone(),
        }
    }
}

} // verus!
