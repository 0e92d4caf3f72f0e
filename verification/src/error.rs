use vstd::prelude::*;

verus! {

/// Why a token was rejected.
#[derive(Clone, Copy, Debug, PartialEq, Eq, Structural)]
pub enum ValidationError {
    /// The token is not exactly eleven characters long.
    InvalidLength,
    /// A numeral symbol is worth more than the ceiling, or the numeral
    /// product is none of the recognised values.
    NumeralOverflow,
    /// The adjusted weight total is above the ceiling.
    WeightOverflow,
}

impl ValidationError {
    /// The text of `message`.
    pub open spec fn message_spec(self) -> Seq<char> {
        match self {
            ValidationError::InvalidLength => "Video ID was not the right length."@,
            ValidationError::NumeralOverflow => "Roman numerals exceeded limits."@,
            ValidationError::WeightOverflow => "Accumulated attomic number exceeded limits."@,
        }
    }

    /// The text shown to a person for this failure.
    pub fn message(&self) -> (text: &'static str)
        ensures
            text@ == self.message_spec(),
    {
        match self {
            ValidationError::InvalidLength => "Video ID was not the right length.",
            ValidationError::NumeralOverflow => "Roman numerals exceeded limits.",
            ValidationError::WeightOverflow => "Accumulated attomic number exceeded limits.",
        }
    }
}

} // verus!
