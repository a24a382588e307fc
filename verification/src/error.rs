use vstd::prelude::*;

verus! {

/// Why an invocation was turned down. Every failure leaves the store as it was.
#[derive(Clone, Copy, Debug, PartialEq, Eq, Structural)]
pub enum ContractError {
    /// The bytes handed in, or found in the store, are not a payload of the expected shape.
    Decode,
    /// No record has been written yet.
    NotFound,
    /// The counter stands at its largest value and cannot be advanced.
    Overflow,
}

impl ContractError {
    /// The text that describes the error.
    pub open spec fn text(self) -> Seq<char> {
        match self {
            ContractError::Decode => "the bytes are no payload of the expected shape"@,
            ContractError::NotFound => "no record has been stored"@,
            ContractError::Overflow => "the counter is at its largest value"@,
        }
    }

    /// The text that describes the error, as the caller is shown it.
    pub fn message(&self) -> (s: String)
        ensures
            s@ == self.text(),
    {
        match self {
            ContractError::Decode => "the bytes are no payload of the expected shape".to_owned(),
            ContractError::NotFound => "no record has been stored".to_owned(),
            ContractError::Overflow => "the counter is at its largest value".to_owned(),
        }
    }
}

} // verus!
