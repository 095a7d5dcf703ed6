use vstd::prelude::*;

verus! {

/// The failures that the greeting program reports under a name of its own.
///
/// `NotRentExempt` and `ExpectedAmountMismatch` are reserved: no operation
/// reports them.
#[derive(Debug, Clone, Copy, PartialEq, Eq, Structural)]
pub enum HelloError {
    /// The tag byte is unknown, or the payload does not fit the tag.
    InvalidInstruction,
    /// The funding does not cover the reservation of the storage.
    NotRentExempt,
    /// An amount differs from the one that was expected.
    ExpectedAmountMismatch,
    /// A sum would leave the range of 64 unsigned bits.
    AmountOverflow,
    /// The signer is not the owner that the record names.
    Unauthorized,
    /// The message has more than 200 bytes.
    MessageTooLong,
}

impl HelloError {
    /// The number under which the failure is visible outside the program.
    pub open spec fn spec_code(self) -> u32 {
        match self {
            HelloError::InvalidInstruction => 0,
            HelloError::NotRentExempt => 1,
            HelloError::ExpectedAmountMismatch => 2,
            HelloError::AmountOverflow => 3,
            HelloError::Unauthorized => 4,
            HelloError::MessageTooLong => 5,
        }
    }

    /// The text that describes the failure.
    pub open spec fn spec_message(self) -> Seq<char> {
        match self {
            HelloError::InvalidInstruction => "Invalid Instruction"@,
            HelloError::NotRentExempt => "Not Rent Exempt"@,
            HelloError::ExpectedAmountMismatch => "Expected Amount Mismatch"@,
            HelloError::AmountOverflow => "Amount Overflow"@,
            HelloError::Unauthorized => "Unauthorized"@,
            HelloError::MessageTooLong => "Message Too Long"@,
        }
    }

    #[verifier::when_used_as_spec(spec_code)]
    pub fn code(self) -> (c: u32)
        ensures
            c == self.spec_code(),
    {
        match self {
            HelloError::InvalidInstruction => 0,
            HelloError::NotRentExempt => 1,
            HelloError::ExpectedAmountMismatch => 2,
            HelloError::AmountOverflow => 3,
            HelloError::Unauthorized => 4,
            HelloError::MessageTooLong => 5,
        }
    }

    pub fn message(&self) -> (text: String)
        ensures
            text@ == self.spec_message(),
    {
        match self {
            HelloError::InvalidInstruction => "Invalid Instruction".to_owned(),
            HelloError::NotRentExempt => "Not Rent Exempt".to_owned(),
            HelloError::ExpectedAmountMismatch => "Expected Amount Mismatch".to_owned(),
            HelloError::AmountOverflow => "Amount Overflow".to_owned(),
            HelloError::Unauthorized => "Unauthorized".to_owned(),
            HelloError::MessageTooLong => "Message Too Long".to_owned(),
        }
    }

    /// No two failures share a code.
    pub proof fn lemma_code_injective(a: HelloError, b: HelloError)
        ensures
            a.spec_code() == b.spec_code() <==> a == b,
    {
    }
}

/// What an operation of the program fails with.
#[derive(Debug, Clone, Copy, PartialEq, Eq, Structural)]
pub enum ProgramError {
    /// A failure of the program's own, by its code.
    Custom(u32),
    /// The bytes of a record slot do not hold a record, or cannot take one.
    BorshIoError,
    /// The account that has to sign has not signed.
    MissingRequiredSignature,
    /// The operation names more accounts than it was given.
    NotEnoughAccountKeys,
}

impl From<HelloError> for ProgramError {
    fn from(e: HelloError) -> (err: ProgramError) {
        ProgramError::Custom(e.code())
    }
}

impl vstd::std_specs::convert::FromSpecImpl<HelloError> for ProgramError {
    open spec fn obeys_from_spec() -> bool {
        true
    }

    open spec fn from_spec(e: HelloError) -> ProgramError {
        ProgramError::Custom(e.spec_code())
    }
}

} // verus!
