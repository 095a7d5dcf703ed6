use crate::bytes::extend;
use crate::error::{HelloError, ProgramError};
use crate::pubkey::Pubkey;
use crate::text::string_from_utf8;
use vstd::prelude::*;
use vstd::slice::*;
use vstd::string::*;
use vstd::utf8::*;

verus! {

/// The four operations of the program.
#[derive(Debug)]
pub enum HelloInstruction {
    /// Create the record, owned by `owner`.
    Initialize { owner: Pubkey },
    /// Replace the message and count the change.
    UpdateMessage { message: String },
    /// Count a change without one.
    IncrementOnly,
    /// Give the slot up and hand its balance on.
    Close,
}

/// An operation as a mathematical value.
pub enum InstructionView {
    Initialize { owner: Seq<u8> },
    UpdateMessage { message: Seq<char> },
    IncrementOnly,
    Close,
}

impl View for HelloInstruction {
    type V = InstructionView;

    open spec fn view(&self) -> InstructionView {
        match self {
            HelloInstruction::Initialize { owner } => InstructionView::Initialize { owner: owner@ },
            HelloInstruction::UpdateMessage { message } => InstructionView::UpdateMessage {
                message: message@,
            },
            HelloInstruction::IncrementOnly => InstructionView::IncrementOnly,
            HelloInstruction::Close => InstructionView::Close,
        }
    }
}

impl InstructionView {
    /// An owner, where there is one, has 32 bytes.
    pub open spec fn wf(self) -> bool {
        self matches InstructionView::Initialize { owner } ==> owner.len() == 32
    }

    /// The tag byte of the operation.
    pub open spec fn tag(self) -> u8 {
        match self {
            InstructionView::Initialize { .. } => 0,
            InstructionView::UpdateMessage { .. } => 1,
            InstructionView::IncrementOnly => 2,
            InstructionView::Close => 3,
        }
    }

    /// The bytes that follow the tag.
    pub open spec fn payload(self) -> Seq<u8> {
        match self {
            InstructionView::Initialize { owner } => owner,
            InstructionView::UpdateMessage { message } => encode_utf8(message),
            InstructionView::IncrementOnly => Seq::empty(),
            InstructionView::Close => Seq::empty(),
        }
    }

    /// The encoded operation: the tag, then the payload.
    pub open spec fn pack(self) -> Seq<u8> {
        seq![self.tag()] + self.payload()
    }

    /// The operation that a buffer encodes, if it encodes one.
    ///
    /// The first byte selects the operation. Tag 0 takes the next 32 bytes as
    /// the owner, tag 1 the whole rest as a message in UTF-8; tags 2 and 3
    /// take nothing. Bytes that an operation does not take are ignored.
    pub open spec fn unpack(input: Seq<u8>) -> Option<InstructionView> {
        if input.len() == 0 {
            None
        } else {
            let rest = input.subrange(1, input.len() as int);
            if input[0] == 0 {
                if rest.len() >= 32 {
                    Some(InstructionView::Initialize { owner: rest.subrange(0, 32) })
                } else {
                    None
                }
            } else if input[0] == 1 {
                if valid_utf8(rest) {
                    Some(InstructionView::UpdateMessage { message: decode_utf8(rest) })
                } else {
                    None
                }
            } else if input[0] == 2 {
                Some(InstructionView::IncrementOnly)
            } else if input[0] == 3 {
                Some(InstructionView::Close)
            } else {
                None
            }
        }
    }

    /// Decoding an encoded operation gives it back.
    pub proof fn lemma_unpack_pack(self)
        requires
            self.wf(),
        ensures
            Self::unpack(self.pack()) == Some(self),
    {
        let input = self.pack();
        let rest = input.subrange(1, input.len() as int);
        assert(rest =~= self.payload());
        match self {
            InstructionView::Initialize { owner } => {
                assert(rest.subrange(0, 32) =~= owner);
            },
            InstructionView::UpdateMessage { message } => {
                encode_utf8_valid_utf8(message);
                encode_utf8_decode_utf8(message);
            },
            _ => {},
        }
    }

    /// A buffer that starts with a tag other than 0, 1, 2 or 3 encodes
    /// nothing, whatever follows the tag; nor does the empty buffer.
    pub proof fn lemma_unknown_tag(input: Seq<u8>)
        requires
            input.len() == 0 || input[0] > 3,
        ensures
            Self::unpack(input) is None,
    {
    }
}

impl HelloInstruction {
    /// Decodes an operation. Every buffer that encodes none is refused with
    /// `HelloError::InvalidInstruction`.
    pub fn unpack(input: &[u8]) -> (decoded: Result<HelloInstruction, ProgramError>)
        ensures
            match decoded {
                Ok(instruction) => InstructionView::unpack(input@) == Some(instruction@),
                Err(e) => InstructionView::unpack(input@) is None && e == ProgramError::Custom(
                    HelloError::InvalidInstruction.spec_code(),
                ),
            },
    {
        if input.len() == 0 {
            return Err(ProgramError::from(HelloError::InvalidInstruction));
        }
        let variant = input[0];
        let rest = slice_subrange(input, 1, input.len());
        if variant == 0 {
            if rest.len() < 32 {
                return Err(ProgramError::from(HelloError::InvalidInstruction));
            }
            let owner = Pubkey::from_slice(slice_subrange(rest, 0, 32)).unwrap();
            Ok(HelloInstruction::Initialize { owner })
        } else if variant == 1 {
            match string_from_utf8(slice_to_vec(rest)) {
                Some(message) => Ok(HelloInstruction::UpdateMessage { message }),
                None => Err(ProgramError::from(HelloError::InvalidInstruction)),
            }
        } else if variant == 2 {
            Ok(HelloInstruction::IncrementOnly)
        } else if variant == 3 {
            Ok(HelloInstruction::Close)
        } else {
            Err(ProgramError::from(HelloError::InvalidInstruction))
        }
    }

    /// Encodes the operation.
    pub fn pack(&self) -> (encoded: Vec<u8>)
        ensures
            encoded@ == self@.pack(),
    {
        let mut out: Vec<u8> = Vec::new();
        match self {
            HelloInstruction::Initialize { owner } => {
                out.push(0u8);
                let bytes = owner.to_bytes();
                extend(&mut out, bytes.as_slice());
            },
            HelloInstruction::UpdateMessage { message } => {
                out.push(1u8);
                extend(&mut out, message.as_str().as_bytes());
            },
            HelloInstruction::IncrementOnly => {
                out.push(2u8);
            },
            HelloInstruction::Close => {
                out.push(3u8);
            },
        }
        assert(out@ =~= self@.pack());
        out
    }
}

} // verus!
