use crate::bytes::{
    extend, extend_u32_le, extend_u64_le, extend_zeros, lemma_u32_le, lemma_u64_le, read_u32_le,
    read_u64_le, u32_from_le, u32_le, u64_from_le, u64_le, zeros,
};
use crate::error::{HelloError, ProgramError};
use crate::pubkey::Pubkey;
use crate::text::string_from_utf8;
use vstd::prelude::*;
use vstd::slice::*;
use vstd::string::*;
use vstd::utf8::*;

verus! {

/// The most bytes that a message may have.
pub const MAX_MESSAGE_LEN: usize = 200;

/// The bytes that a record takes in storage, whatever its message.
pub const GREETING_SPACE: usize = 244;

/// A greeting record: who owns it, how often it was changed, what it says.
#[derive(Debug)]
pub struct Greeting {
    pub owner: Pubkey,
    pub count: u64,
    pub message: String,
}

/// A record as a mathematical value.
pub struct GreetingView {
    pub owner: Seq<u8>,
    pub count: u64,
    pub message: Seq<char>,
}

impl View for Greeting {
    type V = GreetingView;

    open spec fn view(&self) -> GreetingView {
        GreetingView { owner: self.owner@, count: self.count, message: self.message@ }
    }
}

/// The message that a new record carries.
pub open spec fn default_message() -> Seq<char> {
    "Hello, Solana!"@
}

impl GreetingView {
    /// The bytes of the message, as UTF-8.
    pub open spec fn message_bytes(self) -> Seq<u8> {
        encode_utf8(self.message)
    }

    /// The message is within the limit.
    pub open spec fn message_fits(self) -> bool {
        self.message_bytes().len() <= MAX_MESSAGE_LEN
    }

    /// The record can be stored: 32 bytes of owner, a message within the limit.
    pub open spec fn wf(self) -> bool {
        &&& self.owner.len() == 32
        &&& self.message_fits()
    }

    /// The record that creation writes for `owner`.
    pub open spec fn fresh(owner: Seq<u8>) -> GreetingView {
        GreetingView { owner, count: 0, message: default_message() }
    }

    /// The stored form: owner, count (8 bytes, little-endian), length of the
    /// message (4 bytes, little-endian), the message, then zeros up to
    /// `GREETING_SPACE` bytes.
    pub open spec fn to_bytes(self) -> Seq<u8> {
        let text = self.message_bytes();
        self.owner + u64_le(self.count) + u32_le(text.len() as u32)
            + text + zeros((MAX_MESSAGE_LEN - text.len()) as nat)
    }

    /// The length that stored bytes give for their message.
    pub open spec fn stored_len(bytes: Seq<u8>) -> int {
        u32_from_le(bytes.subrange(40, 44)) as int
    }

    /// The bytes that stored bytes give for their message.
    pub open spec fn stored_text(bytes: Seq<u8>) -> Seq<u8> {
        bytes.subrange(44, 44 + Self::stored_len(bytes))
    }

    /// The bytes hold a record: they are `GREETING_SPACE` long, the length
    /// they give is within the limit, and the message is well-formed UTF-8.
    /// What follows the message is not looked at.
    pub open spec fn decodable(bytes: Seq<u8>) -> bool {
        &&& bytes.len() == GREETING_SPACE
        &&& Self::stored_len(bytes) <= MAX_MESSAGE_LEN
        &&& valid_utf8(Self::stored_text(bytes))
    }

    /// The record that stored bytes hold, if they hold one.
    pub open spec fn from_bytes(bytes: Seq<u8>) -> Option<GreetingView> {
        if Self::decodable(bytes) {
            Some(
                GreetingView {
                    owner: bytes.subrange(0, 32),
                    count: u64_from_le(bytes.subrange(32, 40)),
                    message: decode_utf8(Self::stored_text(bytes)),
                },
            )
        } else {
            None
        }
    }

    /// Whether `signer` may change or close the record: only its owner may.
    pub open spec fn authorizes(self, signer: Seq<u8>) -> bool {
        self.owner == signer
    }

    /// The record after one more change, unless the count is at its end.
    pub open spec fn bump(self) -> Result<GreetingView, HelloError> {
        if self.count == u64::MAX {
            Err(HelloError::AmountOverflow)
        } else {
            Ok(GreetingView { count: (self.count + 1) as u64, ..self })
        }
    }

    /// The record after `signer` asks for a new message. The owner is looked
    /// at first, then the length of the message, then the count.
    pub open spec fn update_message(self, signer: Seq<u8>, message: Seq<char>) -> Result<
        GreetingView,
        HelloError,
    > {
        if !self.authorizes(signer) {
            Err(HelloError::Unauthorized)
        } else if encode_utf8(message).len() > MAX_MESSAGE_LEN {
            Err(HelloError::MessageTooLong)
        } else {
            (GreetingView { message, ..self }).bump()
        }
    }

    /// The record after `signer` asks for a change of the count alone.
    pub open spec fn increment_only(self, signer: Seq<u8>) -> Result<GreetingView, HelloError> {
        if !self.authorizes(signer) {
            Err(HelloError::Unauthorized)
        } else {
            self.bump()
        }
    }

    /// A storable record always takes `GREETING_SPACE` bytes.
    pub proof fn lemma_to_bytes_len(self)
        requires
            self.wf(),
        ensures
            self.to_bytes().len() == GREETING_SPACE,
    {
    }

    /// Reading what was written gives the record back.
    pub proof fn lemma_round_trip(self)
        requires
            self.wf(),
        ensures
            Self::from_bytes(self.to_bytes()) == Some(self),
    {
        let text = self.message_bytes();
        let bytes = self.to_bytes();
        let n = text.len() as u32;
        lemma_u64_le(self.count, Seq::empty());
        lemma_u32_le(n, Seq::empty());
        assert(bytes.subrange(0, 32) =~= self.owner);
        assert(bytes.subrange(32, 40) =~= u64_le(self.count));
        assert(bytes.subrange(40, 44) =~= u32_le(n));
        assert(Self::stored_len(bytes) == text.len());
        assert(Self::stored_text(bytes) =~= text);
        encode_utf8_valid_utf8(self.message);
        encode_utf8_decode_utf8(self.message);
    }

    /// Bytes that hold a record and end in zeros after the message are the
    /// stored form of that record: the storable records and such bytes
    /// correspond one to one.
    pub proof fn lemma_stored_form_is_unique(bytes: Seq<u8>)
        requires
            Self::decodable(bytes),
            bytes.subrange(44 + Self::stored_len(bytes), GREETING_SPACE as int) == zeros(
                (MAX_MESSAGE_LEN - Self::stored_len(bytes)) as nat,
            ),
        ensures
            Self::from_bytes(bytes).unwrap().to_bytes() == bytes,
    {
        let record = Self::from_bytes(bytes).unwrap();
        let text = Self::stored_text(bytes);
        lemma_u64_le(0, bytes.subrange(32, 40));
        lemma_u32_le(0, bytes.subrange(40, 44));
        decode_utf8_encode_utf8(text);
        assert(record.message_bytes() == text);
        assert(u64_le(record.count) == bytes.subrange(32, 40));
        assert(u32_le(text.len() as u32) == bytes.subrange(40, 44));
        assert(record.to_bytes() =~= bytes);
    }

    /// What stored bytes hold is a storable record.
    pub proof fn lemma_from_bytes_wf(bytes: Seq<u8>)
        requires
            Self::decodable(bytes),
        ensures
            Self::from_bytes(bytes).unwrap().wf(),
    {
        decode_utf8_encode_utf8(Self::stored_text(bytes));
    }
}

impl Greeting {
    /// The bytes to reserve for one record.
    pub fn space() -> (size: usize)
        ensures
            size == GREETING_SPACE,
            size == 32 + 8 + 4 + MAX_MESSAGE_LEN,
    {
        32 + 8 + 4 + MAX_MESSAGE_LEN
    }

    /// A new record for `owner`.
    pub fn new(owner: Pubkey) -> (greeting: Greeting)
        ensures
            greeting@ == GreetingView::fresh(owner@),
            greeting@.wf(),
    {
        let message = "Hello, Solana!".to_owned();
        proof {
            reveal_strlit("Hello, Solana!");
            lemma_default_message_fits();
        }
        Greeting { owner, count: 0, message }
    }

    /// The guard of every change: only the owner passes.
    pub fn authorize(&self, signer: &Pubkey) -> (allowed: Result<(), HelloError>)
        ensures
            match allowed {
                Ok(()) => self@.authorizes(signer@),
                Err(e) => !self@.authorizes(signer@) && e == HelloError::Unauthorized,
            },
    {
        if self.owner == *signer {
            Ok(())
        } else {
            Err(HelloError::Unauthorized)
        }
    }

    /// The record with `message` in place of its own and one more change
    /// counted, as `signer` asks for it.
    pub fn update_message(self, signer: &Pubkey, message: String) -> (next: Result<
        Greeting,
        HelloError,
    >)
        ensures
            match next {
                Ok(greeting) => self@.update_message(signer@, message@) == Ok::<
                    GreetingView,
                    HelloError,
                >(greeting@),
                Err(e) => self@.update_message(signer@, message@) == Err::<
                    GreetingView,
                    HelloError,
                >(e),
            },
    {
        if self.owner != *signer {
            return Err(HelloError::Unauthorized);
        }
        if message.as_str().as_bytes().len() > MAX_MESSAGE_LEN {
            return Err(HelloError::MessageTooLong);
        }
        match self.count.checked_add(1) {
            Some(count) => Ok(Greeting { owner: self.owner, count, message }),
            None => Err(HelloError::AmountOverflow),
        }
    }

    /// The record with one more change counted, as `signer` asks for it.
    pub fn increment_only(self, signer: &Pubkey) -> (next: Result<Greeting, HelloError>)
        ensures
            match next {
                Ok(greeting) => self@.increment_only(signer@) == Ok::<GreetingView, HelloError>(
                    greeting@,
                ),
                Err(e) => self@.increment_only(signer@) == Err::<GreetingView, HelloError>(e),
            },
    {
        if self.owner != *signer {
            return Err(HelloError::Unauthorized);
        }
        match self.count.checked_add(1) {
            Some(count) => Ok(Greeting { owner: self.owner, count, message: self.message }),
            None => Err(HelloError::AmountOverflow),
        }
    }

    /// The stored form of the record, if its message is within the limit.
    pub fn try_to_vec(&self) -> (stored: Result<Vec<u8>, ProgramError>)
        ensures
            match stored {
                Ok(bytes) => self@.message_fits() && bytes@ == self@.to_bytes(),
                Err(e) => !self@.message_fits() && e == ProgramError::BorshIoError,
            },
    {
        let text = self.message.as_str().as_bytes();
        let n = text.len();
        if n > MAX_MESSAGE_LEN {
            return Err(ProgramError::BorshIoError);
        }
        let mut out: Vec<u8> = Vec::new();
        let owner = self.owner.to_bytes();
        extend(&mut out, owner.as_slice());
        extend_u64_le(&mut out, self.count);
        extend_u32_le(&mut out, n as u32);
        extend(&mut out, text);
        extend_zeros(&mut out, MAX_MESSAGE_LEN - n);
        Ok(out)
    }

    /// Writes the record over a slot of `GREETING_SPACE` bytes. A slot of
    /// another size, or a message over the limit, leaves the slot as it was.
    pub fn serialize(&self, slot: &mut Vec<u8>) -> (written: Result<(), ProgramError>)
        ensures
            match written {
                Ok(()) => {
                    &&& old(slot)@.len() == GREETING_SPACE
                    &&& self@.message_fits()
                    &&& final(slot)@ == self@.to_bytes()
                },
                Err(e) => {
                    &&& !(old(slot)@.len() == GREETING_SPACE && self@.message_fits())
                    &&& e == ProgramError::BorshIoError
                    &&& *final(slot) == *old(slot)
                },
            },
    {
        if slot.len() != GREETING_SPACE {
            return Err(ProgramError::BorshIoError);
        }
        match self.try_to_vec() {
            Ok(bytes) => {
                *slot = bytes;
                Ok(())
            },
            Err(e) => Err(e),
        }
    }

    /// Reads the record that a slot holds.
    pub fn try_from_slice(data: &[u8]) -> (read: Result<Greeting, ProgramError>)
        ensures
            match read {
                Ok(greeting) => GreetingView::from_bytes(data@) == Some(greeting@),
                Err(e) => GreetingView::from_bytes(data@) is None && e
                    == ProgramError::BorshIoError,
            },
    {
        if data.len() != GREETING_SPACE {
            return Err(ProgramError::BorshIoError);
        }
        let len = read_u32_le(data, 40);
        if len > MAX_MESSAGE_LEN as u32 {
            return Err(ProgramError::BorshIoError);
        }
        let text = slice_to_vec(slice_subrange(data, 44, 44 + len as usize));
        match string_from_utf8(text) {
            None => Err(ProgramError::BorshIoError),
            Some(message) => {
                let owner = Pubkey::from_slice(slice_subrange(data, 0, 32)).unwrap();
                let count = read_u64_le(data, 32);
                Ok(Greeting { owner, count, message })
            },
        }
    }
}

/// The default message has 14 bytes, which is within the limit.
pub proof fn lemma_default_message_fits()
    ensures
        encode_utf8(default_message()).len() == 14,
        GreetingView::fresh(Seq::empty()).message_fits(),
{
    reveal_strlit("Hello, Solana!");
    let m = default_message();
    assert(is_ascii_chars(m));
    is_ascii_chars_encode_utf8(m);
}

} // verus!
