use crate::error::HelloError;
use crate::instruction::{HelloInstruction, InstructionView};
use crate::pubkey::Pubkey;
use crate::state::MAX_MESSAGE_LEN;
use vstd::prelude::*;
use vstd::string::*;
use vstd::utf8::*;

verus! {

/// One account of a request: who it is, whether it signs, whether the
/// operation may write to it.
#[derive(Debug, Clone, Copy)]
pub struct AccountMeta {
    pub pubkey: Pubkey,
    pub is_signer: bool,
    pub is_writable: bool,
}

impl AccountMeta {
    /// An account that the operation may write to.
    pub fn new(pubkey: Pubkey, is_signer: bool) -> (meta: AccountMeta)
        ensures
            meta == (AccountMeta { pubkey, is_signer, is_writable: true }),
    {
        AccountMeta { pubkey, is_signer, is_writable: true }
    }

    /// An account that the operation only reads.
    pub fn new_readonly(pubkey: Pubkey, is_signer: bool) -> (meta: AccountMeta)
        ensures
            meta == (AccountMeta { pubkey, is_signer, is_writable: false }),
    {
        AccountMeta { pubkey, is_signer, is_writable: false }
    }
}

/// A request to the program, ready to be signed and sent: the program, the
/// accounts in the order that the operation reads them, the encoded
/// operation.
#[derive(Debug)]
pub struct Instruction {
    pub program_id: Pubkey,
    pub accounts: Vec<AccountMeta>,
    pub data: Vec<u8>,
}

/// The request that creates the record `greeting_account` for `owner`. The
/// payer and the new account sign; the allocator `system_program` comes
/// third.
pub fn initialize_greeting(
    program_id: Pubkey,
    payer: Pubkey,
    greeting_account: Pubkey,
    system_program: Pubkey,
    owner: Pubkey,
) -> (request: Instruction)
    ensures
        request.program_id == program_id,
        request.accounts@ == seq![
            AccountMeta { pubkey: payer, is_signer: true, is_writable: true },
            AccountMeta { pubkey: greeting_account, is_signer: true, is_writable: true },
            AccountMeta { pubkey: system_program, is_signer: false, is_writable: false },
        ],
        request.data@ == (InstructionView::Initialize { owner: owner@ }).pack(),
        InstructionView::unpack(request.data@) == Some(
            InstructionView::Initialize { owner: owner@ },
        ),
{
    let instruction = HelloInstruction::Initialize { owner };
    let data = instruction.pack();
    let mut accounts: Vec<AccountMeta> = Vec::new();
    accounts.push(AccountMeta::new(payer, true));
    accounts.push(AccountMeta::new(greeting_account, true));
    accounts.push(AccountMeta::new_readonly(system_program, false));
    proof {
        instruction@.lemma_unpack_pack();
    }
    Instruction { program_id, accounts, data }
}

/// The request by which `payer` sets the message of `greeting_account`. A
/// message of more than 200 bytes is refused here, before anything is sent.
pub fn update_message(
    program_id: Pubkey,
    payer: Pubkey,
    greeting_account: Pubkey,
    message: String,
) -> (request: Result<Instruction, HelloError>)
    ensures
        match request {
            Ok(ix) => {
                &&& encode_utf8(message@).len() <= MAX_MESSAGE_LEN
                &&& ix.program_id == program_id
                &&& ix.accounts@ == seq![
                    AccountMeta { pubkey: payer, is_signer: true, is_writable: true },
                    AccountMeta { pubkey: greeting_account, is_signer: false, is_writable: true },
                ]
                &&& ix.data@ == (InstructionView::UpdateMessage { message: message@ }).pack()
                &&& InstructionView::unpack(ix.data@) == Some(
                    InstructionView::UpdateMessage { message: message@ },
                )
            },
            Err(e) => encode_utf8(message@).len() > MAX_MESSAGE_LEN && e
                == HelloError::MessageTooLong,
        },
{
    if message.as_str().as_bytes().len() > MAX_MESSAGE_LEN {
        return Err(HelloError::MessageTooLong);
    }
    let instruction = HelloInstruction::UpdateMessage { message };
    let data = instruction.pack();
    let mut accounts: Vec<AccountMeta> = Vec::new();
    accounts.push(AccountMeta::new(payer, true));
    accounts.push(AccountMeta::new(greeting_account, false));
    proof {
        instruction@.lemma_unpack_pack();
    }
    Ok(Instruction { program_id, accounts, data })
}

/// The request by which `payer` has a change of `greeting_account` counted.
pub fn increment_only(program_id: Pubkey, payer: Pubkey, greeting_account: Pubkey) -> (request:
    Instruction)
    ensures
        request.program_id == program_id,
        request.accounts@ == seq![
            AccountMeta { pubkey: payer, is_signer: true, is_writable: true },
            AccountMeta { pubkey: greeting_account, is_signer: false, is_writable: true },
        ],
        request.data@ == InstructionView::IncrementOnly.pack(),
        InstructionView::unpack(request.data@) == Some(InstructionView::IncrementOnly),
{
    let instruction = HelloInstruction::IncrementOnly;
    let data = instruction.pack();
    let mut accounts: Vec<AccountMeta> = Vec::new();
    accounts.push(AccountMeta::new(payer, true));
    accounts.push(AccountMeta::new(greeting_account, false));
    proof {
        instruction@.lemma_unpack_pack();
    }
    Instruction { program_id, accounts, data }
}

/// The request by which `payer` closes `greeting_account` and takes its
/// balance: the payer is the recipient too.
pub fn close_greeting(program_id: Pubkey, payer: Pubkey, greeting_account: Pubkey) -> (request:
    Instruction)
    ensures
        request.program_id == program_id,
        request.accounts@ == seq![
            AccountMeta { pubkey: payer, is_signer: true, is_writable: true },
            AccountMeta { pubkey: greeting_account, is_signer: false, is_writable: true },
            AccountMeta { pubkey: payer, is_signer: false, is_writable: true },
        ],
        request.data@ == InstructionView::Close.pack(),
        InstructionView::unpack(request.data@) == Some(InstructionView::Close),
{
    let instruction = HelloInstruction::Close;
    let data = instruction.pack();
    let mut accounts: Vec<AccountMeta> = Vec::new();
    accounts.push(AccountMeta::new(payer, true));
    accounts.push(AccountMeta::new(greeting_account, false));
    accounts.push(AccountMeta::new(payer, false));
    proof {
        instruction@.lemma_unpack_pack();
    }
    Instruction { program_id, accounts, data }
}

} // verus!
