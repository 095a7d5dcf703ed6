use crate::account::{views, AccountInfo, AccountView};
use crate::error::{HelloError, ProgramError};
use crate::instruction::{HelloInstruction, InstructionView};
use crate::pubkey::Pubkey;
use crate::state::{Greeting, GreetingView, GREETING_SPACE};
use vstd::prelude::*;

verus! {

/// What is left for the caller to do once an operation was accepted.
#[derive(Debug, Clone, Copy)]
pub enum Step {
    /// Nothing: the handles hold the result.
    Done,
    /// Have the allocator reserve `space` bytes for `account`, paid for by
    /// `payer` and assigned to the program `program_id`; then hand the
    /// handles, with the reserved slot, to `Processor::complete_initialize`
    /// together with `owner`.
    Create { payer: Pubkey, account: Pubkey, space: usize, program_id: Pubkey, owner: Pubkey },
}

/// A step as a mathematical value.
pub enum StepView {
    Done,
    Create { payer: Seq<u8>, account: Seq<u8>, space: usize, program_id: Seq<u8>, owner: Seq<u8> },
}

impl View for Step {
    type V = StepView;

    open spec fn view(&self) -> StepView {
        match self {
            Step::Done => StepView::Done,
            Step::Create { payer, account, space, program_id, owner } => StepView::Create {
                payer: payer@,
                account: account@,
                space: *space,
                program_id: program_id@,
                owner: owner@,
            },
        }
    }
}

/// What an operation answers, and the handles as it leaves them.
pub struct Outcome {
    pub result: Result<StepView, ProgramError>,
    pub accounts: Seq<AccountView>,
}

impl Outcome {
    /// A failure: the handles stay as they were.
    pub open spec fn fail(e: ProgramError, accounts: Seq<AccountView>) -> Outcome {
        Outcome { result: Err(e), accounts }
    }

    /// A failure that the program names.
    pub open spec fn refuse(e: HelloError, accounts: Seq<AccountView>) -> Outcome {
        Outcome::fail(ProgramError::Custom(e.spec_code()), accounts)
    }

    /// A success with nothing left to do.
    pub open spec fn done(accounts: Seq<AccountView>) -> Outcome {
        Outcome { result: Ok(StepView::Done), accounts }
    }
}

/// The answer of an operation as a mathematical value.
pub open spec fn answer(result: Result<Step, ProgramError>) -> Result<StepView, ProgramError> {
    match result {
        Ok(step) => Ok(step@),
        Err(e) => Err(e),
    }
}

/// The record that a signed request is about. The list must hold `needed`
/// handles, the first one must have signed, and the second one must hold a
/// record; these are looked at in this order.
pub open spec fn signed_record(accounts: Seq<AccountView>, needed: int) -> Result<
    GreetingView,
    ProgramError,
> {
    if accounts.len() < needed {
        Err(ProgramError::NotEnoughAccountKeys)
    } else if !accounts[0].is_signer {
        Err(ProgramError::MissingRequiredSignature)
    } else {
        match GreetingView::from_bytes(accounts[1].data) {
            Some(record) => Ok(record),
            None => Err(ProgramError::BorshIoError),
        }
    }
}

/// The handles with `record` written over the slot, the second handle.
pub open spec fn stored(accounts: Seq<AccountView>, record: GreetingView) -> Seq<AccountView> {
    accounts.update(1, AccountView { data: record.to_bytes(), ..accounts[1] })
}

/// The handles after the slot, the second handle, gave its whole balance to
/// the recipient, the third one, and its storage up.
pub open spec fn closed(accounts: Seq<AccountView>) -> Seq<AccountView> {
    accounts.update(
        2,
        AccountView {
            lamports: (accounts[2].lamports + accounts[1].lamports) as u64,
            ..accounts[2]
        },
    ).update(1, AccountView { lamports: 0, data: Seq::empty(), ..accounts[1] })
}

/// The program's operations on a list of account handles.
pub struct Processor;

impl Processor {
    /// Creation up to the reservation: three handles, of which the first has
    /// signed. Nothing is read from the slot and nothing is written yet.
    pub open spec fn spec_initialize(
        program_id: Seq<u8>,
        accounts: Seq<AccountView>,
        owner: Seq<u8>,
    ) -> Outcome {
        if accounts.len() < 3 {
            Outcome::fail(ProgramError::NotEnoughAccountKeys, accounts)
        } else if !accounts[0].is_signer {
            Outcome::fail(ProgramError::MissingRequiredSignature, accounts)
        } else {
            Outcome {
                result: Ok(
                    StepView::Create {
                        payer: accounts[0].key,
                        account: accounts[1].key,
                        space: GREETING_SPACE,
                        program_id,
                        owner,
                    },
                ),
                accounts,
            }
        }
    }

    /// Creation after the reservation: the new record is written over the
    /// slot, which must have the size of a record.
    pub open spec fn spec_complete_initialize(accounts: Seq<AccountView>, owner: Seq<u8>) -> Outcome {
        if accounts.len() < 2 {
            Outcome::fail(ProgramError::NotEnoughAccountKeys, accounts)
        } else if accounts[1].data.len() != GREETING_SPACE {
            Outcome::fail(ProgramError::BorshIoError, accounts)
        } else {
            Outcome::done(stored(accounts, GreetingView::fresh(owner)))
        }
    }

    pub open spec fn spec_update_message(accounts: Seq<AccountView>, message: Seq<char>) -> Outcome {
        match signed_record(accounts, 2) {
            Err(e) => Outcome::fail(e, accounts),
            Ok(record) => match record.update_message(accounts[0].key, message) {
                Err(e) => Outcome::refuse(e, accounts),
                Ok(next) => Outcome::done(stored(accounts, next)),
            },
        }
    }

    pub open spec fn spec_increment_only(accounts: Seq<AccountView>) -> Outcome {
        match signed_record(accounts, 2) {
            Err(e) => Outcome::fail(e, accounts),
            Ok(record) => match record.increment_only(accounts[0].key) {
                Err(e) => Outcome::refuse(e, accounts),
                Ok(next) => Outcome::done(stored(accounts, next)),
            },
        }
    }

    /// Closing: the owner is looked at first, then the sum of the two
    /// balances, which must stay within 64 unsigned bits.
    pub open spec fn spec_close(accounts: Seq<AccountView>) -> Outcome {
        match signed_record(accounts, 3) {
            Err(e) => Outcome::fail(e, accounts),
            Ok(record) => if !record.authorizes(accounts[0].key) {
                Outcome::refuse(HelloError::Unauthorized, accounts)
            } else if accounts[2].lamports + accounts[1].lamports > u64::MAX {
                Outcome::refuse(HelloError::AmountOverflow, accounts)
            } else {
                Outcome::done(closed(accounts))
            },
        }
    }

    /// One encoded operation on a list of handles.
    pub open spec fn spec_process(
        program_id: Seq<u8>,
        accounts: Seq<AccountView>,
        instruction_data: Seq<u8>,
    ) -> Outcome {
        match InstructionView::unpack(instruction_data) {
            None => Outcome::refuse(HelloError::InvalidInstruction, accounts),
            Some(InstructionView::Initialize { owner }) => Self::spec_initialize(
                program_id,
                accounts,
                owner,
            ),
            Some(InstructionView::UpdateMessage { message }) => Self::spec_update_message(
                accounts,
                message,
            ),
            Some(InstructionView::IncrementOnly) => Self::spec_increment_only(accounts),
            Some(InstructionView::Close) => Self::spec_close(accounts),
        }
    }

    /// Decodes `instruction_data` and carries the operation out on
    /// `accounts`. A failure leaves every handle as it was.
    pub fn process(
        program_id: &Pubkey,
        accounts: &mut Vec<AccountInfo>,
        instruction_data: &[u8],
    ) -> (result: Result<Step, ProgramError>)
        ensures
            answer(result) == Self::spec_process(
                program_id@,
                views(old(accounts)@),
                instruction_data@,
            ).result,
            views(final(accounts)@) == Self::spec_process(
                program_id@,
                views(old(accounts)@),
                instruction_data@,
            ).accounts,
            result is Err ==> *final(accounts) == *old(accounts),
    {
        match HelloInstruction::unpack(instruction_data) {
            Err(e) => Err(e),
            Ok(HelloInstruction::Initialize { owner }) => Self::process_initialize(
                program_id,
                accounts,
                owner,
            ),
            Ok(HelloInstruction::UpdateMessage { message }) => Self::process_update_message(
                accounts,
                message,
            ),
            Ok(HelloInstruction::IncrementOnly) => Self::process_increment_only(accounts),
            Ok(HelloInstruction::Close) => Self::process_close(accounts),
        }
    }

    /// Accepts a creation and says what to reserve. No handle changes.
    pub fn process_initialize(
        program_id: &Pubkey,
        accounts: &Vec<AccountInfo>,
        owner: Pubkey,
    ) -> (result: Result<Step, ProgramError>)
        ensures
            answer(result) == Self::spec_initialize(program_id@, views(accounts@), owner@).result,
    {
        if accounts.len() < 3 {
            return Err(ProgramError::NotEnoughAccountKeys);
        }
        if !accounts[0].is_signer {
            return Err(ProgramError::MissingRequiredSignature);
        }
        Ok(
            Step::Create {
                payer: accounts[0].key,
                account: accounts[1].key,
                space: Greeting::space(),
                program_id: *program_id,
                owner,
            },
        )
    }

    /// Writes the record of a new account over its reserved slot.
    pub fn complete_initialize(accounts: &mut Vec<AccountInfo>, owner: Pubkey) -> (result: Result<
        (),
        ProgramError,
    >)
        ensures
            match result {
                Ok(()) => Self::spec_complete_initialize(views(old(accounts)@), owner@).result
                    == Ok::<StepView, ProgramError>(StepView::Done),
                Err(e) => Self::spec_complete_initialize(views(old(accounts)@), owner@).result
                    == Err::<StepView, ProgramError>(e),
            },
            views(final(accounts)@) == Self::spec_complete_initialize(
                views(old(accounts)@),
                owner@,
            ).accounts,
            result is Err ==> *final(accounts) == *old(accounts),
    {
        if accounts.len() < 2 {
            return Err(ProgramError::NotEnoughAccountKeys);
        }
        let greeting = Greeting::new(owner);
        Self::store(accounts, &greeting)
    }

    pub fn process_update_message(accounts: &mut Vec<AccountInfo>, message: String) -> (result:
        Result<Step, ProgramError>)
        ensures
            answer(result) == Self::spec_update_message(views(old(accounts)@), message@).result,
            views(final(accounts)@) == Self::spec_update_message(
                views(old(accounts)@),
                message@,
            ).accounts,
            result is Err ==> *final(accounts) == *old(accounts),
    {
        let greeting = match Self::signed_record(accounts, 2) {
            Ok(greeting) => greeting,
            Err(e) => { return Err(e); },
        };
        let signer = accounts[0].key;
        match greeting.update_message(&signer, message) {
            Err(e) => Err(ProgramError::from(e)),
            Ok(next) => {
                proof {
                    GreetingView::lemma_from_bytes_wf(old(accounts)@[1].data@);
                }
                match Self::store(accounts, &next) {
                    Ok(()) => Ok(Step::Done),
                    Err(e) => Err(e),
                }
            },
        }
    }

    pub fn process_increment_only(accounts: &mut Vec<AccountInfo>) -> (result: Result<
        Step,
        ProgramError,
    >)
        ensures
            answer(result) == Self::spec_increment_only(views(old(accounts)@)).result,
            views(final(accounts)@) == Self::spec_increment_only(views(old(accounts)@)).accounts,
            result is Err ==> *final(accounts) == *old(accounts),
    {
        let greeting = match Self::signed_record(accounts, 2) {
            Ok(greeting) => greeting,
            Err(e) => { return Err(e); },
        };
        let signer = accounts[0].key;
        match greeting.increment_only(&signer) {
            Err(e) => Err(ProgramError::from(e)),
            Ok(next) => {
                proof {
                    GreetingView::lemma_from_bytes_wf(old(accounts)@[1].data@);
                }
                match Self::store(accounts, &next) {
                    Ok(()) => Ok(Step::Done),
                    Err(e) => Err(e),
                }
            },
        }
    }

    pub fn process_close(accounts: &mut Vec<AccountInfo>) -> (result: Result<Step, ProgramError>)
        ensures
            answer(result) == Self::spec_close(views(old(accounts)@)).result,
            views(final(accounts)@) == Self::spec_close(views(old(accounts)@)).accounts,
            result is Err ==> *final(accounts) == *old(accounts),
    {
        let greeting = match Self::signed_record(accounts, 3) {
            Ok(greeting) => greeting,
            Err(e) => { return Err(e); },
        };
        let signer = accounts[0].key;
        match greeting.authorize(&signer) {
            Err(e) => { return Err(ProgramError::from(e)); },
            Ok(()) => {},
        }
        let total = match accounts[2].lamports.checked_add(accounts[1].lamports) {
            Some(total) => total,
            None => { return Err(ProgramError::from(HelloError::AmountOverflow)); },
        };
        accounts[2].lamports = total;
        accounts[1].lamports = 0;
        accounts[1].data = Vec::new();
        assert(views(accounts@) =~= closed(views(old(accounts)@)));
        Ok(Step::Done)
    }

    /// Reads the record that a signed request is about.
    fn signed_record(accounts: &Vec<AccountInfo>, needed: usize) -> (record: Result<
        Greeting,
        ProgramError,
    >)
        requires
            needed >= 2,
        ensures
            match record {
                Ok(greeting) => signed_record(views(accounts@), needed as int) == Ok::<
                    GreetingView,
                    ProgramError,
                >(greeting@),
                Err(e) => signed_record(views(accounts@), needed as int) == Err::<
                    GreetingView,
                    ProgramError,
                >(e),
            },
    {
        if accounts.len() < needed {
            return Err(ProgramError::NotEnoughAccountKeys);
        }
        if !accounts[0].is_signer {
            return Err(ProgramError::MissingRequiredSignature);
        }
        Greeting::try_from_slice(accounts[1].data.as_slice())
    }

    /// Writes `record` over the slot, the second handle.
    fn store(accounts: &mut Vec<AccountInfo>, record: &Greeting) -> (written: Result<
        (),
        ProgramError,
    >)
        requires
            old(accounts)@.len() >= 2,
            record@.wf(),
        ensures
            match written {
                Ok(()) => {
                    &&& old(accounts)@[1].data@.len() == GREETING_SPACE
                    &&& views(final(accounts)@) == stored(views(old(accounts)@), record@)
                },
                Err(e) => {
                    &&& old(accounts)@[1].data@.len() != GREETING_SPACE
                    &&& e == ProgramError::BorshIoError
                    &&& *final(accounts) == *old(accounts)
                },
            },
    {
        if accounts[1].data.len() != GREETING_SPACE {
            return Err(ProgramError::BorshIoError);
        }
        let written = record.serialize(&mut accounts[1].data);
        assert(written is Ok);
        assert(views(accounts@) =~= stored(views(old(accounts)@), record@));
        written
    }
}

} // verus!
