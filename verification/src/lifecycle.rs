use crate::account::AccountView;
use crate::error::{HelloError, ProgramError};
use crate::instruction::InstructionView;
use crate::processor::{stored, Outcome, Processor, StepView};
use crate::state::{GreetingView, GREETING_SPACE, MAX_MESSAGE_LEN};
use vstd::prelude::*;
use vstd::utf8::*;

verus! {

/// The slot, the second handle, holds `record`.
pub open spec fn holds(accounts: Seq<AccountView>, record: GreetingView) -> bool {
    &&& accounts.len() >= 2
    &&& GreetingView::from_bytes(accounts[1].data) == Some(record)
}

/// Two lists differ at most in the bytes of the slot.
pub open spec fn same_but_slot_data(before: Seq<AccountView>, after: Seq<AccountView>) -> bool {
    &&& after.len() == before.len()
    &&& forall|i: int| 0 <= i < before.len() && i != 1 ==> after[i] == before[i]
    &&& before.len() >= 2 ==> after[1] == (AccountView { data: after[1].data, ..before[1] })
}

/// Writing a storable record over the slot makes the slot hold it, and
/// changes nothing else.
pub proof fn lemma_stored_holds(accounts: Seq<AccountView>, record: GreetingView)
    requires
        accounts.len() >= 2,
        record.wf(),
    ensures
        holds(stored(accounts, record), record),
        stored(accounts, record)[1].data.len() == GREETING_SPACE,
        same_but_slot_data(accounts, stored(accounts, record)),
{
    record.lemma_round_trip();
    record.lemma_to_bytes_len();
}

/// A signed creation with three handles is accepted for every owner: it
/// asks for the reservation of a record's space for the slot and changes no
/// handle.
pub proof fn lemma_initialize_accepted(
    program_id: Seq<u8>,
    accounts: Seq<AccountView>,
    owner: Seq<u8>,
)
    requires
        owner.len() == 32,
        accounts.len() >= 3,
        accounts[0].is_signer,
    ensures
        Processor::spec_process(
            program_id,
            accounts,
            (InstructionView::Initialize { owner }).pack(),
        ) == (Outcome {
            result: Ok(
                StepView::Create {
                    payer: accounts[0].key,
                    account: accounts[1].key,
                    space: GREETING_SPACE,
                    program_id,
                    owner,
                },
            ),
            accounts,
        }),
{
    (InstructionView::Initialize { owner }).lemma_unpack_pack();
}

/// After a creation for `owner` on a reserved slot, a read of the slot
/// gives count 0, the default message and `owner`, whatever the slot held.
pub proof fn lemma_initialize_then_read(accounts: Seq<AccountView>, owner: Seq<u8>)
    requires
        owner.len() == 32,
        accounts.len() >= 2,
        accounts[1].data.len() == GREETING_SPACE,
    ensures
        Processor::spec_complete_initialize(accounts, owner).result == Ok::<
            StepView,
            ProgramError,
        >(StepView::Done),
        holds(
            Processor::spec_complete_initialize(accounts, owner).accounts,
            GreetingView::fresh(owner),
        ),
        GreetingView::fresh(owner).count == 0,
        GreetingView::fresh(owner).message == "Hello, Solana!"@,
        GreetingView::fresh(owner).owner == owner,
        same_but_slot_data(accounts, Processor::spec_complete_initialize(accounts, owner).accounts),
{
    crate::state::lemma_default_message_fits();
    lemma_stored_holds(accounts, GreetingView::fresh(owner));
}

/// A message of at most 200 bytes, sent by the owner of an active record
/// whose count is not at its end, replaces the message and adds exactly one
/// to the count. Nothing else changes, and the record stays active, so the
/// same holds of the next message.
pub proof fn lemma_update_by_owner(
    accounts: Seq<AccountView>,
    record: GreetingView,
    message: Seq<char>,
)
    requires
        holds(accounts, record),
        accounts[0].is_signer,
        accounts[0].key == record.owner,
        encode_utf8(message).len() <= MAX_MESSAGE_LEN,
        record.count < u64::MAX,
    ensures
        Processor::spec_update_message(accounts, message).result == Ok::<StepView, ProgramError>(
            StepView::Done,
        ),
        holds(
            Processor::spec_update_message(accounts, message).accounts,
            GreetingView { owner: record.owner, count: (record.count + 1) as u64, message },
        ),
        same_but_slot_data(accounts, Processor::spec_update_message(accounts, message).accounts),
{
    GreetingView::lemma_from_bytes_wf(accounts[1].data);
    let next = GreetingView { owner: record.owner, count: (record.count + 1) as u64, message };
    assert(record.update_message(accounts[0].key, message) == Ok::<GreetingView, HelloError>(next));
    lemma_stored_holds(accounts, next);
}

/// Two messages in a row from the owner add two to the count and leave the
/// second message: each call has its effect, none is absorbed.
pub proof fn lemma_update_repeats(
    accounts: Seq<AccountView>,
    record: GreetingView,
    first: Seq<char>,
    second: Seq<char>,
)
    requires
        holds(accounts, record),
        accounts[0].is_signer,
        accounts[0].key == record.owner,
        encode_utf8(first).len() <= MAX_MESSAGE_LEN,
        encode_utf8(second).len() <= MAX_MESSAGE_LEN,
        record.count + 1 < u64::MAX,
    ensures
        ({
            let once = Processor::spec_update_message(accounts, first);
            let twice = Processor::spec_update_message(once.accounts, second);
            &&& once.result is Ok
            &&& twice.result is Ok
            &&& holds(
                twice.accounts,
                GreetingView {
                    owner: record.owner,
                    count: (record.count + 2) as u64,
                    message: second,
                },
            )
        }),
{
    lemma_update_by_owner(accounts, record, first);
    let once = Processor::spec_update_message(accounts, first);
    let middle = GreetingView {
        owner: record.owner,
        count: (record.count + 1) as u64,
        message: first,
    };
    lemma_update_by_owner(once.accounts, middle, second);
}

/// A change of the count alone, sent by the owner of an active record whose
/// count is not at its end, adds exactly one to the count and leaves the
/// message.
pub proof fn lemma_increment_by_owner(accounts: Seq<AccountView>, record: GreetingView)
    requires
        holds(accounts, record),
        accounts[0].is_signer,
        accounts[0].key == record.owner,
        record.count < u64::MAX,
    ensures
        Processor::spec_increment_only(accounts).result == Ok::<StepView, ProgramError>(
            StepView::Done,
        ),
        holds(
            Processor::spec_increment_only(accounts).accounts,
            GreetingView { count: (record.count + 1) as u64, ..record },
        ),
        same_but_slot_data(accounts, Processor::spec_increment_only(accounts).accounts),
{
    GreetingView::lemma_from_bytes_wf(accounts[1].data);
    let next = GreetingView { count: (record.count + 1) as u64, ..record };
    assert(record.increment_only(accounts[0].key) == Ok::<GreetingView, HelloError>(next));
    lemma_stored_holds(accounts, next);
}

/// A message or a change of the count from a signer who is not the owner of
/// the active record fails with `Unauthorized`, whatever the message, and
/// leaves every handle, the bytes of the slot among them, as it was.
pub proof fn lemma_stranger_refused(
    accounts: Seq<AccountView>,
    record: GreetingView,
    message: Seq<char>,
)
    requires
        holds(accounts, record),
        accounts[0].is_signer,
        accounts[0].key != record.owner,
    ensures
        Processor::spec_update_message(accounts, message) == Outcome::refuse(
            HelloError::Unauthorized,
            accounts,
        ),
        Processor::spec_increment_only(accounts) == Outcome::refuse(
            HelloError::Unauthorized,
            accounts,
        ),
        Outcome::refuse(HelloError::Unauthorized, accounts).accounts == accounts,
{
}

/// A message of more than 200 bytes from the owner of an active record
/// fails with `MessageTooLong` and leaves every handle as it was.
pub proof fn lemma_long_message_refused(
    accounts: Seq<AccountView>,
    record: GreetingView,
    message: Seq<char>,
)
    requires
        holds(accounts, record),
        accounts[0].is_signer,
        accounts[0].key == record.owner,
        encode_utf8(message).len() > MAX_MESSAGE_LEN,
    ensures
        Processor::spec_update_message(accounts, message) == Outcome::refuse(
            HelloError::MessageTooLong,
            accounts,
        ),
        Outcome::refuse(HelloError::MessageTooLong, accounts).accounts == accounts,
{
}

/// The handles after `n` changes of the count in a row, each made only if
/// the one before it succeeded.
pub open spec fn increments(accounts: Seq<AccountView>, n: nat) -> Outcome
    decreases n,
{
    if n == 0 {
        Outcome::done(accounts)
    } else {
        let before = increments(accounts, (n - 1) as nat);
        if before.result is Ok {
            Processor::spec_increment_only(before.accounts)
        } else {
            before
        }
    }
}

/// From a new record, `n` changes of the count by its owner all succeed and
/// leave the count at exactly `n`, for every `n` that 64 unsigned bits hold.
pub proof fn lemma_count_is_number_of_increments(
    accounts: Seq<AccountView>,
    owner: Seq<u8>,
    n: nat,
)
    requires
        holds(accounts, GreetingView::fresh(owner)),
        accounts[0].is_signer,
        accounts[0].key == owner,
        n <= u64::MAX,
    ensures
        increments(accounts, n).result == Ok::<StepView, ProgramError>(StepView::Done),
        holds(
            increments(accounts, n).accounts,
            GreetingView { count: n as u64, ..GreetingView::fresh(owner) },
        ),
        same_but_slot_data(accounts, increments(accounts, n).accounts),
    decreases n,
{
    if n > 0 {
        lemma_count_is_number_of_increments(accounts, owner, (n - 1) as nat);
        let before = increments(accounts, (n - 1) as nat);
        let record = GreetingView { count: (n - 1) as u64, ..GreetingView::fresh(owner) };
        lemma_increment_by_owner(before.accounts, record);
    }
}

/// With the count at the end of its range, one more change by the owner,
/// with or without a message, fails with `AmountOverflow` and leaves every
/// handle, and so the count, as it was.
pub proof fn lemma_count_overflow_refused(
    accounts: Seq<AccountView>,
    record: GreetingView,
    message: Seq<char>,
)
    requires
        holds(accounts, record),
        accounts[0].is_signer,
        accounts[0].key == record.owner,
        record.count == u64::MAX,
        encode_utf8(message).len() <= MAX_MESSAGE_LEN,
    ensures
        Processor::spec_increment_only(accounts) == Outcome::refuse(
            HelloError::AmountOverflow,
            accounts,
        ),
        Processor::spec_update_message(accounts, message) == Outcome::refuse(
            HelloError::AmountOverflow,
            accounts,
        ),
        holds(Outcome::refuse(HelloError::AmountOverflow, accounts).accounts, record),
{
}

/// Closing by the owner empties the slot and moves its whole balance to the
/// recipient, the third handle; the first handle and any further ones stay
/// as they were. The slot then holds no record, so a message, a change of
/// the count or another closing fails on it.
pub proof fn lemma_close_by_owner(
    accounts: Seq<AccountView>,
    record: GreetingView,
    message: Seq<char>,
)
    requires
        holds(accounts, record),
        accounts.len() >= 3,
        accounts[0].is_signer,
        accounts[0].key == record.owner,
        accounts[2].lamports + accounts[1].lamports <= u64::MAX,
    ensures
        ({
            let after = Processor::spec_close(accounts);
            &&& after.result == Ok::<StepView, ProgramError>(StepView::Done)
            &&& after.accounts.len() == accounts.len()
            &&& after.accounts[1] == (AccountView {
                lamports: 0,
                data: Seq::empty(),
                ..accounts[1]
            })
            &&& after.accounts[2] == (AccountView {
                lamports: (accounts[2].lamports + accounts[1].lamports) as u64,
                ..accounts[2]
            })
            &&& forall|i: int|
                0 <= i < accounts.len() && i != 1 && i != 2 ==> after.accounts[i] == accounts[i]
            &&& GreetingView::from_bytes(after.accounts[1].data) is None
            &&& Processor::spec_update_message(after.accounts, message) == Outcome::fail(
                ProgramError::BorshIoError,
                after.accounts,
            )
            &&& Processor::spec_increment_only(after.accounts) == Outcome::fail(
                ProgramError::BorshIoError,
                after.accounts,
            )
            &&& Processor::spec_close(after.accounts) == Outcome::fail(
                ProgramError::BorshIoError,
                after.accounts,
            )
        }),
{
}

/// A buffer whose tag is none of 0, 1, 2 and 3 fails with
/// `InvalidInstruction` for every payload and every list of handles, and so
/// does the empty buffer; the handles stay as they were.
pub proof fn lemma_unknown_tag_refused(
    program_id: Seq<u8>,
    accounts: Seq<AccountView>,
    instruction_data: Seq<u8>,
)
    requires
        instruction_data.len() == 0 || instruction_data[0] > 3,
    ensures
        InstructionView::unpack(instruction_data) is None,
        Processor::spec_process(program_id, accounts, instruction_data) == Outcome::refuse(
            HelloError::InvalidInstruction,
            accounts,
        ),
{
}

/// The handle is that of an active slot: its bytes hold a record.
pub open spec fn active(account: AccountView) -> bool {
    GreetingView::from_bytes(account.data) is Some
}

/// Whatever succeeds keeps to the life of a record. A creation asks for the
/// reservation and writes nothing. A message and a change of the count come
/// from the signing owner of an active slot, leave the slot active with the
/// same owner and add exactly one to the count. A closing comes from the
/// signing owner of an active slot and leaves the slot without a record.
pub proof fn lemma_success_follows_the_life_of_a_record(
    program_id: Seq<u8>,
    accounts: Seq<AccountView>,
    instruction_data: Seq<u8>,
)
    requires
        Processor::spec_process(program_id, accounts, instruction_data).result is Ok,
    ensures
        ({
            let after = Processor::spec_process(program_id, accounts, instruction_data).accounts;
            let before = GreetingView::from_bytes(accounts[1].data);
            match InstructionView::unpack(instruction_data) {
                None => false,
                Some(InstructionView::Initialize { owner }) => after == accounts,
                Some(InstructionView::UpdateMessage { message }) => {
                    &&& accounts.len() >= 2
                    &&& accounts[0].is_signer
                    &&& before matches Some(record)
                    &&& accounts[0].key == record.owner
                    &&& holds(
                        after,
                        GreetingView {
                            owner: record.owner,
                            count: (record.count + 1) as u64,
                            message,
                        },
                    )
                    &&& record.count + 1 <= u64::MAX
                    &&& same_but_slot_data(accounts, after)
                },
                Some(InstructionView::IncrementOnly) => {
                    &&& accounts.len() >= 2
                    &&& accounts[0].is_signer
                    &&& before matches Some(record)
                    &&& accounts[0].key == record.owner
                    &&& holds(after, GreetingView { count: (record.count + 1) as u64, ..record })
                    &&& record.count + 1 <= u64::MAX
                    &&& same_but_slot_data(accounts, after)
                },
                Some(InstructionView::Close) => {
                    &&& accounts.len() >= 3
                    &&& accounts[0].is_signer
                    &&& before matches Some(record)
                    &&& accounts[0].key == record.owner
                    &&& after.len() == accounts.len()
                    &&& !active(after[1])
                    &&& after[1].data.len() == 0
                    &&& after[1].lamports == 0
                    &&& after[2].lamports == accounts[2].lamports + accounts[1].lamports
                },
            }
        }),
{
    let before = GreetingView::from_bytes(accounts[1].data);
    match InstructionView::unpack(instruction_data) {
        Some(InstructionView::UpdateMessage { message }) => {
            lemma_update_by_owner(accounts, before.unwrap(), message);
        },
        Some(InstructionView::IncrementOnly) => {
            lemma_increment_by_owner(accounts, before.unwrap());
        },
        _ => {},
    }
}

/// Whatever an operation fails with, it leaves every handle as it was.
pub proof fn lemma_failure_changes_nothing(
    program_id: Seq<u8>,
    accounts: Seq<AccountView>,
    instruction_data: Seq<u8>,
)
    requires
        Processor::spec_process(program_id, accounts, instruction_data).result is Err,
    ensures
        Processor::spec_process(program_id, accounts, instruction_data).accounts == accounts,
{
}

} // verus!
