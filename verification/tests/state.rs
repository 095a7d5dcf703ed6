use hello_account::error::{HelloError, ProgramError};
use hello_account::pubkey::Pubkey;
use hello_account::state::{Greeting, GREETING_SPACE, MAX_MESSAGE_LEN};

fn owner() -> Pubkey {
    let mut bytes = [0u8; 32];
    for (i, b) in bytes.iter_mut().enumerate() {
        *b = 100 + i as u8;
    }
    Pubkey::new_from_array(bytes)
}

fn greeting(count: u64, message: &str) -> Greeting {
    Greeting { owner: owner(), count, message: String::from(message) }
}

#[test]
fn space_is_244() {
    assert_eq!(Greeting::space(), 244);
    assert_eq!(Greeting::space(), 32 + 8 + 4 + 200);
    assert_eq!(GREETING_SPACE, 244);
    assert_eq!(MAX_MESSAGE_LEN, 200);
}

#[test]
fn new_record_has_the_defaults() {
    let g = Greeting::new(owner());
    assert_eq!(g.owner, owner());
    assert_eq!(g.count, 0);
    assert_eq!(g.message, "Hello, Solana!");
}

#[test]
fn stored_form_is_laid_out_field_by_field() {
    let bytes = greeting(0x0102030405060708, "hey").try_to_vec().unwrap();
    assert_eq!(bytes.len(), 244);
    assert_eq!(&bytes[0..32], &owner().to_bytes()[..]);
    assert_eq!(&bytes[32..40], &[8u8, 7, 6, 5, 4, 3, 2, 1][..]);
    assert_eq!(&bytes[40..44], &[3u8, 0, 0, 0][..]);
    assert_eq!(&bytes[44..47], b"hey");
    assert!(bytes[47..].iter().all(|b| *b == 0));
}

#[test]
fn stored_form_has_one_size_for_every_message() {
    for len in [0usize, 1, 14, 199, 200] {
        let g = greeting(7, &"m".repeat(len));
        assert_eq!(g.try_to_vec().unwrap().len(), 244);
    }
}

#[test]
fn stored_form_starts_as_borsh_writes_the_fields() {
    for (count, message) in [(0u64, ""), (1, "Hello, Solana!"), (u64::MAX, "grüße"), (77, "日本語")]
    {
        let ours = greeting(count, message).try_to_vec().unwrap();
        let theirs = borsh::to_vec(&(owner().to_bytes(), count, String::from(message))).unwrap();
        assert_eq!(&ours[..theirs.len()], &theirs[..]);
        assert!(ours[theirs.len()..].iter().all(|b| *b == 0));
    }
}

#[test]
fn borsh_reads_the_fields_from_the_stored_form() {
    let ours = greeting(42, "over the wire").try_to_vec().unwrap();
    let mut rest: &[u8] = &ours;
    let (o, c, m): ([u8; 32], u64, String) = borsh::BorshDeserialize::deserialize(&mut rest).unwrap();
    assert_eq!(o, owner().to_bytes());
    assert_eq!(c, 42);
    assert_eq!(m, "over the wire");
}

#[test]
fn reading_gives_back_what_was_written() {
    for (count, message) in
        [(0u64, String::new()), (1, String::from("Hello, Solana!")), (u64::MAX, "é".repeat(100))]
    {
        let g = Greeting { owner: owner(), count, message: message.clone() };
        let back = Greeting::try_from_slice(&g.try_to_vec().unwrap()).unwrap();
        assert_eq!(back.owner, owner());
        assert_eq!(back.count, count);
        assert_eq!(back.message, message);
    }
}

#[test]
fn message_over_the_limit_cannot_be_stored() {
    let g = greeting(0, &"x".repeat(201));
    assert_eq!(g.try_to_vec().unwrap_err(), ProgramError::BorshIoError);
    let mut slot = vec![9u8; 244];
    assert_eq!(g.serialize(&mut slot).unwrap_err(), ProgramError::BorshIoError);
    assert_eq!(slot, vec![9u8; 244]);
}

#[test]
fn serialize_writes_the_whole_slot() {
    let g = greeting(3, "abc");
    let mut slot = vec![0xeeu8; 244];
    g.serialize(&mut slot).unwrap();
    assert_eq!(slot, g.try_to_vec().unwrap());
}

#[test]
fn serialize_refuses_a_slot_of_another_size() {
    let g = greeting(3, "abc");
    for len in [0usize, 58, 243, 245] {
        let mut slot = vec![1u8; len];
        assert_eq!(g.serialize(&mut slot).unwrap_err(), ProgramError::BorshIoError);
        assert_eq!(slot, vec![1u8; len]);
    }
}

#[test]
fn truncated_or_oversized_buffers_hold_no_record() {
    let bytes = greeting(3, "abc").try_to_vec().unwrap();
    assert!(Greeting::try_from_slice(&bytes).is_ok());
    assert_eq!(Greeting::try_from_slice(&bytes[..243]).unwrap_err(), ProgramError::BorshIoError);
    assert_eq!(Greeting::try_from_slice(&bytes[..47]).unwrap_err(), ProgramError::BorshIoError);
    assert_eq!(Greeting::try_from_slice(&[]).unwrap_err(), ProgramError::BorshIoError);
    let mut longer = bytes.clone();
    longer.push(0);
    assert_eq!(Greeting::try_from_slice(&longer).unwrap_err(), ProgramError::BorshIoError);
}

#[test]
fn length_over_the_limit_holds_no_record() {
    let mut bytes = greeting(3, "abc").try_to_vec().unwrap();
    bytes[40] = 201;
    assert_eq!(Greeting::try_from_slice(&bytes).unwrap_err(), ProgramError::BorshIoError);
    bytes[40] = 200;
    assert_eq!(Greeting::try_from_slice(&bytes).unwrap().message.len(), 200);
    bytes[40] = 3;
    bytes[43] = 1;
    assert_eq!(Greeting::try_from_slice(&bytes).unwrap_err(), ProgramError::BorshIoError);
}

#[test]
fn message_that_is_not_utf8_holds_no_record() {
    let mut bytes = greeting(3, "abc").try_to_vec().unwrap();
    bytes[45] = 0xff;
    assert_eq!(Greeting::try_from_slice(&bytes).unwrap_err(), ProgramError::BorshIoError);
    bytes[45] = 0xc3;
    bytes[46] = 0xa9;
    assert_eq!(Greeting::try_from_slice(&bytes).unwrap().message, "aé");
}

#[test]
fn bytes_after_the_message_are_not_significant() {
    let mut bytes = greeting(3, "abc").try_to_vec().unwrap();
    for b in bytes[47..].iter_mut() {
        *b = 0xff;
    }
    let g = Greeting::try_from_slice(&bytes).unwrap();
    assert_eq!(g.message, "abc");
    assert_eq!(g.count, 3);
}

#[test]
fn zeroed_slot_of_full_size_reads_as_an_empty_record() {
    let g = Greeting::try_from_slice(&[0u8; 244]).unwrap();
    assert_eq!(g.owner, Pubkey::new_from_array([0; 32]));
    assert_eq!(g.count, 0);
    assert_eq!(g.message, "");
}

#[test]
fn only_the_owner_is_authorized() {
    let g = greeting(0, "x");
    assert_eq!(g.authorize(&owner()), Ok(()));
    assert_eq!(g.authorize(&Pubkey::new_from_array([1; 32])), Err(HelloError::Unauthorized));
}

#[test]
fn update_message_counts_and_replaces() {
    let g = greeting(41, "old").update_message(&owner(), String::from("new")).unwrap();
    assert_eq!(g.count, 42);
    assert_eq!(g.message, "new");
    assert_eq!(g.owner, owner());
}

#[test]
fn update_message_checks_owner_then_length_then_count() {
    let stranger = Pubkey::new_from_array([1; 32]);
    let long = "x".repeat(201);
    assert_eq!(
        greeting(u64::MAX, "old").update_message(&stranger, long.clone()).unwrap_err(),
        HelloError::Unauthorized
    );
    assert_eq!(
        greeting(u64::MAX, "old").update_message(&owner(), long).unwrap_err(),
        HelloError::MessageTooLong
    );
    assert_eq!(
        greeting(u64::MAX, "old").update_message(&owner(), String::from("ok")).unwrap_err(),
        HelloError::AmountOverflow
    );
}

#[test]
fn increment_only_keeps_the_message() {
    let g = greeting(9, "kept").increment_only(&owner()).unwrap();
    assert_eq!(g.count, 10);
    assert_eq!(g.message, "kept");
    assert_eq!(
        greeting(9, "kept").increment_only(&Pubkey::new_from_array([1; 32])).unwrap_err(),
        HelloError::Unauthorized
    );
    assert_eq!(
        greeting(u64::MAX, "kept").increment_only(&owner()).unwrap_err(),
        HelloError::AmountOverflow
    );
}
