use hello_account::client::{
    close_greeting, increment_only, initialize_greeting, update_message, AccountMeta,
};
use hello_account::error::{HelloError, ProgramError};
use hello_account::instruction::HelloInstruction;
use hello_account::pubkey::Pubkey;

fn key(seed: u8) -> Pubkey {
    Pubkey::new_from_array([seed; 32])
}

fn invalid() -> ProgramError {
    ProgramError::from(HelloError::InvalidInstruction)
}

fn meta(m: &AccountMeta) -> (Pubkey, bool, bool) {
    (m.pubkey, m.is_signer, m.is_writable)
}

#[test]
fn unpack_initialize_takes_32_bytes_of_owner() {
    let mut data = vec![0u8];
    let owner: Vec<u8> = (1..=32).collect();
    data.extend_from_slice(&owner);
    match HelloInstruction::unpack(&data).unwrap() {
        HelloInstruction::Initialize { owner: o } => assert_eq!(o.to_bytes().to_vec(), owner),
        other => panic!("{:?}", other),
    }
    data.extend_from_slice(&[9, 9, 9]);
    match HelloInstruction::unpack(&data).unwrap() {
        HelloInstruction::Initialize { owner: o } => assert_eq!(o.to_bytes().to_vec(), owner),
        other => panic!("{:?}", other),
    }
}

#[test]
fn unpack_initialize_with_a_short_owner_fails() {
    for len in [0usize, 1, 31] {
        let mut data = vec![0u8];
        data.extend_from_slice(&vec![5u8; len]);
        assert_eq!(HelloInstruction::unpack(&data).unwrap_err(), invalid());
    }
}

#[test]
fn unpack_update_message_reads_the_rest_as_text() {
    let mut data = vec![1u8];
    data.extend_from_slice("héllo, wörld".as_bytes());
    match HelloInstruction::unpack(&data).unwrap() {
        HelloInstruction::UpdateMessage { message } => assert_eq!(message, "héllo, wörld"),
        other => panic!("{:?}", other),
    }
    match HelloInstruction::unpack(&[1u8]).unwrap() {
        HelloInstruction::UpdateMessage { message } => assert_eq!(message, ""),
        other => panic!("{:?}", other),
    }
    match HelloInstruction::unpack(&[1u8, 0xf4, 0x8f, 0xbf, 0xbf, 0xf0, 0x9f, 0x98, 0x80]).unwrap() {
        HelloInstruction::UpdateMessage { message } => assert_eq!(message, "\u{10ffff}\u{1f600}"),
        other => panic!("{:?}", other),
    }
}

#[test]
fn unpack_update_message_refuses_bad_utf8() {
    for payload in [
        vec![0xffu8],
        vec![b'a', 0xc3],
        vec![0xed, 0xa0, 0x80],
        vec![0xc0, 0x80],
        vec![0xf4, 0x90, 0x80, 0x80],
        vec![0xf8, 0x88, 0x80, 0x80, 0x80],
        vec![0x80],
    ] {
        let mut data = vec![1u8];
        data.extend_from_slice(&payload);
        assert_eq!(HelloInstruction::unpack(&data).unwrap_err(), invalid());
    }
}

#[test]
fn unpack_update_message_keeps_long_messages_for_the_processor() {
    let mut data = vec![1u8];
    data.extend_from_slice(&[b'x'; 500]);
    match HelloInstruction::unpack(&data).unwrap() {
        HelloInstruction::UpdateMessage { message } => assert_eq!(message.len(), 500),
        other => panic!("{:?}", other),
    }
}

#[test]
fn unpack_increment_and_close_ignore_what_follows() {
    assert!(matches!(HelloInstruction::unpack(&[2]).unwrap(), HelloInstruction::IncrementOnly));
    assert!(matches!(
        HelloInstruction::unpack(&[2, 0xff, 1]).unwrap(),
        HelloInstruction::IncrementOnly
    ));
    assert!(matches!(HelloInstruction::unpack(&[3]).unwrap(), HelloInstruction::Close));
    assert!(matches!(HelloInstruction::unpack(&[3, 7]).unwrap(), HelloInstruction::Close));
}

#[test]
fn unpack_refuses_every_other_tag() {
    for tag in 4..=255u8 {
        assert_eq!(HelloInstruction::unpack(&[tag]).unwrap_err(), invalid());
        let mut data = vec![tag];
        data.extend_from_slice(&[0u8; 40]);
        assert_eq!(HelloInstruction::unpack(&data).unwrap_err(), invalid());
    }
    assert_eq!(HelloInstruction::unpack(&[4, b'h', b'i']).unwrap_err(), ProgramError::Custom(0));
}

#[test]
fn unpack_refuses_the_empty_buffer() {
    assert_eq!(HelloInstruction::unpack(&[]).unwrap_err(), invalid());
}

#[test]
fn pack_writes_tag_and_payload() {
    let mut expected = vec![0u8];
    expected.extend_from_slice(&[7u8; 32]);
    assert_eq!(HelloInstruction::Initialize { owner: key(7) }.pack(), expected);
    assert_eq!(
        HelloInstruction::UpdateMessage { message: String::from("hi") }.pack(),
        vec![1u8, b'h', b'i']
    );
    assert_eq!(HelloInstruction::IncrementOnly.pack(), vec![2u8]);
    assert_eq!(HelloInstruction::Close.pack(), vec![3u8]);
}

#[test]
fn unpack_undoes_pack() {
    let packed = HelloInstruction::UpdateMessage { message: String::from("日本語") }.pack();
    match HelloInstruction::unpack(&packed).unwrap() {
        HelloInstruction::UpdateMessage { message } => assert_eq!(message, "日本語"),
        other => panic!("{:?}", other),
    }
    let packed = HelloInstruction::Initialize { owner: key(3) }.pack();
    match HelloInstruction::unpack(&packed).unwrap() {
        HelloInstruction::Initialize { owner } => assert_eq!(owner, key(3)),
        other => panic!("{:?}", other),
    }
}

#[test]
fn initialize_request_lists_payer_account_allocator() {
    let request = initialize_greeting(key(9), key(1), key(2), key(0), key(5));
    assert_eq!(request.program_id, key(9));
    let mut data = vec![0u8];
    data.extend_from_slice(&[5u8; 32]);
    assert_eq!(request.data, data);
    let metas: Vec<_> = request.accounts.iter().map(meta).collect();
    assert_eq!(metas, vec![(key(1), true, true), (key(2), true, true), (key(0), false, false)]);
}

#[test]
fn update_request_carries_the_message() {
    let request = update_message(key(9), key(1), key(2), String::from("hello")).unwrap();
    assert_eq!(request.program_id, key(9));
    assert_eq!(request.data, b"\x01hello".to_vec());
    let metas: Vec<_> = request.accounts.iter().map(meta).collect();
    assert_eq!(metas, vec![(key(1), true, true), (key(2), false, true)]);
}

#[test]
fn update_request_refuses_a_long_message() {
    let err = update_message(key(9), key(1), key(2), "x".repeat(201)).unwrap_err();
    assert_eq!(err, HelloError::MessageTooLong);
    assert!(update_message(key(9), key(1), key(2), "x".repeat(200)).is_ok());
    assert_eq!(
        update_message(key(9), key(1), key(2), "é".repeat(101)).unwrap_err(),
        HelloError::MessageTooLong
    );
}

#[test]
fn increment_request_is_one_byte() {
    let request = increment_only(key(9), key(1), key(2));
    assert_eq!(request.data, vec![2u8]);
    let metas: Vec<_> = request.accounts.iter().map(meta).collect();
    assert_eq!(metas, vec![(key(1), true, true), (key(2), false, true)]);
}

#[test]
fn close_request_returns_the_balance_to_the_payer() {
    let request = close_greeting(key(9), key(1), key(2));
    assert_eq!(request.data, vec![3u8]);
    let metas: Vec<_> = request.accounts.iter().map(meta).collect();
    assert_eq!(metas, vec![(key(1), true, true), (key(2), false, true), (key(1), false, true)]);
}

#[test]
fn account_meta_constructors() {
    let w = AccountMeta::new(key(1), true);
    assert_eq!(meta(&w), (key(1), true, true));
    let r = AccountMeta::new_readonly(key(1), false);
    assert_eq!(meta(&r), (key(1), false, false));
}
