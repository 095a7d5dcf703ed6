use hello_account::error::{HelloError, ProgramError};
use hello_account::pubkey::Pubkey;

const ALL: [HelloError; 6] = [
    HelloError::InvalidInstruction,
    HelloError::NotRentExempt,
    HelloError::ExpectedAmountMismatch,
    HelloError::AmountOverflow,
    HelloError::Unauthorized,
    HelloError::MessageTooLong,
];

#[test]
fn codes_follow_the_order_of_the_names() {
    let codes: Vec<u32> = ALL.iter().map(|e| e.code()).collect();
    assert_eq!(codes, vec![0, 1, 2, 3, 4, 5]);
}

#[test]
fn codes_are_distinct() {
    for a in ALL {
        for b in ALL {
            assert_eq!(a.code() == b.code(), a == b);
        }
    }
}

#[test]
fn messages_name_the_failure() {
    let texts: Vec<String> = ALL.iter().map(|e| e.message()).collect();
    assert_eq!(
        texts,
        vec![
            "Invalid Instruction",
            "Not Rent Exempt",
            "Expected Amount Mismatch",
            "Amount Overflow",
            "Unauthorized",
            "Message Too Long",
        ]
    );
}

#[test]
fn program_error_carries_the_code() {
    for e in ALL {
        assert_eq!(ProgramError::from(e), ProgramError::Custom(e.code()));
    }
    let converted: ProgramError = HelloError::Unauthorized.into();
    assert_eq!(converted, ProgramError::Custom(4));
}

#[test]
fn pubkey_compares_byte_for_byte() {
    let a = Pubkey::new_from_array([1; 32]);
    let mut bytes = [1u8; 32];
    assert_eq!(a, Pubkey::new_from_array(bytes));
    bytes[31] = 2;
    assert_ne!(a, Pubkey::new_from_array(bytes));
    bytes[31] = 1;
    bytes[0] = 0;
    assert_ne!(a, Pubkey::new_from_array(bytes));
}

#[test]
fn pubkey_from_slice_wants_32_bytes() {
    let bytes: Vec<u8> = (0..32).collect();
    assert_eq!(Pubkey::from_slice(&bytes).unwrap().to_bytes().to_vec(), bytes);
    assert!(Pubkey::from_slice(&bytes[..31]).is_none());
    assert!(Pubkey::from_slice(&[0u8; 33]).is_none());
    assert!(Pubkey::from_slice(&[]).is_none());
}
