use liquidator::common::{
    get_marginfi_message_type, MessageType, MARGINFI_ACCOUNT_DISCRIMINATOR,
    MARGINFI_ACCOUNT_DISCRIMINATOR_LEN, MARGINFI_BANK_DISCRIMINATOR, MARGINFI_BANK_DISCRIMINATOR_LEN,
};

#[test]
fn test_get_marginfi_account_message_type() {
    let mut data = MARGINFI_ACCOUNT_DISCRIMINATOR.to_vec();
    data.extend_from_slice(&[1, 2, 3, 4]);
    assert_eq!(
        get_marginfi_message_type(&data),
        Some(MessageType::MarginfiAccount)
    );
}

#[test]
fn test_get_marginfi_bank_message_type() {
    let mut data = MARGINFI_BANK_DISCRIMINATOR.to_vec();
    data.extend_from_slice(&[5, 6, 7, 8]);
    assert_eq!(get_marginfi_message_type(&data), Some(MessageType::Bank));
}

#[test]
fn test_account_data_too_short() {
    let data = MARGINFI_ACCOUNT_DISCRIMINATOR[..4].to_vec();
    assert_eq!(get_marginfi_message_type(&data), None);

    let data = MARGINFI_BANK_DISCRIMINATOR[..4].to_vec();
    assert_eq!(get_marginfi_message_type(&data), None);
}

#[test]
fn test_account_data_wrong_discriminator() {
    let data = vec![0, 1, 2, 3, 4, 5, 6, 7, 8, 9];
    assert_eq!(get_marginfi_message_type(&data), None);
}

#[test]
fn test_account_data_exact_length_but_not_matching() {
    let data = vec![0; MARGINFI_ACCOUNT_DISCRIMINATOR_LEN];
    assert_eq!(get_marginfi_message_type(&data), None);

    let data = vec![0; MARGINFI_BANK_DISCRIMINATOR_LEN];
    assert_eq!(get_marginfi_message_type(&data), None);
}

#[test]
fn test_account_data_starts_with_partial_discriminator() {
    let mut data = MARGINFI_ACCOUNT_DISCRIMINATOR[..4].to_vec();
    data.extend_from_slice(&[9, 9, 9, 9, 9, 9, 9, 9]);
    assert_eq!(get_marginfi_message_type(&data), None);
}

#[test]
fn magic_alone_is_not_enough() {
    // Exactly the magic, with nothing after it, is unrecognised.
    assert_eq!(get_marginfi_message_type(&MARGINFI_ACCOUNT_DISCRIMINATOR), None);
    assert_eq!(get_marginfi_message_type(&MARGINFI_BANK_DISCRIMINATOR), None);
    let mut data = MARGINFI_ACCOUNT_DISCRIMINATOR.to_vec();
    data.push(0);
    assert_eq!(get_marginfi_message_type(&data), Some(MessageType::MarginfiAccount));
}

#[test]
fn short_inputs_are_unrecognized() {
    for n in 0..=8 {
        let data = vec![67u8; n];
        assert_eq!(get_marginfi_message_type(&data), None);
    }
    assert_eq!(get_marginfi_message_type(&[]), None);
}
