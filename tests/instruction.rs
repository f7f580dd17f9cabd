use sol_diamond::error::DiamondError;
use sol_diamond::instruction::{
    decode_instruction, parse_add_module_data, parse_flag_data, parse_init_data, parse_key_data,
    parse_payload_data, parse_selector_data, DiamondInstruction, ADD_ADMIN_DISCRIMINATOR,
    ADD_MODULE_DISCRIMINATOR, DISPATCH_DISCRIMINATOR, INITIALIZE_DISCRIMINATOR, PAUSE_DISCRIMINATOR,
    REMOVE_MODULE_DISCRIMINATOR,
};
use sol_diamond::pubkey::Pubkey;

#[test]
fn test_dispatch_discriminator() {
    assert_eq!(DISPATCH_DISCRIMINATOR.len(), 8);
    assert_eq!(INITIALIZE_DISCRIMINATOR.len(), 8);
}

#[test]
fn test_add_module_data_serialization() {
    let buffer = borsh::to_vec(&("test_module".to_string(), [0u8; 32], [0x01u8, 0x02, 0x03, 0x04], "test_fn".to_string(), false))
        .unwrap();
    let deserialized = parse_add_module_data(&buffer).unwrap();
    assert_eq!(deserialized.module_name, b"test_module".to_vec());
    assert_eq!(deserialized.function_name, b"test_fn".to_vec());
    assert_eq!(deserialized.selector, [0x01, 0x02, 0x03, 0x04]);
    assert_eq!(deserialized.module_address, Pubkey::default());
    assert!(!deserialized.is_immutable);
}

#[test]
fn add_module_data_must_fill_the_buffer_exactly() {
    let mut buffer = borsh::to_vec(&("m".to_string(), [0u8; 32], [1u8, 2, 3, 4], "f".to_string(), true)).unwrap();
    assert!(parse_add_module_data(&buffer).unwrap().is_immutable);
    buffer.push(0);
    assert!(parse_add_module_data(&buffer).is_err());
    buffer.pop();
    let last = buffer.len() - 1;
    buffer[last] = 2;
    assert!(parse_add_module_data(&buffer).is_err());
}

#[test]
fn tags_name_operations() {
    let mut data = ADD_MODULE_DISCRIMINATOR.to_vec();
    data.extend_from_slice(&[9, 9]);
    let (op, rest) = decode_instruction(&data).unwrap();
    assert_eq!(op, DiamondInstruction::AddModule);
    assert_eq!(rest, &[9, 9]);
    assert_eq!(decode_instruction(&INITIALIZE_DISCRIMINATOR).unwrap().0, DiamondInstruction::Initialize);
    assert_eq!(decode_instruction(&DISPATCH_DISCRIMINATOR).unwrap().0, DiamondInstruction::Dispatch);
    assert_eq!(decode_instruction(&REMOVE_MODULE_DISCRIMINATOR).unwrap().0, DiamondInstruction::RemoveModule);
    assert_eq!(decode_instruction(&ADD_ADMIN_DISCRIMINATOR).unwrap().0, DiamondInstruction::AddAdmin);
    assert_eq!(decode_instruction(&PAUSE_DISCRIMINATOR).unwrap().0, DiamondInstruction::Pause);
    assert_eq!(decode_instruction(&[7, 0, 0, 0, 0, 0, 0, 0]).unwrap_err(), DiamondError::InvalidInstructionData);
    assert_eq!(decode_instruction(&[1, 0, 0]).unwrap_err(), DiamondError::InvalidInstructionData);
}

#[test]
fn fixed_size_arguments() {
    assert_eq!(parse_selector_data(&[1, 2, 3, 4]).unwrap(), [1, 2, 3, 4]);
    assert!(parse_selector_data(&[1, 2, 3, 4, 5]).is_err());
    assert_eq!(parse_key_data(&[3u8; 32]).unwrap(), Pubkey::new_from_array([3u8; 32]));
    assert!(parse_key_data(&[3u8; 31]).is_err());
    assert_eq!(parse_flag_data(&[0]).unwrap(), false);
    assert_eq!(parse_flag_data(&[1]).unwrap(), true);
    assert!(parse_flag_data(&[2]).is_err());
    let init = borsh::to_vec(&([5u8; 32], 254u8)).unwrap();
    assert_eq!(parse_init_data(&init).unwrap(), (Pubkey::new_from_array([5u8; 32]), 254));
    assert!(parse_init_data(&init[..32]).is_err());
}

#[test]
fn payload_is_length_prefixed() {
    let data = borsh::to_vec(&vec![1u8, 2, 3, 4, 5]).unwrap();
    assert_eq!(parse_payload_data(&data).unwrap(), vec![1, 2, 3, 4, 5]);
    assert!(parse_payload_data(&data[..data.len() - 1]).is_err());
    let mut longer = data.clone();
    longer.push(0);
    assert!(parse_payload_data(&longer).is_err());
}
