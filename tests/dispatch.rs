use sol_diamond::account::AccountHandle;
use sol_diamond::cut::{cut_add_module, cut_remove_module, AddModuleData};
use sol_diamond::error::DiamondError;
use sol_diamond::pause::set_paused;
use sol_diamond::pubkey::Pubkey;
use sol_diamond::router::{dispatch, route, selector_of};
use sol_diamond::setup::{initialize, STATE_SEED};
use sol_diamond::state::DiamondState;

fn key(b: u8) -> Pubkey {
    Pubkey::new_from_array([b; 32])
}

fn registry_with(selector: [u8; 4], module: Pubkey) -> DiamondState {
    let owner = key(1);
    let mut state = DiamondState::new(owner, 254);
    let a = AddModuleData {
        module_name: b"counter".to_vec(),
        module_address: module,
        selector,
        function_name: b"incr".to_vec(),
        is_immutable: false,
    };
    cut_add_module(&mut state, &owner, &a).unwrap();
    state
}

#[test]
fn mod_test_selector_extraction() {
    let ix_data = vec![0x01, 0x02, 0x03, 0x04, 0x05, 0x06];
    let selector: [u8; 4] = selector_of(&ix_data).unwrap();
    assert_eq!(selector, [0x01, 0x02, 0x03, 0x04]);
}

#[test]
fn processor_test_selector_extraction() {
    let ix_data = vec![0x01, 0x02, 0x03, 0x04, 0x05, 0x06];
    let selector: [u8; 4] = selector_of(&ix_data).unwrap();
    assert_eq!(selector, [0x01, 0x02, 0x03, 0x04]);
}

#[test]
fn short_payload_is_a_validation_error() {
    assert_eq!(selector_of(&[1, 2, 3]), Err(DiamondError::InvalidInstructionData));
    let state = registry_with([1, 2, 3, 4], key(7));
    assert_eq!(route(&state, &key(7), &[1, 2, 3], &[]).unwrap_err(), DiamondError::InvalidInstructionData);
}

#[test]
fn dispatch_forwards_payload_and_handles_unchanged() {
    let m1 = key(7);
    let state = registry_with([0xAA, 0xBB, 0xCC, 0xDD], m1);
    let remaining = vec![AccountHandle::new(key(3), true, false), AccountHandle::new(key(4), false, true)];
    let payload = vec![0xAA, 0xBB, 0xCC, 0xDD, 9, 8];
    let call = route(&state, &m1, &payload, &remaining).unwrap();
    assert_eq!(call.program_id, m1);
    assert_eq!(call.data, payload);
    assert_eq!(call.accounts.len(), 2);
    assert_eq!(call.accounts[0].key, key(3));
    assert!(call.accounts[0].is_signer && !call.accounts[0].is_writable);
    assert_eq!(call.accounts[1].key, key(4));
    assert!(!call.accounts[1].is_signer && call.accounts[1].is_writable);
}

#[test]
fn dispatch_to_another_declared_target_is_unauthorized() {
    let state = registry_with([0xAA, 0xBB, 0xCC, 0xDD], key(7));
    let r = route(&state, &key(8), &[0xAA, 0xBB, 0xCC, 0xDD], &[]);
    assert_eq!(r.unwrap_err(), DiamondError::UnauthorizedAccess);
}

#[test]
fn dispatch_of_unknown_selector_is_not_found() {
    let state = registry_with([0xAA, 0xBB, 0xCC, 0xDD], key(7));
    let r = route(&state, &key(7), &[1, 1, 1, 1], &[]);
    assert_eq!(r.unwrap_err(), DiamondError::ModuleNotFound);
}

#[test]
fn paused_registry_refuses_every_dispatch() {
    let owner = key(1);
    let mut state = registry_with([0xAA, 0xBB, 0xCC, 0xDD], key(7));
    set_paused(&mut state, &owner, true, b"", 1).unwrap();
    assert_eq!(route(&state, &key(7), &[0xAA, 0xBB, 0xCC, 0xDD], &[]).unwrap_err(), DiamondError::DiamondPaused);
    assert_eq!(route(&state, &key(8), &[1], &[]).unwrap_err(), DiamondError::DiamondPaused);
    set_paused(&mut state, &owner, false, b"", 2).unwrap();
    assert!(route(&state, &key(7), &[0xAA, 0xBB, 0xCC, 0xDD], &[]).is_ok());
}

#[test]
fn dispatch_instruction_checks_state_account_and_payload() {
    let m1 = key(7);
    let state = registry_with([0xAA, 0xBB, 0xCC, 0xDD], m1);
    let writable = AccountHandle::new(key(50), false, true);
    let readonly = AccountHandle::new(key(50), false, false);
    let module = AccountHandle::new(m1, false, false);
    let data = borsh::to_vec(&vec![0xAAu8, 0xBB, 0xCC, 0xDD, 1]).unwrap();
    assert_eq!(dispatch(&state, &readonly, &module, &[], &data).unwrap_err(), DiamondError::InvalidAccountData);
    assert_eq!(
        dispatch(&state, &writable, &module, &[], &data[..data.len() - 1]).unwrap_err(),
        DiamondError::InvalidInstructionData
    );
    let call = dispatch(&state, &writable, &module, &[], &data).unwrap();
    assert_eq!(call.data, vec![0xAA, 0xBB, 0xCC, 0xDD, 1]);
    assert_eq!(call.program_id, m1);
}

#[test]
fn end_to_end_add_dispatch_remove_dispatch() {
    let a = key(1);
    let m1 = key(7);
    let program = key(40);
    let (address, bump) = solana_program::pubkey::Pubkey::find_program_address(
        &[&STATE_SEED, &a.to_bytes()],
        &solana_program::pubkey::Pubkey::new_from_array(program.to_bytes()),
    );
    let mut data = a.to_bytes().to_vec();
    data.push(bump);
    let mut state = initialize(
        &program,
        &AccountHandle::new(Pubkey::new_from_array(address.to_bytes()), false, true),
        &AccountHandle::new(a, true, false),
        &AccountHandle::new(key(2), true, true),
        &AccountHandle::new(Pubkey::default(), false, false),
        &data,
    )
    .unwrap();
    let args = AddModuleData {
        module_name: b"counter".to_vec(),
        module_address: m1,
        selector: [0xAA, 0xBB, 0xCC, 0xDD],
        function_name: b"incr".to_vec(),
        is_immutable: false,
    };
    cut_add_module(&mut state, &a, &args).unwrap();
    let call = route(&state, &m1, &[0xAA, 0xBB, 0xCC, 0xDD], &[]).unwrap();
    assert_eq!(call.program_id, m1);
    assert_eq!(call.data, vec![0xAA, 0xBB, 0xCC, 0xDD]);
    cut_remove_module(&mut state, &a, [0xAA, 0xBB, 0xCC, 0xDD]).unwrap();
    let r = route(&state, &m1, &[0xAA, 0xBB, 0xCC, 0xDD], &[]);
    assert_eq!(r.unwrap_err(), DiamondError::ModuleNotFound);
}
