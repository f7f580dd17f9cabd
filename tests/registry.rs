use sol_diamond::access::{add_admin, grant_admin};
use sol_diamond::account::AccountHandle;
use sol_diamond::cut::{add_module, cut_add_module, cut_remove_module, remove_module, AddModuleData};
use sol_diamond::error::DiamondError;
use sol_diamond::pause::{pause, set_paused};
use sol_diamond::pubkey::Pubkey;
use sol_diamond::state::{DiamondState, ModuleMeta, SelectorMapping, MAX_ADMINS, MAX_MODULES, MAX_SELECTORS};

fn key(b: u8) -> Pubkey {
    Pubkey::new_from_array([b; 32])
}

fn args(selector: [u8; 4], module: Pubkey, immutable: bool) -> AddModuleData {
    AddModuleData {
        module_name: b"counter".to_vec(),
        module_address: module,
        selector,
        function_name: b"incr".to_vec(),
        is_immutable: immutable,
    }
}

fn snapshot(s: &DiamondState) -> Vec<u8> {
    sol_diamond::record::encode(s)
}

#[test]
fn test_selector_mapping_creation() {
    let mapping = SelectorMapping::new([0x01, 0x02, 0x03, 0x04], Pubkey::default(), "test_function", false)
        .unwrap();
    assert_eq!(mapping.selector, [0x01, 0x02, 0x03, 0x04]);
    assert_eq!(mapping.function_name_as_str(), "test_function");
}

#[test]
fn test_diamond_state_initialization() {
    let owner = Pubkey::default();
    let state = DiamondState::new(owner, 255);

    assert_eq!(state.owner, owner);
    assert_eq!(state.bump, 255);
    assert_eq!(state.is_paused, false);
    assert_eq!(state.selectors.len(), 0);
}

#[test]
fn test_selector_lookup() {
    let owner = Pubkey::default();
    let mut state = DiamondState::new(owner, 255);

    let mapping = SelectorMapping::new([0xAA, 0xBB, 0xCC, 0xDD], key(7), "my_function", false).unwrap();

    let expected_module = mapping.module;
    state.add_selector(mapping).unwrap();

    let found = state.get_module_by_selector([0xAA, 0xBB, 0xCC, 0xDD]);
    assert_eq!(found, Some(expected_module));
}

#[test]
fn test_diamond_state_size() {
    let size = std::mem::size_of::<DiamondState>();
    println!("DiamondState size: {} bytes", size);
    assert!(size > 0);
}

#[test]
fn names_longer_than_their_buffers_are_refused() {
    let long = "x".repeat(65);
    assert_eq!(
        SelectorMapping::new([1, 2, 3, 4], key(1), &long, false).unwrap_err(),
        DiamondError::InvalidInstructionData
    );
    assert!(SelectorMapping::new([1, 2, 3, 4], key(1), &long[..64], false).is_ok());
    assert_eq!(ModuleMeta::new(&long[..33], key(1), 1).unwrap_err(), DiamondError::InvalidInstructionData);
    let meta = ModuleMeta::new("counter", key(1), 3).unwrap();
    assert_eq!(meta.name_as_str(), "counter");
    assert_eq!(meta.version, 3);
    assert!(meta.is_active);
}

#[test]
fn name_buffer_that_is_not_utf8_reads_as_empty() {
    let mut mapping = SelectorMapping::new([1, 2, 3, 4], key(1), "ok", false).unwrap();
    mapping.function_name[0] = 0xFF;
    assert_eq!(mapping.function_name_as_str(), "");
    let full = "é".repeat(16);
    let meta = ModuleMeta::new(&full, key(1), 1).unwrap();
    assert_eq!(meta.name_as_str(), full);
}

#[test]
fn add_selector_rejects_collision_and_full_list() {
    let mut state = DiamondState::new(key(1), 1);
    let m = SelectorMapping::new([1, 1, 1, 1], key(2), "f", false).unwrap();
    state.add_selector(m).unwrap();
    assert_eq!(state.add_selector(m), Err(DiamondError::SelectorCollision));
    for i in 1..MAX_SELECTORS {
        let m = SelectorMapping::new([2, 0, 0, i as u8], key(2), "f", false).unwrap();
        state.add_selector(m).unwrap();
    }
    let m = SelectorMapping::new([3, 3, 3, 3], key(2), "f", false).unwrap();
    assert_eq!(state.add_selector(m), Err(DiamondError::SelectorCapacityExceeded));
}

#[test]
fn add_module_record_respects_capacity() {
    let mut state = DiamondState::new(key(1), 1);
    for _ in 0..MAX_MODULES {
        state.add_module(ModuleMeta::new("m", key(2), 1).unwrap()).unwrap();
    }
    assert_eq!(
        state.add_module(ModuleMeta::new("m", key(2), 1).unwrap()),
        Err(DiamondError::ModuleCapacityExceeded)
    );
}

#[test]
fn cut_add_module_appends_one_record_and_one_mapping() {
    let owner = key(1);
    let mut state = DiamondState::new(owner, 1);
    cut_add_module(&mut state, &owner, &args([0xAA, 0xBB, 0xCC, 0xDD], key(9), true)).unwrap();
    assert_eq!(state.active_modules.len(), 1);
    assert_eq!(state.selectors.len(), 1);
    assert_eq!(state.active_modules[0].version, 1);
    assert!(state.active_modules[0].is_active);
    assert_eq!(state.active_modules[0].name_as_str(), "counter");
    assert_eq!(state.selectors[0].function_name_as_str(), "incr");
    assert!(state.selectors[0].is_immutable);
    assert_eq!(state.selectors[0].namespace, [0u8; 8]);
}

#[test]
fn repeated_selector_collides_and_changes_nothing() {
    let owner = key(1);
    let mut state = DiamondState::new(owner, 1);
    cut_add_module(&mut state, &owner, &args([1, 2, 3, 4], key(9), false)).unwrap();
    let before = snapshot(&state);
    assert_eq!(
        cut_add_module(&mut state, &owner, &args([1, 2, 3, 4], key(8), false)),
        Err(DiamondError::SelectorCollision)
    );
    assert_eq!(snapshot(&state), before);
}

#[test]
fn capacity_boundary_leaves_registry_byte_identical() {
    let owner = key(1);
    let mut state = DiamondState::new(owner, 1);
    for i in 0..MAX_MODULES {
        cut_add_module(&mut state, &owner, &args([0, 0, 0, i as u8], key(9), false)).unwrap();
    }
    let before = snapshot(&state);
    assert_eq!(
        cut_add_module(&mut state, &owner, &args([9, 9, 9, 9], key(9), false)),
        Err(DiamondError::ModuleCapacityExceeded)
    );
    assert_eq!(snapshot(&state), before);

    let mut state = DiamondState::new(owner, 1);
    for i in 0..MAX_SELECTORS {
        let m = SelectorMapping::new([1, 0, 0, i as u8], key(2), "f", false).unwrap();
        state.add_selector(m).unwrap();
    }
    let before = snapshot(&state);
    assert_eq!(
        cut_add_module(&mut state, &owner, &args([9, 9, 9, 9], key(9), false)),
        Err(DiamondError::SelectorCapacityExceeded)
    );
    assert_eq!(snapshot(&state), before);
}

#[test]
fn overlong_names_in_a_cut_are_refused() {
    let owner = key(1);
    let mut state = DiamondState::new(owner, 1);
    let mut a = args([1, 2, 3, 4], key(9), false);
    a.function_name = vec![b'f'; 65];
    assert_eq!(cut_add_module(&mut state, &owner, &a), Err(DiamondError::InvalidInstructionData));
    a.function_name = vec![b'f'; 64];
    a.module_name = vec![b'm'; 33];
    assert_eq!(cut_add_module(&mut state, &owner, &a), Err(DiamondError::InvalidInstructionData));
    assert_eq!(state.selectors.len(), 0);
}

#[test]
fn immutable_mapping_cannot_be_removed() {
    let owner = key(1);
    let mut state = DiamondState::new(owner, 1);
    cut_add_module(&mut state, &owner, &args([1, 2, 3, 4], key(9), true)).unwrap();
    let before = snapshot(&state);
    assert_eq!(cut_remove_module(&mut state, &owner, [1, 2, 3, 4]), Err(DiamondError::ImmutableSelector));
    assert_eq!(snapshot(&state), before);
    assert_eq!(state.get_module_by_selector([1, 2, 3, 4]), Some(key(9)));
}

#[test]
fn remove_unknown_selector_is_not_found() {
    let owner = key(1);
    let mut state = DiamondState::new(owner, 1);
    assert_eq!(cut_remove_module(&mut state, &owner, [1, 2, 3, 4]), Err(DiamondError::ModuleNotFound));
}

#[test]
fn remove_takes_out_only_that_mapping() {
    let owner = key(1);
    let mut state = DiamondState::new(owner, 1);
    cut_add_module(&mut state, &owner, &args([1, 1, 1, 1], key(7), false)).unwrap();
    cut_add_module(&mut state, &owner, &args([2, 2, 2, 2], key(8), false)).unwrap();
    cut_remove_module(&mut state, &owner, [1, 1, 1, 1]).unwrap();
    assert_eq!(state.selectors.len(), 1);
    assert_eq!(state.active_modules.len(), 2);
    assert_eq!(state.get_module_by_selector([1, 1, 1, 1]), None);
    assert_eq!(state.get_module_by_selector([2, 2, 2, 2]), Some(key(8)));
}

#[test]
fn outsider_can_change_nothing() {
    let owner = key(1);
    let outsider = key(5);
    let mut state = DiamondState::new(owner, 1);
    cut_add_module(&mut state, &owner, &args([1, 2, 3, 4], key(9), false)).unwrap();
    let before = snapshot(&state);
    assert_eq!(
        cut_add_module(&mut state, &outsider, &args([5, 5, 5, 5], key(9), false)),
        Err(DiamondError::UnauthorizedAccess)
    );
    assert_eq!(cut_remove_module(&mut state, &outsider, [1, 2, 3, 4]), Err(DiamondError::UnauthorizedAccess));
    assert_eq!(grant_admin(&mut state, &outsider, outsider), Err(DiamondError::UnauthorizedAccess));
    assert_eq!(set_paused(&mut state, &outsider, true, b"", 10), Err(DiamondError::UnauthorizedAccess));
    assert_eq!(snapshot(&state), before);
}

#[test]
fn admin_may_cut_but_not_add_admins() {
    let owner = key(1);
    let admin = key(2);
    let mut state = DiamondState::new(owner, 1);
    grant_admin(&mut state, &owner, admin).unwrap();
    assert!(state.is_admin(&admin));
    assert!(state.has_authority(&admin));
    assert!(!state.is_owner(&admin));
    cut_add_module(&mut state, &admin, &args([1, 2, 3, 4], key(9), false)).unwrap();
    cut_remove_module(&mut state, &admin, [1, 2, 3, 4]).unwrap();
    assert_eq!(grant_admin(&mut state, &admin, key(3)), Err(DiamondError::UnauthorizedAccess));
}

#[test]
fn adding_an_admin_twice_is_a_no_op_and_the_list_is_bounded() {
    let owner = key(1);
    let mut state = DiamondState::new(owner, 1);
    grant_admin(&mut state, &owner, key(2)).unwrap();
    grant_admin(&mut state, &owner, key(2)).unwrap();
    assert_eq!(state.admins.len(), 1);
    for i in 1..MAX_ADMINS {
        grant_admin(&mut state, &owner, key(10 + i as u8)).unwrap();
    }
    assert_eq!(state.admins.len(), MAX_ADMINS);
    assert_eq!(grant_admin(&mut state, &owner, key(99)), Err(DiamondError::AdminCapacityExceeded));
}

#[test]
fn pause_records_time_and_reason() {
    let owner = key(1);
    let mut state = DiamondState::new(owner, 1);
    set_paused(&mut state, &owner, true, b"upgrade", 1234).unwrap();
    assert!(state.is_paused);
    assert_eq!(state.paused_at, Some(1234));
    assert_eq!(&state.pause_reason[..7], b"upgrade");
    assert_eq!(state.pause_reason[7], 0);
    set_paused(&mut state, &owner, false, b"", 1300).unwrap();
    assert!(!state.is_paused);
    assert_eq!(state.paused_at, None);
    assert_eq!(set_paused(&mut state, &owner, true, &[b'r'; 65], 1), Err(DiamondError::InvalidInstructionData));
}

#[test]
fn instruction_handlers_check_signer_and_data() {
    let owner = key(1);
    let mut state = DiamondState::new(owner, 1);
    let signed = AccountHandle::new(owner, true, false);
    let unsigned = AccountHandle::new(owner, false, false);
    let data = borsh::to_vec(&("counter".to_string(), [9u8; 32], [1u8, 2, 3, 4], "incr".to_string(), false)).unwrap();

    assert_eq!(add_module(&mut state, &unsigned, &data), Err(DiamondError::MissingRequiredSignature));
    assert_eq!(add_module(&mut state, &signed, &data[..data.len() - 1]), Err(DiamondError::InvalidInstructionData));
    add_module(&mut state, &signed, &data).unwrap();
    assert_eq!(state.get_module_by_selector([1, 2, 3, 4]), Some(key(9)));

    assert_eq!(remove_module(&mut state, &signed, &[1, 2, 3]), Err(DiamondError::InvalidInstructionData));
    remove_module(&mut state, &signed, &[1, 2, 3, 4]).unwrap();
    assert_eq!(state.get_module_by_selector([1, 2, 3, 4]), None);

    assert_eq!(add_admin(&mut state, &unsigned, &[2u8; 32]), Err(DiamondError::MissingRequiredSignature));
    add_admin(&mut state, &signed, &[2u8; 32]).unwrap();
    assert!(state.is_admin(&key(2)));

    assert_eq!(pause(&mut state, &signed, &[2], 5), Err(DiamondError::InvalidInstructionData));
    pause(&mut state, &signed, &[1], 5).unwrap();
    assert!(state.is_paused);
    assert_eq!(state.paused_at, Some(5));
}

#[test]
fn invalid_utf8_name_is_refused_in_instruction_data() {
    let owner = key(1);
    let mut state = DiamondState::new(owner, 1);
    let signed = AccountHandle::new(owner, true, false);
    let mut data = borsh::to_vec(&("ab".to_string(), [9u8; 32], [1u8, 2, 3, 4], "cd".to_string(), false)).unwrap();
    data[4] = 0xFF;
    assert_eq!(add_module(&mut state, &signed, &data), Err(DiamondError::InvalidInstructionData));
}

#[test]
fn selectors_stay_unique_over_many_adds() {
    let owner = key(1);
    let mut state = DiamondState::new(owner, 1);
    let picks = [3u8, 1, 3, 7, 1, 9, 7, 2, 3, 9, 5];
    for (i, p) in picks.iter().enumerate() {
        let _ = cut_add_module(&mut state, &owner, &args([0, 0, 0, *p], key(i as u8), false));
    }
    assert_eq!(state.selectors.len(), 6);
    for i in 0..state.selectors.len() {
        for j in 0..state.selectors.len() {
            if i != j {
                assert_ne!(state.selectors[i].selector, state.selectors[j].selector);
            }
        }
    }
}
