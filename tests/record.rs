use sol_diamond::cut::{cut_add_module, AddModuleData};
use sol_diamond::access::grant_admin;
use sol_diamond::error::DiamondError;
use sol_diamond::pause::set_paused;
use sol_diamond::pubkey::Pubkey;
use sol_diamond::record::{decode, encode, STATE_SPACE};
use sol_diamond::state::{DiamondState, SelectorMapping, MAX_ADMINS, MAX_MODULES, MAX_SELECTORS};

fn key(b: u8) -> Pubkey {
    Pubkey::new_from_array([b; 32])
}

fn sample() -> DiamondState {
    let owner = key(1);
    let mut state = DiamondState::new(owner, 200);
    grant_admin(&mut state, &owner, key(2)).unwrap();
    let a = AddModuleData {
        module_name: b"counter".to_vec(),
        module_address: key(7),
        selector: [0xAA, 0xBB, 0xCC, 0xDD],
        function_name: b"incr".to_vec(),
        is_immutable: true,
    };
    cut_add_module(&mut state, &owner, &a).unwrap();
    set_paused(&mut state, &owner, true, b"maintenance", -42).unwrap();
    state.governance_realm = Some(key(3));
    state
}

fn same(a: &DiamondState, b: &DiamondState) -> bool {
    encode(a) == encode(b)
}

#[test]
fn fresh_record_layout() {
    let bytes = encode(&DiamondState::new(key(1), 9));
    // owner, three empty lists, bump, flag, pause authority, then the
    // extension fields: no timestamp, empty reason, flag, three absent keys
    assert_eq!(bytes.len(), 32 + 4 + 4 + 4 + 1 + 1 + 32 + 1 + 64 + 1 + 3);
    assert_eq!(&bytes[..32], &[1u8; 32]);
    assert_eq!(&bytes[32..44], &[0u8; 12]);
    assert_eq!(bytes[44], 9);
    assert_eq!(bytes[45], 0);
    assert_eq!(&bytes[46..78], &[1u8; 32]);
}

#[test]
fn layout_matches_little_endian_length_prefixed_encoding() {
    let state = sample();
    let bytes = encode(&state);
    let mut expected = Vec::new();
    expected.extend_from_slice(&[1u8; 32]);
    expected.extend(borsh::to_vec(&vec![[2u8; 32]]).unwrap());
    expected.extend(borsh::to_vec(&1u32).unwrap());
    expected.extend_from_slice(&state.active_modules[0].name);
    expected.extend_from_slice(&[7u8; 32]);
    expected.extend(borsh::to_vec(&1u16).unwrap());
    expected.push(1);
    expected.extend(borsh::to_vec(&1u32).unwrap());
    expected.extend_from_slice(&[0xAA, 0xBB, 0xCC, 0xDD]);
    expected.extend_from_slice(&[7u8; 32]);
    expected.extend_from_slice(&state.selectors[0].function_name);
    expected.push(1);
    expected.extend_from_slice(&[0u8; 8]);
    expected.push(200);
    expected.push(1);
    expected.extend_from_slice(&[1u8; 32]);
    expected.extend(borsh::to_vec(&Some(-42i64)).unwrap());
    expected.extend_from_slice(&state.pause_reason);
    expected.push(0);
    expected.extend(borsh::to_vec(&(None::<[u8; 32]>, Some([3u8; 32]), None::<[u8; 32]>)).unwrap());
    assert_eq!(bytes, expected);
}

#[test]
fn round_trip_through_reserved_space() {
    let state = sample();
    let saved = state.save(STATE_SPACE).unwrap();
    assert_eq!(saved.len(), STATE_SPACE);
    let back = DiamondState::load(&saved).unwrap();
    assert!(same(&back, &state));
    assert_eq!(back.paused_at, Some(-42));
    assert_eq!(back.governance_realm, Some(key(3)));
    assert_eq!(back.selectors[0].function_name_as_str(), "incr");
    let exact = decode(&encode(&state)).unwrap();
    assert!(same(&exact, &state));
}

#[test]
fn full_registry_fits_reserved_space() {
    let owner = key(1);
    let mut state = DiamondState::new(owner, 1);
    for i in 0..MAX_ADMINS {
        grant_admin(&mut state, &owner, key(100 + i as u8)).unwrap();
    }
    for i in 0..MAX_MODULES {
        let a = AddModuleData {
            module_name: vec![b'm'; 32],
            module_address: key(i as u8),
            selector: [0, 0, 0, i as u8],
            function_name: vec![b'f'; 64],
            is_immutable: false,
        };
        cut_add_module(&mut state, &owner, &a).unwrap();
    }
    for i in MAX_MODULES..MAX_SELECTORS {
        let m = SelectorMapping::new([0, 0, 0, i as u8], key(1), "f", false).unwrap();
        state.add_selector(m).unwrap();
    }
    set_paused(&mut state, &owner, true, &[b'r'; 64], 7).unwrap();
    state.squads_multisig = Some(key(4));
    state.governance_realm = Some(key(5));
    state.governance_program = Some(key(6));
    let bytes = encode(&state);
    assert_eq!(bytes.len(), STATE_SPACE);
    let back = DiamondState::load(&state.save(STATE_SPACE).unwrap()).unwrap();
    assert!(same(&back, &state));
}

#[test]
fn save_refuses_too_small_space() {
    let state = sample();
    let need = encode(&state).len();
    assert_eq!(state.save(need - 1).unwrap_err(), DiamondError::AccountDataTooSmall);
    assert_eq!(state.save(need).unwrap().len(), need);
}

#[test]
fn corrupt_records_are_refused() {
    let state = sample();
    let bytes = encode(&state);
    assert_eq!(DiamondState::load(&bytes[..bytes.len() - 1]).unwrap_err(), DiamondError::InvalidAccountData);
    assert_eq!(DiamondState::load(&[]).unwrap_err(), DiamondError::InvalidAccountData);

    let mut too_many = bytes.clone();
    too_many[32] = 11;
    assert_eq!(DiamondState::load(&too_many).unwrap_err(), DiamondError::InvalidAccountData);

    let mut bad_flag = encode(&DiamondState::new(key(1), 1));
    bad_flag[45] = 2;
    assert_eq!(DiamondState::load(&bad_flag).unwrap_err(), DiamondError::InvalidAccountData);
}

#[test]
fn duplicate_selectors_in_storage_are_refused() {
    let mut state = DiamondState::new(key(1), 1);
    let m = SelectorMapping::new([1, 2, 3, 4], key(2), "f", false).unwrap();
    state.selectors.push(m);
    state.selectors.push(m);
    assert_eq!(DiamondState::load(&encode(&state)).unwrap_err(), DiamondError::InvalidAccountData);
}
