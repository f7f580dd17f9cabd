//! The cut operations: registering and unregistering selectors. The owner
//! and every admin may cut; capacity, uniqueness and immutability are
//! enforced, and a failed cut leaves the registry unchanged.

use crate::account::AccountHandle;
use crate::error::DiamondError;
use crate::instruction::{parse_add_module, parse_add_module_data, parse_selector, parse_selector_data};
use crate::pubkey::Pubkey;
use crate::state::{
    fixed_bytes, has_selector, is_first_match, lemma_fixed_bytes, lemma_lookup_none,
    lookup_mapping, padded, selectors_unique, to_fixed_bytes, DiamondState, DiamondStateView,
    ModuleMeta, Selector, SelectorMapping, MAX_MODULES, MAX_SELECTORS,
};
use vstd::prelude::*;

verus! {

/// Longest module name, in bytes.
pub const MODULE_NAME_LEN: usize = 32;

/// Longest function name, in bytes.
pub const FUNCTION_NAME_LEN: usize = 64;

/// The arguments of an add-module cut.
#[derive(Debug)]
pub struct AddModuleData {
    pub module_name: Vec<u8>,
    pub module_address: Pubkey,
    pub selector: Selector,
    pub function_name: Vec<u8>,
    pub is_immutable: bool,
}

pub ghost struct AddModuleDataView {
    pub module_name: Seq<u8>,
    pub module_address: Pubkey,
    pub selector: Selector,
    pub function_name: Seq<u8>,
    pub is_immutable: bool,
}

impl View for AddModuleData {
    type V = AddModuleDataView;

    open spec fn view(&self) -> AddModuleDataView {
        AddModuleDataView {
            module_name: self.module_name@,
            module_address: self.module_address,
            selector: self.selector,
            function_name: self.function_name@,
            is_immutable: self.is_immutable,
        }
    }
}

/// The position of the mapping that carries `sel`.
pub open spec fn mapping_index(sels: Seq<SelectorMapping>, sel: Selector) -> int {
    choose|i: int| is_first_match(sels, sel, i)
}

/// What an add-module cut by `caller` does to `s`: the new record, or the
/// error that leaves `s` unchanged.
pub open spec fn add_module_outcome(
    s: DiamondStateView,
    caller: Pubkey,
    a: AddModuleDataView,
) -> Result<DiamondStateView, DiamondError> {
    if !s.has_authority(caller) {
        Err(DiamondError::UnauthorizedAccess)
    } else if a.module_name.len() > MODULE_NAME_LEN || a.function_name.len() > FUNCTION_NAME_LEN {
        Err(DiamondError::InvalidInstructionData)
    } else if s.modules.len() >= MAX_MODULES {
        Err(DiamondError::ModuleCapacityExceeded)
    } else if s.selectors.len() >= MAX_SELECTORS {
        Err(DiamondError::SelectorCapacityExceeded)
    } else if has_selector(s.selectors, a.selector) {
        Err(DiamondError::SelectorCollision)
    } else {
        Ok(
            DiamondStateView {
                modules: s.modules.push(ModuleMeta::spec_new(a.module_name, a.module_address, 1)),
                selectors: s.selectors.push(
                    SelectorMapping::spec_new(
                        fixed_bytes::<8>(Seq::empty()),
                        a.selector,
                        a.module_address,
                        a.function_name,
                        a.is_immutable,
                    ),
                ),
                ..s
            },
        )
    }
}

/// What a remove-module cut by `caller` does to `s`.
pub open spec fn remove_module_outcome(
    s: DiamondStateView,
    caller: Pubkey,
    sel: Selector,
) -> Result<DiamondStateView, DiamondError> {
    if !s.has_authority(caller) {
        Err(DiamondError::UnauthorizedAccess)
    } else {
        match lookup_mapping(s.selectors, sel) {
            None => Err(DiamondError::ModuleNotFound),
            Some(m) => if m.is_immutable {
                Err(DiamondError::ImmutableSelector)
            } else {
                Ok(
                    DiamondStateView {
                        selectors: s.selectors.remove(mapping_index(s.selectors, sel)),
                        ..s
                    },
                )
            },
        }
    }
}

/// Registers `data.selector` for `data.module_address`, appending one module
/// record and one selector mapping. On any error the registry is unchanged.
pub fn cut_add_module(state: &mut DiamondState, caller: &Pubkey, data: &AddModuleData) -> (r:
    Result<(), DiamondError>)
    ensures
        match add_module_outcome(old(state)@, *caller, data@) {
            Ok(v) => r is Ok && final(state)@ == v,
            Err(e) => r == Err::<(), DiamondError>(e) && final(state)@ == old(state)@,
        },
{
    if !state.has_authority(caller) {
        return Err(DiamondError::UnauthorizedAccess);
    }
    if data.module_name.len() > MODULE_NAME_LEN || data.function_name.len() > FUNCTION_NAME_LEN {
        return Err(DiamondError::InvalidInstructionData);
    }
    if state.active_modules.len() >= MAX_MODULES {
        return Err(DiamondError::ModuleCapacityExceeded);
    }
    if state.selectors.len() >= MAX_SELECTORS {
        return Err(DiamondError::SelectorCapacityExceeded);
    }
    proof {
        lemma_lookup_none(state.selectors@, data.selector);
    }
    if state.get_module_by_selector(data.selector).is_some() {
        return Err(DiamondError::SelectorCollision);
    }
    let meta = ModuleMeta {
        name: to_fixed_bytes::<32>(data.module_name.as_slice()),
        address: data.module_address,
        version: 1,
        is_active: true,
    };
    let namespace = [0u8; 8];
    proof {
        assert(namespace@ =~= padded(Seq::empty(), 8));
        lemma_fixed_bytes::<8>(namespace, Seq::empty());
    }
    let mapping = SelectorMapping {
        namespace,
        selector: data.selector,
        module: data.module_address,
        function_name: to_fixed_bytes::<64>(data.function_name.as_slice()),
        is_immutable: data.is_immutable,
    };
    state.active_modules.push(meta);
    state.selectors.push(mapping);
    Ok(())
}

/// Unregisters `selector`, unless it is unknown or immutable. On any error
/// the registry is unchanged.
pub fn cut_remove_module(state: &mut DiamondState, caller: &Pubkey, selector: Selector) -> (r:
    Result<(), DiamondError>)
    ensures
        match remove_module_outcome(old(state)@, *caller, selector) {
            Ok(v) => r is Ok && final(state)@ == v,
            Err(e) => r == Err::<(), DiamondError>(e) && final(state)@ == old(state)@,
        },
{
    if !state.has_authority(caller) {
        return Err(DiamondError::UnauthorizedAccess);
    }
    let ghost sels = state.selectors@;
    let mut i: usize = 0;
    while i < state.selectors.len()
        invariant
            sels == state.selectors@,
            state@ == old(state)@,
            old(state)@.has_authority(*caller),
            0 <= i <= sels.len(),
            forall|j: int| 0 <= j < i ==> (#[trigger] sels[j]).selector != selector,
        decreases sels.len() - i,
    {
        if crate::state::selector_eq(&state.selectors[i].selector, &selector) {
            proof {
                assert(is_first_match(sels, selector, i as int));
                let k = mapping_index(sels, selector);
                if k < i {
                } else if k > i {
                    assert(sels[i as int].selector != selector);
                }
            }
            if state.selectors[i].is_immutable {
                return Err(DiamondError::ImmutableSelector);
            }
            state.selectors.remove(i);
            return Ok(());
        }
        i = i + 1;
    }
    proof {
        lemma_lookup_none(sels, selector);
    }
    Err(DiamondError::ModuleNotFound)
}

} // verus!

verus! {

/// The registry after the adds of `calls` in order, each by its caller; an add
/// that fails leaves the registry as it was.
pub open spec fn apply_adds(s: DiamondStateView, calls: Seq<(Pubkey, AddModuleDataView)>) -> DiamondStateView
    decreases calls.len(),
{
    if calls.len() == 0 {
        s
    } else {
        let prev = apply_adds(s, calls.drop_last());
        match add_module_outcome(prev, calls.last().0, calls.last().1) {
            Ok(v) => v,
            Err(_) => prev,
        }
    }
}

/// A successful add keeps the registry well formed: within its bounds, and
/// with no two mappings sharing a selector.
pub proof fn lemma_add_module_preserves_wf(s: DiamondStateView, caller: Pubkey, a: AddModuleDataView)
    requires
        s.wf(),
    ensures
        add_module_outcome(s, caller, a) matches Ok(v) ==> v.wf(),
{
    if let Ok(v) = add_module_outcome(s, caller, a) {
        let m = v.selectors.last();
        assert forall|i: int, j: int|
            0 <= i < v.selectors.len() && 0 <= j < v.selectors.len() && i != j implies (
            #[trigger] v.selectors[i]).selector != (#[trigger] v.selectors[j]).selector by {
            if i == v.selectors.len() - 1 {
                assert(s.selectors[j].selector != a.selector);
            } else if j == v.selectors.len() - 1 {
                assert(s.selectors[i].selector != a.selector);
            } else {
                assert(v.selectors[i] == s.selectors[i]);
                assert(v.selectors[j] == s.selectors[j]);
            }
        }
    }
}

/// However many adds are made, by whomever, no two live mappings ever share a
/// selector.
pub proof fn lemma_adds_keep_selectors_unique(
    s: DiamondStateView,
    calls: Seq<(Pubkey, AddModuleDataView)>,
)
    requires
        s.wf(),
    ensures
        apply_adds(s, calls).wf(),
        selectors_unique(apply_adds(s, calls).selectors),
    decreases calls.len(),
{
    if calls.len() > 0 {
        lemma_adds_keep_selectors_unique(s, calls.drop_last());
        lemma_add_module_preserves_wf(apply_adds(s, calls.drop_last()), calls.last().0, calls.last().1);
    }
}

/// A successful remove keeps the registry well formed.
pub proof fn lemma_remove_module_preserves_wf(s: DiamondStateView, caller: Pubkey, sel: Selector)
    requires
        s.wf(),
    ensures
        remove_module_outcome(s, caller, sel) matches Ok(v) ==> v.wf(),
{
    if let Ok(v) = remove_module_outcome(s, caller, sel) {
        let k = mapping_index(s.selectors, sel);
        assert forall|i: int, j: int|
            0 <= i < v.selectors.len() && 0 <= j < v.selectors.len() && i != j implies (
            #[trigger] v.selectors[i]).selector != (#[trigger] v.selectors[j]).selector by {
            let i2 = if i < k { i } else { i + 1 };
            let j2 = if j < k { j } else { j + 1 };
            assert(v.selectors[i] == s.selectors[i2]);
            assert(v.selectors[j] == s.selectors[j2]);
        }
    }
}

/// With the module list or the selector list full, an add by an authority
/// fails with the capacity error of the full list (the module list is checked
/// first), and so leaves the registry unchanged.
pub proof fn lemma_add_module_at_capacity(s: DiamondStateView, caller: Pubkey, a: AddModuleDataView)
    requires
        s.has_authority(caller),
        a.module_name.len() <= MODULE_NAME_LEN,
        a.function_name.len() <= FUNCTION_NAME_LEN,
        s.modules.len() >= MAX_MODULES || s.selectors.len() >= MAX_SELECTORS,
    ensures
        add_module_outcome(s, caller, a) == Err::<DiamondStateView, DiamondError>(
            if s.modules.len() >= MAX_MODULES {
                DiamondError::ModuleCapacityExceeded
            } else {
                DiamondError::SelectorCapacityExceeded
            },
        ),
{
}

/// An immutable mapping cannot be removed: the remove fails, whoever of the
/// authorities asks.
pub proof fn lemma_immutable_not_removable(s: DiamondStateView, caller: Pubkey, sel: Selector, k: int)
    requires
        s.wf(),
        s.has_authority(caller),
        0 <= k < s.selectors.len(),
        s.selectors[k].selector == sel,
        s.selectors[k].is_immutable,
    ensures
        remove_module_outcome(s, caller, sel) == Err::<DiamondStateView, DiamondError>(
            DiamondError::ImmutableSelector,
        ),
{
    crate::state::lemma_lookup_unique(s.selectors, sel, k);
}

/// A mapping added as immutable is there after the add, and every later
/// remove of its selector by an authority fails.
pub proof fn lemma_added_immutable_stays(
    s: DiamondStateView,
    caller: Pubkey,
    a: AddModuleDataView,
    later: Pubkey,
)
    requires
        s.wf(),
        a.is_immutable,
        add_module_outcome(s, caller, a) is Ok,
    ensures
        add_module_outcome(s, caller, a) matches Ok(v) && (v.has_authority(later)
            ==> remove_module_outcome(v, later, a.selector) == Err::<DiamondStateView, DiamondError>(
            DiamondError::ImmutableSelector,
        )),
{
    lemma_add_module_preserves_wf(s, caller, a);
    if let Ok(v) = add_module_outcome(s, caller, a) {
        if v.has_authority(later) {
            lemma_immutable_not_removable(v, later, a.selector, v.selectors.len() - 1);
        }
    }
}

/// Adds and removes keep every immutable mapping: a successful cut of either
/// kind leaves each immutable mapping of the registry in place.
pub proof fn lemma_cuts_keep_immutable(
    s: DiamondStateView,
    caller: Pubkey,
    a: AddModuleDataView,
    sel: Selector,
    m: SelectorMapping,
)
    requires
        s.wf(),
        s.selectors.contains(m),
        m.is_immutable,
    ensures
        add_module_outcome(s, caller, a) matches Ok(v) ==> v.selectors.contains(m),
        remove_module_outcome(s, caller, sel) matches Ok(v) ==> v.selectors.contains(m),
{
    let p = choose|p: int| 0 <= p < s.selectors.len() && s.selectors[p] == m;
    if let Ok(v) = add_module_outcome(s, caller, a) {
        assert(v.selectors[p] == m);
    }
    if let Ok(v) = remove_module_outcome(s, caller, sel) {
        let k = mapping_index(s.selectors, sel);
        assert(!s.selectors[k].is_immutable);
        if p < k {
            assert(v.selectors[p] == m);
        } else {
            assert(v.selectors[p - 1] == m);
        }
    }
}

} // verus!

verus! {

/// What an add-module instruction signed (or not) by `authority` does.
pub open spec fn add_module_instruction_outcome(
    s: DiamondStateView,
    authority: AccountHandle,
    data: Seq<u8>,
) -> Result<DiamondStateView, DiamondError> {
    if !authority.is_signer {
        Err(DiamondError::MissingRequiredSignature)
    } else {
        match parse_add_module(data) {
            None => Err(DiamondError::InvalidInstructionData),
            Some(a) => add_module_outcome(s, authority.key, a),
        }
    }
}

/// What a remove-module instruction signed (or not) by `authority` does.
pub open spec fn remove_module_instruction_outcome(
    s: DiamondStateView,
    authority: AccountHandle,
    data: Seq<u8>,
) -> Result<DiamondStateView, DiamondError> {
    if !authority.is_signer {
        Err(DiamondError::MissingRequiredSignature)
    } else {
        match parse_selector(data) {
            None => Err(DiamondError::InvalidInstructionData),
            Some(sel) => remove_module_outcome(s, authority.key, sel),
        }
    }
}

/// Handles an add-module instruction: the authority must sign, `data` holds
/// the module name, module address, selector, function name and flag.
pub fn add_module(state: &mut DiamondState, authority: &AccountHandle, data: &[u8]) -> (r: Result<
    (),
    DiamondError,
>)
    ensures
        match add_module_instruction_outcome(old(state)@, *authority, data@) {
            Ok(v) => r is Ok && final(state)@ == v,
            Err(e) => r == Err::<(), DiamondError>(e) && final(state)@ == old(state)@,
        },
{
    if !authority.is_signer {
        return Err(DiamondError::MissingRequiredSignature);
    }
    let args = match parse_add_module_data(data) {
        Ok(a) => a,
        Err(e) => return Err(e),
    };
    cut_add_module(state, &authority.key, &args)
}

/// Handles a remove-module instruction: the authority must sign, `data` holds
/// the selector.
pub fn remove_module(state: &mut DiamondState, authority: &AccountHandle, data: &[u8]) -> (r:
    Result<(), DiamondError>)
    ensures
        match remove_module_instruction_outcome(old(state)@, *authority, data@) {
            Ok(v) => r is Ok && final(state)@ == v,
            Err(e) => r == Err::<(), DiamondError>(e) && final(state)@ == old(state)@,
        },
{
    if !authority.is_signer {
        return Err(DiamondError::MissingRequiredSignature);
    }
    let selector = match parse_selector_data(data) {
        Ok(s) => s,
        Err(e) => return Err(e),
    };
    cut_remove_module(state, &authority.key, selector)
}

} // verus!
