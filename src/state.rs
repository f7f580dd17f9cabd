//! The registry record, its model and invariant, and lookups over it.

use crate::error::DiamondError;
use crate::pubkey::Pubkey;
use vstd::array::spec_array_fill_for_copy_type;
use crate::instruction::utf8_text;
use vstd::prelude::*;
use vstd::slice::slice_subrange;
use vstd::string::StringSliceAdditionalSpecFns;
use vstd::utf8::valid_utf8;

verus! {

broadcast use vstd::array::group_array_axioms;

/// Most admins a registry holds.
pub const MAX_ADMINS: usize = 10;

/// Most module records a registry holds.
pub const MAX_MODULES: usize = 20;

/// Most selector mappings a registry holds.
pub const MAX_SELECTORS: usize = 50;

/// A four-byte selector naming an operation that a module exposes.
pub type Selector = [u8; 4];

/// Maps a selector to the program that handles it.
#[derive(Clone, Copy, Debug)]
pub struct SelectorMapping {
    pub namespace: [u8; 8],
    pub selector: [u8; 4],
    pub module: Pubkey,
    pub function_name: [u8; 64],
    pub is_immutable: bool,
}

/// A record of one registered module.
#[derive(Clone, Copy, Debug)]
pub struct ModuleMeta {
    pub name: [u8; 32],
    pub address: Pubkey,
    pub version: u16,
    pub is_active: bool,
}

/// The persistent registry record.
#[derive(Debug)]
pub struct DiamondState {
    pub owner: Pubkey,
    pub admins: Vec<Pubkey>,
    pub active_modules: Vec<ModuleMeta>,
    pub selectors: Vec<SelectorMapping>,
    pub bump: u8,
    pub is_paused: bool,
    pub pause_authority: Pubkey,
    pub paused_at: Option<i64>,
    pub pause_reason: [u8; 64],
    pub namespaces_enabled: bool,
    pub squads_multisig: Option<Pubkey>,
    pub governance_realm: Option<Pubkey>,
    pub governance_program: Option<Pubkey>,
}

/// The registry record as a mathematical value.
pub ghost struct DiamondStateView {
    pub owner: Pubkey,
    pub admins: Seq<Pubkey>,
    pub modules: Seq<ModuleMeta>,
    pub selectors: Seq<SelectorMapping>,
    pub bump: u8,
    pub is_paused: bool,
    pub pause_authority: Pubkey,
    pub paused_at: Option<i64>,
    pub pause_reason: [u8; 64],
    pub namespaces_enabled: bool,
    pub squads_multisig: Option<Pubkey>,
    pub governance_realm: Option<Pubkey>,
    pub governance_program: Option<Pubkey>,
}

impl View for DiamondState {
    type V = DiamondStateView;

    open spec fn view(&self) -> DiamondStateView {
        DiamondStateView {
            owner: self.owner,
            admins: self.admins@,
            modules: self.active_modules@,
            selectors: self.selectors@,
            bump: self.bump,
            is_paused: self.is_paused,
            pause_authority: self.pause_authority,
            paused_at: self.paused_at,
            pause_reason: self.pause_reason,
            namespaces_enabled: self.namespaces_enabled,
            squads_multisig: self.squads_multisig,
            governance_realm: self.governance_realm,
            governance_program: self.governance_program,
        }
    }
}

/// `b` followed by zeros up to `n` bytes.
pub open spec fn padded(b: Seq<u8>, n: nat) -> Seq<u8> {
    b + Seq::new((n - b.len()) as nat, |i: int| 0u8)
}

/// Whether some mapping of `sels` carries `sel`.
pub open spec fn has_selector(sels: Seq<SelectorMapping>, sel: Selector) -> bool {
    exists|i: int| 0 <= i < sels.len() && (#[trigger] sels[i]).selector == sel
}

/// No two mappings of `sels` share a selector.
pub open spec fn selectors_unique(sels: Seq<SelectorMapping>) -> bool {
    forall|i: int, j: int|
        0 <= i < sels.len() && 0 <= j < sels.len() && i != j ==> (#[trigger] sels[i]).selector
            != (#[trigger] sels[j]).selector
}

/// `i` is the first position of `sels` that carries `sel`.
pub open spec fn is_first_match(sels: Seq<SelectorMapping>, sel: Selector, i: int) -> bool {
    &&& 0 <= i < sels.len()
    &&& sels[i].selector == sel
    &&& forall|j: int| 0 <= j < i ==> (#[trigger] sels[j]).selector != sel
}

/// The mapping that a lookup of `sel` resolves to: the first one carrying it.
pub open spec fn lookup_mapping(sels: Seq<SelectorMapping>, sel: Selector) -> Option<
    SelectorMapping,
> {
    if exists|i: int| is_first_match(sels, sel, i) {
        Some(sels[choose|i: int| is_first_match(sels, sel, i)])
    } else {
        None
    }
}

/// The module that `sel` is routed to, if any.
pub open spec fn lookup_module(sels: Seq<SelectorMapping>, sel: Selector) -> Option<Pubkey> {
    match lookup_mapping(sels, sel) {
        Some(m) => Some(m.module),
        None => None,
    }
}

/// A selector that is present has a first position.
pub proof fn lemma_first_match_exists(sels: Seq<SelectorMapping>, sel: Selector, k: int)
    requires
        0 <= k < sels.len(),
        sels[k].selector == sel,
    ensures
        exists|i: int| is_first_match(sels, sel, i),
    decreases k,
{
    if exists|j: int| 0 <= j < k && (#[trigger] sels[j]).selector == sel {
        let j = choose|j: int| 0 <= j < k && (#[trigger] sels[j]).selector == sel;
        lemma_first_match_exists(sels, sel, j);
    } else {
        assert(is_first_match(sels, sel, k));
    }
}

/// Where selectors are unique, the lookup finds the one mapping that carries it.
pub proof fn lemma_lookup_unique(sels: Seq<SelectorMapping>, sel: Selector, k: int)
    requires
        selectors_unique(sels),
        0 <= k < sels.len(),
        sels[k].selector == sel,
    ensures
        lookup_mapping(sels, sel) == Some(sels[k]),
{
    lemma_first_match_exists(sels, sel, k);
    let i = choose|i: int| is_first_match(sels, sel, i);
    if i != k {
        assert(sels[i].selector == sels[k].selector);
    }
}

/// The lookup fails exactly when no mapping carries the selector.
pub proof fn lemma_lookup_none(sels: Seq<SelectorMapping>, sel: Selector)
    ensures
        lookup_mapping(sels, sel).is_none() <==> !has_selector(sels, sel),
{
    if has_selector(sels, sel) {
        let k = choose|k: int| 0 <= k < sels.len() && (#[trigger] sels[k]).selector == sel;
        lemma_first_match_exists(sels, sel, k);
    }
}

impl DiamondStateView {
    /// The record that initialisation creates.
    pub open spec fn initial(owner: Pubkey, bump: u8) -> DiamondStateView {
        DiamondStateView {
            owner,
            admins: Seq::empty(),
            modules: Seq::empty(),
            selectors: Seq::empty(),
            bump,
            is_paused: false,
            pause_authority: owner,
            paused_at: None,
            pause_reason: spec_array_fill_for_copy_type::<u8, 64>(0u8),
            namespaces_enabled: false,
            squads_multisig: None,
            governance_realm: None,
            governance_program: None,
        }
    }

    /// Capacity bounds hold and selectors are unique.
    pub open spec fn wf(self) -> bool {
        &&& self.admins.len() <= MAX_ADMINS
        &&& self.modules.len() <= MAX_MODULES
        &&& self.selectors.len() <= MAX_SELECTORS
        &&& selectors_unique(self.selectors)
    }

    pub open spec fn is_owner(self, key: Pubkey) -> bool {
        self.owner == key
    }

    pub open spec fn is_admin(self, key: Pubkey) -> bool {
        self.admins.contains(key)
    }

    /// The owner and every admin may mutate the registry.
    pub open spec fn has_authority(self, key: Pubkey) -> bool {
        self.is_owner(key) || self.is_admin(key)
    }
}

/// Whether two selectors are equal, byte by byte.
pub fn selector_eq(a: &Selector, b: &Selector) -> (r: bool)
    ensures
        r == (*a == *b),
{
    let r = a[0] == b[0] && a[1] == b[1] && a[2] == b[2] && a[3] == b[3];
    proof {
        if r {
            assert(*a =~= *b);
        }
    }
    r
}

impl DiamondState {
    /// A fresh registry owned by `owner`.
    pub fn new(owner: Pubkey, bump: u8) -> (r: DiamondState)
        ensures
            r@ == DiamondStateView::initial(owner, bump),
            r@.wf(),
    {
        DiamondState {
            owner,
            admins: Vec::new(),
            active_modules: Vec::new(),
            selectors: Vec::new(),
            bump,
            is_paused: false,
            pause_authority: owner,
            paused_at: None,
            pause_reason: [0u8; 64],
            namespaces_enabled: false,
            squads_multisig: None,
            governance_realm: None,
            governance_program: None,
        }
    }

    /// The module that `selector` is routed to, scanning the mappings in order.
    pub fn get_module_by_selector(&self, selector: Selector) -> (r: Option<Pubkey>)
        ensures
            r == lookup_module(self.selectors@, selector),
    {
        let mut i: usize = 0;
        while i < self.selectors.len()
            invariant
                0 <= i <= self.selectors@.len(),
                forall|j: int| 0 <= j < i ==> (#[trigger] self.selectors@[j]).selector != selector,
            decreases self.selectors@.len() - i,
        {
            if selector_eq(&self.selectors[i].selector, &selector) {
                proof {
                    let sels = self.selectors@;
                    assert(is_first_match(sels, selector, i as int));
                    let k = choose|k: int| is_first_match(sels, selector, k);
                    if k < i {
                    } else if k > i {
                        assert(sels[i as int].selector != selector);
                    }
                }
                return Some(self.selectors[i].module);
            }
            i = i + 1;
        }
        proof {
            lemma_lookup_none(self.selectors@, selector);
        }
        None
    }

    pub fn is_owner(&self, key: &Pubkey) -> (r: bool)
        ensures
            r == self@.is_owner(*key),
    {
        self.owner == *key
    }

    pub fn is_admin(&self, key: &Pubkey) -> (r: bool)
        ensures
            r == self@.is_admin(*key),
    {
        let mut i: usize = 0;
        while i < self.admins.len()
            invariant
                0 <= i <= self.admins@.len(),
                forall|j: int| 0 <= j < i ==> self.admins@[j] != *key,
            decreases self.admins@.len() - i,
        {
            if self.admins[i] == *key {
                return true;
            }
            i = i + 1;
        }
        false
    }

    pub fn has_authority(&self, key: &Pubkey) -> (r: bool)
        ensures
            r == self@.has_authority(*key),
    {
        self.is_owner(key) || self.is_admin(key)
    }

    /// Appends a module record unless the module list is full.
    pub fn add_module(&mut self, meta: ModuleMeta) -> (r: Result<(), DiamondError>)
        ensures
            old(self)@.modules.len() >= MAX_MODULES ==> r == Err::<(), DiamondError>(
                DiamondError::ModuleCapacityExceeded,
            ) && final(self)@ == old(self)@,
            old(self)@.modules.len() < MAX_MODULES ==> r is Ok && final(self)@ == (
            DiamondStateView { modules: old(self)@.modules.push(meta), ..old(self)@ }),
    {
        if self.active_modules.len() >= MAX_MODULES {
            return Err(DiamondError::ModuleCapacityExceeded);
        }
        self.active_modules.push(meta);
        Ok(())
    }

    /// Appends a selector mapping unless the list is full or the selector is
    /// already registered.
    pub fn add_selector(&mut self, mapping: SelectorMapping) -> (r: Result<(), DiamondError>)
        ensures
            old(self)@.selectors.len() >= MAX_SELECTORS ==> r == Err::<(), DiamondError>(
                DiamondError::SelectorCapacityExceeded,
            ) && final(self)@ == old(self)@,
            old(self)@.selectors.len() < MAX_SELECTORS && has_selector(
                old(self)@.selectors,
                mapping.selector,
            ) ==> r == Err::<(), DiamondError>(DiamondError::SelectorCollision) && final(self)@
                == old(self)@,
            old(self)@.selectors.len() < MAX_SELECTORS && !has_selector(
                old(self)@.selectors,
                mapping.selector,
            ) ==> r is Ok && final(self)@ == (DiamondStateView {
                selectors: old(self)@.selectors.push(mapping),
                ..old(self)@
            }),
    {
        if self.selectors.len() >= MAX_SELECTORS {
            return Err(DiamondError::SelectorCapacityExceeded);
        }
        proof {
            lemma_lookup_none(self.selectors@, mapping.selector);
        }
        if self.get_module_by_selector(mapping.selector).is_some() {
            return Err(DiamondError::SelectorCollision);
        }
        self.selectors.push(mapping);
        Ok(())
    }
}

} // verus!

verus! {

/// The `N`-byte buffer holding `b` followed by zeros.
pub open spec fn fixed_bytes<const N: usize>(b: Seq<u8>) -> [u8; N] {
    choose|a: [u8; N]| a@ == padded(b, N as nat)
}

/// A buffer is determined by its bytes.
pub proof fn lemma_fixed_bytes<const N: usize>(a: [u8; N], b: Seq<u8>)
    requires
        a@ == padded(b, N as nat),
    ensures
        a == fixed_bytes::<N>(b),
{
    let c = fixed_bytes::<N>(b);
    assert(c@ == padded(b, N as nat));
    assert(a =~= c) by {
        assert forall|i: int| 0 <= i < N implies a[i] == c[i] by {
            assert(a@[i] == c@[i]);
        }
    }
}

/// Copies `b` into an `N`-byte buffer, zero-filling the rest.
pub fn to_fixed_bytes<const N: usize>(b: &[u8]) -> (r: [u8; N])
    requires
        b@.len() <= N,
    ensures
        r == fixed_bytes::<N>(b@),
        r@ == padded(b@, N as nat),
{
    let mut a: [u8; N] = [0u8; N];
    let mut i: usize = 0;
    while i < b.len()
        invariant
            b@.len() <= N,
            0 <= i <= b@.len(),
            forall|j: int| 0 <= j < i ==> a@[j] == b@[j],
            forall|j: int| i <= j < N ==> a@[j] == 0u8,
        decreases b@.len() - i,
    {
        a[i] = b[i];
        i = i + 1;
    }
    assert(a@ =~= padded(b@, N as nat));
    proof {
        lemma_fixed_bytes::<N>(a, b@);
    }
    a
}

impl ModuleMeta {
    /// The record that `new` builds.
    pub open spec fn spec_new(name: Seq<u8>, address: Pubkey, version: u16) -> ModuleMeta {
        ModuleMeta { name: fixed_bytes::<32>(name), address, version, is_active: true }
    }
}

impl SelectorMapping {
    /// The mapping that `new_with_namespace` builds.
    pub open spec fn spec_new(
        namespace: [u8; 8],
        selector: Selector,
        module: Pubkey,
        function_name: Seq<u8>,
        is_immutable: bool,
    ) -> SelectorMapping {
        SelectorMapping {
            namespace,
            selector,
            module,
            function_name: fixed_bytes::<64>(function_name),
            is_immutable,
        }
    }
}

} // verus!

verus! {

/// `k` is where the text of the zero-padded buffer `s` ends: at its first
/// zero byte, or at its end.
pub open spec fn is_text_end(s: Seq<u8>, k: int) -> bool {
    &&& 0 <= k <= s.len()
    &&& (k == s.len() || s[k] == 0)
    &&& forall|j: int| 0 <= j < k ==> s[j] != 0
}

/// The bytes of a zero-padded buffer before its first zero byte.
pub open spec fn text_of(s: Seq<u8>) -> Seq<u8> {
    s.take(choose|k: int| is_text_end(s, k))
}

/// The text held in a zero-padded name buffer, or the empty text where the
/// bytes are not UTF-8.
pub fn buffer_text(buf: &[u8]) -> (r: &str)
    ensures
        valid_utf8(text_of(buf@)) ==> r.spec_bytes() == text_of(buf@),
        !valid_utf8(text_of(buf@)) ==> r@.len() == 0,
{
    let mut k: usize = 0;
    while k < buf.len() && buf[k] != 0
        invariant
            0 <= k <= buf@.len(),
            forall|j: int| 0 <= j < k ==> buf@[j] != 0,
        decreases buf@.len() - k,
    {
        k = k + 1;
    }
    proof {
        assert(is_text_end(buf@, k as int));
        let c = choose|c: int| is_text_end(buf@, c);
        if c < k {
            assert(buf@[c] != 0);
        } else if c > k {
            assert(buf@[k as int] != 0);
        }
    }
    let text = slice_subrange(buf, 0, k);
    assert(text@ =~= text_of(buf@));
    match utf8_text(text) {
        Some(s) => s,
        None => {
            proof {
                reveal_strlit("");
            }
            ""
        },
    }
}

impl SelectorMapping {
    /// A mapping in the default namespace.
    pub fn new(selector: Selector, module: Pubkey, function_name: &str, is_immutable: bool) -> (r:
        Result<SelectorMapping, DiamondError>)
        ensures
            function_name.spec_bytes().len() > 64 ==> r == Err::<SelectorMapping, DiamondError>(
                DiamondError::InvalidInstructionData,
            ),
            function_name.spec_bytes().len() <= 64 ==> r == Ok::<SelectorMapping, DiamondError>(
                SelectorMapping::spec_new(
                    fixed_bytes::<8>(Seq::empty()),
                    selector,
                    module,
                    function_name.spec_bytes(),
                    is_immutable,
                ),
            ),
    {
        let namespace = [0u8; 8];
        proof {
            assert(namespace@ =~= padded(Seq::empty(), 8));
            lemma_fixed_bytes::<8>(namespace, Seq::empty());
        }
        SelectorMapping::new_with_namespace(namespace, selector, module, function_name, is_immutable)
    }

    /// A mapping whose function name is `function_name`; a name longer than
    /// its buffer is refused, not cut short.
    pub fn new_with_namespace(
        namespace: [u8; 8],
        selector: Selector,
        module: Pubkey,
        function_name: &str,
        is_immutable: bool,
    ) -> (r: Result<SelectorMapping, DiamondError>)
        ensures
            function_name.spec_bytes().len() > 64 ==> r == Err::<SelectorMapping, DiamondError>(
                DiamondError::InvalidInstructionData,
            ),
            function_name.spec_bytes().len() <= 64 ==> r == Ok::<SelectorMapping, DiamondError>(
                SelectorMapping::spec_new(
                    namespace,
                    selector,
                    module,
                    function_name.spec_bytes(),
                    is_immutable,
                ),
            ),
    {
        let bytes = function_name.as_bytes();
        if bytes.len() > 64 {
            return Err(DiamondError::InvalidInstructionData);
        }
        Ok(
            SelectorMapping {
                namespace,
                selector,
                module,
                function_name: to_fixed_bytes::<64>(bytes),
                is_immutable,
            },
        )
    }

    /// The function name as text.
    pub fn function_name_as_str(&self) -> (r: &str)
        ensures
            valid_utf8(text_of(self.function_name@)) ==> r.spec_bytes() == text_of(
                self.function_name@,
            ),
            !valid_utf8(text_of(self.function_name@)) ==> r@.len() == 0,
    {
        buffer_text(self.function_name.as_slice())
    }
}

impl ModuleMeta {
    /// An active module record; a name longer than its buffer is refused.
    pub fn new(name: &str, address: Pubkey, version: u16) -> (r: Result<ModuleMeta, DiamondError>)
        ensures
            name.spec_bytes().len() > 32 ==> r == Err::<ModuleMeta, DiamondError>(
                DiamondError::InvalidInstructionData,
            ),
            name.spec_bytes().len() <= 32 ==> r == Ok::<ModuleMeta, DiamondError>(
                ModuleMeta::spec_new(name.spec_bytes(), address, version),
            ),
    {
        let bytes = name.as_bytes();
        if bytes.len() > 32 {
            return Err(DiamondError::InvalidInstructionData);
        }
        Ok(ModuleMeta { name: to_fixed_bytes::<32>(bytes), address, version, is_active: true })
    }

    /// The module name as text.
    pub fn name_as_str(&self) -> (r: &str)
        ensures
            valid_utf8(text_of(self.name@)) ==> r.spec_bytes() == text_of(self.name@),
            !valid_utf8(text_of(self.name@)) ==> r@.len() == 0,
    {
        buffer_text(self.name.as_slice())
    }
}

} // verus!
