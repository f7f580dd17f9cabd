//! The persisted layout of a registry record: owner, admins, modules,
//! selector mappings, bump, pause flag, pause authority, then the extension
//! fields. Lists carry a four-byte count; the unused rest of the reserved
//! space is zero.

use crate::codec::{
    agrees, push_bytes, read_bool, read_bytes, read_key, read_opt_i64, read_opt_key, read_u16,
    read_u32, read_u8, lemma_items_fail, lemma_items_len, enc_items, write_bool, write_opt_i64, write_opt_key, write_u16, write_u32, items_at, bool_at, bytes_at, counted_at, enc_bool, enc_counted, enc_opt_i64, enc_opt_key, holds_at,
    key_at, lemma_bool_at, lemma_bytes_at, lemma_counted_at, lemma_enc_items_len, lemma_key_at,
    lemma_opt_i64_at, lemma_opt_key_at, lemma_split, lemma_u16_at, lemma_u8_at, opt_i64_at,
    opt_key_at, u16_at, u32_at, u8_at,
};
use crate::error::DiamondError;
use crate::pubkey::Pubkey;
use crate::state::{
    selectors_unique, DiamondState, DiamondStateView, ModuleMeta, SelectorMapping, MAX_ADMINS,
    MAX_MODULES, MAX_SELECTORS,
};
use vstd::bytes::{
    lemma_auto_spec_u16_to_from_le_bytes, lemma_auto_spec_u32_to_from_le_bytes,
    lemma_auto_spec_u64_to_from_le_bytes, spec_u16_to_le_bytes,
};
use vstd::prelude::*;

verus! {

/// Bytes one module record takes.
pub const MODULE_RECORD_LEN: usize = 67;

/// Bytes one selector mapping takes.
pub const MAPPING_RECORD_LEN: usize = 109;

/// Space reserved for a record at its largest.
pub const STATE_SPACE: usize = 32 + (4 + MAX_ADMINS * 32) + (4 + MAX_MODULES * MODULE_RECORD_LEN) + (
4 + MAX_SELECTORS * MAPPING_RECORD_LEN) + 1 + 1 + 32 + 9 + 64 + 1 + 33 + 33 + 33;

pub open spec fn enc_key(k: Pubkey) -> Seq<u8> {
    k.0@
}

pub open spec fn enc_module(m: ModuleMeta) -> Seq<u8> {
    m.name@ + m.address.0@ + spec_u16_to_le_bytes(m.version) + enc_bool(m.is_active)
}

pub open spec fn enc_mapping(m: SelectorMapping) -> Seq<u8> {
    m.selector@ + m.module.0@ + m.function_name@ + enc_bool(m.is_immutable) + m.namespace@
}

pub open spec fn key_enc() -> spec_fn(Pubkey) -> Seq<u8> {
    |k: Pubkey| enc_key(k)
}

pub open spec fn module_enc() -> spec_fn(ModuleMeta) -> Seq<u8> {
    |m: ModuleMeta| enc_module(m)
}

pub open spec fn mapping_enc() -> spec_fn(SelectorMapping) -> Seq<u8> {
    |m: SelectorMapping| enc_mapping(m)
}

/// The bytes of a record.
pub open spec fn enc_state(v: DiamondStateView) -> Seq<u8> {
    v.owner.0@ + enc_counted(v.admins, key_enc()) + enc_counted(v.modules, module_enc())
        + enc_counted(v.selectors, mapping_enc()) + seq![v.bump] + enc_bool(v.is_paused)
        + v.pause_authority.0@ + enc_opt_i64(v.paused_at) + v.pause_reason@ + enc_bool(
        v.namespaces_enabled,
    ) + enc_opt_key(v.squads_multisig) + enc_opt_key(v.governance_realm) + enc_opt_key(
        v.governance_program,
    )
}

pub open spec fn module_at(b: Seq<u8>, p: int) -> Option<(ModuleMeta, int)> {
    match bytes_at::<32>(b, p) {
        Some((name, q1)) => match key_at(b, q1) {
            Some((address, q2)) => match u16_at(b, q2) {
                Some((version, q3)) => match bool_at(b, q3) {
                    Some((is_active, q4)) => Some((ModuleMeta { name, address, version, is_active }, q4)),
                    None => None,
                },
                None => None,
            },
            None => None,
        },
        None => None,
    }
}

pub open spec fn mapping_at(b: Seq<u8>, p: int) -> Option<(SelectorMapping, int)> {
    match bytes_at::<4>(b, p) {
        Some((selector, q1)) => match key_at(b, q1) {
            Some((module, q2)) => match bytes_at::<64>(b, q2) {
                Some((function_name, q3)) => match bool_at(b, q3) {
                    Some((is_immutable, q4)) => match bytes_at::<8>(b, q4) {
                        Some((namespace, q5)) => Some((SelectorMapping { namespace, selector, module, function_name, is_immutable }, q5)),
                        None => None,
                    },
                    None => None,
                },
                None => None,
            },
            None => None,
        },
        None => None,
    }
}

pub open spec fn key_read() -> spec_fn(Seq<u8>, int) -> Option<(Pubkey, int)> {
    |b: Seq<u8>, p: int| key_at(b, p)
}

pub open spec fn module_read() -> spec_fn(Seq<u8>, int) -> Option<(ModuleMeta, int)> {
    |b: Seq<u8>, p: int| module_at(b, p)
}

pub open spec fn mapping_read() -> spec_fn(Seq<u8>, int) -> Option<(SelectorMapping, int)> {
    |b: Seq<u8>, p: int| mapping_at(b, p)
}

/// The fields after the three lists.
pub ghost struct Tail {
    pub bump: u8,
    pub is_paused: bool,
    pub pause_authority: Pubkey,
    pub paused_at: Option<i64>,
    pub pause_reason: [u8; 64],
    pub namespaces_enabled: bool,
    pub squads_multisig: Option<Pubkey>,
    pub governance_realm: Option<Pubkey>,
    pub governance_program: Option<Pubkey>,
}

pub open spec fn tail_at(b: Seq<u8>, p: int) -> Option<Tail> {
    match u8_at(b, p) {
        Some((bump, q1)) => match bool_at(b, q1) {
            Some((is_paused, q2)) => match key_at(b, q2) {
                Some((pause_authority, q3)) => match opt_i64_at(b, q3) {
                    Some((paused_at, q4)) => match bytes_at::<64>(b, q4) {
                        Some((pause_reason, q5)) => match bool_at(b, q5) {
                            Some((namespaces_enabled, q6)) => match opt_key_at(b, q6) {
                                Some((squads_multisig, q7)) => match opt_key_at(b, q7) {
                                    Some((governance_realm, q8)) => match opt_key_at(b, q8) {
                                        Some((governance_program, _q9)) => Some(
                                            Tail {
                                                bump,
                                                is_paused,
                                                pause_authority,
                                                paused_at,
                                                pause_reason,
                                                namespaces_enabled,
                                                squads_multisig,
                                                governance_realm,
                                                governance_program,
                                            },
                                        ),
                                        None => None,
                                    },
                                    None => None,
                                },
                                None => None,
                            },
                            None => None,
                        },
                        None => None,
                    },
                    None => None,
                },
                None => None,
            },
            None => None,
        },
        None => None,
    }
}

/// The record that `b` holds from its start, if it holds a well-formed one.
pub open spec fn parse_state(b: Seq<u8>) -> Option<DiamondStateView> {
    match key_at(b, 0) {
        Some((owner, q1)) => match counted_at(b, q1, MAX_ADMINS as nat, key_read()) {
            Some((admins, q2)) => match counted_at(b, q2, MAX_MODULES as nat, module_read()) {
                Some((modules, q3)) => match counted_at(b, q3, MAX_SELECTORS as nat, mapping_read()) {
                    Some((selectors, q4)) => if !selectors_unique(selectors) {
                        None
                    } else {
                        match tail_at(b, q4) {
                            Some(t) => Some(
                                DiamondStateView {
                                    owner,
                                    admins,
                                    modules,
                                    selectors,
                                    bump: t.bump,
                                    is_paused: t.is_paused,
                                    pause_authority: t.pause_authority,
                                    paused_at: t.paused_at,
                                    pause_reason: t.pause_reason,
                                    namespaces_enabled: t.namespaces_enabled,
                                    squads_multisig: t.squads_multisig,
                                    governance_realm: t.governance_realm,
                                    governance_program: t.governance_program,
                                },
                            ),
                            None => None,
                        }
                    },
                    None => None,
                },
                None => None,
            },
            None => None,
        },
        None => None,
    }
}

pub proof fn lemma_module_at(b: Seq<u8>, p: int, m: ModuleMeta)
    requires
        holds_at(b, p, enc_module(m)),
    ensures
        module_at(b, p) == Some((m, p + 67)),
{
    lemma_auto_spec_u16_to_from_le_bytes();
    let a = m.name@;
    let c = m.address.0@;
    let d = spec_u16_to_le_bytes(m.version);
    let e = enc_bool(m.is_active);
    lemma_split(b, p, a + c + d, e);
    lemma_split(b, p, a + c, d);
    lemma_split(b, p, a, c);
    lemma_bytes_at::<32>(b, p, m.name);
    lemma_key_at(b, p + 32, m.address);
    lemma_u16_at(b, p + 64, m.version);
    lemma_bool_at(b, p + 66, m.is_active);
}

pub proof fn lemma_mapping_at(b: Seq<u8>, p: int, m: SelectorMapping)
    requires
        holds_at(b, p, enc_mapping(m)),
    ensures
        mapping_at(b, p) == Some((m, p + 109)),
{
    let a = m.selector@;
    let c = m.module.0@;
    let d = m.function_name@;
    let e = enc_bool(m.is_immutable);
    let f = m.namespace@;
    lemma_split(b, p, a + c + d + e, f);
    lemma_split(b, p, a + c + d, e);
    lemma_split(b, p, a + c, d);
    lemma_split(b, p, a, c);
    lemma_bytes_at::<4>(b, p, m.selector);
    lemma_key_at(b, p + 4, m.module);
    lemma_bytes_at::<64>(b, p + 36, m.function_name);
    lemma_bool_at(b, p + 100, m.is_immutable);
    lemma_bytes_at::<8>(b, p + 101, m.namespace);
}

/// A well-formed record is read back from any buffer that starts with its
/// bytes, whatever follows them.
pub proof fn lemma_parse_encoded(b: Seq<u8>, v: DiamondStateView)
    requires
        v.wf(),
        holds_at(b, 0, enc_state(v)),
    ensures
        parse_state(b) == Some(v),
{
    let f1 = v.owner.0@;
    let f2 = enc_counted(v.admins, key_enc());
    let f3 = enc_counted(v.modules, module_enc());
    let f4 = enc_counted(v.selectors, mapping_enc());
    let f5 = seq![v.bump];
    let f6 = enc_bool(v.is_paused);
    let f7 = v.pause_authority.0@;
    let f8 = enc_opt_i64(v.paused_at);
    let f9 = v.pause_reason@;
    let f10 = enc_bool(v.namespaces_enabled);
    let f11 = enc_opt_key(v.squads_multisig);
    let f12 = enc_opt_key(v.governance_realm);
    let f13 = enc_opt_key(v.governance_program);
    let e1 = f1;
    let e2 = e1 + f2;
    let e3 = e2 + f3;
    let e4 = e3 + f4;
    let e5 = e4 + f5;
    let e6 = e5 + f6;
    let e7 = e6 + f7;
    let e8 = e7 + f8;
    let e9 = e8 + f9;
    let e10 = e9 + f10;
    let e11 = e10 + f11;
    let e12 = e11 + f12;
    assert(enc_state(v) == e12 + f13);
    lemma_split(b, 0, e12, f13);
    lemma_split(b, 0, e11, f12);
    lemma_split(b, 0, e10, f11);
    lemma_split(b, 0, e9, f10);
    lemma_split(b, 0, e8, f9);
    lemma_split(b, 0, e7, f8);
    lemma_split(b, 0, e6, f7);
    lemma_split(b, 0, e5, f6);
    lemma_split(b, 0, e4, f5);
    lemma_split(b, 0, e3, f4);
    lemma_split(b, 0, e2, f3);
    lemma_split(b, 0, e1, f2);
    lemma_key_at(b, 0, v.owner);
    assert forall|q: int, x: Pubkey| #[trigger] holds_at(b, q, key_enc()(x)) implies key_read()(b, q)
        == Some((x, q + key_enc()(x).len())) by {
        lemma_key_at(b, q, x);
    }
    assert forall|q: int, x: ModuleMeta| #[trigger] holds_at(b, q, module_enc()(x)) implies module_read()(
        b,
        q,
    ) == Some((x, q + module_enc()(x).len())) by {
        lemma_auto_spec_u16_to_from_le_bytes();
        lemma_module_at(b, q, x);
    }
    assert forall|q: int, x: SelectorMapping| #[trigger] holds_at(b, q, mapping_enc()(x)) implies mapping_read()(
        b,
        q,
    ) == Some((x, q + mapping_enc()(x).len())) by {
        lemma_mapping_at(b, q, x);
    }
    lemma_counted_at(b, e1.len() as int, v.admins, MAX_ADMINS as nat, key_enc(), key_read());
    lemma_counted_at(b, e2.len() as int, v.modules, MAX_MODULES as nat, module_enc(), module_read());
    lemma_counted_at(b, e3.len() as int, v.selectors, MAX_SELECTORS as nat, mapping_enc(), mapping_read());
    lemma_u8_at(b, e4.len() as int, v.bump);
    lemma_bool_at(b, e5.len() as int, v.is_paused);
    lemma_key_at(b, e6.len() as int, v.pause_authority);
    lemma_opt_i64_at(b, e7.len() as int, v.paused_at);
    lemma_bytes_at::<64>(b, e8.len() as int, v.pause_reason);
    lemma_bool_at(b, e9.len() as int, v.namespaces_enabled);
    lemma_opt_key_at(b, e10.len() as int, v.squads_multisig);
    lemma_opt_key_at(b, e11.len() as int, v.governance_realm);
    lemma_opt_key_at(b, e12.len() as int, v.governance_program);
}

/// Decoding the bytes of a well-formed record, followed by any padding, gives
/// back that record.
pub proof fn lemma_round_trip(v: DiamondStateView, pad: Seq<u8>)
    requires
        v.wf(),
    ensures
        parse_state(enc_state(v)) == Some(v),
        parse_state(enc_state(v) + pad) == Some(v),
{
    let e = enc_state(v);
    assert((e + pad).subrange(0, e.len() as int) =~= e);
    assert(e.subrange(0, e.len() as int) =~= e);
    lemma_parse_encoded(e, v);
    lemma_parse_encoded(e + pad, v);
}

/// A well-formed record fits into the reserved space.
pub proof fn lemma_encoded_fits(v: DiamondStateView)
    requires
        v.wf(),
    ensures
        enc_state(v).len() <= STATE_SPACE,
{
    assert forall|x: Pubkey| #[trigger] key_enc()(x).len() == 32 by {}
    assert forall|x: ModuleMeta| #[trigger] module_enc()(x).len() == 67 by {
        lemma_auto_spec_u16_to_from_le_bytes();
    }
    assert forall|x: SelectorMapping| #[trigger] mapping_enc()(x).len() == 109 by {}
    lemma_auto_spec_u32_to_from_le_bytes();
    lemma_enc_items_len(v.admins, key_enc(), 32);
    lemma_enc_items_len(v.modules, module_enc(), 67);
    lemma_enc_items_len(v.selectors, mapping_enc(), 109);
    lemma_auto_spec_u64_to_from_le_bytes();
    assert(enc_opt_i64(v.paused_at).len() <= 9);
    assert(enc_opt_key(v.squads_multisig).len() <= 33);
    assert(enc_opt_key(v.governance_realm).len() <= 33);
    assert(enc_opt_key(v.governance_program).len() <= 33);
    assert(v.admins.len() * 32 <= 320) by (nonlinear_arith)
        requires v.admins.len() <= 10;
    assert(v.modules.len() * 67 <= 1340) by (nonlinear_arith)
        requires v.modules.len() <= 20;
    assert(v.selectors.len() * 109 <= 5450) by (nonlinear_arith)
        requires v.selectors.len() <= 50;
}

} // verus!

verus! {

pub fn write_module(out: &mut Vec<u8>, m: &ModuleMeta)
    ensures
        final(out)@ == old(out)@ + enc_module(*m),
{
    push_bytes(out, m.name.as_slice());
    push_bytes(out, m.address.0.as_slice());
    write_u16(out, m.version);
    write_bool(out, m.is_active);
    assert(out@ =~= old(out)@ + enc_module(*m));
}

pub fn write_mapping(out: &mut Vec<u8>, m: &SelectorMapping)
    ensures
        final(out)@ == old(out)@ + enc_mapping(*m),
{
    push_bytes(out, m.selector.as_slice());
    push_bytes(out, m.module.0.as_slice());
    push_bytes(out, m.function_name.as_slice());
    write_bool(out, m.is_immutable);
    push_bytes(out, m.namespace.as_slice());
    assert(out@ =~= old(out)@ + enc_mapping(*m));
}

pub fn read_module(b: &[u8], pos: usize) -> (r: Option<(ModuleMeta, usize)>)
    ensures
        agrees(r, module_at(b@, pos as int)),
{
    let (name, q1) = match read_bytes::<32>(b, pos) {
        Some(x) => x,
        None => return None,
    };
    let (address, q2) = match read_key(b, q1) {
        Some(x) => x,
        None => return None,
    };
    let (version, q3) = match read_u16(b, q2) {
        Some(x) => x,
        None => return None,
    };
    let (is_active, q4) = match read_bool(b, q3) {
        Some(x) => x,
        None => return None,
    };
    Some((ModuleMeta { name, address, version, is_active }, q4))
}

pub fn read_mapping(b: &[u8], pos: usize) -> (r: Option<(SelectorMapping, usize)>)
    ensures
        agrees(r, mapping_at(b@, pos as int)),
{
    let (selector, q1) = match read_bytes::<4>(b, pos) {
        Some(x) => x,
        None => return None,
    };
    let (module, q2) = match read_key(b, q1) {
        Some(x) => x,
        None => return None,
    };
    let (function_name, q3) = match read_bytes::<64>(b, q2) {
        Some(x) => x,
        None => return None,
    };
    let (is_immutable, q4) = match read_bool(b, q3) {
        Some(x) => x,
        None => return None,
    };
    let (namespace, q5) = match read_bytes::<8>(b, q4) {
        Some(x) => x,
        None => return None,
    };
    Some((SelectorMapping { namespace, selector, module, function_name, is_immutable }, q5))
}

/// A count of at most `max` keys, then the keys.
pub fn read_keys(b: &[u8], pos: usize, max: u32) -> (r: Option<(Vec<Pubkey>, usize)>)
    ensures
        match counted_at(b@, pos as int, max as nat, key_read()) {
            None => r is None,
            Some((xs, q)) => r matches Some((v, q2)) && v@ == xs && q2 == q,
        },
{
    let (n, start) = match read_u32(b, pos) {
        Some(x) => x,
        None => return None,
    };
    if n > max {
        return None;
    }
    let mut out: Vec<Pubkey> = Vec::new();
    let mut cur = start;
    let mut i: u32 = 0;
    while i < n
        invariant
            0 <= i <= n,
            n <= max,
            u32_at(b@, pos as int) == Some((n, start as int)),
            items_at(b@, start as int, i as nat, key_read()) == Some((out@, cur as int)),
        decreases n - i,
    {
        let (x, q) = match read_key(b, cur) {
            Some(x) => x,
            None => {
                proof {
                    assert(key_read()(b@, cur as int) == key_at(b@, cur as int));
                    assert(items_at(b@, start as int, (i + 1) as nat, key_read()) is None);
                    lemma_items_fail(b@, start as int, (i + 1) as nat, n as nat, key_read());
                }
                return None;
            },
        };
        out.push(x);
        cur = q;
        i = i + 1;
    }
    Some((out, cur))
}

/// A count of at most `max` module records, then the records.
pub fn read_modules(b: &[u8], pos: usize, max: u32) -> (r: Option<(Vec<ModuleMeta>, usize)>)
    ensures
        match counted_at(b@, pos as int, max as nat, module_read()) {
            None => r is None,
            Some((xs, q)) => r matches Some((v, q2)) && v@ == xs && q2 == q,
        },
{
    let (n, start) = match read_u32(b, pos) {
        Some(x) => x,
        None => return None,
    };
    if n > max {
        return None;
    }
    let mut out: Vec<ModuleMeta> = Vec::new();
    let mut cur = start;
    let mut i: u32 = 0;
    while i < n
        invariant
            0 <= i <= n,
            n <= max,
            u32_at(b@, pos as int) == Some((n, start as int)),
            items_at(b@, start as int, i as nat, module_read()) == Some((out@, cur as int)),
        decreases n - i,
    {
        let (x, q) = match read_module(b, cur) {
            Some(x) => x,
            None => {
                proof {
                    assert(module_read()(b@, cur as int) == module_at(b@, cur as int));
                    assert(items_at(b@, start as int, (i + 1) as nat, module_read()) is None);
                    lemma_items_fail(b@, start as int, (i + 1) as nat, n as nat, module_read());
                }
                return None;
            },
        };
        out.push(x);
        cur = q;
        i = i + 1;
    }
    Some((out, cur))
}

/// A count of at most `max` selector mappings, then the mappings.
pub fn read_mappings(b: &[u8], pos: usize, max: u32) -> (r: Option<(Vec<SelectorMapping>, usize)>)
    ensures
        match counted_at(b@, pos as int, max as nat, mapping_read()) {
            None => r is None,
            Some((xs, q)) => r matches Some((v, q2)) && v@ == xs && q2 == q,
        },
{
    let (n, start) = match read_u32(b, pos) {
        Some(x) => x,
        None => return None,
    };
    if n > max {
        return None;
    }
    let mut out: Vec<SelectorMapping> = Vec::new();
    let mut cur = start;
    let mut i: u32 = 0;
    while i < n
        invariant
            0 <= i <= n,
            n <= max,
            u32_at(b@, pos as int) == Some((n, start as int)),
            items_at(b@, start as int, i as nat, mapping_read()) == Some((out@, cur as int)),
        decreases n - i,
    {
        let (x, q) = match read_mapping(b, cur) {
            Some(x) => x,
            None => {
                proof {
                    assert(mapping_read()(b@, cur as int) == mapping_at(b@, cur as int));
                    assert(items_at(b@, start as int, (i + 1) as nat, mapping_read()) is None);
                    lemma_items_fail(b@, start as int, (i + 1) as nat, n as nat, mapping_read());
                }
                return None;
            },
        };
        out.push(x);
        cur = q;
        i = i + 1;
    }
    Some((out, cur))
}

/// Whether no two mappings share a selector.
pub fn selectors_are_unique(sels: &Vec<SelectorMapping>) -> (r: bool)
    ensures
        r == selectors_unique(sels@),
{
    let mut i: usize = 0;
    while i < sels.len()
        invariant
            0 <= i <= sels@.len(),
            forall|a: int, c: int|
                0 <= a < i && 0 <= c < sels@.len() && a != c ==> (#[trigger] sels@[a]).selector
                    != (#[trigger] sels@[c]).selector,
        decreases sels@.len() - i,
    {
        let mut j: usize = 0;
        while j < sels.len()
            invariant
                0 <= i < sels@.len(),
                0 <= j <= sels@.len(),
                forall|a: int, c: int|
                    0 <= a < i && 0 <= c < sels@.len() && a != c ==> (#[trigger] sels@[a]).selector
                        != (#[trigger] sels@[c]).selector,
                forall|c: int| 0 <= c < j && c != i ==> sels@[i as int].selector != (#[trigger] sels@[c]).selector,
            decreases sels@.len() - j,
        {
            if j != i && crate::state::selector_eq(&sels[i].selector, &sels[j].selector) {
                return false;
            }
            j = j + 1;
        }
        i = i + 1;
    }
    true
}

/// The record that `b` holds from its start, if it holds a well-formed one.
pub fn decode(b: &[u8]) -> (r: Option<DiamondState>)
    ensures
        match parse_state(b@) {
            None => r is None,
            Some(v) => r matches Some(s) && s@ == v,
        },
{
    let (owner, q1) = match read_key(b, 0) {
        Some(x) => x,
        None => return None,
    };
    let (admins, q2) = match read_keys(b, q1, MAX_ADMINS as u32) {
        Some(x) => x,
        None => return None,
    };
    let (active_modules, q3) = match read_modules(b, q2, MAX_MODULES as u32) {
        Some(x) => x,
        None => return None,
    };
    let (selectors, q4) = match read_mappings(b, q3, MAX_SELECTORS as u32) {
        Some(x) => x,
        None => return None,
    };
    if !selectors_are_unique(&selectors) {
        return None;
    }
    let (bump, q5) = match read_u8(b, q4) {
        Some(x) => x,
        None => return None,
    };
    let (is_paused, q6) = match read_bool(b, q5) {
        Some(x) => x,
        None => return None,
    };
    let (pause_authority, q7) = match read_key(b, q6) {
        Some(x) => x,
        None => return None,
    };
    let (paused_at, q8) = match read_opt_i64(b, q7) {
        Some(x) => x,
        None => return None,
    };
    let (pause_reason, q9) = match read_bytes::<64>(b, q8) {
        Some(x) => x,
        None => return None,
    };
    let (namespaces_enabled, q10) = match read_bool(b, q9) {
        Some(x) => x,
        None => return None,
    };
    let (squads_multisig, q11) = match read_opt_key(b, q10) {
        Some(x) => x,
        None => return None,
    };
    let (governance_realm, q12) = match read_opt_key(b, q11) {
        Some(x) => x,
        None => return None,
    };
    let (governance_program, _q13) = match read_opt_key(b, q12) {
        Some(x) => x,
        None => return None,
    };
    Some(
        DiamondState {
            owner,
            admins,
            active_modules,
            selectors,
            bump,
            is_paused,
            pause_authority,
            paused_at,
            pause_reason,
            namespaces_enabled,
            squads_multisig,
            governance_realm,
            governance_program,
        },
    )
}

/// The bytes of the record.
pub fn encode(s: &DiamondState) -> (r: Vec<u8>)
    ensures
        r@ == enc_state(s@),
{
    let mut out: Vec<u8> = Vec::new();
    push_bytes(&mut out, s.owner.0.as_slice());
    let ghost e1 = out@;
    write_u32(&mut out, s.admins.len() as u32);
    let ghost c1 = out@;
    let mut i: usize = 0;
    while i < s.admins.len()
        invariant
            0 <= i <= s.admins@.len(),
            out@ == c1 + enc_items(s.admins@.take(i as int), key_enc()),
        decreases s.admins@.len() - i,
    {
        push_bytes(&mut out, s.admins[i].0.as_slice());
        assert(s.admins@.take(i + 1).drop_last() =~= s.admins@.take(i as int));
        i = i + 1;
        assert(out@ =~= c1 + enc_items(s.admins@.take(i as int), key_enc()));
    }
    assert(s.admins@.take(s.admins@.len() as int) =~= s.admins@);
    assert(out@ =~= e1 + enc_counted(s.admins@, key_enc()));
    let ghost e2 = out@;
    write_u32(&mut out, s.active_modules.len() as u32);
    let ghost c2 = out@;
    let mut i: usize = 0;
    while i < s.active_modules.len()
        invariant
            0 <= i <= s.active_modules@.len(),
            out@ == c2 + enc_items(s.active_modules@.take(i as int), module_enc()),
        decreases s.active_modules@.len() - i,
    {
        write_module(&mut out, &s.active_modules[i]);
        assert(s.active_modules@.take(i + 1).drop_last() =~= s.active_modules@.take(i as int));
        i = i + 1;
        assert(out@ =~= c2 + enc_items(s.active_modules@.take(i as int), module_enc()));
    }
    assert(s.active_modules@.take(s.active_modules@.len() as int) =~= s.active_modules@);
    assert(out@ =~= e2 + enc_counted(s.active_modules@, module_enc()));
    let ghost e3 = out@;
    write_u32(&mut out, s.selectors.len() as u32);
    let ghost c3 = out@;
    let mut i: usize = 0;
    while i < s.selectors.len()
        invariant
            0 <= i <= s.selectors@.len(),
            out@ == c3 + enc_items(s.selectors@.take(i as int), mapping_enc()),
        decreases s.selectors@.len() - i,
    {
        write_mapping(&mut out, &s.selectors[i]);
        assert(s.selectors@.take(i + 1).drop_last() =~= s.selectors@.take(i as int));
        i = i + 1;
        assert(out@ =~= c3 + enc_items(s.selectors@.take(i as int), mapping_enc()));
    }
    assert(s.selectors@.take(s.selectors@.len() as int) =~= s.selectors@);
    assert(out@ =~= e3 + enc_counted(s.selectors@, mapping_enc()));
    out.push(s.bump);
    write_bool(&mut out, s.is_paused);
    push_bytes(&mut out, s.pause_authority.0.as_slice());
    write_opt_i64(&mut out, &s.paused_at);
    push_bytes(&mut out, s.pause_reason.as_slice());
    write_bool(&mut out, s.namespaces_enabled);
    write_opt_key(&mut out, &s.squads_multisig);
    write_opt_key(&mut out, &s.governance_realm);
    write_opt_key(&mut out, &s.governance_program);
    assert(out@ =~= enc_state(s@));
    out
}

} // verus!

verus! {

/// Only well-formed records are read.
pub proof fn lemma_parsed_wf(b: Seq<u8>)
    ensures
        parse_state(b) matches Some(v) ==> v.wf(),
{
    if let Some((owner, q1)) = key_at(b, 0) {
        if let Some((n, q)) = u32_at(b, q1) {
            lemma_items_len(b, q, n as nat, key_read());
        }
        if let Some((admins, q2)) = counted_at(b, q1, MAX_ADMINS as nat, key_read()) {
            if let Some((n, q)) = u32_at(b, q2) {
                lemma_items_len(b, q, n as nat, module_read());
            }
            if let Some((modules, q3)) = counted_at(b, q2, MAX_MODULES as nat, module_read()) {
                if let Some((n, q)) = u32_at(b, q3) {
                    lemma_items_len(b, q, n as nat, mapping_read());
                }
            }
        }
    }
}

/// `n` zero bytes.
pub open spec fn zeros(n: nat) -> Seq<u8> {
    Seq::new(n, |i: int| 0u8)
}

impl DiamondState {
    /// Reads the record stored in `data`; bytes that do not hold a
    /// well-formed record are reported as corrupt.
    pub fn load(data: &[u8]) -> (r: Result<DiamondState, DiamondError>)
        ensures
            match parse_state(data@) {
                None => r == Err::<DiamondState, DiamondError>(DiamondError::InvalidAccountData),
                Some(v) => r matches Ok(s) && s@ == v && v.wf(),
            },
    {
        proof {
            lemma_parsed_wf(data@);
        }
        match decode(data) {
            Some(s) => Ok(s),
            None => Err(DiamondError::InvalidAccountData),
        }
    }

    /// The record laid out in exactly `capacity` bytes, zero-filled after its
    /// end; a record that does not fit is refused.
    pub fn save(&self, capacity: usize) -> (r: Result<Vec<u8>, DiamondError>)
        ensures
            enc_state(self@).len() > capacity ==> r == Err::<Vec<u8>, DiamondError>(
                DiamondError::AccountDataTooSmall,
            ),
            enc_state(self@).len() <= capacity ==> (r matches Ok(bytes) && bytes@ == enc_state(
                self@,
            ) + zeros((capacity - enc_state(self@).len()) as nat)),
    {
        let mut out = encode(self);
        if out.len() > capacity {
            return Err(DiamondError::AccountDataTooSmall);
        }
        let ghost e = out@;
        while out.len() < capacity
            invariant
                e.len() <= out@.len() <= capacity,
                out@ == e + zeros((out@.len() - e.len()) as nat),
            decreases capacity - out@.len(),
        {
            out.push(0u8);
            assert(out@ =~= e + zeros((out@.len() - e.len()) as nat));
        }
        Ok(out)
    }
}

/// A well-formed record saved into enough space loads back unchanged.
pub proof fn lemma_save_load(v: DiamondStateView, capacity: nat)
    requires
        v.wf(),
        enc_state(v).len() <= capacity,
    ensures
        parse_state(enc_state(v) + zeros((capacity - enc_state(v).len()) as nat)) == Some(v),
{
    lemma_round_trip(v, zeros((capacity - enc_state(v).len()) as nat));
}

} // verus!
