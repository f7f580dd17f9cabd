//! Little-endian, length-prefixed encodings of the values a record holds,
//! with readers that start at a position in a byte buffer.

use crate::pubkey::Pubkey;
use crate::state::{fixed_bytes, lemma_fixed_bytes, padded, to_fixed_bytes};
use vstd::bytes::{
    lemma_auto_spec_u16_to_from_le_bytes, lemma_auto_spec_u32_to_from_le_bytes,
    lemma_auto_spec_u64_to_from_le_bytes, spec_u16_from_le_bytes, spec_u16_to_le_bytes,
    spec_u32_from_le_bytes, spec_u32_to_le_bytes, spec_u64_from_le_bytes, spec_u64_to_le_bytes,
    u16_from_le_bytes, u16_to_le_bytes, u32_from_le_bytes, u32_to_le_bytes, u64_from_le_bytes,
    u64_to_le_bytes,
};
use vstd::prelude::*;
use vstd::slice::slice_subrange;

verus! {

/// A reader's result in exec form agrees with its spec form.
pub open spec fn agrees<T>(r: Option<(T, usize)>, s: Option<(T, int)>) -> bool {
    match s {
        None => r is None,
        Some((x, q)) => r matches Some((y, q2)) && y == x && q2 == q,
    }
}

/// `x` stands in `b` at position `p`.
pub open spec fn holds_at(b: Seq<u8>, p: int, x: Seq<u8>) -> bool {
    0 <= p && p + x.len() <= b.len() && b.subrange(p, p + x.len()) == x
}

/// Where `x + y` stands at `p`, `x` stands at `p` and `y` right after it.
pub proof fn lemma_split(b: Seq<u8>, p: int, x: Seq<u8>, y: Seq<u8>)
    requires
        holds_at(b, p, x + y),
    ensures
        holds_at(b, p, x),
        holds_at(b, p + x.len(), y),
{
    assert(b.subrange(p, p + x.len()) =~= (x + y).subrange(0, x.len() as int));
    assert(b.subrange(p + x.len(), p + x.len() + y.len()) =~= (x + y).subrange(
        x.len() as int,
        (x.len() + y.len()) as int,
    ));
    assert((x + y).subrange(0, x.len() as int) =~= x);
    assert((x + y).subrange(x.len() as int, (x.len() + y.len()) as int) =~= y);
}

// ---- encodings ----
pub open spec fn enc_bool(x: bool) -> Seq<u8> {
    seq![if x { 1u8 } else { 0u8 }]
}

pub open spec fn enc_i64(x: i64) -> Seq<u8> {
    spec_u64_to_le_bytes(x as u64)
}

pub open spec fn enc_opt_key(x: Option<Pubkey>) -> Seq<u8> {
    match x {
        None => seq![0u8],
        Some(k) => seq![1u8] + k.0@,
    }
}

pub open spec fn enc_opt_i64(x: Option<i64>) -> Seq<u8> {
    match x {
        None => seq![0u8],
        Some(t) => seq![1u8] + enc_i64(t),
    }
}

/// The items of `xs` encoded one after another.
pub open spec fn enc_items<T>(xs: Seq<T>, enc: spec_fn(T) -> Seq<u8>) -> Seq<u8>
    decreases xs.len(),
{
    if xs.len() == 0 {
        Seq::empty()
    } else {
        enc_items(xs.drop_last(), enc) + enc(xs.last())
    }
}

/// A four-byte count followed by the items.
pub open spec fn enc_counted<T>(xs: Seq<T>, enc: spec_fn(T) -> Seq<u8>) -> Seq<u8> {
    spec_u32_to_le_bytes(xs.len() as u32) + enc_items(xs, enc)
}

// ---- readers ----
pub open spec fn bytes_at<const N: usize>(b: Seq<u8>, p: int) -> Option<([u8; N], int)> {
    if 0 <= p && p + N <= b.len() {
        Some((fixed_bytes::<N>(b.subrange(p, p + N)), p + N))
    } else {
        None
    }
}

pub open spec fn key_at(b: Seq<u8>, p: int) -> Option<(Pubkey, int)> {
    match bytes_at::<32>(b, p) {
        Some((a, q)) => Some((Pubkey(a), q)),
        None => None,
    }
}

pub open spec fn u8_at(b: Seq<u8>, p: int) -> Option<(u8, int)> {
    if 0 <= p && p + 1 <= b.len() {
        Some((b[p], p + 1))
    } else {
        None
    }
}

pub open spec fn bool_at(b: Seq<u8>, p: int) -> Option<(bool, int)> {
    match u8_at(b, p) {
        Some((x, q)) => if x == 0 {
            Some((false, q))
        } else if x == 1 {
            Some((true, q))
        } else {
            None
        },
        None => None,
    }
}

pub open spec fn u16_at(b: Seq<u8>, p: int) -> Option<(u16, int)> {
    if 0 <= p && p + 2 <= b.len() {
        Some((spec_u16_from_le_bytes(b.subrange(p, p + 2)), p + 2))
    } else {
        None
    }
}

pub open spec fn u32_at(b: Seq<u8>, p: int) -> Option<(u32, int)> {
    if 0 <= p && p + 4 <= b.len() {
        Some((spec_u32_from_le_bytes(b.subrange(p, p + 4)), p + 4))
    } else {
        None
    }
}

pub open spec fn i64_at(b: Seq<u8>, p: int) -> Option<(i64, int)> {
    if 0 <= p && p + 8 <= b.len() {
        Some((spec_u64_from_le_bytes(b.subrange(p, p + 8)) as i64, p + 8))
    } else {
        None
    }
}

pub open spec fn opt_key_at(b: Seq<u8>, p: int) -> Option<(Option<Pubkey>, int)> {
    match u8_at(b, p) {
        Some((t, q)) => if t == 0 {
            Some((None, q))
        } else if t == 1 {
            match key_at(b, q) {
                Some((k, q2)) => Some((Some(k), q2)),
                None => None,
            }
        } else {
            None
        },
        None => None,
    }
}

pub open spec fn opt_i64_at(b: Seq<u8>, p: int) -> Option<(Option<i64>, int)> {
    match u8_at(b, p) {
        Some((t, q)) => if t == 0 {
            Some((None, q))
        } else if t == 1 {
            match i64_at(b, q) {
                Some((x, q2)) => Some((Some(x), q2)),
                None => None,
            }
        } else {
            None
        },
        None => None,
    }
}

/// `n` items read one after another from `p`.
pub open spec fn items_at<T>(
    b: Seq<u8>,
    p: int,
    n: nat,
    item: spec_fn(Seq<u8>, int) -> Option<(T, int)>,
) -> Option<(Seq<T>, int)>
    decreases n,
{
    if n == 0 {
        if 0 <= p <= b.len() {
            Some((Seq::empty(), p))
        } else {
            None
        }
    } else {
        match items_at(b, p, (n - 1) as nat, item) {
            Some((xs, q)) => match item(b, q) {
                Some((x, q2)) => Some((xs.push(x), q2)),
                None => None,
            },
            None => None,
        }
    }
}

/// A count of at most `max` followed by that many items.
pub open spec fn counted_at<T>(
    b: Seq<u8>,
    p: int,
    max: nat,
    item: spec_fn(Seq<u8>, int) -> Option<(T, int)>,
) -> Option<(Seq<T>, int)> {
    match u32_at(b, p) {
        Some((n, q)) => if n > max {
            None
        } else {
            items_at(b, q, n as nat, item)
        },
        None => None,
    }
}

// ---- reading back what was written ----
pub proof fn lemma_bytes_at<const N: usize>(b: Seq<u8>, p: int, a: [u8; N])
    requires
        holds_at(b, p, a@),
    ensures
        bytes_at::<N>(b, p) == Some((a, p + N)),
{
    assert(a@ == padded(b.subrange(p, p + N), N as nat)) by {
        assert(padded(b.subrange(p, p + N), N as nat) =~= b.subrange(p, p + N));
    }
    lemma_fixed_bytes::<N>(a, b.subrange(p, p + N));
}

pub proof fn lemma_key_at(b: Seq<u8>, p: int, k: Pubkey)
    requires
        holds_at(b, p, k.0@),
    ensures
        key_at(b, p) == Some((k, p + 32)),
{
    lemma_bytes_at::<32>(b, p, k.0);
}

pub proof fn lemma_u8_at(b: Seq<u8>, p: int, x: u8)
    requires
        holds_at(b, p, seq![x]),
    ensures
        u8_at(b, p) == Some((x, p + 1)),
{
    assert(b.subrange(p, p + 1)[0] == b[p]);
}

pub proof fn lemma_bool_at(b: Seq<u8>, p: int, x: bool)
    requires
        holds_at(b, p, enc_bool(x)),
    ensures
        bool_at(b, p) == Some((x, p + 1)),
{
    lemma_u8_at(b, p, if x { 1u8 } else { 0u8 });
}

pub proof fn lemma_u16_at(b: Seq<u8>, p: int, x: u16)
    requires
        holds_at(b, p, spec_u16_to_le_bytes(x)),
    ensures
        u16_at(b, p) == Some((x, p + 2)),
{
    lemma_auto_spec_u16_to_from_le_bytes();
}

pub proof fn lemma_u32_at(b: Seq<u8>, p: int, x: u32)
    requires
        holds_at(b, p, spec_u32_to_le_bytes(x)),
    ensures
        u32_at(b, p) == Some((x, p + 4)),
{
    lemma_auto_spec_u32_to_from_le_bytes();
}

pub proof fn lemma_i64_at(b: Seq<u8>, p: int, x: i64)
    requires
        holds_at(b, p, enc_i64(x)),
    ensures
        i64_at(b, p) == Some((x, p + 8)),
{
    lemma_auto_spec_u64_to_from_le_bytes();
    assert(((x as u64) as i64) == x) by (bit_vector);
}

pub proof fn lemma_opt_key_at(b: Seq<u8>, p: int, x: Option<Pubkey>)
    requires
        holds_at(b, p, enc_opt_key(x)),
    ensures
        opt_key_at(b, p) == Some((x, p + enc_opt_key(x).len())),
{
    match x {
        None => lemma_u8_at(b, p, 0u8),
        Some(k) => {
            lemma_split(b, p, seq![1u8], k.0@);
            lemma_u8_at(b, p, 1u8);
            lemma_key_at(b, p + 1, k);
        },
    }
}

pub proof fn lemma_opt_i64_at(b: Seq<u8>, p: int, x: Option<i64>)
    requires
        holds_at(b, p, enc_opt_i64(x)),
    ensures
        opt_i64_at(b, p) == Some((x, p + enc_opt_i64(x).len())),
{
    lemma_auto_spec_u64_to_from_le_bytes();
    match x {
        None => lemma_u8_at(b, p, 0u8),
        Some(t) => {
            lemma_split(b, p, seq![1u8], enc_i64(t));
            lemma_u8_at(b, p, 1u8);
            lemma_i64_at(b, p + 1, t);
        },
    }
}

/// Items written one after another are read back, when each item is.
pub proof fn lemma_items_at<T>(
    b: Seq<u8>,
    p: int,
    xs: Seq<T>,
    enc: spec_fn(T) -> Seq<u8>,
    item: spec_fn(Seq<u8>, int) -> Option<(T, int)>,
)
    requires
        holds_at(b, p, enc_items(xs, enc)),
        forall|q: int, x: T| #[trigger]
            holds_at(b, q, enc(x)) ==> item(b, q) == Some((x, q + enc(x).len())),
    ensures
        items_at(b, p, xs.len(), item) == Some((xs, p + enc_items(xs, enc).len())),
    decreases xs.len(),
{
    if xs.len() > 0 {
        let init = xs.drop_last();
        lemma_split(b, p, enc_items(init, enc), enc(xs.last()));
        lemma_items_at(b, p, init, enc, item);
        assert(init.push(xs.last()) =~= xs);
    }
}

/// A counted list within its bound is read back.
pub proof fn lemma_counted_at<T>(
    b: Seq<u8>,
    p: int,
    xs: Seq<T>,
    max: nat,
    enc: spec_fn(T) -> Seq<u8>,
    item: spec_fn(Seq<u8>, int) -> Option<(T, int)>,
)
    requires
        xs.len() <= max,
        max <= u32::MAX,
        holds_at(b, p, enc_counted(xs, enc)),
        forall|q: int, x: T| #[trigger]
            holds_at(b, q, enc(x)) ==> item(b, q) == Some((x, q + enc(x).len())),
    ensures
        counted_at(b, p, max, item) == Some((xs, p + enc_counted(xs, enc).len())),
{
    lemma_auto_spec_u32_to_from_le_bytes();
    lemma_split(b, p, spec_u32_to_le_bytes(xs.len() as u32), enc_items(xs, enc));
    lemma_u32_at(b, p, xs.len() as u32);
    lemma_items_at(b, p + 4, xs, enc, item);
}

/// Items of a fixed width take that width each.
pub proof fn lemma_enc_items_len<T>(xs: Seq<T>, enc: spec_fn(T) -> Seq<u8>, w: nat)
    requires
        forall|x: T| #[trigger] enc(x).len() == w,
    ensures
        enc_items(xs, enc).len() == xs.len() * w,
    decreases xs.len(),
{
    if xs.len() > 0 {
        lemma_enc_items_len(xs.drop_last(), enc, w);
        assert(enc_items(xs, enc).len() == (xs.len() - 1) * w + w);
        assert((xs.len() - 1) * w + w == xs.len() * w) by (nonlinear_arith);
    }
}

} // verus!

verus! {

// ---- exec readers ----
pub fn read_bytes<const N: usize>(b: &[u8], pos: usize) -> (r: Option<([u8; N], usize)>)
    ensures
        agrees(r, bytes_at::<N>(b@, pos as int)),
{
    if N <= b.len() && pos <= b.len() - N {
        let a = to_fixed_bytes::<N>(slice_subrange(b, pos, pos + N));
        Some((a, pos + N))
    } else {
        None
    }
}

pub fn read_key(b: &[u8], pos: usize) -> (r: Option<(Pubkey, usize)>)
    ensures
        agrees(r, key_at(b@, pos as int)),
{
    match read_bytes::<32>(b, pos) {
        Some((a, q)) => Some((Pubkey(a), q)),
        None => None,
    }
}

pub fn read_u8(b: &[u8], pos: usize) -> (r: Option<(u8, usize)>)
    ensures
        agrees(r, u8_at(b@, pos as int)),
{
    if pos < b.len() {
        Some((b[pos], pos + 1))
    } else {
        None
    }
}

pub fn read_bool(b: &[u8], pos: usize) -> (r: Option<(bool, usize)>)
    ensures
        agrees(r, bool_at(b@, pos as int)),
{
    match read_u8(b, pos) {
        Some((x, q)) => if x == 0 {
            Some((false, q))
        } else if x == 1 {
            Some((true, q))
        } else {
            None
        },
        None => None,
    }
}

pub fn read_u16(b: &[u8], pos: usize) -> (r: Option<(u16, usize)>)
    ensures
        agrees(r, u16_at(b@, pos as int)),
{
    if 2 <= b.len() && pos <= b.len() - 2 {
        Some((u16_from_le_bytes(slice_subrange(b, pos, pos + 2)), pos + 2))
    } else {
        None
    }
}

pub fn read_u32(b: &[u8], pos: usize) -> (r: Option<(u32, usize)>)
    ensures
        agrees(r, u32_at(b@, pos as int)),
{
    if 4 <= b.len() && pos <= b.len() - 4 {
        Some((u32_from_le_bytes(slice_subrange(b, pos, pos + 4)), pos + 4))
    } else {
        None
    }
}

pub fn read_i64(b: &[u8], pos: usize) -> (r: Option<(i64, usize)>)
    ensures
        agrees(r, i64_at(b@, pos as int)),
{
    if 8 <= b.len() && pos <= b.len() - 8 {
        Some((u64_from_le_bytes(slice_subrange(b, pos, pos + 8)) as i64, pos + 8))
    } else {
        None
    }
}

pub fn read_opt_key(b: &[u8], pos: usize) -> (r: Option<(Option<Pubkey>, usize)>)
    ensures
        agrees(r, opt_key_at(b@, pos as int)),
{
    match read_u8(b, pos) {
        Some((t, q)) => if t == 0 {
            Some((None, q))
        } else if t == 1 {
            match read_key(b, q) {
                Some((k, q2)) => Some((Some(k), q2)),
                None => None,
            }
        } else {
            None
        },
        None => None,
    }
}

pub fn read_opt_i64(b: &[u8], pos: usize) -> (r: Option<(Option<i64>, usize)>)
    ensures
        agrees(r, opt_i64_at(b@, pos as int)),
{
    match read_u8(b, pos) {
        Some((t, q)) => if t == 0 {
            Some((None, q))
        } else if t == 1 {
            match read_i64(b, q) {
                Some((x, q2)) => Some((Some(x), q2)),
                None => None,
            }
        } else {
            None
        },
        None => None,
    }
}

// ---- exec writers ----
pub fn push_bytes(out: &mut Vec<u8>, b: &[u8])
    ensures
        final(out)@ == old(out)@ + b@,
{
    let mut i: usize = 0;
    while i < b.len()
        invariant
            0 <= i <= b@.len(),
            out@ == old(out)@ + b@.take(i as int),
        decreases b@.len() - i,
    {
        out.push(b[i]);
        i = i + 1;
        assert(out@ =~= old(out)@ + b@.take(i as int));
    }
    assert(b@.take(b@.len() as int) =~= b@);
}

pub fn write_bool(out: &mut Vec<u8>, x: bool)
    ensures
        final(out)@ == old(out)@ + enc_bool(x),
{
    out.push(if x { 1u8 } else { 0u8 });
    assert(out@ =~= old(out)@ + enc_bool(x));
}

pub fn write_u16(out: &mut Vec<u8>, x: u16)
    ensures
        final(out)@ == old(out)@ + spec_u16_to_le_bytes(x),
{
    let b = u16_to_le_bytes(x);
    push_bytes(out, b.as_slice());
}

pub fn write_u32(out: &mut Vec<u8>, x: u32)
    ensures
        final(out)@ == old(out)@ + spec_u32_to_le_bytes(x),
{
    let b = u32_to_le_bytes(x);
    push_bytes(out, b.as_slice());
}

pub fn write_i64(out: &mut Vec<u8>, x: i64)
    ensures
        final(out)@ == old(out)@ + enc_i64(x),
{
    let b = u64_to_le_bytes(x as u64);
    push_bytes(out, b.as_slice());
}

pub fn write_opt_key(out: &mut Vec<u8>, x: &Option<Pubkey>)
    ensures
        final(out)@ == old(out)@ + enc_opt_key(*x),
{
    match x {
        None => {
            out.push(0u8);
            assert(out@ =~= old(out)@ + enc_opt_key(*x));
        },
        Some(k) => {
            out.push(1u8);
            push_bytes(out, k.0.as_slice());
            assert(out@ =~= old(out)@ + enc_opt_key(*x));
        },
    }
}

pub fn write_opt_i64(out: &mut Vec<u8>, x: &Option<i64>)
    ensures
        final(out)@ == old(out)@ + enc_opt_i64(*x),
{
    match x {
        None => {
            out.push(0u8);
            assert(out@ =~= old(out)@ + enc_opt_i64(*x));
        },
        Some(t) => {
            out.push(1u8);
            write_i64(out, *t);
            assert(out@ =~= old(out)@ + enc_opt_i64(*x));
        },
    }
}

} // verus!

verus! {

/// Once reading the first `k` items fails, reading more fails too.
pub proof fn lemma_items_fail<T>(
    b: Seq<u8>,
    p: int,
    k: nat,
    n: nat,
    item: spec_fn(Seq<u8>, int) -> Option<(T, int)>,
)
    requires
        k <= n,
        items_at(b, p, k, item) is None,
    ensures
        items_at(b, p, n, item) is None,
    decreases n - k,
{
    if k < n {
        lemma_items_fail(b, p, k + 1, n, item);
    }
}

} // verus!

verus! {

/// Reading `n` items yields `n` of them.
pub proof fn lemma_items_len<T>(
    b: Seq<u8>,
    p: int,
    n: nat,
    item: spec_fn(Seq<u8>, int) -> Option<(T, int)>,
)
    ensures
        items_at(b, p, n, item) matches Some((xs, _q)) ==> xs.len() == n,
    decreases n,
{
    if n > 0 {
        lemma_items_len(b, p, (n - 1) as nat, item);
    }
}

} // verus!
