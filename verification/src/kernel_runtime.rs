//! The parts of the kernel runtime that compute on plain values: the hash
//! of the runtime's hash-map keys, and the return type of a file's entry
//! point. Running kernels needs the kernel JIT, which is not part of this
//! library.
use vstd::prelude::*;
use crate::ast::{File, Type};
use crate::shell_runtime::{kernel_signatures, kernels_sigs, KernelSigView, KernelSig, sig_views};
use crate::text::str_eq;

verus! {

/// Byte `i` (from the least significant) of a 64-bit word.
pub open spec fn le_byte(k: u64, i: u64) -> u64 {
    (k >> ((8 * i) as u64)) & 0xffu64
}

/// One FNV-1a step: xor in a byte, multiply by the 64-bit FNV prime.
pub open spec fn fnv_step(h: u64, b: u64) -> u64 {
    (h ^ b).wrapping_mul(0x100000001b3u64)
}

/// FNV-1a over the first `n` little-endian bytes of a word.
pub open spec fn fnv_bytes(k: u64, n: nat) -> u64
    decreases n,
{
    if n == 0 {
        0xcbf29ce484222325u64
    } else {
        fnv_step(fnv_bytes(k, (n - 1) as nat), le_byte(k, (n - 1) as u64))
    }
}

/// The hash of a key: FNV-1a over its eight little-endian bytes, read back
/// as a signed word.
pub open spec fn hash_of(key: i64) -> i64 {
    fnv_bytes(key as u64, 8) as i64
}

/// Hashes a hash-map key; see `hash_of`.
pub fn hash_i64(key: i64) -> (r: i64)
    ensures
        r == hash_of(key),
{
    let k = key as u64;
    let mut h: u64 = 0xcbf29ce484222325;
    let mut i: u64 = 0;
    while i < 8
        invariant
            i <= 8,
            k == key as u64,
            h == fnv_bytes(k, i as nat),
        decreases 8 - i,
    {
        let b = (k >> (8 * i)) & 0xff;
        h = (h ^ b).wrapping_mul(0x100000001b3);
        i = i + 1;
    }
    h as i64
}

/// The return type of the first kernel function named `main` without
/// parameters, from signature `i` on; `None` when there is none, or when
/// it returns nothing.
pub open spec fn first_main_from(sigs: Seq<KernelSigView>, i: int) -> Option<Type>
    decreases sigs.len() - i,
{
    if i < 0 || i >= sigs.len() {
        None
    } else if sigs[i].func@ == "main"@ && sigs[i].params.len() == 0 {
        sigs[i].return_type
    } else {
        first_main_from(sigs, i + 1)
    }
}

/// The return type of a file's entry point: the first function named
/// `main` without parameters, kernel by kernel in source order.
pub open spec fn main_return_type(file: File) -> Option<Type> {
    first_main_from(kernels_sigs(file.kernels@), 0)
}

/// Finds the return type of a file's entry point; see `main_return_type`.
pub fn find_main_return_type(file: &File) -> (r: Option<Type>)
    ensures
        r == main_return_type(*file),
{
    let sigs = kernel_signatures(file);
    let ghost views = kernels_sigs(file.kernels@);
    proof {
        assert(sig_views(sigs@) =~= views);
    }
    for i in 0..sigs.len()
        invariant
            views == kernels_sigs(file.kernels@),
            sigs@.len() == views.len(),
            forall|j: int| 0 <= j < sigs@.len() ==> #[trigger] sigs@[j]@ == views[j],
            first_main_from(views, 0) == first_main_from(views, i as int),
    {
        let s: &KernelSig = &sigs[i];
        assert(s@ == views[i as int]);
        if str_eq(s.func.as_str(), "main") && s.params.len() == 0 {
            return match &s.return_type {
                Some(t) => Some(t.clone()),
                None => None,
            };
        }
    }
    None
}

} // verus!
