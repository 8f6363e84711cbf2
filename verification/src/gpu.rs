//! The host side of the GPU search backend. The device protocol itself
//! (buffers, dispatch, readback) is outside what this crate verifies; what
//! is here is every decision the host makes per batch: the pattern
//! descriptor and prefix data uploaded once, the nonce patch that makes
//! each batch explore a distinct region, the scan of the match flags, the
//! parsing of read-back records, and the limit-capped absorption of
//! matches.

use vstd::prelude::*;
use crate::bytes::{be64, be64_bytes};
use crate::create3::Address;
use crate::keccak::{keccak256_bytes, keccak256_of};
use crate::pattern::{get_pattern_for_gpu, PatternType};

verus! {

/// The batch-oriented GPU search backend's job parameters.
pub struct GpuMiner {
    pub base_salt: [u8; 32],
    pub deployer: Address,
    pub pattern: PatternType,
    pub limit: usize,
    pub workgroup_size: u32,
}

impl GpuMiner {
    /// Build a miner; the base salt is the digest of the caller's salt
    /// text.
    pub fn new(
        base_salt_str: String,
        deployer: Address,
        pattern: PatternType,
        limit: usize,
        workgroup_size: u32,
    ) -> (r: GpuMiner)
        ensures
            r.base_salt@ == keccak256_of(vstd::utf8::encode_utf8(base_salt_str@)),
            r.deployer == deployer,
            r.pattern == pattern,
            r.limit == limit,
            r.workgroup_size == workgroup_size,
    {
        let base_salt = keccak256_bytes(base_salt_str.as_str().as_bytes());
        GpuMiner { base_salt, deployer, pattern, limit, workgroup_size }
    }
}

/// The variant tag uploaded to the device: prefix, regex, advanced.
pub open spec fn spec_pattern_kind(p: PatternType) -> u32 {
    match p {
        PatternType::Prefix(_) => 0,
        PatternType::Regex(_) => 1,
        PatternType::Advanced { .. } => 2,
    }
}

/// Whether an advanced pattern carries leading alternatives.
pub open spec fn spec_has_leading(p: PatternType) -> u32 {
    match p {
        PatternType::Advanced { leading: Some(_), .. } => 1,
        _ => 0,
    }
}

/// Whether an advanced pattern carries trailing alternatives.
pub open spec fn spec_has_trailing(p: PatternType) -> u32 {
    match p {
        PatternType::Advanced { trailing: Some(_), .. } => 1,
        _ => 0,
    }
}

/// The pattern descriptor uploaded to the device once per run.
pub struct GpuPatternInfo {
    pub pattern_kind: u32,
    pub has_leading: u32,
    pub has_trailing: u32,
    pub option_count: u32,
}

/// Build the device pattern descriptor for a pattern.
pub fn gpu_pattern_info(pattern: &PatternType) -> (r: GpuPatternInfo)
    ensures
        r.pattern_kind == spec_pattern_kind(*pattern),
        r.has_leading == spec_has_leading(*pattern),
        r.has_trailing == spec_has_trailing(*pattern),
        r.option_count == 0,
{
    let pattern_kind: u32 = match pattern {
        PatternType::Prefix(_) => 0,
        PatternType::Regex(_) => 1,
        PatternType::Advanced { .. } => 2,
    };
    let has_leading: u32 = match pattern {
        PatternType::Advanced { leading: Some(_), .. } => 1,
        _ => 0,
    };
    let has_trailing: u32 = match pattern {
        PatternType::Advanced { trailing: Some(_), .. } => 1,
        _ => 0,
    };
    GpuPatternInfo { pattern_kind, has_leading, has_trailing, option_count: 0 }
}

/// Build the 32-byte prefix buffer uploaded to the device: the projected
/// prefix bytes, zero-padded.
pub fn gpu_pattern_data(pattern: &PatternType) -> (r: Vec<u8>)
    requires
        pattern matches PatternType::Prefix(pre) ==> pre@.len() <= 32,
    ensures
        r@.len() == 32,
        (pattern matches PatternType::Prefix(pre) ==> r@.subrange(0, pre@.len() as int) == pre@
            && (forall|i: int| pre@.len() <= i < 32 ==> r@[i] == 0)),
        (!(pattern is Prefix) ==> forall|i: int| 0 <= i < 32 ==> r@[i] == 0),
{
    let (prefix, _n) = get_pattern_for_gpu(pattern);
    let mut data: Vec<u8> = Vec::new();
    let mut i: usize = 0;
    while i < 32
        invariant
            i <= 32,
            data@.len() == i,
            forall|j: int| 0 <= j < i ==> data@[j] == 0,
        decreases 32 - i,
    {
        data.push(0);
        i += 1;
    }
    let plen = prefix.len();
    let mut k: usize = 0;
    while k < plen
        invariant
            k <= plen,
            plen == prefix@.len() <= 32,
            data@.len() == 32,
            forall|j: int| 0 <= j < k ==> data@[j] == prefix@[j],
            forall|j: int| k <= j < 32 ==> data@[j] == 0,
        decreases plen - k,
    {
        data.set(k, prefix[k]);
        k += 1;
    }
    proof {
        if pattern is Prefix {
            assert(data@.subrange(0, plen as int) =~= prefix@);
        }
    }
    data
}

/// The indices at or after `from` whose match flag is set, in order.
pub open spec fn match_indices_from(flags: Seq<u32>, from: nat) -> Seq<int>
    decreases flags.len() - from,
{
    if from >= flags.len() {
        Seq::empty()
    } else {
        (if flags[from as int] == 1 {
            seq![from as int]
        } else {
            Seq::<int>::empty()
        }) + match_indices_from(flags, from + 1)
    }
}

/// Scan the read-back match flags: the lanes that found a match, in lane
/// order.
pub fn scan_match_flags(flags: &Vec<u32>) -> (idxs: Vec<usize>)
    ensures
        idxs@.map_values(|x: usize| x as int) == match_indices_from(flags@, 0),
        forall|q: int| 0 <= q < idxs@.len() ==> (#[trigger] idxs@[q]) < flags@.len(),
{
    let n = flags.len();
    let mut idxs: Vec<usize> = Vec::new();
    let mut i: usize = 0;
    while i < n
        invariant
            i <= n,
            n == flags@.len(),
            idxs@.map_values(|x: usize| x as int) + match_indices_from(flags@, i as nat)
                == match_indices_from(flags@, 0),
            forall|q: int| 0 <= q < idxs@.len() ==> (#[trigger] idxs@[q]) < n,
        decreases n - i,
    {
        let ghost pre = idxs@;
        if flags[i] == 1 {
            idxs.push(i);
            proof {
                assert(idxs@.map_values(|x: usize| x as int) =~= pre.map_values(
                    |x: usize| x as int,
                ).push(i as int));
                assert(pre.map_values(|x: usize| x as int) + (seq![i as int]
                    + match_indices_from(flags@, (i + 1) as nat)) =~= idxs@.map_values(
                    |x: usize| x as int,
                ) + match_indices_from(flags@, (i + 1) as nat));
            }
        } else {
            proof {
                assert(Seq::<int>::empty() + match_indices_from(flags@, (i + 1) as nat)
                    =~= match_indices_from(flags@, (i + 1) as nat));
            }
        }
        i += 1;
    }
    idxs
}

/// Parse the read-back per-match records: 52 bytes each, a 32-byte salt
/// followed by a 20-byte address.
pub fn parse_match_records(data: &[u8]) -> (r: Vec<([u8; 32], Address)>)
    requires
        data@.len() % 52 == 0,
    ensures
        r@.len() == data@.len() / 52,
        forall|i: int|
            0 <= i < r@.len() ==> (#[trigger] r@[i]).0@ == data@.subrange(52 * i, 52 * i + 32)
                && r@[i].1@ == data@.subrange(52 * i + 32, 52 * (i + 1)),
{
    let n = data.len();
    let count = n / 52;
    let mut r: Vec<([u8; 32], Address)> = Vec::new();
    let mut i: usize = 0;
    while i < count
        invariant
            i <= count,
            n == data@.len(),
            count == n / 52,
            n % 52 == 0,
            r@.len() == i,
            forall|q: int|
                0 <= q < i ==> (#[trigger] r@[q]).0@ == data@.subrange(52 * q, 52 * q + 32)
                    && r@[q].1@ == data@.subrange(52 * q + 32, 52 * (q + 1)),
        decreases count - i,
    {
        let off = i * 52;
        proof {
            assert(off + 52 <= n) by (nonlinear_arith)
                requires
                    off == i * 52,
                    i < count,
                    count == n / 52,
                    n % 52 == 0,
            ;
        }
        let mut salt: [u8; 32] = [0u8; 32];
        let mut a: usize = 0;
        while a < 32
            invariant
                a <= 32,
                off + 52 <= n,
                n == data@.len(),
                salt@.len() == 32,
                forall|q: int| 0 <= q < a ==> salt@[q] == data@[off + q],
            decreases 32 - a,
        {
            salt[a] = data[off + a];
            a += 1;
        }
        let mut addr_bytes: [u8; 20] = [0u8; 20];
        let mut b: usize = 0;
        while b < 20
            invariant
                b <= 20,
                off + 52 <= n,
                n == data@.len(),
                addr_bytes@.len() == 20,
                forall|q: int| 0 <= q < b ==> addr_bytes@[q] == data@[off + 32 + q],
            decreases 20 - b,
        {
            addr_bytes[b] = data[off + 32 + b];
            b += 1;
        }
        let rec = (salt, Address { bytes: addr_bytes });
        proof {
            assert(rec.0@ =~= data@.subrange(52 * i as int, 52 * i as int + 32));
            assert(rec.1@ =~= data@.subrange(52 * i as int + 32, 52 * (i as int + 1)));
        }
        r.push(rec);
        i += 1;
    }
    r
}

/// The serial batch loop's state: the next nonce to patch in, the matches
/// so far, and the limit. The match list never exceeds the limit.
pub struct GpuSearchState {
    pub next_nonce: u64,
    pub results: Vec<([u8; 32], Address)>,
    pub limit: usize,
}

/// How many of `n` offered matches the state absorbs: all of them, capped
/// at what is still missing to the limit.
pub open spec fn spec_absorb_count(old_len: nat, limit: nat, n: nat) -> nat {
    if old_len + n <= limit {
        n
    } else {
        (limit - old_len) as nat
    }
}

impl GpuSearchState {
    /// The match list never exceeds the limit.
    pub open spec fn wf(&self) -> bool {
        self.results@.len() <= self.limit
    }

    /// A fresh state: nothing found, first batch nonce zero.
    pub fn new(limit: usize) -> (r: GpuSearchState)
        ensures
            r.wf(),
            r.next_nonce == 0,
            r.results@.len() == 0,
            r.limit == limit,
    {
        GpuSearchState { next_nonce: 0, results: Vec::new(), limit }
    }

    /// Has the run found as many matches as were asked for?
    pub fn is_done(&self) -> (r: bool)
        ensures
            r == (self.results@.len() >= self.limit),
    {
        self.results.len() >= self.limit
    }

    /// Start the next batch: hand out the bytes to patch into the
    /// device-resident base salt and advance the nonce, so that every
    /// batch explores a distinct region of candidate space.
    pub fn begin_batch(&mut self) -> (patch: [u8; 8])
        requires
            old(self).next_nonce < 0xffff_ffff_ffff_ffff,
        ensures
            patch@ == be64(old(self).next_nonce),
            final(self).next_nonce == old(self).next_nonce + 1,
            final(self).results == old(self).results,
            final(self).limit == old(self).limit,
    {
        let patch = be64_bytes(self.next_nonce);
        self.next_nonce = self.next_nonce + 1;
        patch
    }

    /// Absorb a batch's matches in order, stopping at the limit.
    pub fn absorb_matches(&mut self, found: &Vec<([u8; 32], Address)>)
        requires
            old(self).wf(),
        ensures
            final(self).wf(),
            final(self).next_nonce == old(self).next_nonce,
            final(self).limit == old(self).limit,
            final(self).results@ == old(self).results@ + found@.take(
                spec_absorb_count(
                    old(self).results@.len(),
                    old(self).limit as nat,
                    found@.len(),
                ) as int,
            ),
    {
        let ghost pre = self.results@;
        let ghost k = spec_absorb_count(pre.len(), self.limit as nat, found@.len());
        let n = found.len();
        let mut i: usize = 0;
        while i < n && self.results.len() < self.limit
            invariant
                i <= n,
                n == found@.len(),
                pre == old(self).results@,
                pre.len() <= old(self).limit,
                k == spec_absorb_count(pre.len(), old(self).limit as nat, found@.len()),
                self.limit == old(self).limit,
                self.next_nonce == old(self).next_nonce,
                self.results@.len() == pre.len() + i,
                self.results@.len() <= self.limit,
                self.results@ == pre + found@.take(i as int),
                i < k ==> pre.len() + i < self.limit,
                i <= k,
            decreases n - i,
        {
            let ghost pre_step = self.results@;
            self.results.push(found[i]);
            proof {
                assert(pre + found@.take((i + 1) as int) =~= pre_step.push(found@[i as int]));
            }
            i += 1;
        }
        proof {
            assert(i == k);
        }
    }
}

/// Across consecutively dispatched batches the patched nonces are 0, 1,
/// 2, ...: strictly increasing words, whose patch bytes are pairwise
/// distinct.
pub proof fn lemma_batch_patches_distinct(j: u64, k: u64)
    requires
        j < k,
    ensures
        be64(j) != be64(k),
{
    if be64(j) == be64(k) {
        crate::bytes::lemma_be64_injective(j, k);
    }
}

/// A completed GPU run holds exactly the requested number of matches:
/// absorption never passes the limit, and the loop stops as soon as the
/// limit is reached.
pub proof fn lemma_gpu_limit_exact(st: GpuSearchState)
    requires
        st.wf(),
        st.results@.len() >= st.limit,
    ensures
        st.results@.len() == st.limit,
{
}

} // verus!
