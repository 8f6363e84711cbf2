//! The CPU search backend: a fixed pool of workers, each exploring a
//! private slice of salt space drawn from its own seeded generator. The
//! per-candidate work is verified; the thread pool is reached through one
//! trusted wrapper whose contract is exactly the verified chunk runner
//! mapped over the worker states.

use vstd::prelude::*;
use rayon::iter::{IntoParallelRefMutIterator, ParallelIterator};
use crate::bytes::{splice8, write_be64};
use crate::create3::{
    calculate_create3_address, compute_deployer_specific_salt, spec_create3_address,
    spec_deployer_specific_salt, Address,
};
use crate::keccak::{keccak256_bytes, keccak256_of};
use crate::pattern::{address_matches_pattern, spec_matches, PatternType};
use crate::rng::{std_rng_word, WorkerRng};

verus! {

broadcast use vstd::array::group_array_axioms;

/// Iterations each worker runs between two limit checks.
pub const CHUNK_ITERATIONS: usize = 2048;

/// Rounds after which a search gives up; in practice never reached.
pub const MAX_ROUNDS: u64 = 0xffff_ffff_ffff_ffff;

/// The salt template a worker seeded with `seed` starts from: the base
/// salt with stream word 0 spliced into bytes [24..32), separating this
/// worker's region from the other workers'.
pub open spec fn worker_salt0(base: Seq<u8>, seed: u64) -> Seq<u8> {
    splice8(base, 24, std_rng_word(seed, 0))
}

/// The salt that worker tries at iteration `j`: stream word `j + 1`
/// spliced into bytes [0..8) of its template.
pub open spec fn tried_salt(base: Seq<u8>, seed: u64, j: nat) -> Seq<u8> {
    splice8(worker_salt0(base, seed), 0, std_rng_word(seed, j + 1))
}

/// The address that salt derives for `dep`: the deployer-specific salt of
/// the tried salt, pushed through the CREATE3 derivation.
pub open spec fn candidate_address(base: Seq<u8>, dep: Seq<u8>, seed: u64, j: nat) -> Seq<u8> {
    spec_create3_address(spec_deployer_specific_salt(tried_salt(base, seed, j), dep), dep)
}

/// The (salt, address) pairs that worker finds over iterations
/// [lo, hi), in iteration order.
pub open spec fn found_between(
    base: Seq<u8>,
    dep: Seq<u8>,
    p: PatternType,
    seed: u64,
    lo: nat,
    hi: nat,
) -> Seq<(Seq<u8>, Seq<u8>)>
    decreases hi - lo,
{
    if lo >= hi {
        Seq::empty()
    } else {
        (if spec_matches(p, candidate_address(base, dep, seed, lo)) {
            seq![(tried_salt(base, seed, lo), candidate_address(base, dep, seed, lo))]
        } else {
            Seq::<(Seq<u8>, Seq<u8>)>::empty()
        }) + found_between(base, dep, p, seed, lo + 1, hi)
    }
}

/// The views of a list of found matches.
pub open spec fn pairs_view(s: Seq<([u8; 32], Address)>) -> Seq<(Seq<u8>, Seq<u8>)> {
    s.map_values(|pr: ([u8; 32], Address)| (pr.0@, pr.1@))
}

proof fn lemma_pairs_view_push(s: Seq<([u8; 32], Address)>, x: ([u8; 32], Address))
    ensures
        pairs_view(s.push(x)) == pairs_view(s).push((x.0@, x.1@)),
{
    assert(pairs_view(s.push(x)) =~= pairs_view(s).push((x.0@, x.1@)));
}

/// One worker's private search state: its generator and its current salt.
pub struct CpuWorkerState {
    rng: WorkerRng,
    salt: [u8; 32],
    base: Ghost<Seq<u8>>,
}

impl CpuWorkerState {
    /// The seed of this worker's generator.
    pub closed spec fn seed(&self) -> u64 {
        self.rng.seed()
    }

    /// How many stream words this worker has drawn.
    pub closed spec fn drawn(&self) -> nat {
        self.rng.drawn()
    }

    /// The base salt this worker started from.
    pub closed spec fn base(&self) -> Seq<u8> {
        self.base@
    }

    /// Well-formedness: the region selector has been installed, and bytes
    /// [8..32) of the current salt never change again afterwards.
    pub closed spec fn wf(&self) -> bool {
        &&& self.base@.len() == 32
        &&& self.rng.drawn() >= 1
        &&& self.salt@.subrange(8, 32) == worker_salt0(self.base@, self.rng.seed()).subrange(8, 32)
    }

    /// Start a worker: seed its generator and splice its first drawn word
    /// into salt bytes [24..32) as its region selector.
    pub fn init(base_salt: &[u8; 32], seed: u64) -> (r: CpuWorkerState)
        ensures
            r.wf(),
            r.seed() == seed,
            r.drawn() == 1,
            r.base() == base_salt@,
    {
        let mut rng = WorkerRng::new(seed);
        let w0 = rng.next_u64();
        let mut salt: [u8; 32] = *base_salt;
        write_be64(&mut salt, 24, w0);
        let r = CpuWorkerState { rng, salt, base: Ghost(base_salt@) };
        assert(r.salt@.subrange(8, 32) =~= worker_salt0(base_salt@, seed).subrange(8, 32));
        r
    }
}

/// What one chunk run does to a worker state and returns: the generator
/// advances by `iters` words, the region stays fixed, and the output is
/// exactly the matches of the `iters` tried salts, in order.
pub open spec fn chunk_post(
    pre: CpuWorkerState,
    post: CpuWorkerState,
    out_pairs: Seq<(Seq<u8>, Seq<u8>)>,
    dep: Seq<u8>,
    p: PatternType,
    iters: nat,
) -> bool {
    &&& post.wf()
    &&& post.seed() == pre.seed()
    &&& post.base() == pre.base()
    &&& post.drawn() == pre.drawn() + iters
    &&& out_pairs == found_between(
        pre.base(),
        dep,
        p,
        pre.seed(),
        (pre.drawn() - 1) as nat,
        (pre.drawn() - 1 + iters) as nat,
    )
}

/// Run one worker for `iters` iterations: regenerate salt bytes [0..8)
/// from the generator, derive the address, and collect the matches.
pub(crate) fn run_chunk(
    st: &mut CpuWorkerState,
    deployer: &Address,
    pattern: &PatternType,
    iters: usize,
) -> (found: Vec<([u8; 32], Address)>)
    requires
        old(st).wf(),
    ensures
        chunk_post(*old(st), *final(st), pairs_view(found@), deployer@, *pattern, iters as nat),
{
    let ghost base = st.base@;
    let ghost seed = st.seed();
    let ghost j0 = (st.drawn() - 1) as nat;
    let mut found: Vec<([u8; 32], Address)> = Vec::new();
    let mut m: usize = 0;
    while m < iters
        invariant
            m <= iters,
            st.wf(),
            st.seed() == seed,
            st.base() == base,
            st.drawn() == j0 + 1 + m,
            pairs_view(found@) + found_between(base, deployer@, *pattern, seed, (j0 + m) as nat, (j0
                + iters) as nat) == found_between(base, deployer@, *pattern, seed, j0, (j0
                + iters) as nat),
        decreases iters - m,
    {
        let ghost j: nat = (j0 + m) as nat;
        let ghost pre_salt = st.salt@;
        let w = st.rng.next_u64();
        write_be64(&mut st.salt, 0, w);
        proof {
            assert forall|q: int| 8 <= q < 32 implies pre_salt[q] == worker_salt0(base, seed)[q] by {
                assert(pre_salt.subrange(8, 32)[q - 8] == worker_salt0(base, seed).subrange(
                    8,
                    32,
                )[q - 8]);
            }
            assert(st.salt@ =~= tried_salt(base, seed, j));
            assert(st.salt@.subrange(8, 32) =~= worker_salt0(base, seed).subrange(8, 32));
        }
        let dsalt = compute_deployer_specific_salt(&st.salt, deployer);
        let addr = calculate_create3_address(&dsalt, deployer);
        proof {
            assert(addr@ == candidate_address(base, deployer@, seed, j));
            assert(found_between(base, deployer@, *pattern, seed, j, (j0 + iters) as nat) == (if
                spec_matches(*pattern, candidate_address(base, deployer@, seed, j)) {
                seq![(tried_salt(base, seed, j), candidate_address(base, deployer@, seed, j))]
            } else {
                Seq::<(Seq<u8>, Seq<u8>)>::empty()
            }) + found_between(base, deployer@, *pattern, seed, j + 1, (j0 + iters) as nat));
        }
        if address_matches_pattern(&addr, pattern) {
            let ghost pre_found = found@;
            found.push((st.salt, addr));
            proof {
                lemma_pairs_view_push(pre_found, (st.salt, addr));
                assert(pairs_view(pre_found) + (seq![
                    (tried_salt(base, seed, j), candidate_address(base, deployer@, seed, j)),
                ] + found_between(base, deployer@, *pattern, seed, (j + 1) as nat, (j0 + iters) as nat))
                    =~= pairs_view(found@) + found_between(
                    base,
                    deployer@,
                    *pattern,
                    seed,
                    (j + 1) as nat,
                    (j0 + iters) as nat,
                ));
            }
        } else {
            proof {
                assert(Seq::<(Seq<u8>, Seq<u8>)>::empty() + found_between(
                    base,
                    deployer@,
                    *pattern,
                    seed,
                    (j + 1) as nat,
                    (j0 + iters) as nat,
                ) =~= found_between(base, deployer@, *pattern, seed, (j + 1) as nat, (j0 + iters) as nat));
            }
        }
        m += 1;
    }
    proof {
        assert(found_between(base, deployer@, *pattern, seed, (j0 + iters) as nat, (j0
            + iters) as nat) =~= Seq::<(Seq<u8>, Seq<u8>)>::empty());
        assert(pairs_view(found@) + Seq::<(Seq<u8>, Seq<u8>)>::empty() =~= pairs_view(found@));
    }
    found
}

/// Run one fresh worker for a bounded number of iterations: the
/// single-worker unit of the search, a pure function of the base salt,
/// the job and the seed.
pub fn search_chunk(
    base_salt: &[u8; 32],
    deployer: &Address,
    pattern: &PatternType,
    seed: u64,
    iters: usize,
) -> (found: Vec<([u8; 32], Address)>)
    ensures
        pairs_view(found@) == found_between(
            base_salt@,
            deployer@,
            *pattern,
            seed,
            0,
            iters as nat,
        ),
{
    let mut st = CpuWorkerState::init(base_salt, seed);
    run_chunk(&mut st, deployer, pattern, iters)
}

/// Relies on rayon's parallel mutable iteration (`par_iter_mut`, `map`,
/// `collect` into a `Vec`): the closure runs exactly once per worker
/// state and the collected outputs keep index order. The closure only
/// calls the verified chunk runner, so each output is bound by its
/// contract.
#[verifier::external_body]
fn run_chunks_parallel(
    states: &mut Vec<CpuWorkerState>,
    deployer: &Address,
    pattern: &PatternType,
    iters: usize,
) -> (found: Vec<Vec<([u8; 32], Address)>>)
    ensures
        final(states)@.len() == old(states)@.len(),
        found@.len() == old(states)@.len(),
        forall|t: int|
            0 <= t < old(states)@.len() && old(states)@[t].wf() ==> chunk_post(
                old(states)@[t],
                #[trigger] final(states)@[t],
                pairs_view(found@[t]@),
                deployer@,
                *pattern,
                iters as nat,
            ),
{
    states.par_iter_mut().map(|st| run_chunk(st, deployer, pattern, iters)).collect()
}

/// What the workers seeded 0 to `threads - 1` find over iterations
/// [lo, hi), worker by worker in seed order.
pub open spec fn workers_found(
    base: Seq<u8>,
    dep: Seq<u8>,
    p: PatternType,
    threads: nat,
    lo: nat,
    hi: nat,
) -> Seq<(Seq<u8>, Seq<u8>)>
    decreases threads,
{
    if threads == 0 {
        Seq::empty()
    } else {
        workers_found(base, dep, p, (threads - 1) as nat, lo, hi) + found_between(
            base,
            dep,
            p,
            (threads - 1) as u64,
            lo,
            hi,
        )
    }
}

/// Everything found after `rounds` whole rounds, round by round.
pub open spec fn all_found(
    base: Seq<u8>,
    dep: Seq<u8>,
    p: PatternType,
    threads: nat,
    rounds: nat,
) -> Seq<(Seq<u8>, Seq<u8>)>
    decreases rounds,
{
    if rounds == 0 {
        Seq::empty()
    } else {
        all_found(base, dep, p, threads, (rounds - 1) as nat) + workers_found(
            base,
            dep,
            p,
            threads,
            (rounds - 1) as nat * CHUNK_ITERATIONS as nat,
            rounds * CHUNK_ITERATIONS as nat,
        )
    }
}

/// The CPU miner's contract: the returned matches are exactly what the
/// worker pool finds in some least number of whole rounds that reaches
/// the limit (or exhausts the round cap): a pure function of the job.
pub open spec fn mine_post(m: CpuMiner, pairs: Seq<(Seq<u8>, Seq<u8>)>) -> bool {
    exists|rounds: nat|
        {
            &&& pairs == #[trigger] all_found(
                m.base_salt@,
                m.deployer@,
                m.pattern,
                m.threads as nat,
                rounds,
            )
            &&& rounds <= MAX_ROUNDS
            &&& (pairs.len() >= m.limit || rounds == MAX_ROUNDS)
            &&& forall|r2: nat|
                r2 < rounds ==> #[trigger] all_found(
                    m.base_salt@,
                    m.deployer@,
                    m.pattern,
                    m.threads as nat,
                    r2,
                ).len() < m.limit
        }
}

/// A stepped search: the worker pool's states, the matches so far, and
/// how many whole rounds have run. The orchestration drives it one round
/// at a time, so it can report progress between rounds.
pub struct CpuSearch {
    pub states: Vec<CpuWorkerState>,
    pub results: Vec<([u8; 32], Address)>,
    pub round: u64,
}

/// What a stepped search keeps true for its job: the workers stand at a
/// round boundary, the matches are exactly what the first `round` whole
/// rounds find, and no earlier round had reached the limit.
pub open spec fn search_inv(m: CpuMiner, s: CpuSearch) -> bool {
    &&& s.states@.len() == m.threads
    &&& forall|k: int|
        0 <= k < m.threads ==> {
            &&& (#[trigger] s.states@[k]).wf()
            &&& s.states@[k].seed() == k as u64
            &&& s.states@[k].drawn() == 1 + s.round * CHUNK_ITERATIONS as nat
            &&& s.states@[k].base() == m.base_salt@
        }
    &&& pairs_view(s.results@) == all_found(
        m.base_salt@,
        m.deployer@,
        m.pattern,
        m.threads as nat,
        s.round as nat,
    )
    &&& forall|r2: nat|
        r2 < s.round as nat ==> #[trigger] all_found(
            m.base_salt@,
            m.deployer@,
            m.pattern,
            m.threads as nat,
            r2,
        ).len() < m.limit
}

/// The thread-parallel CPU search backend.
pub struct CpuMiner {
    pub base_salt: [u8; 32],
    pub deployer: Address,
    pub pattern: PatternType,
    pub limit: usize,
    pub threads: usize,
}

impl CpuMiner {
    /// Build a miner; the base salt is the digest of the caller's salt
    /// text.
    pub fn new(
        base_salt_str: String,
        deployer: Address,
        pattern: PatternType,
        limit: usize,
        threads: usize,
    ) -> (r: CpuMiner)
        ensures
            r.base_salt@ == keccak256_of(vstd::utf8::encode_utf8(base_salt_str@)),
            r.deployer == deployer,
            r.pattern == pattern,
            r.limit == limit,
            r.threads == threads,
    {
        let base_salt = keccak256_bytes(base_salt_str.as_str().as_bytes());
        CpuMiner { base_salt, deployer, pattern, limit, threads }
    }

    /// Start a stepped search: one worker per thread, each seeded with
    /// its index, standing before its first round.
    pub fn start_search(&self) -> (s: CpuSearch)
        ensures
            search_inv(*self, s),
            s.round == 0,
            s.results@.len() == 0,
    {
        let ghost base = self.base_salt@;
        let threads = self.threads;
        let mut states: Vec<CpuWorkerState> = Vec::new();
        let mut t: usize = 0;
        while t < threads
            invariant
                t <= threads,
                base == self.base_salt@,
                states@.len() == t,
                forall|k: int|
                    0 <= k < t ==> {
                        &&& (#[trigger] states@[k]).wf()
                        &&& states@[k].seed() == k as u64
                        &&& states@[k].drawn() == 1
                        &&& states@[k].base() == base
                    },
            decreases threads - t,
        {
            let st0 = CpuWorkerState::init(&self.base_salt, t as u64);
            let ghost pre_states = states@;
            states.push(st0);
            proof {
                assert forall|k: int| 0 <= k < t + 1 implies {
                    &&& (#[trigger] states@[k]).wf()
                    &&& states@[k].seed() == k as u64
                    &&& states@[k].drawn() == 1
                    &&& states@[k].base() == base
                } by {
                    if k < t {
                        assert(states@[k] == pre_states[k]);
                        assert(pre_states[k].wf());
                    } else {
                        assert(states@[k] == st0);
                    }
                }
            }
            t += 1;
        }
        let s = CpuSearch { states, results: Vec::new(), round: 0 };
        proof {
            assert(pairs_view(s.results@) =~= all_found(
                base,
                self.deployer@,
                self.pattern,
                threads as nat,
                0,
            ));
        }
        s
    }

    /// Run one whole round across all workers and absorb its matches, in
    /// worker order; say whether the limit has been reached. Between two
    /// calls the orchestration may report throughput: a finished round
    /// stands for `threads * CHUNK_ITERATIONS` tried candidates.
    pub fn search_round(&self, s: &mut CpuSearch) -> (done: bool)
        requires
            search_inv(*self, *old(s)),
            old(s).round < MAX_ROUNDS,
            old(s).results@.len() < self.limit,
        ensures
            search_inv(*self, *final(s)),
            final(s).round == old(s).round + 1,
            done == (final(s).results@.len() >= self.limit),
    {
        let ghost base = self.base_salt@;
        let ghost dep = self.deployer@;
        let threads = self.threads;
        let round = s.round;
        let ghost lo = round as nat * CHUNK_ITERATIONS as nat;
        let ghost hi = (round + 1) as nat * CHUNK_ITERATIONS as nat;
        let ghost pre_states = s.states@;
        proof {
            assert(hi == lo + CHUNK_ITERATIONS as nat) by (nonlinear_arith)
                requires
                    lo == round as nat * CHUNK_ITERATIONS as nat,
                    hi == (round + 1) as nat * CHUNK_ITERATIONS as nat,
                    round < MAX_ROUNDS,
            ;
        }
        let found = run_chunks_parallel(&mut s.states, &self.deployer, &self.pattern, CHUNK_ITERATIONS);
        let ghost states_now = s.states@;
        proof {
            assert forall|k: int| 0 <= k < threads implies {
                &&& (#[trigger] states_now[k]).wf()
                &&& states_now[k].seed() == k as u64
                &&& states_now[k].drawn() == 1 + (round + 1) as nat * CHUNK_ITERATIONS as nat
                &&& states_now[k].base() == base
            } by {
                assert(pre_states[k].wf());
                assert(chunk_post(
                    pre_states[k],
                    states_now[k],
                    pairs_view(found@[k]@),
                    dep,
                    self.pattern,
                    CHUNK_ITERATIONS as nat,
                ));
                assert((pre_states[k].drawn() - 1) as nat == lo);
            }
            assert forall|k: int|
                0 <= k < threads implies pairs_view(#[trigger] found@[k]@) == found_between(
                base,
                dep,
                self.pattern,
                k as u64,
                lo,
                hi,
            ) by {
                assert(pre_states[k].wf());
                assert(chunk_post(
                    pre_states[k],
                    states_now[k],
                    pairs_view(found@[k]@),
                    dep,
                    self.pattern,
                    CHUNK_ITERATIONS as nat,
                ));
                assert((pre_states[k].drawn() - 1) as nat == lo);
                assert((pre_states[k].drawn() - 1 + CHUNK_ITERATIONS as nat) as nat == hi);
            }
        }
        let mut t2: usize = 0;
        while t2 < threads
            invariant
                t2 <= threads,
                threads == self.threads,
                s.states@ == states_now,
                s.round == round,
                found@.len() == threads,
                forall|k: int|
                    0 <= k < threads ==> pairs_view(#[trigger] found@[k]@) == found_between(
                        base,
                        dep,
                        self.pattern,
                        k as u64,
                        lo,
                        hi,
                    ),
                pairs_view(s.results@) == all_found(base, dep, self.pattern, threads as nat, round as nat)
                    + workers_found(base, dep, self.pattern, t2 as nat, lo, hi),
            decreases threads - t2,
        {
            let chunk_len = found[t2].len();
            let mut k2: usize = 0;
            while k2 < chunk_len
                invariant
                    k2 <= chunk_len,
                    t2 < threads,
                    threads == self.threads,
                    s.states@ == states_now,
                    s.round == round,
                    found@.len() == threads,
                    chunk_len == found@[t2 as int]@.len(),
                    pairs_view(s.results@) == all_found(base, dep, self.pattern, threads as nat, round as nat)
                        + workers_found(base, dep, self.pattern, t2 as nat, lo, hi)
                        + pairs_view(found@[t2 as int]@).take(k2 as int),
                decreases chunk_len - k2,
            {
                let ghost pre_results = s.results@;
                s.results.push(found[t2][k2]);
                proof {
                    lemma_pairs_view_push(pre_results, found@[t2 as int]@[k2 as int]);
                    assert(pairs_view(found@[t2 as int]@).take((k2 + 1) as int)
                        =~= pairs_view(found@[t2 as int]@).take(k2 as int).push(
                        pairs_view(found@[t2 as int]@)[k2 as int],
                    ));
                    assert(pairs_view(s.results@) =~= all_found(
                        base,
                        dep,
                        self.pattern,
                        threads as nat,
                        round as nat,
                    ) + workers_found(base, dep, self.pattern, t2 as nat, lo, hi)
                        + pairs_view(found@[t2 as int]@).take((k2 + 1) as int));
                }
                k2 += 1;
            }
            proof {
                assert(pairs_view(found@[t2 as int]@).take(chunk_len as int)
                    =~= pairs_view(found@[t2 as int]@));
                assert(workers_found(base, dep, self.pattern, (t2 + 1) as nat, lo, hi)
                    == workers_found(base, dep, self.pattern, t2 as nat, lo, hi)
                    + found_between(base, dep, self.pattern, t2 as u64, lo, hi));
                assert(all_found(base, dep, self.pattern, threads as nat, round as nat)
                    + workers_found(base, dep, self.pattern, t2 as nat, lo, hi)
                    + pairs_view(found@[t2 as int]@) =~= all_found(
                    base,
                    dep,
                    self.pattern,
                    threads as nat,
                    round as nat,
                ) + workers_found(base, dep, self.pattern, (t2 + 1) as nat, lo, hi));
            }
            t2 += 1;
        }
        proof {
            assert(all_found(base, dep, self.pattern, threads as nat, (round + 1) as nat)
                == all_found(base, dep, self.pattern, threads as nat, round as nat)
                + workers_found(base, dep, self.pattern, threads as nat, lo, hi));
        }
        s.round = round + 1;
        s.results.len() >= self.limit
    }

    /// Search until at least `limit` matches are found (or the round cap
    /// runs out). The pool checks the limit at round boundaries only, so
    /// the returned count can exceed the limit; it never falls short of
    /// it on a completed search.
    pub fn mine(&self) -> (results: Vec<([u8; 32], Address)>)
        requires
            self.limit >= 1,
            self.threads >= 1,
        ensures
            mine_post(*self, pairs_view(results@)),
            pairs_view(results@).len() == results@.len(),
    {
        let mut s = self.start_search();
        while s.round < MAX_ROUNDS
            invariant_except_break
                search_inv(*self, s),
                s.results@.len() < self.limit,
                1 <= self.limit,
            ensures
                search_inv(*self, s),
                s.results@.len() >= self.limit || s.round == MAX_ROUNDS,
            decreases MAX_ROUNDS - s.round,
        {
            let done = self.search_round(&mut s);
            if done {
                break;
            }
        }
        proof {
            assert(pairs_view(s.results@).len() == s.results@.len());
            assert(mine_post(*self, pairs_view(s.results@)));
        }
        s.results
    }
}

/// The search result is a pure function of the job: any two results that
/// satisfy the mining postcondition for the same job are equal. With one
/// thread and a fixed seed this is the reproducibility of the whole
/// sequence of tried salts.
pub proof fn lemma_mine_deterministic(
    m: CpuMiner,
    pairs1: Seq<(Seq<u8>, Seq<u8>)>,
    pairs2: Seq<(Seq<u8>, Seq<u8>)>,
)
    requires
        m.limit >= 1,
        mine_post(m, pairs1),
        mine_post(m, pairs2),
    ensures
        pairs1 == pairs2,
{
    let base = m.base_salt@;
    let dep = m.deployer@;
    let r1 = choose|rounds: nat|
        {
            &&& pairs1 == #[trigger] all_found(base, dep, m.pattern, m.threads as nat, rounds)
            &&& rounds <= MAX_ROUNDS
            &&& (pairs1.len() >= m.limit || rounds == MAX_ROUNDS)
            &&& forall|r2: nat|
                r2 < rounds ==> #[trigger] all_found(
                    base,
                    dep,
                    m.pattern,
                    m.threads as nat,
                    r2,
                ).len() < m.limit
        };
    let r2 = choose|rounds: nat|
        {
            &&& pairs2 == #[trigger] all_found(base, dep, m.pattern, m.threads as nat, rounds)
            &&& rounds <= MAX_ROUNDS
            &&& (pairs2.len() >= m.limit || rounds == MAX_ROUNDS)
            &&& forall|r3: nat|
                r3 < rounds ==> #[trigger] all_found(
                    base,
                    dep,
                    m.pattern,
                    m.threads as nat,
                    r3,
                ).len() < m.limit
        };
    if r1 < r2 {
        assert(all_found(base, dep, m.pattern, m.threads as nat, r1).len() < m.limit);
        assert(r1 == MAX_ROUNDS);
        assert(false);
    }
    if r2 < r1 {
        assert(all_found(base, dep, m.pattern, m.threads as nat, r2).len() < m.limit);
        assert(r2 == MAX_ROUNDS);
        assert(false);
    }
}

} // verus!
