//! The settings of a benchmark run: the values read from the environment and
//! the command line, and the numbers derived from them.
use vstd::prelude::*;
use crate::names::{parse_ubq_backoff, parse_ubq_backoff_spec, UbqBackoff, UbqConfig};
use crate::text::{parse_u32, parse_u32_spec, parse_usize, parse_usize_spec};

verus! {

/// Measurements over which the steady state is judged.
pub const NUM_ITERS: usize = 5;

/// Iterations after which a run stops looking for a steady state.
pub const MAX_ITERS: usize = 20;

/// The base-10 logarithm of the number of operations when none is given.
pub const DEFAULT_LOGN_OPS: u32 = 7;

/// The smallest capacity of a bounded queue when the environment gives none.
pub const DEFAULT_CAPACITY: usize = 4096;

/// The RBBQ block size when the environment gives none.
pub const DEFAULT_RBBQ_BLOCK_SIZE: usize = 128;

/// The UBQ pool size when the environment gives none.
pub const DEFAULT_UBQ_POOL_SIZE: usize = 1;

/// The UBQ block size when the environment gives none.
pub const DEFAULT_UBQ_BLOCK_SIZE: usize = 2047;

/// The view of an optional string.
pub open spec fn opt_view(value: Option<&str>) -> Option<Seq<char>> {
    match value {
        Some(v) => Some(v@),
        None => None,
    }
}

/// The optional text `value` is there and reads as the number `n`.
pub open spec fn reads_as(value: Option<Seq<char>>, n: usize) -> bool {
    match value {
        Some(v) => parse_usize_spec(v) == Some(n),
        None => false,
    }
}

/// The optional text `value` is there and reads as the positive number `n`.
pub open spec fn reads_as_positive(value: Option<Seq<char>>, n: usize) -> bool {
    reads_as(value, n) && n > 0
}

/// An environment value read as a `usize`.
pub open spec fn env_usize_allow_zero_spec(value: Option<Seq<char>>) -> Option<usize> {
    match value {
        Some(v) => parse_usize_spec(v),
        None => None,
    }
}

/// An environment value read as a positive `usize`: zero counts as unset.
pub open spec fn env_usize_spec(value: Option<Seq<char>>) -> Option<usize> {
    match env_usize_allow_zero_spec(value) {
        Some(n) => if n > 0 {
            Some(n)
        } else {
            None
        },
        None => None,
    }
}

/// The environment value `value` (absent when the variable is unset) read as a
/// positive `usize`; zero and text that is no number count as unset.
pub fn env_usize(value: Option<&str>) -> (r: Option<usize>)
    ensures
        r == env_usize_spec(opt_view(value)),
{
    match env_usize_allow_zero(value) {
        Some(n) => if n > 0 {
            Some(n)
        } else {
            None
        },
        None => None,
    }
}

/// The environment value `value` (absent when the variable is unset) read as a
/// `usize`; text that is no number counts as unset.
pub fn env_usize_allow_zero(value: Option<&str>) -> (r: Option<usize>)
    ensures
        r == env_usize_allow_zero_spec(opt_view(value)),
{
    match value {
        Some(v) => parse_usize(v),
        None => None,
    }
}

/// The backoff policy named by an environment value.
pub open spec fn env_ubq_backoff_spec(value: Option<Seq<char>>) -> Option<UbqBackoff> {
    match value {
        Some(v) => parse_ubq_backoff_spec(v),
        None => None,
    }
}

/// The backoff policy named by the environment value `value`, absent when
/// the variable is unset.
pub fn env_ubq_backoff(value: Option<&str>) -> (r: Option<UbqBackoff>)
    ensures
        r == env_ubq_backoff_spec(opt_view(value)),
{
    match value {
        Some(v) => parse_ubq_backoff(v),
        None => None,
    }
}

/// The UBQ shape that the environment values of the pool size, the block size
/// and the backoff give, each falling back to its default.
pub open spec fn env_ubq_config_spec(
    pool: Option<Seq<char>>,
    block: Option<Seq<char>>,
    backoff: Option<Seq<char>>,
) -> UbqConfig {
    UbqConfig {
        pool_size: match env_usize_allow_zero_spec(pool) {
            Some(p) => p,
            None => DEFAULT_UBQ_POOL_SIZE,
        },
        block_size: match env_usize_spec(block) {
            Some(b) => b,
            None => DEFAULT_UBQ_BLOCK_SIZE,
        },
        backoff: match env_ubq_backoff_spec(backoff) {
            Some(b) => b,
            None => UbqBackoff::Crossbeam,
        },
    }
}

/// The UBQ shape that the values of the pool-size, block-size and backoff
/// variables give; a pool size of zero is kept, a block size of zero falls
/// back to the default.
pub fn env_ubq_config(pool: Option<&str>, block: Option<&str>, backoff: Option<&str>) -> (r:
    UbqConfig)
    ensures
        r == env_ubq_config_spec(opt_view(pool), opt_view(block), opt_view(backoff)),
        forall|b: usize| #[trigger] reads_as_positive(opt_view(block), b) ==> r.block_size == b,
        forall|n: usize| #[trigger] reads_as(opt_view(pool), n) ==> r.pool_size == n,
{
    UbqConfig {
        pool_size: match env_usize_allow_zero(pool) {
            Some(p) => p,
            None => DEFAULT_UBQ_POOL_SIZE,
        },
        block_size: match env_usize(block) {
            Some(b) => b,
            None => DEFAULT_UBQ_BLOCK_SIZE,
        },
        backoff: match env_ubq_backoff(backoff) {
            Some(b) => b,
            None => UbqBackoff::Crossbeam,
        },
    }
}

/// The capacity of a bounded queue: the value of the capacity variable where it
/// is set, else twice the number of threads but at least the default capacity.
pub open spec fn bounded_capacity_spec(capacity: Option<Seq<char>>, nprocs: usize) -> int {
    match env_usize_spec(capacity) {
        Some(c) => c as int,
        None => if 2 * nprocs > DEFAULT_CAPACITY {
            2 * nprocs
        } else {
            DEFAULT_CAPACITY as int
        },
    }
}

/// The capacity of a bounded queue for `nprocs` threads, where `capacity` is
/// the value of the capacity variable (absent when it is unset).
pub fn bounded_capacity(capacity: Option<&str>, nprocs: usize) -> (r: usize)
    requires
        env_usize_spec(opt_view(capacity)) is None ==> nprocs <= usize::MAX / 2,
    ensures
        r == bounded_capacity_spec(opt_view(capacity), nprocs),
        forall|c: usize| #[trigger] reads_as_positive(opt_view(capacity), c) ==> r == c,
        r > 0,
{
    match env_usize(capacity) {
        Some(c) => c,
        None => {
            let doubled = nprocs * 2;
            if doubled > DEFAULT_CAPACITY {
                doubled
            } else {
                DEFAULT_CAPACITY
            }
        },
    }
}

/// The RBBQ block size: the override where it is not zero, else the value of
/// the block-size variable where it is set, else the default.
pub open spec fn rbbq_block_size_spec(override_size: usize, block: Option<Seq<char>>) -> usize {
    if override_size != 0 {
        override_size
    } else {
        match env_usize_spec(block) {
            Some(b) => b,
            None => DEFAULT_RBBQ_BLOCK_SIZE,
        }
    }
}

/// The RBBQ block size, given the override (zero when there is none) and the
/// value of the block-size variable (absent when it is unset).
pub fn rbbq_block_size(override_size: usize, block: Option<&str>) -> (r: usize)
    ensures
        r == rbbq_block_size_spec(override_size, opt_view(block)),
        override_size != 0 ==> r == override_size,
        r > 0,
{
    if override_size != 0 {
        override_size
    } else {
        match env_usize(block) {
            Some(b) => b,
            None => DEFAULT_RBBQ_BLOCK_SIZE,
        }
    }
}

/// The number of blocks of `block_size` entries that an RBBQ queue of
/// `capacity` entries has: enough to hold the capacity, and at least one.
pub open spec fn rbbq_num_blocks_spec(capacity: int, block_size: int) -> int {
    let blocks = (capacity + block_size - 1) / block_size;
    if blocks > 1 {
        blocks
    } else {
        1
    }
}

/// Division rounding up gives the least count of blocks that holds the capacity.
pub proof fn lemma_ceil_div(capacity: int, block_size: int)
    requires
        capacity >= 0,
        block_size > 0,
    ensures
        ((capacity + block_size - 1) / block_size) * block_size >= capacity,
        ((capacity + block_size - 1) / block_size) * block_size < capacity + block_size,
        ((capacity + block_size - 1) / block_size - 1) * block_size < capacity,
        (capacity + block_size - 1) / block_size >= 0,
        capacity > block_size ==> (capacity + block_size - 1) / block_size > 1,
        capacity <= block_size ==> (capacity + block_size - 1) / block_size <= 1,
{
    let q = (capacity + block_size - 1) / block_size;
    let r = (capacity + block_size - 1) % block_size;
    assert(q * block_size + r == capacity + block_size - 1 && 0 <= r < block_size) by (
    nonlinear_arith)
        requires
            block_size > 0,
            q == (capacity + block_size - 1) / block_size,
            r == (capacity + block_size - 1) % block_size,
    ;
    assert(q >= 0) by (nonlinear_arith)
        requires
            q * block_size + r == capacity + block_size - 1,
            0 <= r < block_size,
            capacity >= 0,
            block_size > 0,
    ;
    assert((q - 1) * block_size < capacity) by (nonlinear_arith)
        requires
            q * block_size + r == capacity + block_size - 1,
            0 <= r < block_size,
    ;
    if capacity > block_size {
        assert(q > 1) by (nonlinear_arith)
            requires
                q * block_size + r == capacity + block_size - 1,
                0 <= r < block_size,
                capacity > block_size,
        ;
    }
    if capacity <= block_size {
        assert(q <= 1) by (nonlinear_arith)
            requires
                q * block_size + r == capacity + block_size - 1,
                0 <= r < block_size,
                capacity <= block_size,
                q >= 0,
        ;
    }
}

/// Rounding a quotient up adds one exactly when the division leaves a remainder.
pub proof fn lemma_ceil_div_parts(capacity: int, block_size: int)
    requires
        capacity >= 0,
        block_size > 0,
    ensures
        (capacity + block_size - 1) / block_size == capacity / block_size + if capacity
            % block_size != 0 {
            1int
        } else {
            0int
        },
{
    let q = capacity / block_size;
    let r = capacity % block_size;
    vstd::arithmetic::div_mod::lemma_fundamental_div_mod(capacity, block_size);
    let c = if r != 0 { 1int } else { 0int };
    let t = capacity + block_size - 1;
    let rem = r + block_size - 1 - c * block_size;
    assert(t == (q + c) * block_size + rem) by (nonlinear_arith)
        requires
            capacity == block_size * q + r,
            t == capacity + block_size - 1,
            rem == r + block_size - 1 - c * block_size,
    ;
    vstd::arithmetic::div_mod::lemma_fundamental_div_mod_converse(t, block_size, q + c, rem);
}

/// The number of blocks that an RBBQ queue of `capacity` entries has, with
/// `block_size` entries to a block: the capacity divided by the block size,
/// rounded up, and at least one.
pub fn rbbq_num_blocks(capacity: usize, block_size: usize) -> (r: usize)
    requires
        block_size > 0,
    ensures
        r == rbbq_num_blocks_spec(capacity as int, block_size as int),
        r >= 1,
        r * block_size >= capacity,
        r == 1 || (r - 1) * block_size < capacity,
        r > 1 <==> capacity > block_size,
{
    proof {
        lemma_ceil_div(capacity as int, block_size as int);
        if capacity % block_size != 0 {
            vstd::arithmetic::div_mod::lemma_fundamental_div_mod(
                capacity as int,
                block_size as int,
            );
            let q = capacity as int / block_size as int;
            assert(q < usize::MAX) by (nonlinear_arith)
                requires
                    capacity == block_size * q + capacity % block_size,
                    capacity % block_size != 0,
                    block_size > 0,
                    q >= 0,
                    capacity <= usize::MAX,
            ;
        }
    }
    let blocks = capacity / block_size + if capacity % block_size != 0 {
        1usize
    } else {
        0usize
    };
    proof {
        lemma_ceil_div_parts(capacity as int, block_size as int);
    }
    if blocks > 1 {
        blocks
    } else {
        1
    }
}

} // verus!

verus! {

/// The command-line argument at `index`, if there is one.
pub open spec fn arg_spec(args: Seq<String>, index: int) -> Option<Seq<char>> {
    if 0 <= index < args.len() {
        Some(args[index]@)
    } else {
        None
    }
}

/// The command-line argument at `index`, if there is one.
fn arg(args: &[String], index: usize) -> (r: Option<&str>)
    ensures
        opt_view(r) == arg_spec(args@, index as int),
{
    if index < args.len() {
        Some(args[index].as_str())
    } else {
        None
    }
}

/// The number of threads: the first argument where it is a positive number,
/// else the number of online processors where that is positive, else zero.
pub open spec fn parse_nprocs_spec(args: Seq<String>, detected: i64) -> usize {
    let requested = match arg_spec(args, 1) {
        Some(a) => match parse_usize_spec(a) {
            Some(n) => n,
            None => 0,
        },
        None => 0,
    };
    if requested != 0 {
        requested
    } else if detected > 0 {
        detected as usize
    } else {
        0
    }
}

/// The number of threads that the command line `args` asks for, where
/// `detected` is the number of online processors that the system reports.
pub fn parse_nprocs(args: &[String], detected: i64) -> (r: usize)
    ensures
        r == parse_nprocs_spec(args@, detected),
        forall|n: usize| #[trigger] reads_as_positive(arg_spec(args@, 1), n) ==> r == n,
{
    let requested = match arg(args, 1) {
        Some(a) => match parse_usize(a) {
            Some(n) => n,
            None => 0,
        },
        None => 0,
    };
    if requested != 0 {
        requested
    } else if detected > 0 {
        detected as usize
    } else {
        0
    }
}

/// The base-10 logarithm of the number of operations: the second argument
/// where it is a positive number, else the default.
pub open spec fn parse_logn_spec(args: Seq<String>) -> u32 {
    let given = match arg_spec(args, 2) {
        Some(a) => match parse_u32_spec(a) {
            Some(n) => n,
            None => 0,
        },
        None => 0,
    };
    if given == 0 {
        DEFAULT_LOGN_OPS
    } else {
        given
    }
}

/// The base-10 logarithm of the number of operations that the command line
/// `args` asks for.
pub fn parse_logn(args: &[String]) -> (r: u32)
    ensures
        r == parse_logn_spec(args@),
        r > 0,
{
    let given = match arg(args, 2) {
        Some(a) => match parse_u32(a) {
            Some(n) => n,
            None => 0,
        },
        None => 0,
    };
    if given == 0 {
        DEFAULT_LOGN_OPS
    } else {
        given
    }
}

/// Ten to the power `n`.
pub open spec fn pow10(n: nat) -> nat
    decreases n,
{
    if n == 0 {
        1
    } else {
        10 * pow10((n - 1) as nat)
    }
}

/// Powers of ten grow with the exponent.
pub proof fn lemma_pow10_monotone(i: nat, j: nat)
    requires
        i <= j,
    ensures
        pow10(i) <= pow10(j),
    decreases j - i,
{
    if i < j {
        lemma_pow10_monotone(i, (j - 1) as nat);
    }
}

/// The largest power of ten that a `u64` holds is ten to the nineteenth.
pub proof fn lemma_pow10_19()
    ensures
        pow10(19) == 10_000_000_000_000_000_000,
{
    reveal_with_fuel(pow10, 20);
}

/// The total number of operations of a run: ten to the power `logn`.
pub fn num_ops(logn: u32) -> (r: u64)
    requires
        logn <= 19,
    ensures
        r == pow10(logn as nat),
{
    let mut r: u64 = 1;
    let mut i: u32 = 0;
    while i < logn
        invariant
            i <= logn <= 19,
            r == pow10(i as nat),
        decreases logn - i,
    {
        proof {
            lemma_pow10_monotone((i + 1) as nat, 19);
            lemma_pow10_19();
        }
        r = r * 10;
        i = i + 1;
    }
    r
}

/// The operations that each of `nprocs` threads performs out of `nops`.
pub fn per_thread_ops(nops: u64, nprocs: usize) -> (r: u64)
    requires
        nprocs > 0,
    ensures
        r as int == nops as int / nprocs as int,
{
    nops / nprocs as u64
}

/// The processor that the thread with index `id` runs on when there are
/// `nprocs` processors: thread `i` goes to processor `i % nprocs`.
pub fn cpu_for_thread(id: usize, nprocs: usize) -> (r: usize)
    requires
        nprocs > 0,
    ensures
        r == id % nprocs,
        r < nprocs,
{
    id % nprocs
}

/// The iterations, numbered from one, over which the steady state selected at
/// iteration index `selected` was measured: the last `NUM_ITERS` up to it.
pub fn steady_state_range(selected: usize) -> (r: (usize, usize))
    requires
        NUM_ITERS - 1 <= selected < MAX_ITERS,
    ensures
        r.0 == selected + 2 - NUM_ITERS,
        r.1 == selected + 1,
        r.1 - r.0 + 1 == NUM_ITERS,
{
    (selected + 2 - NUM_ITERS, selected + 1)
}

/// The first iteration index of the window of `NUM_ITERS` measurements that
/// ends at iteration index `iter`, once that many have been made.
pub fn measurement_window(iter: usize) -> (r: Option<usize>)
    requires
        iter < MAX_ITERS,
    ensures
        match r {
            Some(start) => iter + 1 >= NUM_ITERS && start == iter + 1 - NUM_ITERS && iter - start
                + 1 == NUM_ITERS,
            None => iter + 1 < NUM_ITERS,
        },
{
    if iter + 1 >= NUM_ITERS {
        Some(iter + 1 - NUM_ITERS)
    } else {
        None
    }
}

/// The least of the elapsed times, or zero when there are none.
pub fn min_elapsed(values: &[i64]) -> (r: i64)
    ensures
        values@.len() == 0 ==> r == 0,
        values@.len() > 0 ==> values@.contains(r),
        forall|i: int| 0 <= i < values@.len() ==> r <= values@[i],
{
    if values.len() == 0 {
        return 0;
    }
    let mut best = values[0];
    let mut i: usize = 1;
    while i < values.len()
        invariant
            1 <= i <= values@.len(),
            values@.contains(best),
            forall|k: int| 0 <= k < i ==> best <= values@[k],
        decreases values@.len() - i,
    {
        if values[i] < best {
            best = values[i];
        }
        i = i + 1;
    }
    best
}

/// The UBQ pool sizes that the benchmark is built for.
pub open spec fn supported_pool_size(pool_size: usize) -> bool {
    pool_size == 0 || pool_size == 1 || pool_size == 2 || pool_size == 4 || pool_size == 8
        || pool_size == 16 || pool_size == 32
}

/// The UBQ block sizes that the benchmark is built for.
pub open spec fn supported_block_size(block_size: usize) -> bool {
    block_size == 31 || block_size == 63 || block_size == 127 || block_size == 255 || block_size
        == 511 || block_size == 1023 || block_size == 2047 || block_size == 4095
}

/// Why a UBQ shape cannot be run: no queue of that shape is built in.
#[derive(Clone, Copy, Debug, PartialEq, Eq, Structural)]
pub enum UbqConfigError {
    UnsupportedPoolSize(usize),
    UnsupportedBlockSize(usize),
}

/// Whether a queue of the UBQ shape `config` is built in; the pool size is
/// judged first.
pub fn check_ubq_config(config: &UbqConfig) -> (r: Result<(), UbqConfigError>)
    ensures
        r == (if !supported_pool_size(config.pool_size) {
            Err(UbqConfigError::UnsupportedPoolSize(config.pool_size))
        } else if !supported_block_size(config.block_size) {
            Err(UbqConfigError::UnsupportedBlockSize(config.block_size))
        } else {
            Ok(())
        }),
{
    let p = config.pool_size;
    let b = config.block_size;
    if !(p == 0 || p == 1 || p == 2 || p == 4 || p == 8 || p == 16 || p == 32) {
        Err(UbqConfigError::UnsupportedPoolSize(p))
    } else if !(b == 31 || b == 63 || b == 127 || b == 255 || b == 511 || b == 1023 || b == 2047
        || b == 4095) {
        Err(UbqConfigError::UnsupportedBlockSize(b))
    } else {
        Ok(())
    }
}

} // verus!
