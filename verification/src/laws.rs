//! Laws of the naming scheme: the names that the benchmark's wrappers are
//! built under select the queue they describe.
use vstd::prelude::*;
use crate::names::{
    crossbeam_single_pool, fixed_queue_spec, select_queue_spec, QueueChoice, component_start, file_name_upto, queue_name_spec, rbbq_config_name_spec, ubq_config_name_spec,
    ubq_pool_block_spec, UbqBackoff, UbqConfig, lemma_component_start_bounds,
};
use crate::settings::{
    arg_spec, reads_as, reads_as_positive, bounded_capacity_spec, env_ubq_config_spec, parse_nprocs_spec, rbbq_block_size_spec,
};
use crate::text::{
    all_digits, digit_value, digits_value, first_occurrence, is_digit, is_first_occurrence,
    lemma_first_occurrence_is, occurs_at, parse_unsigned_spec, parse_usize_spec, split_once_spec,
    strip_prefix_spec, unsigned_digits,
};

verus! {

/// The decimal digit that writes `d`, for `d < 10`.
pub open spec fn digit_char(d: nat) -> char {
    (48 + d) as char
}

/// The decimal writing of `n`, without leading zeros.
pub open spec fn decimal(n: nat) -> Seq<char>
    decreases n,
{
    if n < 10 {
        seq![digit_char(n)]
    } else {
        decimal(n / 10).push(digit_char(n % 10))
    }
}

/// The decimal writing of a number is a non-empty row of digits that reads
/// back as the number.
pub proof fn lemma_decimal(n: nat)
    ensures
        decimal(n).len() > 0,
        all_digits(decimal(n)),
        digits_value(decimal(n)) == n,
    decreases n,
{
    assert(n % 10 < 10);
    assert(is_digit(digit_char(n % 10)));
    assert(digit_value(digit_char(n % 10)) == n % 10);
    if n < 10 {
        assert(n % 10 == n);
        let d = decimal(n);
        assert(d.drop_last() =~= Seq::<char>::empty());
        assert(digits_value(d.drop_last()) == 0);
        assert(d.last() == digit_char(n % 10));
    } else {
        lemma_decimal(n / 10);
        let d = decimal(n);
        assert(d.drop_last() =~= decimal(n / 10));
        assert(d.last() == digit_char(n % 10));
        assert(digits_value(d) == 10 * (n / 10) + n % 10);
        assert(all_digits(d)) by {
            assert forall|i: int| 0 <= i < d.len() implies is_digit(#[trigger] d[i]) by {
                if i < d.len() - 1 {
                    assert(d[i] == decimal(n / 10)[i]);
                }
            }
        }
    }
}

/// A number reads back from its decimal writing.
pub proof fn lemma_parse_decimal(n: nat, max: int)
    requires
        n <= max,
    ensures
        parse_unsigned_spec(decimal(n), max) == Some(n as int),
{
    lemma_decimal(n);
    assert(decimal(n)[0] != '+') by {
        assert(is_digit(decimal(n)[0]));
    }
    assert(unsigned_digits(decimal(n)) == decimal(n));
}

/// A `usize` reads back from its decimal writing.
pub proof fn lemma_parse_usize_decimal(n: usize)
    ensures
        parse_usize_spec(decimal(n as nat)) == Some(n),
{
    lemma_parse_decimal(n as nat, usize::MAX as int);
}

/// Stripping a prefix from a sequence that begins with it leaves the rest.
pub proof fn lemma_strip_prefix_concat(prefix: Seq<char>, rest: Seq<char>)
    ensures
        strip_prefix_spec(prefix + rest, prefix) == Some(rest),
{
    assert(prefix.is_prefix_of(prefix + rest)) by {
        assert(prefix =~= (prefix + rest).subrange(0, prefix.len() as int));
    }
    assert((prefix + rest).skip(prefix.len() as int) =~= rest);
}

/// Law: the program name `rust-rbbq-block<size>`, with the size written in
/// decimal, selects RBBQ with that block size, for every positive size.
pub proof fn law_rbbq_name_round_trip(block_size: usize)
    requires
        block_size > 0,
    ensures
        rbbq_config_name_spec("rust-rbbq-block"@ + decimal(block_size as nat)) == Some(
            Ok::<usize, Seq<char>>(block_size),
        ),
{
    lemma_strip_prefix_concat("rust-rbbq-block"@, decimal(block_size as nat));
    lemma_parse_usize_decimal(block_size);
}

/// In a row of digits followed by `-block`, the first `-block` is the one
/// after the digits.
pub proof fn lemma_first_block_marker(pool: Seq<char>, block: Seq<char>)
    requires
        all_digits(pool),
    ensures
        first_occurrence(pool + "-block"@ + block, "-block"@) == Some(pool.len() as int),
        split_once_spec(pool + "-block"@ + block, "-block"@) == Some((pool, block)),
{
    reveal_strlit("-block");
    let s = pool + "-block"@ + block;
    let pat = "-block"@;
    assert(s.subrange(pool.len() as int, (pool.len() + pat.len()) as int) =~= pat);
    assert forall|j: int| 0 <= j < pool.len() implies !occurs_at(s, pat, j) by {
        assert(is_digit(pool[j]));
        assert(s[j] == pool[j]);
        if occurs_at(s, pat, j) {
            assert(s.subrange(j, j + pat.len())[0] == pat[0]);
        }
    }
    assert(is_first_occurrence(s, pat, pool.len() as int));
    lemma_first_occurrence_is(s, pat, pool.len() as int);
    assert(s.take(pool.len() as int) =~= pool);
    assert(s.skip((pool.len() + pat.len()) as int) =~= block);
}

/// The configured UBQ name `<pool>-block<block>` reads back as that shape.
pub proof fn lemma_pool_block_round_trip(pool_size: usize, block_size: usize, backoff: UbqBackoff)
    ensures
        first_occurrence(
            decimal(pool_size as nat) + "-block"@ + decimal(block_size as nat),
            "-block"@,
        ) is Some,
        ubq_pool_block_spec(
            decimal(pool_size as nat) + "-block"@ + decimal(block_size as nat),
            backoff,
        ) == Ok::<UbqConfig, Seq<char>>(UbqConfig { pool_size, block_size, backoff }),
{
    lemma_decimal(pool_size as nat);
    lemma_first_block_marker(decimal(pool_size as nat), decimal(block_size as nat));
    lemma_parse_usize_decimal(pool_size);
    lemma_parse_usize_decimal(block_size);
}

/// Law: the program name `rust-ubq-pool<pool>-block<block>`, with the sizes
/// written in decimal, selects the UBQ shape with those sizes and the crossbeam
/// backoff.
pub proof fn law_ubq_name_round_trip(pool_size: usize, block_size: usize)
    ensures
        ubq_config_name_spec(
            "rust-ubq-pool"@ + (decimal(pool_size as nat) + "-block"@ + decimal(block_size as nat)),
        ) == Some(
            Ok::<UbqConfig, Seq<char>>(
                UbqConfig { pool_size, block_size, backoff: UbqBackoff::Crossbeam },
            ),
        ),
{
    reveal_strlit("rust-ubq-pool");
    reveal_strlit("rust-ubq-yield-pool");
    let rest = decimal(pool_size as nat) + "-block"@ + decimal(block_size as nat);
    let name = "rust-ubq-pool"@ + rest;
    assert(!"rust-ubq-yield-pool"@.is_prefix_of(name)) by {
        if "rust-ubq-yield-pool"@.is_prefix_of(name) {
            assert(name[9] == "rust-ubq-yield-pool"@[9]);
        }
    }
    lemma_strip_prefix_concat("rust-ubq-pool"@, rest);
    lemma_pool_block_round_trip(pool_size, block_size, UbqBackoff::Crossbeam);
}

/// Law: the program name `rust-ubq-yield-pool<pool>-block<block>`, with the sizes
/// written in decimal, selects the UBQ shape with those sizes and the yielding
/// backoff.
pub proof fn law_ubq_yield_name_round_trip(pool_size: usize, block_size: usize)
    ensures
        ubq_config_name_spec(
            "rust-ubq-yield-pool"@ + (decimal(pool_size as nat) + "-block"@ + decimal(
                block_size as nat,
            )),
        ) == Some(
            Ok::<UbqConfig, Seq<char>>(
                UbqConfig { pool_size, block_size, backoff: UbqBackoff::Yield },
            ),
        ),
{
    let rest = decimal(pool_size as nat) + "-block"@ + decimal(block_size as nat);
    lemma_strip_prefix_concat("rust-ubq-yield-pool"@, rest);
    lemma_pool_block_round_trip(pool_size, block_size, UbqBackoff::Yield);
}

} // verus!

verus! {

/// A component that runs from `start` to `end` without a `/`, right after a
/// `/` or at the start of the path, begins at `start`.
pub proof fn lemma_component_start_run(p: Seq<char>, start: int, end: int)
    requires
        0 <= start <= end <= p.len(),
        start == 0 || p[start - 1] == '/',
        forall|k: int| start <= k < end ==> p[k] != '/',
    ensures
        component_start(p, end) == start,
    decreases end,
{
    if end > start {
        lemma_component_start_run(p, start, end - 1);
    }
}

/// A plain file name: not empty, without `/`, and neither `.` nor `..`.
pub open spec fn plain_name(name: Seq<char>) -> bool {
    &&& name.len() > 0
    &&& forall|k: int| 0 <= k < name.len() ==> name[k] != '/'
    &&& name != "."@
    &&& name != ".."@
}

/// Law: a program invoked by a path that ends in a plain file name measures
/// the queue of that name, whatever directory the path goes through.
pub proof fn law_queue_name_of_path(dir: Seq<char>, name: Seq<char>)
    requires
        plain_name(name),
    ensures
        queue_name_spec(dir + "/"@ + name) == name,
{
    reveal_strlit("/");
    let p = dir + "/"@ + name;
    let start = dir.len() + 1int;
    let end = p.len() as int;
    assert(p[start - 1] == '/');
    assert forall|k: int| start <= k < end implies p[k] != '/' by {
        assert(p[k] == name[k - start]);
    }
    lemma_component_start_run(p, start, end);
    assert(p[end - 1] == name[name.len() - 1]);
    assert(p.subrange(start, end) =~= name);
    assert(file_name_upto(p, end) == Some(name));
}

/// Law: a program invoked by a plain file name measures the queue of that name.
pub proof fn law_queue_name_plain(name: Seq<char>)
    requires
        plain_name(name),
    ensures
        queue_name_spec(name) == name,
{
    let end = name.len() as int;
    lemma_component_start_run(name, 0, end);
    assert(name.subrange(0, end) =~= name);
    assert(file_name_upto(name, end) == Some(name));
}

} // verus!

verus! {

/// Law: the program name `rust-rbbq-block<size>`, for a positive size written
/// in decimal, runs RBBQ with that block size in place of the environment's.
pub proof fn law_select_rbbq_name(block_size: usize)
    requires
        block_size > 0,
    ensures
        select_queue_spec("rust-rbbq-block"@ + decimal(block_size as nat)) == Ok::<
            QueueChoice,
            Seq<char>,
        >(QueueChoice::Rbbq { block_size_override: Some(block_size) }),
{
    law_rbbq_name_round_trip(block_size);
}

/// Law: the program name `rust-ubq-pool<pool>-block<block>`, with the sizes
/// written in decimal, runs the UBQ queue of that shape with the crossbeam backoff.
pub proof fn law_select_ubq_name(pool_size: usize, block_size: usize)
    ensures
        select_queue_spec(
            "rust-ubq-pool"@ + (decimal(pool_size as nat) + "-block"@ + decimal(block_size as nat)),
        ) == Ok::<QueueChoice, Seq<char>>(
            QueueChoice::Ubq(UbqConfig { pool_size, block_size, backoff: UbqBackoff::Crossbeam }),
        ),
{
    reveal_strlit("rust-ubq-pool");
    reveal_strlit("rust-rbbq-block");
    let name = "rust-ubq-pool"@ + (decimal(pool_size as nat) + "-block"@ + decimal(
        block_size as nat,
    ));
    assert(!"rust-rbbq-block"@.is_prefix_of(name)) by {
        if "rust-rbbq-block"@.is_prefix_of(name) {
            assert(name[5] == "rust-rbbq-block"@[5]);
        }
    }
    law_ubq_name_round_trip(pool_size, block_size);
}

/// Law: the program name `rust-ubq-yield-pool<pool>-block<block>`, with the
/// sizes written in decimal, runs the UBQ queue of that shape with the
/// yielding backoff.
pub proof fn law_select_ubq_yield_name(pool_size: usize, block_size: usize)
    ensures
        select_queue_spec(
            "rust-ubq-yield-pool"@ + (decimal(pool_size as nat) + "-block"@ + decimal(
                block_size as nat,
            )),
        ) == Ok::<QueueChoice, Seq<char>>(
            QueueChoice::Ubq(UbqConfig { pool_size, block_size, backoff: UbqBackoff::Yield }),
        ),
{
    reveal_strlit("rust-ubq-yield-pool");
    reveal_strlit("rust-rbbq-block");
    let name = "rust-ubq-yield-pool"@ + (decimal(pool_size as nat) + "-block"@ + decimal(
        block_size as nat,
    ));
    assert(!"rust-rbbq-block"@.is_prefix_of(name)) by {
        if "rust-rbbq-block"@.is_prefix_of(name) {
            assert(name[5] == "rust-rbbq-block"@[5]);
        }
    }
    law_ubq_yield_name_round_trip(pool_size, block_size);
}

/// Law: `rust-ubq`, the default UBQ benchmark, runs the same queue as
/// `rust-ubq-2047`: one pooled block of 2047 slots with the crossbeam backoff.
pub proof fn law_default_ubq_is_2047()
    ensures
        select_queue_spec("rust-ubq"@) == Ok::<QueueChoice, Seq<char>>(crossbeam_single_pool(2047)),
        select_queue_spec("rust-ubq-2047"@) == select_queue_spec("rust-ubq"@),
{
    reveal_strlit("rust-ubq");
    reveal_strlit("rust-ubq-2047");
    reveal_strlit("rust-rbbq-block");
    reveal_strlit("rust-ubq-yield-pool");
    reveal_strlit("rust-ubq-pool");
    reveal_strlit("rust-segqueue");
    reveal_strlit("segqueue");
    reveal_strlit("rust-arrayqueue");
    reveal_strlit("arrayqueue");
    reveal_strlit("ubq");
    reveal_strlit("rust-ubq-config");
    reveal_strlit("ubq-config");
    reveal_strlit("rust-ubq-31");
    reveal_strlit("ubq-31");
    reveal_strlit("rust-ubq-127");
    reveal_strlit("ubq-127");
    reveal_strlit("rust-ubq-511");
    reveal_strlit("ubq-511");
    let a = "rust-ubq"@;
    let b = "rust-ubq-2047"@;
    assert(b[9] != "rust-ubq-pool"@[9]);
    assert(!"rust-ubq-pool"@.is_prefix_of(b)) by {
        if "rust-ubq-pool"@.is_prefix_of(b) {
            assert(b[9] == "rust-ubq-pool"@[9]);
        }
    }
    assert(b != "rust-segqueue"@) by {
        assert(b[5] != "rust-segqueue"@[5]);
    }
    assert(a != "segqueue"@) by {
        assert(a[0] != "segqueue"@[0]);
    }
    assert(strip_prefix_spec(a, "rust-rbbq-block"@) is None);
    assert(strip_prefix_spec(a, "rust-ubq-yield-pool"@) is None);
    assert(strip_prefix_spec(a, "rust-ubq-pool"@) is None);
    assert(rbbq_config_name_spec(a) is None);
    assert(ubq_config_name_spec(a) is None);
    assert(strip_prefix_spec(b, "rust-rbbq-block"@) is None);
    assert(strip_prefix_spec(b, "rust-ubq-yield-pool"@) is None);
    assert(strip_prefix_spec(b, "rust-ubq-pool"@) is None);
    assert(rbbq_config_name_spec(b) is None);
    assert(ubq_config_name_spec(b) is None);
    assert(fixed_queue_spec(a) == Ok::<QueueChoice, Seq<char>>(crossbeam_single_pool(2047)));
    assert(fixed_queue_spec(b) == Ok::<QueueChoice, Seq<char>>(crossbeam_single_pool(2047)));
}

} // verus!

verus! {

/// Law: a positive thread count on the command line is the thread count,
/// whatever number of processors the system reports.
pub proof fn law_nprocs_requested_wins(args: Seq<String>, detected: i64, n: usize)
    requires
        reads_as_positive(arg_spec(args, 1), n),
    ensures
        parse_nprocs_spec(args, detected) == n,
{
}

/// Law: without a positive thread count on the command line, the thread count
/// is the number of online processors when that is positive, and zero otherwise.
pub proof fn law_nprocs_falls_back_to_detected(args: Seq<String>, detected: i64)
    requires
        forall|n: usize| !reads_as_positive(arg_spec(args, 1), n),
    ensures
        detected > 0 ==> parse_nprocs_spec(args, detected) == detected as usize,
        detected <= 0 ==> parse_nprocs_spec(args, detected) == 0,
{
    if args.len() > 1 {
        if let Some(n) = parse_usize_spec(args[1]@) {
            assert(!reads_as_positive(arg_spec(args, 1), n));
        }
    }
}

/// Law: each of the three UBQ variables, when it holds a value the benchmark
/// accepts, gives that part of the shape exactly, whatever the other two hold;
/// the pool size may be zero, the block size may not. An unset variable gives
/// the default: one pooled block, 2047 slots, the crossbeam backoff.
pub proof fn law_env_ubq_config_takes_values(
    pool: Option<Seq<char>>,
    block: Option<Seq<char>>,
    backoff: Option<Seq<char>>,
    n: usize,
    b: usize,
)
    ensures
        reads_as(pool, n) ==> env_ubq_config_spec(pool, block, backoff).pool_size == n,
        reads_as_positive(block, b) ==> env_ubq_config_spec(pool, block, backoff).block_size == b,
        backoff == Some("crossbeam"@) ==> env_ubq_config_spec(pool, block, backoff).backoff
            == UbqBackoff::Crossbeam,
        backoff == Some("yield"@) ==> env_ubq_config_spec(pool, block, backoff).backoff
            == UbqBackoff::Yield,
        pool is None ==> env_ubq_config_spec(pool, block, backoff).pool_size == 1,
        block is None ==> env_ubq_config_spec(pool, block, backoff).block_size == 2047,
        backoff is None ==> env_ubq_config_spec(pool, block, backoff).backoff
            == UbqBackoff::Crossbeam,
{
    reveal_strlit("yield");
    reveal_strlit("crossbeam");
    reveal_strlit("Crossbeam");
    assert("yield"@ != "crossbeam"@ && "yield"@ != "Crossbeam"@) by {
        assert("yield"@.len() != "crossbeam"@.len());
        assert("yield"@.len() != "Crossbeam"@.len());
    }
}

/// Law: a positive capacity in the environment is the capacity of a bounded
/// queue for any number of threads; without one, the capacity is twice the
/// number of threads, but at least 4096.
pub proof fn law_bounded_capacity(capacity: Option<Seq<char>>, nprocs: usize, c: usize)
    ensures
        reads_as_positive(capacity, c) ==> bounded_capacity_spec(capacity, nprocs) == c,
        capacity is None ==> bounded_capacity_spec(capacity, nprocs) >= 4096,
        capacity is None ==> bounded_capacity_spec(capacity, nprocs) >= 2 * nprocs,
        capacity is None ==> (bounded_capacity_spec(capacity, nprocs) == 4096
            || bounded_capacity_spec(capacity, nprocs) == 2 * nprocs),
{
}

/// Law: a non-zero block-size override is the RBBQ block size, whatever the
/// environment holds; without one, a positive value in the environment is the
/// block size, and with neither it is 128.
pub proof fn law_rbbq_block_size(override_size: usize, block: Option<Seq<char>>, b: usize)
    ensures
        override_size != 0 ==> rbbq_block_size_spec(override_size, block) == override_size,
        override_size == 0 && reads_as_positive(block, b) ==> rbbq_block_size_spec(
            override_size,
            block,
        ) == b,
        override_size == 0 && block is None ==> rbbq_block_size_spec(override_size, block) == 128,
{
}

} // verus!
