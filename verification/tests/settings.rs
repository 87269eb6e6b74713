use queue_bench::names::{UbqBackoff, UbqConfig};
use queue_bench::settings::{
    bounded_capacity, check_ubq_config, cpu_for_thread, env_ubq_backoff, env_ubq_config,
    env_usize, env_usize_allow_zero, measurement_window, min_elapsed, num_ops, parse_logn,
    parse_nprocs, per_thread_ops, rbbq_block_size, rbbq_num_blocks, steady_state_range,
    UbqConfigError,
};

fn args(items: &[&str]) -> Vec<String> {
    items.iter().map(|s| s.to_string()).collect()
}

#[test]
fn env_usize_drops_zero_and_garbage() {
    assert_eq!(env_usize(Some("64")), Some(64));
    assert_eq!(env_usize(Some("0")), None);
    assert_eq!(env_usize(Some("sixty")), None);
    assert_eq!(env_usize(None), None);
    assert_eq!(env_usize_allow_zero(Some("0")), Some(0));
    assert_eq!(env_usize_allow_zero(Some("-1")), None);
    assert_eq!(env_usize_allow_zero(None), None);
}

#[test]
fn env_ubq_backoff_reads_the_value() {
    assert_eq!(env_ubq_backoff(Some("yield")), Some(UbqBackoff::Yield));
    assert_eq!(env_ubq_backoff(Some("spin")), None);
    assert_eq!(env_ubq_backoff(None), None);
}

#[test]
fn env_ubq_config_defaults() {
    assert_eq!(
        env_ubq_config(None, None, None),
        UbqConfig { pool_size: 1, block_size: 2047, backoff: UbqBackoff::Crossbeam }
    );
    assert_eq!(
        env_ubq_config(Some("0"), Some("0"), Some("Yield")),
        UbqConfig { pool_size: 0, block_size: 2047, backoff: UbqBackoff::Yield }
    );
    assert_eq!(
        env_ubq_config(Some("8"), Some("511"), Some("other")),
        UbqConfig { pool_size: 8, block_size: 511, backoff: UbqBackoff::Crossbeam }
    );
}

#[test]
fn bounded_capacity_rule() {
    assert_eq!(bounded_capacity(Some("100"), 8), 100);
    assert_eq!(bounded_capacity(None, 8), 4096);
    assert_eq!(bounded_capacity(None, 2048), 4096);
    assert_eq!(bounded_capacity(None, 2049), 4098);
    assert_eq!(bounded_capacity(Some("0"), 3000), 6000);
    assert_eq!(bounded_capacity(Some("lots"), 1), 4096);
}

#[test]
fn rbbq_block_size_rule() {
    assert_eq!(rbbq_block_size(0, None), 128);
    assert_eq!(rbbq_block_size(0, Some("64")), 64);
    assert_eq!(rbbq_block_size(0, Some("0")), 128);
    assert_eq!(rbbq_block_size(32, Some("64")), 32);
}

#[test]
fn rbbq_num_blocks_rounds_up() {
    assert_eq!(rbbq_num_blocks(4096, 128), 32);
    assert_eq!(rbbq_num_blocks(4097, 128), 33);
    assert_eq!(rbbq_num_blocks(129, 128), 2);
    assert_eq!(rbbq_num_blocks(128, 128), 1);
    assert_eq!(rbbq_num_blocks(100, 128), 1);
    assert_eq!(rbbq_num_blocks(0, 5), 1);
    assert_eq!(rbbq_num_blocks(usize::MAX, 1), usize::MAX);
    assert_eq!(rbbq_num_blocks(usize::MAX, 2), usize::MAX / 2 + 1);
}

#[test]
fn parse_nprocs_rule() {
    assert_eq!(parse_nprocs(&args(&["prog", "8"]), 4), 8);
    assert_eq!(parse_nprocs(&args(&["prog", "0"]), 4), 4);
    assert_eq!(parse_nprocs(&args(&["prog", "x"]), 4), 4);
    assert_eq!(parse_nprocs(&args(&["prog"]), 6), 6);
    assert_eq!(parse_nprocs(&args(&["prog"]), -1), 0);
    assert_eq!(parse_nprocs(&args(&[]), 0), 0);
}

#[test]
fn parse_logn_rule() {
    assert_eq!(parse_logn(&args(&["prog", "4"])), 7);
    assert_eq!(parse_logn(&args(&["prog", "4", "3"])), 3);
    assert_eq!(parse_logn(&args(&["prog", "4", "0"])), 7);
    assert_eq!(parse_logn(&args(&["prog", "4", "x"])), 7);
}

#[test]
fn num_ops_is_a_power_of_ten() {
    assert_eq!(num_ops(0), 1);
    assert_eq!(num_ops(7), 10_000_000);
    assert_eq!(num_ops(19), 10_u64.pow(19));
    assert_eq!(per_thread_ops(10_000_000, 3), 3_333_333);
}

#[test]
fn threads_map_round_robin_to_processors() {
    assert_eq!(cpu_for_thread(0, 4), 0);
    assert_eq!(cpu_for_thread(5, 4), 1);
    assert_eq!(cpu_for_thread(3, 4), 3);
}

#[test]
fn steady_state_windows() {
    assert_eq!(steady_state_range(4), (1, 5));
    assert_eq!(steady_state_range(19), (16, 20));
    assert_eq!(measurement_window(3), None);
    assert_eq!(measurement_window(4), Some(0));
    assert_eq!(measurement_window(10), Some(6));
}

#[test]
fn min_elapsed_values() {
    assert_eq!(min_elapsed(&[]), 0);
    assert_eq!(min_elapsed(&[5, 3, 9]), 3);
    assert_eq!(min_elapsed(&[-2]), -2);
}

#[test]
fn ubq_configs_that_are_built_in() {
    let cfg = |p, b| UbqConfig { pool_size: p, block_size: b, backoff: UbqBackoff::Crossbeam };
    assert_eq!(check_ubq_config(&cfg(4, 127)), Ok(()));
    assert_eq!(check_ubq_config(&cfg(0, 4095)), Ok(()));
    assert_eq!(check_ubq_config(&cfg(3, 127)), Err(UbqConfigError::UnsupportedPoolSize(3)));
    assert_eq!(check_ubq_config(&cfg(4, 128)), Err(UbqConfigError::UnsupportedBlockSize(128)));
    assert_eq!(check_ubq_config(&cfg(5, 128)), Err(UbqConfigError::UnsupportedPoolSize(5)));
}
