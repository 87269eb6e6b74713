use queue_bench::names::{
    file_name, parse_rbbq_config_name, parse_ubq_backoff, parse_ubq_config_name,
    parse_ubq_pool_block, queue_name, run_configured_rbbq, select_queue, QueueChoice, UbqBackoff,
    UbqConfig,
};
use queue_bench::text::{
    contains_text, find_first, parse_u32, parse_unsigned, parse_usize, split_once, strip_prefix,
    text_eq,
};
use std::path::Path;

fn ubq(pool_size: usize, block_size: usize, backoff: UbqBackoff) -> UbqConfig {
    UbqConfig { pool_size, block_size, backoff }
}

#[test]
fn text_eq_compares_characters() {
    assert!(text_eq("abc", "abc"));
    assert!(!text_eq("abc", "abd"));
    assert!(!text_eq("abc", "ab"));
    assert!(text_eq("", ""));
    assert!(text_eq("黑风", "黑风"));
}

#[test]
fn find_first_gives_the_first_occurrence() {
    assert_eq!(find_first("4-block127-block", "-block"), Some(1));
    assert_eq!(find_first("abc", "x"), None);
    assert_eq!(find_first("abc", ""), Some(0));
    assert_eq!(find_first("ab", "abc"), None);
    assert!(contains_text("rust-ubq-pool4-block127", "-block"));
    assert!(!contains_text("4-2047", "-block"));
}

#[test]
fn split_once_splits_at_the_first_marker() {
    assert_eq!(split_once("4-block127", "-block"), Some(("4", "127")));
    assert_eq!(split_once("-block-block", "-block"), Some(("", "-block")));
    assert_eq!(split_once("4-2047", "-block"), None);
}

#[test]
fn strip_prefix_matches_std() {
    for (s, p) in [("rust-ubq-pool4", "rust-ubq-pool"), ("rust", "rust-ubq"), ("abc", ""), ("", "")] {
        assert_eq!(strip_prefix(s, p), s.strip_prefix(p));
    }
}

#[test]
fn parse_usize_matches_std() {
    let cases = [
        "0", "7", "128", "+5", "+", "", "-1", "-0", "12a", " 12", "007",
        "18446744073709551615", "18446744073709551616", "99999999999999999999999", "+0", "++1",
    ];
    for s in cases {
        assert_eq!(parse_usize(s), s.parse::<usize>().ok(), "input {s:?}");
    }
}

#[test]
fn parse_u32_matches_std() {
    let cases = ["0", "4294967295", "4294967296", "19", "+20", "x", "", "2a"];
    for s in cases {
        assert_eq!(parse_u32(s), s.parse::<u32>().ok(), "input {s:?}");
    }
    assert_eq!(parse_unsigned("300", 255), None);
    assert_eq!(parse_unsigned("255", 255), Some(255));
}

#[test]
fn parse_ubq_backoff_names() {
    assert_eq!(parse_ubq_backoff("crossbeam"), Some(UbqBackoff::Crossbeam));
    assert_eq!(parse_ubq_backoff("Crossbeam"), Some(UbqBackoff::Crossbeam));
    assert_eq!(parse_ubq_backoff("yield"), Some(UbqBackoff::Yield));
    assert_eq!(parse_ubq_backoff("Yield"), Some(UbqBackoff::Yield));
    assert_eq!(parse_ubq_backoff("YIELD"), None);
    assert_eq!(parse_ubq_backoff(""), None);
}

#[test]
fn rbbq_config_names() {
    assert_eq!(parse_rbbq_config_name("rust-rbbq-block64"), Some(Ok(64)));
    assert_eq!(parse_rbbq_config_name("rust-rbbq-block256"), Some(Ok(256)));
    assert_eq!(
        parse_rbbq_config_name("rust-rbbq-block0"),
        Some(Err("RBBQ block size must be greater than zero".to_owned()))
    );
    assert_eq!(
        parse_rbbq_config_name("rust-rbbq-blockx"),
        Some(Err("invalid RBBQ block size `x`".to_owned()))
    );
    assert_eq!(
        parse_rbbq_config_name("rust-rbbq-block"),
        Some(Err("invalid RBBQ block size ``".to_owned()))
    );
    assert_eq!(parse_rbbq_config_name("rust-rbbq"), None);
    assert_eq!(parse_rbbq_config_name("rust-rbbq-config"), None);
}

#[test]
fn ubq_config_names() {
    assert_eq!(
        parse_ubq_config_name("rust-ubq-pool4-block127"),
        Some(Ok(ubq(4, 127, UbqBackoff::Crossbeam)))
    );
    assert_eq!(
        parse_ubq_config_name("rust-ubq-yield-pool4-block127"),
        Some(Ok(ubq(4, 127, UbqBackoff::Yield)))
    );
    assert_eq!(
        parse_ubq_config_name("rust-ubq-pool0-block4095"),
        Some(Ok(ubq(0, 4095, UbqBackoff::Crossbeam)))
    );
    assert_eq!(parse_ubq_config_name("rust-ubq-pool4-2047"), None);
    assert_eq!(parse_ubq_config_name("rust-ubq-yield-pool4"), None);
    assert_eq!(parse_ubq_config_name("rust-ubq-yield-2047"), None);
    assert_eq!(parse_ubq_config_name("rust-ubq"), None);
    assert_eq!(
        parse_ubq_config_name("rust-ubq-poolx-block1"),
        Some(Err("invalid UBQ pool size `x`".to_owned()))
    );
    assert_eq!(
        parse_ubq_config_name("rust-ubq-pool4-blocky"),
        Some(Err("invalid UBQ block size `y`".to_owned()))
    );
    assert_eq!(
        parse_ubq_config_name("rust-ubq-pool4-block1-block2"),
        Some(Err("invalid UBQ block size `1-block2`".to_owned()))
    );
}

#[test]
fn pool_block_without_marker_is_refused() {
    assert_eq!(
        parse_ubq_pool_block("4-2047", UbqBackoff::Crossbeam),
        Err("UBQ config names must look like rust-ubq-pool4-block127 or rust-ubq-yield-pool4-block127"
            .to_owned())
    );
    assert_eq!(
        parse_ubq_pool_block("8-block31", UbqBackoff::Yield),
        Ok(ubq(8, 31, UbqBackoff::Yield))
    );
}

#[test]
fn file_name_matches_std_path() {
    let cases = [
        "binaries/rust-ubq", "rust-ubq", "/usr/bin/rust-rbbq", "a/", "a/.", "a/./", ".", "./",
        "..", "a/..", "../a", "/", "", "a//b", "a/b/", "...", "./a", "a/./.", "./.", "/a/",
    ];
    for p in cases {
        let expected = Path::new(p).file_name().and_then(|n| n.to_str());
        assert_eq!(file_name(p), expected, "path {p:?}");
    }
}

#[test]
fn queue_name_is_the_file_name_or_the_program() {
    assert_eq!(queue_name("./binaries/rust-ubq-31"), "rust-ubq-31");
    assert_eq!(queue_name("rust-segqueue"), "rust-segqueue");
    assert_eq!(queue_name("a/.."), "a/..");
    assert_eq!(queue_name("/"), "/");
    assert_eq!(queue_name("x/rust-rbbq/"), "rust-rbbq");
}

#[test]
fn select_queue_fixed_names() {
    let single = |b| QueueChoice::Ubq(ubq(1, b, UbqBackoff::Crossbeam));
    let cases = [
        ("rust-segqueue", QueueChoice::SegQueue),
        ("segqueue", QueueChoice::SegQueue),
        ("rust-arrayqueue", QueueChoice::ArrayQueue),
        ("arrayqueue", QueueChoice::ArrayQueue),
        ("rust-ubq", single(2047)),
        ("ubq", single(2047)),
        ("rust-ubq-config", QueueChoice::UbqFromEnvironment),
        ("ubq-config", QueueChoice::UbqFromEnvironment),
        ("rust-ubq-31", single(31)),
        ("ubq-31", single(31)),
        ("rust-ubq-127", single(127)),
        ("rust-ubq-511", single(511)),
        ("rust-ubq-2047", single(2047)),
        ("ubq-2047", single(2047)),
        ("rust-ubq-pool4-2047", QueueChoice::Ubq(ubq(4, 2047, UbqBackoff::Crossbeam))),
        ("ubq-pool4-2047", QueueChoice::Ubq(ubq(4, 2047, UbqBackoff::Crossbeam))),
        ("rust-ubq-yield-2047", QueueChoice::Ubq(ubq(1, 2047, UbqBackoff::Yield))),
        ("rust-rbbq", QueueChoice::Rbbq { block_size_override: None }),
        ("rust-rbbq-config", QueueChoice::Rbbq { block_size_override: None }),
        ("rbbq", QueueChoice::Rbbq { block_size_override: None }),
        ("rbbq-config", QueueChoice::Rbbq { block_size_override: None }),
    ];
    for (name, choice) in cases {
        assert_eq!(select_queue(name), Ok(choice), "name {name}");
    }
}

#[test]
fn select_queue_configured_names() {
    assert_eq!(
        select_queue("rust-rbbq-block64"),
        Ok(QueueChoice::Rbbq { block_size_override: Some(64) })
    );
    assert_eq!(
        select_queue("rust-ubq-yield-pool16-block511"),
        Ok(QueueChoice::Ubq(ubq(16, 511, UbqBackoff::Yield)))
    );
    assert_eq!(
        select_queue("rust-rbbq-block0"),
        Err("RBBQ block size must be greater than zero".to_owned())
    );
    assert_eq!(
        select_queue("rust-ubq-pool4-block"),
        Err("invalid UBQ block size ``".to_owned())
    );
}

#[test]
fn select_queue_unknown_name() {
    assert_eq!(
        select_queue("wfqueue"),
        Err("unknown Rust queue benchmark `wfqueue`; expected rust-segqueue, rust-arrayqueue, rust-ubq*, or rust-rbbq".to_owned())
    );
}

#[test]
fn run_configured_rbbq_overrides_the_block_size() {
    assert_eq!(run_configured_rbbq(32), QueueChoice::Rbbq { block_size_override: Some(32) });
}

#[test]
fn wrapper_names_select_their_shape() {
    for pool in [0usize, 1, 2, 4, 8, 16, 32] {
        for block in [31usize, 63, 127, 255, 511, 1023, 2047, 4095] {
            assert_eq!(
                select_queue(&format!("rust-ubq-pool{pool}-block{block}")),
                Ok(QueueChoice::Ubq(ubq(pool, block, UbqBackoff::Crossbeam)))
            );
            assert_eq!(
                select_queue(&format!("rust-ubq-yield-pool{pool}-block{block}")),
                Ok(QueueChoice::Ubq(ubq(pool, block, UbqBackoff::Yield)))
            );
        }
    }
    for block in [1usize, 64, 128, 256, 100000] {
        assert_eq!(
            select_queue(&format!("rust-rbbq-block{block}")),
            Ok(QueueChoice::Rbbq { block_size_override: Some(block) })
        );
    }
}

#[test]
fn default_ubq_is_the_2047_shape() {
    assert_eq!(select_queue("rust-ubq"), select_queue("rust-ubq-2047"));
}

#[test]
fn queue_name_of_a_path_is_its_last_component() {
    for dir in ["", "binaries", "/opt/bench/binaries", "./a/./b"] {
        assert_eq!(queue_name(&format!("{dir}/rust-ubq-pool4-block127")), "rust-ubq-pool4-block127");
    }
}
