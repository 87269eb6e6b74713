//! The naming scheme of the benchmark: a program's file name selects the
//! queue to measure, and configured names carry the queue's parameters.
use vstd::prelude::*;
use vstd::string::*;
use crate::text::{
    contains_text, first_occurrence, parse_usize, parse_usize_spec, split_once, split_once_spec,
    strip_prefix, strip_prefix_spec, text_eq,
};

verus! {

/// The retry policy of a UBQ queue while it waits for other threads.
#[derive(Clone, Copy, Debug, PartialEq, Eq, Structural)]
pub enum UbqBackoff {
    Crossbeam,
    Yield,
}

/// The compile-time shape of a UBQ queue: blocks kept in the pool, slots per
/// block, and the retry policy.
#[derive(Clone, Copy, Debug, PartialEq, Eq, Structural)]
pub struct UbqConfig {
    pub pool_size: usize,
    pub block_size: usize,
    pub backoff: UbqBackoff,
}

/// The backoff policy that an environment value names.
pub open spec fn parse_ubq_backoff_spec(value: Seq<char>) -> Option<UbqBackoff> {
    if value == "crossbeam"@ || value == "Crossbeam"@ {
        Some(UbqBackoff::Crossbeam)
    } else if value == "yield"@ || value == "Yield"@ {
        Some(UbqBackoff::Yield)
    } else {
        None
    }
}

/// The backoff policy that an environment value names.
pub fn parse_ubq_backoff(value: &str) -> (r: Option<UbqBackoff>)
    ensures
        r == parse_ubq_backoff_spec(value@),
{
    if text_eq(value, "crossbeam") || text_eq(value, "Crossbeam") {
        Some(UbqBackoff::Crossbeam)
    } else if text_eq(value, "yield") || text_eq(value, "Yield") {
        Some(UbqBackoff::Yield)
    } else {
        None
    }
}

/// The outcome of reading an RBBQ block size out of a program name of the form
/// `rust-rbbq-block<size>`; `None` when the name has another form.
pub open spec fn rbbq_config_name_spec(name: Seq<char>) -> Option<Result<usize, Seq<char>>> {
    match strip_prefix_spec(name, "rust-rbbq-block"@) {
        None => None,
        Some(rest) => Some(
            match parse_usize_spec(rest) {
                None => Err("invalid RBBQ block size `"@ + rest + "`"@),
                Some(n) => if n == 0 {
                    Err("RBBQ block size must be greater than zero"@)
                } else {
                    Ok(n)
                },
            },
        ),
    }
}

/// A view of a result whose error is a `String`.
pub open spec fn result_view<T>(r: Result<T, String>) -> Result<T, Seq<char>> {
    match r {
        Ok(v) => Ok(v),
        Err(e) => Err(e@),
    }
}

/// A view of an optional result whose error is a `String`.
pub open spec fn option_result_view<T>(r: Option<Result<T, String>>) -> Option<Result<T, Seq<char>>> {
    match r {
        Some(x) => Some(result_view(x)),
        None => None,
    }
}

/// The message `head`, then `middle`, then `tail`.
fn message3(head: &str, middle: &str, tail: &str) -> (r: String)
    ensures
        r@ == head@ + middle@ + tail@,
{
    let mut msg = String::from_str(head);
    msg.append(middle);
    msg.append(tail);
    msg
}

/// The RBBQ block size that a program name of the form `rust-rbbq-block<size>`
/// asks for, or why it is refused; `None` when the name has another form.
pub fn parse_rbbq_config_name(name: &str) -> (r: Option<Result<usize, String>>)
    ensures
        option_result_view(r) == rbbq_config_name_spec(name@),
{
    let rest = match strip_prefix(name, "rust-rbbq-block") {
        Some(rest) => rest,
        None => {
            return None;
        },
    };
    match parse_usize(rest) {
        None => Some(Err(message3("invalid RBBQ block size `", rest, "`"))),
        Some(block_size) => {
            if block_size == 0 {
                Some(Err(String::from_str("RBBQ block size must be greater than zero")))
            } else {
                Some(Ok(block_size))
            }
        },
    }
}

/// The UBQ shape written as `<pool>-block<block>`, or why it is refused.
pub open spec fn ubq_pool_block_spec(rest: Seq<char>, backoff: UbqBackoff) -> Result<UbqConfig, Seq<char>> {
    match split_once_spec(rest, "-block"@) {
        None => Err(
            "UBQ config names must look like rust-ubq-pool4-block127 or rust-ubq-yield-pool4-block127"@,
        ),
        Some((pool, block)) => match parse_usize_spec(pool) {
            None => Err("invalid UBQ pool size `"@ + pool + "`"@),
            Some(p) => match parse_usize_spec(block) {
                None => Err("invalid UBQ block size `"@ + block + "`"@),
                Some(b) => Ok(UbqConfig { pool_size: p, block_size: b, backoff }),
            },
        },
    }
}

/// The outcome of reading a UBQ shape out of a program name of the form
/// `rust-ubq-pool<pool>-block<block>` or `rust-ubq-yield-pool<pool>-block<block>`;
/// `None` when the name has another form.
pub open spec fn ubq_config_name_spec(name: Seq<char>) -> Option<Result<UbqConfig, Seq<char>>> {
    match strip_prefix_spec(name, "rust-ubq-yield-pool"@) {
        Some(rest) => if first_occurrence(rest, "-block"@) is Some {
            Some(ubq_pool_block_spec(rest, UbqBackoff::Yield))
        } else {
            None
        },
        None => match strip_prefix_spec(name, "rust-ubq-pool"@) {
            Some(rest) => if first_occurrence(rest, "-block"@) is Some {
                Some(ubq_pool_block_spec(rest, UbqBackoff::Crossbeam))
            } else {
                None
            },
            None => None,
        },
    }
}

/// The UBQ shape written as `<pool>-block<block>`, or why it is refused.
pub fn parse_ubq_pool_block(rest: &str, backoff: UbqBackoff) -> (r: Result<UbqConfig, String>)
    ensures
        result_view(r) == ubq_pool_block_spec(rest@, backoff),
{
    let (pool, block) = match split_once(rest, "-block") {
        Some(parts) => parts,
        None => {
            return Err(
                String::from_str(
                    "UBQ config names must look like rust-ubq-pool4-block127 or rust-ubq-yield-pool4-block127",
                ),
            );
        },
    };
    let pool_size = match parse_usize(pool) {
        Some(p) => p,
        None => {
            return Err(message3("invalid UBQ pool size `", pool, "`"));
        },
    };
    let block_size = match parse_usize(block) {
        Some(b) => b,
        None => {
            return Err(message3("invalid UBQ block size `", block, "`"));
        },
    };
    Ok(UbqConfig { pool_size, block_size, backoff })
}

/// The UBQ shape that a program name of the form `rust-ubq-pool<pool>-block<block>`
/// or `rust-ubq-yield-pool<pool>-block<block>` asks for, or why it is refused;
/// `None` when the name has another form.
pub fn parse_ubq_config_name(name: &str) -> (r: Option<Result<UbqConfig, String>>)
    ensures
        option_result_view(r) == ubq_config_name_spec(name@),
{
    if let Some(rest) = strip_prefix(name, "rust-ubq-yield-pool") {
        if !contains_text(rest, "-block") {
            return None;
        }
        return Some(parse_ubq_pool_block(rest, UbqBackoff::Yield));
    }
    match strip_prefix(name, "rust-ubq-pool") {
        Some(rest) => {
            if contains_text(rest, "-block") {
                Some(parse_ubq_pool_block(rest, UbqBackoff::Crossbeam))
            } else {
                None
            }
        },
        None => None,
    }
}

} // verus!

verus! {

/// Where the path component that ends at `end` begins: just after the last
/// `/` before `end`, or at the start of the path.
pub open spec fn component_start(p: Seq<char>, end: int) -> int
    decreases end,
{
    if end <= 0 {
        0
    } else if p[end - 1] == '/' {
        end
    } else {
        component_start(p, end - 1)
    }
}

/// A component that ends at `end` begins no later than `end`, and strictly
/// earlier when the character before `end` is not a `/`.
pub proof fn lemma_component_start_bounds(p: Seq<char>, end: int)
    ensures
        0 <= component_start(p, end) <= if end < 0 { 0 } else { end },
        end > 0 && p[end - 1] != '/' ==> component_start(p, end) < end,
        forall|k: int| component_start(p, end) <= k < end ==> p[k] != '/',
        component_start(p, end) > 0 ==> p[component_start(p, end) - 1] == '/',
    decreases end,
{
    if end > 0 && p[end - 1] != '/' {
        lemma_component_start_bounds(p, end - 1);
    }
}

/// The file name of the path made of the first `end` characters of `p`, as
/// `std::path::Path::file_name` gives it on Unix: the last component, passing
/// over `/` separators and `.` components; a final `..` names no file.
pub open spec fn file_name_upto(p: Seq<char>, end: int) -> Option<Seq<char>>
    decreases end,
{
    if end <= 0 {
        None
    } else if p[end - 1] == '/' {
        file_name_upto(p, end - 1)
    } else {
        let start = component_start(p, end);
        let component = p.subrange(start, end);
        proof {
            lemma_component_start_bounds(p, end);
        }
        if component == "."@ {
            file_name_upto(p, start)
        } else if component == ".."@ {
            None
        } else {
            Some(component)
        }
    }
}

/// The file name of the path `p`, as `std::path::Path::file_name` gives it on Unix.
pub open spec fn file_name_spec(p: Seq<char>) -> Option<Seq<char>> {
    file_name_upto(p, p.len() as int)
}

/// The name of the queue that a program invoked as `program` measures: its file
/// name, or the whole of `program` where it has none.
pub open spec fn queue_name_spec(program: Seq<char>) -> Seq<char> {
    match file_name_spec(program) {
        Some(name) => name,
        None => program,
    }
}

/// Where the path component of `p` that ends at `end` begins.
fn find_component_start(p: &str, end: usize) -> (r: usize)
    requires
        end <= p@.len(),
    ensures
        r as int == component_start(p@, end as int),
{
    let mut start = end;
    while start > 0 && p.get_char(start - 1) != '/'
        invariant
            start <= end <= p@.len(),
            component_start(p@, start as int) == component_start(p@, end as int),
        decreases start,
    {
        start = start - 1;
    }
    start
}

/// The file name of the path `p`, as `std::path::Path::file_name` gives it on Unix.
pub fn file_name(p: &str) -> (r: Option<&str>)
    ensures
        match r {
            Some(name) => file_name_spec(p@) == Some(name@),
            None => file_name_spec(p@) is None,
        },
{
    let n = p.unicode_len();
    let mut end = n;
    while end > 0
        invariant
            end <= n == p@.len(),
            file_name_upto(p@, end as int) == file_name_spec(p@),
        decreases end,
    {
        if p.get_char(end - 1) == '/' {
            end = end - 1;
        } else {
            let start = find_component_start(p, end);
            proof {
                lemma_component_start_bounds(p@, end as int);
            }
            let component = p.substring_char(start, end);
            if text_eq(component, ".") {
                end = start;
            } else if text_eq(component, "..") {
                return None;
            } else {
                return Some(component);
            }
        }
    }
    None
}

/// The name of the queue that a program invoked as `program` measures: its file
/// name, or the whole of `program` where it has none.
pub fn queue_name(program: &str) -> (r: String)
    ensures
        r@ == queue_name_spec(program@),
{
    match file_name(program) {
        Some(name) => String::from_str(name),
        None => String::from_str(program),
    }
}

} // verus!

verus! {

/// The queue that a benchmark run measures.
#[derive(Clone, Copy, Debug, PartialEq, Eq, Structural)]
pub enum QueueChoice {
    /// Crossbeam's unbounded segmented queue.
    SegQueue,
    /// Crossbeam's bounded array queue.
    ArrayQueue,
    /// A UBQ queue of the given shape.
    Ubq(UbqConfig),
    /// A UBQ queue whose shape the environment gives.
    UbqFromEnvironment,
    /// RBBQ's bounded queue, with the block size to use in place of the one the
    /// environment gives, where there is one.
    Rbbq { block_size_override: Option<usize> },
}

/// The UBQ shape of a queue with one pooled block and the crossbeam backoff.
pub open spec fn crossbeam_single_pool(block_size: usize) -> QueueChoice {
    QueueChoice::Ubq(UbqConfig { pool_size: 1, block_size, backoff: UbqBackoff::Crossbeam })
}

/// The queue that one of the fixed benchmark names selects, or the message
/// that refuses an unknown name.
pub open spec fn fixed_queue_spec(name: Seq<char>) -> Result<QueueChoice, Seq<char>> {
    if name == "rust-segqueue"@ || name == "segqueue"@ {
        Ok(QueueChoice::SegQueue)
    } else if name == "rust-arrayqueue"@ || name == "arrayqueue"@ {
        Ok(QueueChoice::ArrayQueue)
    } else if name == "rust-ubq"@ || name == "ubq"@ {
        Ok(crossbeam_single_pool(2047))
    } else if name == "rust-ubq-config"@ || name == "ubq-config"@ {
        Ok(QueueChoice::UbqFromEnvironment)
    } else if name == "rust-ubq-31"@ || name == "ubq-31"@ {
        Ok(crossbeam_single_pool(31))
    } else if name == "rust-ubq-127"@ || name == "ubq-127"@ {
        Ok(crossbeam_single_pool(127))
    } else if name == "rust-ubq-511"@ || name == "ubq-511"@ {
        Ok(crossbeam_single_pool(511))
    } else if name == "rust-ubq-2047"@ || name == "ubq-2047"@ {
        Ok(crossbeam_single_pool(2047))
    } else if name == "rust-ubq-pool4-2047"@ || name == "ubq-pool4-2047"@ {
        Ok(
            QueueChoice::Ubq(
                UbqConfig { pool_size: 4, block_size: 2047, backoff: UbqBackoff::Crossbeam },
            ),
        )
    } else if name == "rust-ubq-yield-2047"@ || name == "ubq-yield-2047"@ {
        Ok(
            QueueChoice::Ubq(
                UbqConfig { pool_size: 1, block_size: 2047, backoff: UbqBackoff::Yield },
            ),
        )
    } else if name == "rust-rbbq"@ || name == "rust-rbbq-config"@ || name == "rbbq"@ || name
        == "rbbq-config"@ {
        Ok(QueueChoice::Rbbq { block_size_override: None })
    } else {
        Err(
            "unknown Rust queue benchmark `"@ + name
                + "`; expected rust-segqueue, rust-arrayqueue, rust-ubq*, or rust-rbbq"@,
        )
    }
}

/// The queue that the queue name `name` selects, or the message that refuses it:
/// configured RBBQ names first, then configured UBQ names, then the fixed names.
pub open spec fn select_queue_spec(name: Seq<char>) -> Result<QueueChoice, Seq<char>> {
    match rbbq_config_name_spec(name) {
        Some(Ok(block_size)) => Ok(QueueChoice::Rbbq { block_size_override: Some(block_size) }),
        Some(Err(e)) => Err(e),
        None => match ubq_config_name_spec(name) {
            Some(Ok(config)) => Ok(QueueChoice::Ubq(config)),
            Some(Err(e)) => Err(e),
            None => fixed_queue_spec(name),
        },
    }
}

/// The run of the RBBQ benchmark with `block_size` in place of the block size
/// that the environment gives.
pub fn run_configured_rbbq(block_size: usize) -> (r: QueueChoice)
    ensures
        r == (QueueChoice::Rbbq { block_size_override: Some(block_size) }),
{
    QueueChoice::Rbbq { block_size_override: Some(block_size) }
}

/// A UBQ queue with one pooled block and the crossbeam backoff.
fn crossbeam_single_pool_choice(block_size: usize) -> (r: QueueChoice)
    ensures
        r == crossbeam_single_pool(block_size),
{
    QueueChoice::Ubq(UbqConfig { pool_size: 1, block_size, backoff: UbqBackoff::Crossbeam })
}

/// The queue that one of the fixed benchmark names selects, or the message
/// that refuses an unknown name.
fn select_fixed_queue(name: &str) -> (r: Result<QueueChoice, String>)
    ensures
        result_view(r) == fixed_queue_spec(name@),
{
    if text_eq(name, "rust-segqueue") || text_eq(name, "segqueue") {
        Ok(QueueChoice::SegQueue)
    } else if text_eq(name, "rust-arrayqueue") || text_eq(name, "arrayqueue") {
        Ok(QueueChoice::ArrayQueue)
    } else if text_eq(name, "rust-ubq") || text_eq(name, "ubq") {
        Ok(crossbeam_single_pool_choice(2047))
    } else if text_eq(name, "rust-ubq-config") || text_eq(name, "ubq-config") {
        Ok(QueueChoice::UbqFromEnvironment)
    } else if text_eq(name, "rust-ubq-31") || text_eq(name, "ubq-31") {
        Ok(crossbeam_single_pool_choice(31))
    } else if text_eq(name, "rust-ubq-127") || text_eq(name, "ubq-127") {
        Ok(crossbeam_single_pool_choice(127))
    } else if text_eq(name, "rust-ubq-511") || text_eq(name, "ubq-511") {
        Ok(crossbeam_single_pool_choice(511))
    } else if text_eq(name, "rust-ubq-2047") || text_eq(name, "ubq-2047") {
        Ok(crossbeam_single_pool_choice(2047))
    } else if text_eq(name, "rust-ubq-pool4-2047") || text_eq(name, "ubq-pool4-2047") {
        Ok(
            QueueChoice::Ubq(
                UbqConfig { pool_size: 4, block_size: 2047, backoff: UbqBackoff::Crossbeam },
            ),
        )
    } else if text_eq(name, "rust-ubq-yield-2047") || text_eq(name, "ubq-yield-2047") {
        Ok(
            QueueChoice::Ubq(
                UbqConfig { pool_size: 1, block_size: 2047, backoff: UbqBackoff::Yield },
            ),
        )
    } else if text_eq(name, "rust-rbbq") || text_eq(name, "rust-rbbq-config") || text_eq(
        name,
        "rbbq",
    ) || text_eq(name, "rbbq-config") {
        Ok(QueueChoice::Rbbq { block_size_override: None })
    } else {
        Err(
            message3(
                "unknown Rust queue benchmark `",
                name,
                "`; expected rust-segqueue, rust-arrayqueue, rust-ubq*, or rust-rbbq",
            ),
        )
    }
}

/// The queue that the queue name `name` selects, or the message that refuses it.
pub fn select_queue(name: &str) -> (r: Result<QueueChoice, String>)
    ensures
        result_view(r) == select_queue_spec(name@),
{
    if let Some(parsed) = parse_rbbq_config_name(name) {
        return match parsed {
            Ok(block_size) => Ok(run_configured_rbbq(block_size)),
            Err(e) => Err(e),
        };
    }
    if let Some(parsed) = parse_ubq_config_name(name) {
        return match parsed {
            Ok(config) => Ok(QueueChoice::Ubq(config)),
            Err(e) => Err(e),
        };
    }
    select_fixed_queue(name)
}

} // verus!
