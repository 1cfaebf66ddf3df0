//! Physical memory totals, read from the lines of `/proc/meminfo` or from the byte
//! count that a system tool prints.

use vstd::prelude::*;
use crate::text::{
    has_prefix, parse_u64, parse_u64_spec, split_whitespace, starts_with, strings_view, trim,
    trim_spec, words_spec,
};

verus! {

/// The memory total, in MiB, that one `/proc/meminfo` line gives: a line that begins
/// with `MemTotal:` and whose second word is a `u64` count of KiB.
pub open spec fn mem_total_line_mb(line: Seq<char>) -> Option<u64> {
    if has_prefix(line, "MemTotal:"@) && words_spec(line).len() >= 2 {
        match parse_u64_spec(words_spec(line)[1]) {
            Some(kb) => Some(kb / 1024),
            None => None,
        }
    } else {
        None
    }
}

/// The memory total of the first line, in order, that gives one.
pub open spec fn mem_total_mb_spec(lines: Seq<Seq<char>>) -> Option<u64>
    decreases lines.len(),
{
    if lines.len() == 0 {
        None
    } else {
        match mem_total_line_mb(lines[0]) {
            Some(mb) => Some(mb),
            None => mem_total_mb_spec(lines.drop_first()),
        }
    }
}

/// The memory total of one `/proc/meminfo` line, if it gives one.
pub fn mem_total_of_line(line: &str) -> (r: Option<u64>)
    ensures
        r == mem_total_line_mb(line@),
{
    if !starts_with(line, "MemTotal:") {
        return None;
    }
    let parts = split_whitespace(line);
    if parts.len() < 2 {
        return None;
    }
    assert(parts@[1]@ == words_spec(line@)[1]);
    match parse_u64(parts[1].as_str()) {
        Some(kb) => Some(kb / 1024),
        None => None,
    }
}

/// The total memory in MiB that the lines of `/proc/meminfo` give: the `MemTotal:`
/// entry of the first line that holds a readable one, or `None`.
pub fn mem_total_mb(meminfo_lines: &Vec<String>) -> (r: Option<u64>)
    ensures
        r == mem_total_mb_spec(strings_view(meminfo_lines@)),
{
    let ghost lines = strings_view(meminfo_lines@);
    let mut i: usize = 0;
    assert(lines.skip(0) =~= lines);
    while i < meminfo_lines.len()
        invariant
            i <= meminfo_lines.len(),
            lines == strings_view(meminfo_lines@),
            mem_total_mb_spec(lines) == mem_total_mb_spec(lines.skip(i as int)),
        decreases meminfo_lines.len() - i,
    {
        assert(lines.skip(i as int)[0] == meminfo_lines@[i as int]@);
        assert(lines.skip(i as int).drop_first() =~= lines.skip(i + 1));
        match mem_total_of_line(meminfo_lines[i].as_str()) {
            Some(mb) => {
                return Some(mb);
            },
            None => {},
        }
        i = i + 1;
    }
    assert(lines.skip(i as int) =~= Seq::<Seq<char>>::empty());
    None
}

/// The memory assumed where `/proc/meminfo` gives no total.
pub const FALLBACK_RAM_MB: u64 = 4096;

/// The total memory in MiB that the lines of `/proc/meminfo` give, or
/// [`FALLBACK_RAM_MB`] where they give none (also where the file could not be read,
/// which the caller passes as no lines).
pub fn ram_mb_or_fallback(meminfo_lines: &Vec<String>) -> (mb: u64)
    ensures
        mb == match mem_total_mb_spec(strings_view(meminfo_lines@)) {
            Some(total) => total,
            None => FALLBACK_RAM_MB,
        },
{
    match mem_total_mb(meminfo_lines) {
        Some(total) => total,
        None => FALLBACK_RAM_MB,
    }
}

/// The memory in MiB of a byte count printed by a system tool (`sysctl -n hw.memsize`,
/// or a PowerShell sum of memory capacities): the trimmed text read as a `u64`.
pub open spec fn byte_count_mb_spec(output: Seq<char>) -> Option<u64> {
    match parse_u64_spec(trim_spec(output)) {
        Some(bytes) => Some(bytes / 1048576u64),
        None => None,
    }
}

/// The memory in MiB of the byte count that `output` holds, or `None` where the
/// trimmed text is not a `u64`.
pub fn byte_count_mb(output: &str) -> (r: Option<u64>)
    ensures
        r == byte_count_mb_spec(output@),
{
    let trimmed = trim(output);
    match parse_u64(trimmed.as_str()) {
        Some(bytes) => Some(bytes / (1024 * 1024)),
        None => None,
    }
}

} // verus!
