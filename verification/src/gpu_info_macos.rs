//! Graphics processor readings taken from the text that the system tools
//! of macOS print.
//!
//! Each extractor scans its text line by line and yields the value of the
//! first line that holds one. A line that lacks the expected words, or whose
//! number cannot be read or does not fit in 64 bits, holds no value.

use crate::decimal::{parse_truncated, spec_parse_truncated};
use crate::text::{
    contains, first_some, lemma_first_some_is, lemma_first_some_skip, parse_u64, second_field,
    spec_contains, spec_lines, spec_parse_u64, spec_second_field, spec_trim,
    spec_trim_end_matches, spec_trim_matches, spec_words, split_lines, split_whitespace, to_chars,
    trim, trim_end_matches, trim_matches, views, CharSet,
};
use vstd::prelude::*;

verus! {

/// What is known of the graphics processor.
#[derive(Clone, Copy, Debug, PartialEq, Eq, Structural)]
pub struct GpuInfo {
    /// Share of time the processor was active, in percent.
    pub gpu_usage: u64,
    /// Size of the video memory, in bytes.
    pub vram_max: u64,
    /// Video memory in use, in bytes.
    pub vram_used: u64,
}

/// Bytes in a mebibyte.
pub const MIB: u64 = 0x10_0000;

/// Bytes in a gibibyte.
pub const GIB: u64 = 0x4000_0000;

/// A count of units of `unit` bytes as a count of bytes; no value where the
/// count is missing or the bytes do not fit in 64 bits.
pub open spec fn spec_to_bytes(count: Option<u64>, unit: u64) -> Option<u64> {
    match count {
        Some(n) => if n * unit <= u64::MAX {
            Some((n * unit) as u64)
        } else {
            None
        },
        None => None,
    }
}

/// Converts a count of units of `unit` bytes to bytes.
pub fn to_bytes(count: Option<u64>, unit: u64) -> (r: Option<u64>)
    ensures
        r == spec_to_bytes(count, unit),
{
    match count {
        Some(n) => n.checked_mul(unit),
        None => None,
    }
}

/// The value of one line of the hardware registry's text: where the line
/// names the video memory, the number in its second `=`-separated field,
/// freed of whitespace and of quotes and commas around it, taken as
/// mebibytes.
pub open spec fn ioreg_line_value(line: Seq<char>) -> Option<u64> {
    if spec_contains(line, "VRAM"@) || spec_contains(line, "vram"@) {
        match spec_second_field(line, '=') {
            Some(field) => spec_to_bytes(
                spec_parse_u64(spec_trim_matches(spec_trim(field), CharSet::Either('"', ','))),
                MIB,
            ),
            None => None,
        }
    } else {
        None
    }
}

/// The values of the lines of the hardware registry's text.
pub open spec fn ioreg_values(lines: Seq<Seq<char>>) -> Seq<Option<u64>> {
    Seq::new(lines.len(), |i: int| ioreg_line_value(lines[i]))
}

/// The size of the video memory that the hardware registry's text gives: the
/// value of its first line that holds one.
pub open spec fn spec_extract_vram_from_ioreg(output: Seq<char>) -> Option<u64> {
    first_some(ioreg_values(spec_lines(output)))
}

/// The value of the word at index `i` of a line of the inventory's text:
/// where the word holds `GB` or else `MB`, the number that the word before
/// it writes, taken in that unit.
pub open spec fn profiler_word_value(words: Seq<Seq<char>>, i: int) -> Option<u64> {
    if i < 1 || i >= words.len() {
        None
    } else if spec_contains(words[i], "GB"@) {
        spec_to_bytes(spec_parse_u64(words[i - 1]), GIB)
    } else if spec_contains(words[i], "MB"@) {
        spec_to_bytes(spec_parse_u64(words[i - 1]), MIB)
    } else {
        None
    }
}

/// The values of the words of a line of the inventory's text.
pub open spec fn profiler_word_values(words: Seq<Seq<char>>) -> Seq<Option<u64>> {
    Seq::new(words.len(), |i: int| profiler_word_value(words, i))
}

/// The value of one line of the inventory's text: where the line names
/// the video memory, the value of its first word that holds one.
pub open spec fn profiler_line_value(line: Seq<char>) -> Option<u64> {
    if spec_contains(line, "VRAM"@) || spec_contains(line, "Memory"@) {
        first_some(profiler_word_values(spec_words(line)))
    } else {
        None
    }
}

/// The values of the lines of the inventory's text.
pub open spec fn profiler_values(lines: Seq<Seq<char>>) -> Seq<Option<u64>> {
    Seq::new(lines.len(), |i: int| profiler_line_value(lines[i]))
}

/// The size of the video memory that the inventory's text gives: the value
/// of its first line that holds one.
pub open spec fn spec_extract_vram_from_system_profiler(output: Seq<char>) -> Option<u64> {
    first_some(profiler_values(spec_lines(output)))
}

/// The value of one line of the power sampler's text: where the line
/// reports the active residency of the graphics processor, the number in
/// its second `:`-separated field, freed of whitespace around it and of
/// percent signs behind it, cut down to a whole number.
pub open spec fn usage_line_value(line: Seq<char>) -> Option<u64> {
    if spec_contains(line, "GPU active residency"@) || spec_contains(line, "GPU Active"@) {
        match spec_second_field(line, ':') {
            Some(field) => spec_parse_truncated(
                spec_trim_end_matches(spec_trim(field), CharSet::Just('%')),
            ),
            None => None,
        }
    } else {
        None
    }
}

/// The values of the lines of the power sampler's text.
pub open spec fn usage_values(lines: Seq<Seq<char>>) -> Seq<Option<u64>> {
    Seq::new(lines.len(), |i: int| usage_line_value(lines[i]))
}

/// The load of the graphics processor that the power sampler's text gives:
/// the value of its first line that holds one.
pub open spec fn spec_extract_gpu_usage_from_powermetrics(output: Seq<char>) -> Option<u64> {
    first_some(usage_values(spec_lines(output)))
}

/// The size of the main memory that the system's answer gives: the number
/// it writes, freed of whitespace around it.
pub open spec fn spec_total_memory(output: Seq<char>) -> Option<u64> {
    spec_parse_u64(spec_trim(output))
}

/// Whether a processor of this name shares its memory with the graphics
/// processor: the name holds `Apple`.
pub open spec fn spec_is_apple_silicon(cpu_brand: Seq<char>) -> bool {
    spec_contains(cpu_brand, "Apple"@)
}

fn usage_line(line: &[char], residency: &[char], active: &[char]) -> (r: Option<u64>)
    requires
        residency@ == "GPU active residency"@,
        active@ == "GPU Active"@,
    ensures
        r == usage_line_value(line@),
{
    if contains(line, residency) || contains(line, active) {
        match second_field(line, ':') {
            Some(field) => {
                let cleaned = trim_end_matches(trim(field), &CharSet::Just('%'));
                parse_truncated(cleaned)
            },
            None => None,
        }
    } else {
        None
    }
}

fn ioreg_line(line: &[char], upper: &[char], lower: &[char]) -> (r: Option<u64>)
    requires
        upper@ == "VRAM"@,
        lower@ == "vram"@,
    ensures
        r == ioreg_line_value(line@),
{
    if contains(line, upper) || contains(line, lower) {
        match second_field(line, '=') {
            Some(field) => {
                let cleaned = trim_matches(trim(field), &CharSet::Either('"', ','));
                to_bytes(parse_u64(cleaned), MIB)
            },
            None => None,
        }
    } else {
        None
    }
}

fn profiler_line(line: &[char], vram: &[char], memory: &[char], gb: &[char], mb: &[char]) -> (r:
    Option<u64>)
    requires
        vram@ == "VRAM"@,
        memory@ == "Memory"@,
        gb@ == "GB"@,
        mb@ == "MB"@,
    ensures
        r == profiler_line_value(line@),
{
    if !(contains(line, vram) || contains(line, memory)) {
        return None;
    }
    let words = split_whitespace(line);
    let ghost all = spec_words(line@);
    let ghost values = profiler_word_values(all);
    let mut i: usize = 1;
    while i < words.len()
        invariant
            1 <= i,
            spec_contains(line@, "VRAM"@) || spec_contains(line@, "Memory"@),
            gb@ == "GB"@,
            mb@ == "MB"@,
            views(words@) == all,
            all == spec_words(line@),
            values == profiler_word_values(all),
            forall|k: int| 0 <= k < i && k < values.len() ==> values[k] is None,
        decreases words@.len() - i,
    {
        let value = if contains(words[i], gb) {
            to_bytes(parse_u64(words[i - 1]), GIB)
        } else if contains(words[i], mb) {
            to_bytes(parse_u64(words[i - 1]), MIB)
        } else {
            None
        };
        if value.is_some() {
            proof {
                lemma_first_some_is(values, i as int);
            }
            return value;
        }
        i += 1;
    }
    proof {
        lemma_first_some_skip(values, 0, values.len() as int);
    }
    None
}

impl GpuInfo {
    /// Tells from the name of the processor whether it shares its memory
    /// with the graphics processor.
    pub fn is_apple_silicon(cpu_brand: &str) -> (r: bool)
        ensures
            r == spec_is_apple_silicon(cpu_brand@),
    {
        let name = to_chars(cpu_brand);
        let apple = to_chars("Apple");
        contains(name.as_slice(), apple.as_slice())
    }

    /// Reads the size of the main memory, in bytes, from the system's
    /// answer; with shared memory it stands for the size of the video
    /// memory.
    pub fn get_total_vram_apple_silicon(output: &str) -> (r: Option<u64>)
        ensures
            r == spec_total_memory(output@),
    {
        let chars = to_chars(output);
        parse_u64(trim(chars.as_slice()))
    }

    /// Reads the load of the graphics processor, in percent, from the text
    /// of the power sampler.
    pub fn extract_gpu_usage_from_powermetrics(output: &str) -> (r: Option<u64>)
        ensures
            r == spec_extract_gpu_usage_from_powermetrics(output@),
    {
        let chars = to_chars(output);
        let lines = split_lines(chars.as_slice());
        let residency = to_chars("GPU active residency");
        let active = to_chars("GPU Active");
        let ghost values = usage_values(spec_lines(output@));
        let mut i: usize = 0;
        while i < lines.len()
            invariant
                residency@ == "GPU active residency"@,
                active@ == "GPU Active"@,
                views(lines@) == spec_lines(output@),
                values == usage_values(spec_lines(output@)),
                forall|k: int| 0 <= k < i ==> values[k] is None,
            decreases lines@.len() - i,
        {
            let value = usage_line(lines[i], residency.as_slice(), active.as_slice());
            if value.is_some() {
                proof {
                    lemma_first_some_is(values, i as int);
                }
                return value;
            }
            i += 1;
        }
        proof {
            lemma_first_some_skip(values, 0, values.len() as int);
        }
        None
    }

    /// Reads the size of the video memory, in bytes, from the text of the
    /// hardware registry.
    pub fn extract_vram_from_ioreg(output: &str) -> (r: Option<u64>)
        ensures
            r == spec_extract_vram_from_ioreg(output@),
    {
        let chars = to_chars(output);
        let lines = split_lines(chars.as_slice());
        let upper = to_chars("VRAM");
        let lower = to_chars("vram");
        let ghost values = ioreg_values(spec_lines(output@));
        let mut i: usize = 0;
        while i < lines.len()
            invariant
                upper@ == "VRAM"@,
                lower@ == "vram"@,
                views(lines@) == spec_lines(output@),
                values == ioreg_values(spec_lines(output@)),
                forall|k: int| 0 <= k < i ==> values[k] is None,
            decreases lines@.len() - i,
        {
            let value = ioreg_line(lines[i], upper.as_slice(), lower.as_slice());
            if value.is_some() {
                proof {
                    lemma_first_some_is(values, i as int);
                }
                return value;
            }
            i += 1;
        }
        proof {
            lemma_first_some_skip(values, 0, values.len() as int);
        }
        None
    }

    /// Reads the size of the video memory, in bytes, from the text of the
    /// hardware inventory.
    pub fn extract_vram_from_system_profiler(output: &str) -> (r: Option<u64>)
        ensures
            r == spec_extract_vram_from_system_profiler(output@),
    {
        let chars = to_chars(output);
        let lines = split_lines(chars.as_slice());
        let vram = to_chars("VRAM");
        let memory = to_chars("Memory");
        let gb = to_chars("GB");
        let mb = to_chars("MB");
        let ghost values = profiler_values(spec_lines(output@));
        let mut i: usize = 0;
        while i < lines.len()
            invariant
                vram@ == "VRAM"@,
                memory@ == "Memory"@,
                gb@ == "GB"@,
                mb@ == "MB"@,
                views(lines@) == spec_lines(output@),
                values == profiler_values(spec_lines(output@)),
                forall|k: int| 0 <= k < i ==> values[k] is None,
            decreases lines@.len() - i,
        {
            let value = profiler_line(
                lines[i],
                vram.as_slice(),
                memory.as_slice(),
                gb.as_slice(),
                mb.as_slice(),
            );
            if value.is_some() {
                proof {
                    lemma_first_some_is(values, i as int);
                }
                return value;
            }
            i += 1;
        }
        proof {
            lemma_first_some_skip(values, 0, values.len() as int);
        }
        None
    }
}

} // verus!
