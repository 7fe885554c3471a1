//! Adapters and driver, read from the output of `nvidia-smi`.

use crate::scan::{
    chars_of, find, find_in, is_digit, line_ranges, lines, parse_i32, parse_i64, parse_usize,
    parse_within, pieces, split_on, split_ranges, text_between, trim_range, trimmed,
};
use crate::types::{DriverInfo, GPUInfo, GpuModel};
use vstd::prelude::*;
use vstd::string::StringExecFns;

verus! {

// ---------------------------------------------------------------------------
// The adapter list
// ---------------------------------------------------------------------------
/// A number that was read, or zero where none could be read.
pub open spec fn or_zero(value: Option<int>) -> int {
    match value {
        Some(v) => v,
        None => 0,
    }
}

/// The adapter that one line of the adapter query describes. The line holds
/// index, name, driver version, memory in MB and temperature, separated by
/// a comma and a space; a line with fewer than five fields describes none.
/// A number that cannot be read counts as zero.
pub open spec fn gpu_of_line(line: Seq<char>) -> Option<GpuModel> {
    let fields = split_on(line, ", "@);
    if fields.len() >= 5 {
        Some(
            GpuModel {
                index: or_zero(parse_within(trimmed(fields[0]), false, 0, usize::MAX as int)) as nat,
                name: trimmed(fields[1]),
                vendor: "NVIDIA"@,
                driver_version: trimmed(fields[2]),
                vram_total_mb: or_zero(
                    parse_within(trimmed(fields[3]), true, i64::MIN as int, i64::MAX as int),
                ),
                temperature_c: or_zero(
                    parse_within(trimmed(fields[4]), true, i32::MIN as int, i32::MAX as int),
                ),
                is_nvidia: true,
            },
        )
    } else {
        None
    }
}

/// The adapters that the output of the adapter query lists, in its order.
pub open spec fn gpus_of(output: Seq<char>) -> Seq<GpuModel> {
    lines(output).filter_map(|line: Seq<char>| gpu_of_line(line))
}

/// The driver version of a run: that of the first adapter that reports
/// one, and the empty text where none does.
pub open spec fn detected_driver_version(gpus: Seq<GpuModel>) -> Seq<char> {
    let reporting = gpus.filter(|g: GpuModel| g.driver_version.len() > 0);
    if reporting.len() > 0 {
        reporting[0].driver_version
    } else {
        Seq::empty()
    }
}

/// Reads the adapter that the line `chars[from..to]` of `text` describes.
/// `separator` is what stands between two fields.
fn parse_gpu_line(text: &str, chars: &[char], from: usize, to: usize, separator: &[char]) -> (gpu:
    Option<GPUInfo>)
    requires
        chars@ == text@,
        separator@ == ", "@,
        from <= to <= chars.len(),
    ensures
        gpu.deep_view() == gpu_of_line(chars@.subrange(from as int, to as int)),
{
    let fields = split_ranges(chars, from, to, separator);
    let ghost texts = pieces(chars@, fields@);
    if fields.len() < 5 {
        return None;
    }
    let (index_from, index_to) = trim_range(chars, fields[0].0, fields[0].1);
    let (name_from, name_to) = trim_range(chars, fields[1].0, fields[1].1);
    let (driver_from, driver_to) = trim_range(chars, fields[2].0, fields[2].1);
    let (vram_from, vram_to) = trim_range(chars, fields[3].0, fields[3].1);
    let (temp_from, temp_to) = trim_range(chars, fields[4].0, fields[4].1);
    proof {
        assert(texts[0] == chars@.subrange(fields[0].0 as int, fields[0].1 as int));
        assert(texts[1] == chars@.subrange(fields[1].0 as int, fields[1].1 as int));
        assert(texts[2] == chars@.subrange(fields[2].0 as int, fields[2].1 as int));
        assert(texts[3] == chars@.subrange(fields[3].0 as int, fields[3].1 as int));
        assert(texts[4] == chars@.subrange(fields[4].0 as int, fields[4].1 as int));
    }
    let index = match parse_usize(chars, index_from, index_to) {
        Some(v) => v,
        None => 0,
    };
    let vram = match parse_i64(chars, vram_from, vram_to) {
        Some(v) => v,
        None => 0,
    };
    let temperature = match parse_i32(chars, temp_from, temp_to) {
        Some(v) => v,
        None => 0,
    };
    let gpu = GPUInfo {
        index,
        name: text_between(text, name_from, name_to),
        vendor: String::from_str("NVIDIA"),
        driver_version: text_between(text, driver_from, driver_to),
        vram_total_mb: vram,
        temperature_c: temperature,
        is_nvidia: true,
    };
    Some(gpu)
}

/// Reads the adapters that the output of the adapter query lists.
pub fn parse_gpus(output: &str) -> (gpus: Vec<GPUInfo>)
    ensures
        gpus.deep_view() == gpus_of(output@),
{
    let chars = chars_of(output);
    let separator = chars_of(", ");
    let bounds = line_ranges(chars.as_slice());
    let ghost all = lines(output@);
    let ghost each = |line: Seq<char>| gpu_of_line(line);
    let mut gpus: Vec<GPUInfo> = Vec::new();
    let mut i: usize = 0;
    assert(gpus.deep_view() =~= all.take(0).filter_map(each));
    while i < bounds.len()
        invariant
            i <= bounds.len(),
            chars@ == output@,
            separator@ == ", "@,
            all == lines(output@),
            all == pieces(chars@, bounds@),
            crate::scan::bounds_within(bounds@, 0, chars.len() as int),
            each == (|line: Seq<char>| gpu_of_line(line)),
            gpus.deep_view() == all.take(i as int).filter_map(each),
        decreases bounds.len() - i,
    {
        let (from, to) = bounds[i];
        let ghost before = gpus.deep_view();
        proof {
            all.lemma_filter_map_take_succ(each, i as int);
            assert(all[i as int] == chars@.subrange(from as int, to as int));
        }
        if let Some(gpu) = parse_gpu_line(output, chars.as_slice(), from, to, separator.as_slice())
        {
            let ghost model = gpu@;
            gpus.push(gpu);
            assert(gpus.deep_view() =~= before + seq![model]);
        }
        i += 1;
    }
    assert(all.take(i as int) =~= all);
    gpus
}

/// The driver version that the adapters report.
pub fn driver_version_of(gpus: &[GPUInfo]) -> (version: String)
    ensures
        version@ == detected_driver_version(gpus.deep_view()),
{
    let ghost all = gpus.deep_view();
    let ghost reports = |g: GpuModel| g.driver_version.len() > 0;
    let mut i: usize = 0;
    while i < gpus.len()
        invariant
            i <= gpus.len(),
            all == gpus.deep_view(),
            reports == (|g: GpuModel| g.driver_version.len() > 0),
            forall|j: int| 0 <= j < i ==> !reports(#[trigger] all[j]),
        decreases gpus.len() - i,
    {
        if !gpus[i].driver_version.as_str().is_empty() {
            proof {
                crate::analyzer::rules::lemma_first_match_at(all, reports, i as int);
            }
            return gpus[i].driver_version.clone();
        }
        i += 1;
    }
    proof {
        crate::analyzer::rules::lemma_first_match_none(all, reports);
    }
    String::new()
}

// ---------------------------------------------------------------------------
// The CUDA version
// ---------------------------------------------------------------------------
/// The characters that a version number is written with.
pub open spec fn is_version_char(c: char) -> bool {
    is_digit(c) || c == '.'
}

/// How many characters at the start of a text belong to a version number.
pub open spec fn version_length(s: Seq<char>) -> nat
    decreases s.len(),
{
    if s.len() > 0 && is_version_char(s[0]) {
        1 + version_length(s.drop_first())
    } else {
        0
    }
}

/// The version number that a text starts with.
pub open spec fn version_prefix(s: Seq<char>) -> Seq<char> {
    s.take(version_length(s) as int)
}

/// The CUDA version that one line of the summary names: what follows the
/// label `CUDA Version:` and one more character, as far as it is written
/// with digits and dots. A line without the label, or with nothing of that
/// kind behind it, names none.
pub open spec fn cuda_of_line(line: Seq<char>) -> Option<Seq<char>> {
    match find(line, "CUDA Version:"@) {
        Some(at) => {
            let rest = if 0 <= at && at + 14 <= line.len() {
                line.skip(at + 14)
            } else {
                Seq::empty()
            };
            if version_prefix(rest).len() > 0 {
                Some(version_prefix(rest))
            } else {
                None
            }
        },
        None => None,
    }
}

/// The CUDA version of a run: the one that the last line of the summary
/// with such a version names, and the empty text where no line names one.
pub open spec fn cuda_version_of(summary: Seq<char>) -> Seq<char> {
    let named = lines(summary).filter_map(|line: Seq<char>| cuda_of_line(line));
    if named.len() > 0 {
        named.last()
    } else {
        Seq::empty()
    }
}

/// A version number extends over the version characters that a text starts
/// with, up to the first other character.
pub proof fn lemma_version_length(s: Seq<char>, n: int)
    requires
        0 <= n <= s.len(),
        forall|j: int| 0 <= j < n ==> is_version_char(#[trigger] s[j]),
        n < s.len() ==> !is_version_char(s[n]),
    ensures
        version_length(s) == n,
    decreases n,
{
    if n > 0 {
        let rest = s.drop_first();
        assert forall|j: int| 0 <= j < n - 1 implies is_version_char(#[trigger] rest[j]) by {
            assert(rest[j] == s[j + 1]);
        }
        lemma_version_length(rest, n - 1);
    }
}

/// Reads the CUDA version that the line `chars[from..to]` of `text` names.
/// `label` is what stands before the version.
fn parse_cuda_line(text: &str, chars: &[char], from: usize, to: usize, label: &[char]) -> (version:
    Option<String>)
    requires
        chars@ == text@,
        label@ == "CUDA Version:"@,
        from <= to <= chars.len(),
    ensures
        version.deep_view() == cuda_of_line(chars@.subrange(from as int, to as int)),
{
    let ghost line = chars@.subrange(from as int, to as int);
    match find_in(chars, from, to, label) {
        Some(at) => {
            if to - at < 14 {
                proof {
                    assert(version_length(Seq::<char>::empty()) == 0);
                }
                return None;
            }
            let start = at + 14;
            let ghost rest = line.skip(at - from + 14);
            assert(rest =~= chars@.subrange(start as int, to as int));
            let mut end: usize = start;
            while end < to && is_version(chars[end])
                invariant
                    start <= end <= to <= chars.len(),
                    rest == chars@.subrange(start as int, to as int),
                    forall|j: int| 0 <= j < end - start ==> is_version_char(#[trigger] rest[j]),
                decreases to - end,
            {
                end += 1;
            }
            proof {
                lemma_version_length(rest, end - start);
                assert(rest.take(end - start) =~= chars@.subrange(start as int, end as int));
            }
            if end > start {
                Some(text_between(text, start, end))
            } else {
                None
            }
        },
        None => None,
    }
}

/// Whether a character belongs to a version number.
fn is_version(c: char) -> (yes: bool)
    ensures
        yes == is_version_char(c),
{
    let code: u32 = c as u32;
    (0x30 <= code && code <= 0x39) || c == '.'
}

/// Reads the CUDA version that the summary names.
pub fn parse_cuda_version(summary: &str) -> (version: String)
    ensures
        version@ == cuda_version_of(summary@),
{
    let chars = chars_of(summary);
    let label = chars_of("CUDA Version:");
    let bounds = line_ranges(chars.as_slice());
    let ghost all = lines(summary@);
    let ghost each = |line: Seq<char>| cuda_of_line(line);
    let mut version = String::new();
    let mut i: usize = 0;
    assert(all.take(0).filter_map(each) =~= Seq::<Seq<char>>::empty());
    while i < bounds.len()
        invariant
            i <= bounds.len(),
            chars@ == summary@,
            label@ == "CUDA Version:"@,
            all == lines(summary@),
            all == pieces(chars@, bounds@),
            crate::scan::bounds_within(bounds@, 0, chars.len() as int),
            each == (|line: Seq<char>| cuda_of_line(line)),
            version@ == ({
                let named = all.take(i as int).filter_map(each);
                if named.len() > 0 {
                    named.last()
                } else {
                    Seq::empty()
                }
            }),
        decreases bounds.len() - i,
    {
        let (from, to) = bounds[i];
        proof {
            all.lemma_filter_map_take_succ(each, i as int);
            assert(all[i as int] == chars@.subrange(from as int, to as int));
        }
        if let Some(named) = parse_cuda_line(summary, chars.as_slice(), from, to, label.as_slice())
        {
            version = named;
        }
        i += 1;
    }
    assert(all.take(i as int) =~= all);
    version
}

// ---------------------------------------------------------------------------
// Both together
// ---------------------------------------------------------------------------
/// The adapters and the driver of a run, read from what two queries of
/// `nvidia-smi` printed: the adapter query and the plain summary. A query
/// that gave no output contributes nothing: no adapters and no driver
/// version for the first, no CUDA version for the second.
pub fn collect_gpu_info(gpu_output: Option<&str>, smi_output: Option<&str>) -> (facts: (
    Vec<GPUInfo>,
    DriverInfo,
))
    ensures
        facts.0.deep_view() == match gpu_output {
            Some(output) => gpus_of(output@),
            None => Seq::empty(),
        },
        facts.1@.version == detected_driver_version(facts.0.deep_view()),
        facts.1@.cuda_version == match smi_output {
            Some(summary) => cuda_version_of(summary@),
            None => Seq::empty(),
        },
{
    let gpus = match gpu_output {
        Some(output) => parse_gpus(output),
        None => {
            let none: Vec<GPUInfo> = Vec::new();
            assert(none.deep_view() =~= Seq::<GpuModel>::empty());
            none
        },
    };
    let listed = gpus.as_slice();
    assert(listed.deep_view() =~= gpus.deep_view());
    let version = driver_version_of(listed);
    let cuda_version = match smi_output {
        Some(summary) => parse_cuda_version(summary),
        None => String::new(),
    };
    (gpus, DriverInfo { version, cuda_version })
}

} // verus!
