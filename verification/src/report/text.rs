//! The plain-text report of a run.

use crate::strings::{decimal, push_decimal, push_signed_decimal, signed_decimal, str_eq};
use crate::types::{
    DriverInfo, DriverModel, Finding, FindingModel, GPUInfo, GpuModel, SystemInfo, SystemModel,
};
use vstd::prelude::*;
use vstd::string::StringExecFns;

verus! {

/// The notice that every report carries.
pub open spec fn disclaimer() -> Seq<char> {
    "NVCheckup is an unofficial community tool, not affiliated with or endorsed by NVIDIA Corporation."@
}

/// A horizontal rule of the given width.
pub open spec fn rule_of(width: nat) -> Seq<char>
    decreases width,
{
    if width == 0 {
        Seq::empty()
    } else {
        rule_of((width - 1) as nat) + "─"@
    }
}

/// The rule that separates the sections, with its line ending.
pub open spec fn separator() -> Seq<char> {
    rule_of(72) + "\n"@
}

/// A text, or `N/A` where it is empty.
pub open spec fn or_not_available(text: Seq<char>) -> Seq<char> {
    if text.len() == 0 {
        "N/A"@
    } else {
        text
    }
}

/// Title, notice, mode, platform and run time.
pub open spec fn header_text(system: SystemModel, mode: Seq<char>, runtime: Seq<char>) -> Seq<char> {
    separator() + "  NVCheckup v0.2.0 — NVIDIA Diagnostic Report (Rust)\n"@ + "  "@ + disclaimer()
        + "\n"@ + separator() + "  Mode:      "@ + mode + "\n"@ + "  Platform:  "@ + system.os_name
        + "\n"@ + "  Runtime:   "@ + runtime + "s\n"@ + separator()
}

/// Operating system, architecture and processor.
pub open spec fn system_text(system: SystemModel) -> Seq<char> {
    "\n== SYSTEM INFO ==\n\n"@ + "  OS:           "@ + system.os_name + " "@ + system.os_version
        + "\n"@ + "  Architecture: "@ + system.architecture + "\n"@ + "  CPU:          "@
        + system.cpu_model + "\n"@ + separator()
}

/// The memory line of an adapter; none where the size is unknown.
pub open spec fn vram_line(g: GpuModel) -> Seq<char> {
    if g.vram_total_mb > 0 {
        "    VRAM:    "@ + signed_decimal(g.vram_total_mb) + " MB\n"@
    } else {
        Seq::empty()
    }
}

/// The temperature line of an adapter; none where it is unknown.
pub open spec fn temperature_line(g: GpuModel) -> Seq<char> {
    if g.temperature_c > 0 {
        "    Temp:    "@ + signed_decimal(g.temperature_c) + "°C\n"@
    } else {
        Seq::empty()
    }
}

/// One adapter of the inventory.
pub open spec fn gpu_entry(g: GpuModel) -> Seq<char> {
    "  [GPU "@ + decimal(g.index) + "] "@ + g.name + "\n"@ + "    Driver:  "@ + g.driver_version
        + "\n"@ + vram_line(g) + temperature_line(g) + "\n"@
}

/// The adapters of the inventory, one after the other.
pub open spec fn gpu_entries(gpus: Seq<GpuModel>) -> Seq<char>
    decreases gpus.len(),
{
    if gpus.len() == 0 {
        Seq::empty()
    } else {
        gpu_entries(gpus.drop_last()) + gpu_entry(gpus.last())
    }
}

/// The inventory: the adapters, or a note that there are none, and the
/// driver and CUDA versions.
pub open spec fn inventory_text(gpus: Seq<GpuModel>, driver: DriverModel) -> Seq<char> {
    "\n== GPU INVENTORY ==\n\n"@ + (if gpus.len() == 0 {
        "  No GPUs detected.\n"@
    } else {
        gpu_entries(gpus)
    }) + "  NVIDIA Driver: "@ + or_not_available(driver.version) + "\n"@ + "  CUDA (driver): "@
        + or_not_available(driver.cuda_version) + "\n"@ + separator()
}

/// The findings that carry exactly the given severity tag.
pub open spec fn tagged(findings: Seq<FindingModel>, tag: Seq<char>) -> Seq<FindingModel> {
    findings.filter(|f: FindingModel| f.severity == tag)
}

/// One finding of the list, under its number.
pub open spec fn finding_entry(f: FindingModel, number: nat) -> Seq<char> {
    "  ["@ + f.severity + "] #"@ + decimal(number) + ": "@ + f.title + " (confidence: "@ + decimal(
        f.confidence,
    ) + "%)\n"@ + "    Evidence:     "@ + f.evidence + "\n"@ + "    Why:          "@
        + f.why_it_matters + "\n"@ + "\n"@
}

/// The findings of the list, numbered from one.
pub open spec fn finding_entries(findings: Seq<FindingModel>) -> Seq<char>
    decreases findings.len(),
{
    if findings.len() == 0 {
        Seq::empty()
    } else {
        finding_entries(findings.drop_last()) + finding_entry(findings.last(), findings.len())
    }
}

/// How many findings there are of each of the three named severities.
pub open spec fn totals_line(findings: Seq<FindingModel>) -> Seq<char> {
    "  Total: "@ + decimal(tagged(findings, "CRIT"@).len()) + " CRITICAL, "@ + decimal(
        tagged(findings, "WARN"@).len(),
    ) + " WARNING, "@ + decimal(tagged(findings, "INFO"@).len()) + " INFO\n\n"@
}

/// The findings: totals and entries, or a note that there are none.
pub open spec fn findings_text(findings: Seq<FindingModel>) -> Seq<char> {
    "\n== FINDINGS ==\n\n"@ + (if findings.len() == 0 {
        "  No issues detected.\n"@
    } else {
        totals_line(findings) + finding_entries(findings)
    }) + separator()
}

/// The closing notes.
pub open spec fn closing_text() -> Seq<char> {
    "\n== PRIVACY & DATA ==\n\n"@
        + "  This report was generated locally. No data was sent anywhere.\n"@
        + "  NVCheckup does not modify your system, drivers, or settings.\n\n"@ + separator()
        + "  "@ + disclaimer() + "\n"@ + separator()
}

/// The whole report.
pub open spec fn report_text(
    system: SystemModel,
    gpus: Seq<GpuModel>,
    driver: DriverModel,
    findings: Seq<FindingModel>,
    mode: Seq<char>,
    runtime: Seq<char>,
) -> Seq<char> {
    header_text(system, mode, runtime) + system_text(system) + inventory_text(gpus, driver)
        + findings_text(findings) + closing_text()
}

/// Appends the rule that separates the sections.
fn push_separator(out: &mut String)
    ensures
        final(out)@ == old(out)@ + separator(),
{
    let mut width: usize = 0;
    assert(out@ =~= old(out)@ + rule_of(0));
    while width < 72
        invariant
            width <= 72,
            out@ == old(out)@ + rule_of(width as nat),
        decreases 72 - width,
    {
        out.append("─");
        width += 1;
        assert(out@ =~= old(out)@ + rule_of(width as nat));
    }
    out.append("\n");
    assert(out@ =~= old(out)@ + separator());
}

/// Appends title, notice, mode, platform and run time.
fn push_header(out: &mut String, system: &SystemInfo, mode: &str, runtime: &str)
    ensures
        final(out)@ == old(out)@ + header_text(system@, mode@, runtime@),
{
    push_separator(out);
    out.append("  NVCheckup v0.2.0 — NVIDIA Diagnostic Report (Rust)\n");
    out.append("  ");
    out.append(
        "NVCheckup is an unofficial community tool, not affiliated with or endorsed by NVIDIA Corporation.",
    );
    out.append("\n");
    push_separator(out);
    out.append("  Mode:      ");
    out.append(mode);
    out.append("\n");
    out.append("  Platform:  ");
    out.append(system.os_name.as_str());
    out.append("\n");
    out.append("  Runtime:   ");
    out.append(runtime);
    out.append("s\n");
    push_separator(out);
    assert(out@ =~= old(out)@ + header_text(system@, mode@, runtime@));
}

/// Appends operating system, architecture and processor.
fn push_system(out: &mut String, system: &SystemInfo)
    ensures
        final(out)@ == old(out)@ + system_text(system@),
{
    out.append("\n== SYSTEM INFO ==\n\n");
    out.append("  OS:           ");
    out.append(system.os_name.as_str());
    out.append(" ");
    out.append(system.os_version.as_str());
    out.append("\n");
    out.append("  Architecture: ");
    out.append(system.architecture.as_str());
    out.append("\n");
    out.append("  CPU:          ");
    out.append(system.cpu_model.as_str());
    out.append("\n");
    push_separator(out);
    assert(out@ =~= old(out)@ + system_text(system@));
}

/// Appends one adapter of the inventory.
fn push_gpu(out: &mut String, gpu: &GPUInfo)
    ensures
        final(out)@ == old(out)@ + gpu_entry(gpu@),
{
    out.append("  [GPU ");
    push_decimal(out, gpu.index as u64);
    out.append("] ");
    out.append(gpu.name.as_str());
    out.append("\n");
    out.append("    Driver:  ");
    out.append(gpu.driver_version.as_str());
    out.append("\n");
    let ghost head = out@;
    if gpu.vram_total_mb > 0 {
        out.append("    VRAM:    ");
        push_signed_decimal(out, gpu.vram_total_mb);
        out.append(" MB\n");
    }
    assert(out@ =~= head + vram_line(gpu@));
    if gpu.temperature_c > 0 {
        out.append("    Temp:    ");
        push_signed_decimal(out, gpu.temperature_c as i64);
        out.append("°C\n");
    }
    assert(out@ =~= head + vram_line(gpu@) + temperature_line(gpu@));
    out.append("\n");
    assert(out@ =~= old(out)@ + gpu_entry(gpu@));
}

/// Appends the inventory.
fn push_inventory(out: &mut String, gpus: &[GPUInfo], driver: &DriverInfo)
    ensures
        final(out)@ == old(out)@ + inventory_text(gpus.deep_view(), driver@),
{
    let ghost all = gpus.deep_view();
    out.append("\n== GPU INVENTORY ==\n\n");
    let ghost head = out@;
    if gpus.len() == 0 {
        out.append("  No GPUs detected.\n");
    } else {
        let mut i: usize = 0;
        assert(out@ =~= head + gpu_entries(all.take(0)));
        while i < gpus.len()
            invariant
                i <= gpus.len(),
                all == gpus.deep_view(),
                out@ == head + gpu_entries(all.take(i as int)),
            decreases gpus.len() - i,
        {
            push_gpu(out, &gpus[i]);
            proof {
                let longer = all.take(i + 1);
                assert(longer.drop_last() =~= all.take(i as int));
                assert(longer.last() == gpus@[i as int]@);
                assert(out@ =~= head + gpu_entries(longer));
            }
            i += 1;
        }
        assert(all.take(i as int) =~= all);
    }
    let ghost listed = out@;
    out.append("  NVIDIA Driver: ");
    if driver.version.as_str().is_empty() {
        out.append("N/A");
    } else {
        out.append(driver.version.as_str());
    }
    out.append("\n");
    out.append("  CUDA (driver): ");
    if driver.cuda_version.as_str().is_empty() {
        out.append("N/A");
    } else {
        out.append(driver.cuda_version.as_str());
    }
    out.append("\n");
    push_separator(out);
    assert(out@ =~= old(out)@ + inventory_text(all, driver@));
}

/// How many findings carry exactly the given severity tag.
fn count_tagged(findings: &[Finding], tag: &str) -> (count: usize)
    ensures
        count == tagged(findings.deep_view(), tag@).len(),
{
    let ghost all = findings.deep_view();
    let ghost wanted = |f: FindingModel| f.severity == tag@;
    let mut count: usize = 0;
    let mut i: usize = 0;
    proof {
        reveal(Seq::filter);
        assert(all.take(0).filter(wanted).len() == 0);
    }
    while i < findings.len()
        invariant
            i <= findings.len(),
            all == findings.deep_view(),
            wanted == (|f: FindingModel| f.severity == tag@),
            count == all.take(i as int).filter(wanted).len(),
            count <= i,
        decreases findings.len() - i,
    {
        proof {
            assert(all.take(i + 1) =~= all.take(i as int).push(all[i as int]));
            all.take(i as int).lemma_filter_push(all[i as int], wanted);
        }
        if str_eq(findings[i].severity.as_str(), tag) {
            count += 1;
        }
        i += 1;
    }
    assert(all.take(i as int) =~= all);
    count
}

/// Appends one finding of the list under its number.
fn push_finding(out: &mut String, finding: &Finding, number: usize)
    ensures
        final(out)@ == old(out)@ + finding_entry(finding@, number as nat),
{
    out.append("  [");
    out.append(finding.severity.as_str());
    out.append("] #");
    push_decimal(out, number as u64);
    out.append(": ");
    out.append(finding.title.as_str());
    out.append(" (confidence: ");
    push_decimal(out, finding.confidence as u64);
    out.append("%)\n");
    out.append("    Evidence:     ");
    out.append(finding.evidence.as_str());
    out.append("\n");
    out.append("    Why:          ");
    out.append(finding.why_it_matters.as_str());
    out.append("\n");
    out.append("\n");
    assert(out@ =~= old(out)@ + finding_entry(finding@, number as nat));
}

/// Appends the findings.
fn push_findings(out: &mut String, findings: &[Finding])
    ensures
        final(out)@ == old(out)@ + findings_text(findings.deep_view()),
{
    let ghost all = findings.deep_view();
    out.append("\n== FINDINGS ==\n\n");
    if findings.len() == 0 {
        out.append("  No issues detected.\n");
    } else {
        let crit = count_tagged(findings, "CRIT");
        let warn = count_tagged(findings, "WARN");
        let info = count_tagged(findings, "INFO");
        let ghost head = out@;
        out.append("  Total: ");
        push_decimal(out, crit as u64);
        out.append(" CRITICAL, ");
        push_decimal(out, warn as u64);
        out.append(" WARNING, ");
        push_decimal(out, info as u64);
        out.append(" INFO\n\n");
        assert(out@ =~= head + totals_line(all));
        let ghost counted = out@;
        let mut i: usize = 0;
        assert(out@ =~= counted + finding_entries(all.take(0)));
        while i < findings.len()
            invariant
                i <= findings.len(),
                all == findings.deep_view(),
                out@ == counted + finding_entries(all.take(i as int)),
            decreases findings.len() - i,
        {
            push_finding(out, &findings[i], i + 1);
            proof {
                let longer = all.take(i + 1);
                assert(longer.drop_last() =~= all.take(i as int));
                assert(longer.last() == findings@[i as int]@);
                assert(out@ =~= counted + finding_entries(longer));
            }
            i += 1;
        }
        assert(all.take(i as int) =~= all);
        assert(out@ =~= head + (totals_line(all) + finding_entries(all)));
    }
    push_separator(out);
    assert(out@ =~= old(out)@ + findings_text(all));
}

/// Appends the closing notes.
fn push_closing(out: &mut String)
    ensures
        final(out)@ == old(out)@ + closing_text(),
{
    out.append("\n== PRIVACY & DATA ==\n\n");
    out.append("  This report was generated locally. No data was sent anywhere.\n");
    out.append("  NVCheckup does not modify your system, drivers, or settings.\n\n");
    push_separator(out);
    out.append("  ");
    out.append(
        "NVCheckup is an unofficial community tool, not affiliated with or endorsed by NVIDIA Corporation.",
    );
    out.append("\n");
    push_separator(out);
    assert(out@ =~= old(out)@ + closing_text());
}

/// Renders the report of a run. `runtime` is the run time in seconds as it
/// is to be printed, without its unit.
pub fn generate(
    system: &SystemInfo,
    gpus: &[GPUInfo],
    driver: &DriverInfo,
    findings: &[Finding],
    mode: &str,
    runtime: &str,
) -> (report: String)
    ensures
        report@ == report_text(
            system@,
            gpus.deep_view(),
            driver@,
            findings.deep_view(),
            mode@,
            runtime@,
        ),
{
    let mut out = String::new();
    push_header(&mut out, system, mode, runtime);
    push_system(&mut out, system);
    push_inventory(&mut out, gpus, driver);
    push_findings(&mut out, findings);
    push_closing(&mut out);
    assert(out@ =~= report_text(
        system@,
        gpus.deep_view(),
        driver@,
        findings.deep_view(),
        mode@,
        runtime@,
    ));
    out
}

} // verus!
