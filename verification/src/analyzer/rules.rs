//! Rule engine: which rules of a catalog apply, which of their checks fire
//! on the collected facts, and in which order the findings are reported.

use crate::strings::{push_signed_decimal, signed_decimal, str_eq};
use crate::types::{
    DriverInfo, DriverModel, Finding, FindingModel, GPUInfo, GpuModel, Rule, RuleModel, RulesFile,
    SystemInfo,
};
use vstd::prelude::*;
use vstd::string::StringExecFns;

verus! {

// ---------------------------------------------------------------------------
// Severity order
// ---------------------------------------------------------------------------
/// Place of a severity tag in the report order: critical first, then
/// warnings, then informational findings, then every other tag.
pub open spec fn severity_rank(severity: Seq<char>) -> nat {
    if severity == "CRIT"@ {
        0
    } else if severity == "WARN"@ {
        1
    } else if severity == "INFO"@ {
        2
    } else {
        3
    }
}

/// The findings of one rank, in the order in which they stand in `findings`.
pub open spec fn of_rank(findings: Seq<FindingModel>, rank: nat) -> Seq<FindingModel> {
    findings.filter(|f: FindingModel| severity_rank(f.severity) == rank)
}

/// `findings` in report order: rank by rank, and within a rank as before.
pub open spec fn by_severity(findings: Seq<FindingModel>) -> Seq<FindingModel> {
    of_rank(findings, 0) + of_rank(findings, 1) + of_rank(findings, 2) + of_rank(findings, 3)
}

// ---------------------------------------------------------------------------
// Applicability
// ---------------------------------------------------------------------------
/// A rule is meant for a mode when its set of modes holds exactly that tag.
pub open spec fn mode_matches(rule: RuleModel, mode: Seq<char>) -> bool {
    rule.modes.contains(mode)
}

/// A rule without a platform runs everywhere; one with a platform runs only
/// where the platform identifier is the same string.
pub open spec fn platform_matches(rule: RuleModel, platform: Seq<char>) -> bool {
    match rule.platform {
        Some(wanted) => wanted == platform,
        None => true,
    }
}

/// A rule is evaluated when both its modes and its platform allow it.
pub open spec fn applicable(rule: RuleModel, mode: Seq<char>, platform: Seq<char>) -> bool {
    mode_matches(rule, mode) && platform_matches(rule, platform)
}

// ---------------------------------------------------------------------------
// Checks
// ---------------------------------------------------------------------------
/// The NVIDIA adapters among `gpus`, in order.
pub open spec fn nvidia_gpus(gpus: Seq<GpuModel>) -> Seq<GpuModel> {
    gpus.filter(|g: GpuModel| g.is_nvidia)
}

/// An NVIDIA adapter whose memory size is known and below 4 GB.
pub open spec fn has_low_vram(g: GpuModel) -> bool {
    g.is_nvidia && 0 < g.vram_total_mb < 4096
}

/// A temperature in the warm band, below the throttling limit.
pub open spec fn runs_hot(g: GpuModel) -> bool {
    75 <= g.temperature_c < 85
}

/// A temperature at or above the throttling limit.
pub open spec fn throttles(g: GpuModel) -> bool {
    g.temperature_c >= 85
}

/// The first adapter, in enumeration order, that `wanted` holds of.
pub open spec fn first_match(gpus: Seq<GpuModel>, wanted: spec_fn(GpuModel) -> bool) -> Option<
    GpuModel,
> {
    let matching = gpus.filter(wanted);
    if matching.len() > 0 {
        Some(matching[0])
    } else {
        None
    }
}

/// The first NVIDIA adapter with little memory.
pub open spec fn first_low_vram(gpus: Seq<GpuModel>) -> Option<GpuModel> {
    first_match(gpus, |g: GpuModel| has_low_vram(g))
}

/// The first adapter in the warm band.
pub open spec fn first_running_hot(gpus: Seq<GpuModel>) -> Option<GpuModel> {
    first_match(gpus, |g: GpuModel| runs_hot(g))
}

/// The first adapter at or above the throttling limit.
pub open spec fn first_throttling(gpus: Seq<GpuModel>) -> Option<GpuModel> {
    first_match(gpus, |g: GpuModel| throttles(g))
}

/// What the memory check reports of an adapter.
pub open spec fn low_vram_evidence(g: GpuModel) -> Seq<char> {
    "GPU "@ + g.name + " has "@ + signed_decimal(g.vram_total_mb) + " MB VRAM (< 4 GB)."@
}

/// What the warm-band check reports of an adapter.
pub open spec fn running_hot_evidence(g: GpuModel) -> Seq<char> {
    "GPU temperature is "@ + signed_decimal(g.temperature_c) + "°C."@
}

/// What the throttling check reports of an adapter.
pub open spec fn throttling_evidence(g: GpuModel) -> Seq<char> {
    "GPU temperature is "@ + signed_decimal(g.temperature_c) + "°C — exceeds safe limit."@
}

/// Whether `id` names one of the built-in checks.
pub open spec fn known_rule_id(id: Seq<char>) -> bool {
    ||| id == "no-nvidia-gpu"@
    ||| id == "hybrid-gpu"@
    ||| id == "driver-not-detected"@
    ||| id == "nvidia-smi-missing"@
    ||| id == "low-vram"@
    ||| id == "gpu-running-hot"@
    ||| id == "thermal-throttling"@
}

/// The dispatch table: the evidence that the check named `id` reports on the
/// facts, or `None` where it does not fire or where `id` names no check.
pub open spec fn check_evidence(id: Seq<char>, gpus: Seq<GpuModel>, driver: DriverModel) -> Option<
    Seq<char>,
> {
    if id == "no-nvidia-gpu"@ {
        if nvidia_gpus(gpus).len() == 0 && gpus.len() == 0 {
            Some("No NVIDIA GPU detected in system."@)
        } else {
            None
        }
    } else if id == "hybrid-gpu"@ {
        if nvidia_gpus(gpus).len() > 0 && gpus.len() > nvidia_gpus(gpus).len() {
            Some("Both NVIDIA and integrated graphics detected."@)
        } else {
            None
        }
    } else if id == "driver-not-detected"@ {
        if driver.version.len() == 0 {
            Some("nvidia-smi did not return a driver version."@)
        } else {
            None
        }
    } else if id == "nvidia-smi-missing"@ {
        if gpus.len() == 0 && driver.version.len() == 0 {
            Some("nvidia-smi was not found or returned no data."@)
        } else {
            None
        }
    } else if id == "low-vram"@ {
        match first_low_vram(gpus) {
            Some(g) => Some(low_vram_evidence(g)),
            None => None,
        }
    } else if id == "gpu-running-hot"@ {
        match first_running_hot(gpus) {
            Some(g) => Some(running_hot_evidence(g)),
            None => None,
        }
    } else if id == "thermal-throttling"@ {
        match first_throttling(gpus) {
            Some(g) => Some(throttling_evidence(g)),
            None => None,
        }
    } else {
        None
    }
}

/// The finding that a rule reports with the given evidence: severity, title,
/// category and confidence are the rule's own, the explanation is its
/// description, and no remediation steps are attached.
pub open spec fn finding_of(rule: RuleModel, evidence: Seq<char>) -> FindingModel {
    FindingModel {
        severity: rule.severity,
        title: rule.title,
        evidence: evidence,
        why_it_matters: rule.description,
        next_steps: Seq::empty(),
        confidence: rule.base_confidence,
        category: rule.category,
    }
}

/// What evaluating one rule on the facts yields.
pub open spec fn evaluation(rule: RuleModel, gpus: Seq<GpuModel>, driver: DriverModel) -> Option<
    FindingModel,
> {
    match check_evidence(rule.id, gpus, driver) {
        Some(evidence) => Some(finding_of(rule, evidence)),
        None => None,
    }
}

/// What one rule of the catalog contributes to a run: its finding where the
/// rule applies and its check fires, nothing otherwise.
pub open spec fn outcome(
    rule: RuleModel,
    gpus: Seq<GpuModel>,
    driver: DriverModel,
    mode: Seq<char>,
    platform: Seq<char>,
) -> Option<FindingModel> {
    if applicable(rule, mode, platform) {
        evaluation(rule, gpus, driver)
    } else {
        None
    }
}

/// The findings of a run in catalog order.
pub open spec fn fired(
    rules: Seq<RuleModel>,
    gpus: Seq<GpuModel>,
    driver: DriverModel,
    mode: Seq<char>,
    platform: Seq<char>,
) -> Seq<FindingModel> {
    rules.filter_map(|r: RuleModel| outcome(r, gpus, driver, mode, platform))
}

/// The findings of a run in report order.
pub open spec fn analysis(
    rules: Seq<RuleModel>,
    gpus: Seq<GpuModel>,
    driver: DriverModel,
    mode: Seq<char>,
    platform: Seq<char>,
) -> Seq<FindingModel> {
    by_severity(fired(rules, gpus, driver, mode, platform))
}

// ---------------------------------------------------------------------------
// Facts about the first match
// ---------------------------------------------------------------------------
/// Where no adapter is wanted, there is no first match.
pub proof fn lemma_first_match_none(gpus: Seq<GpuModel>, wanted: spec_fn(GpuModel) -> bool)
    requires
        forall|j: int| 0 <= j < gpus.len() ==> !wanted(#[trigger] gpus[j]),
    ensures
        gpus.filter(wanted).len() == 0,
        first_match(gpus, wanted) is None,
{
    let matching = gpus.filter(wanted);
    if matching.len() > 0 {
        gpus.lemma_filter_pred(wanted, 0);
        assert(matching.contains(matching[0]));
        gpus.lemma_filter_contains_rev(wanted, matching[0]);
        let j = choose|j: int| 0 <= j < gpus.len() && gpus[j] == matching[0];
        assert(!wanted(gpus[j]));
    }
}

/// The first match is the wanted adapter that no wanted adapter precedes.
pub proof fn lemma_first_match_at(gpus: Seq<GpuModel>, wanted: spec_fn(GpuModel) -> bool, i: int)
    requires
        0 <= i < gpus.len(),
        wanted(gpus[i]),
        forall|j: int| 0 <= j < i ==> !wanted(#[trigger] gpus[j]),
    ensures
        first_match(gpus, wanted) == Some(gpus[i]),
{
    let head = gpus.take(i);
    let tail = gpus.skip(i + 1);
    lemma_first_match_none(head, wanted);
    head.lemma_filter_push(gpus[i], wanted);
    Seq::filter_distributes_over_add(head.push(gpus[i]), tail, wanted);
    assert(gpus =~= head.push(gpus[i]) + tail);
    assert(head.filter(wanted).push(gpus[i])[0] == gpus[i]);
}

// ---------------------------------------------------------------------------
// Evaluation
// ---------------------------------------------------------------------------
/// Rank of a severity tag: 0 for `CRIT`, 1 for `WARN`, 2 for `INFO`, 3 for
/// anything else.
pub fn severity_order(s: &str) -> (rank: u8)
    ensures
        rank as nat == severity_rank(s@),
{
    if str_eq(s, "CRIT") {
        0
    } else if str_eq(s, "WARN") {
        1
    } else if str_eq(s, "INFO") {
        2
    } else {
        3
    }
}

/// Builds the finding that `rule` reports with `evidence`.
pub fn make_finding(rule: &Rule, evidence: &str) -> (made: Finding)
    ensures
        made@ == finding_of(rule@, evidence@),
{
    let made = Finding {
        severity: rule.severity.clone(),
        title: rule.title.clone(),
        evidence: String::from_str(evidence),
        why_it_matters: rule.description.clone(),
        next_steps: Vec::new(),
        confidence: rule.base_confidence,
        category: rule.category.clone(),
    };
    assert(made@.next_steps =~= Seq::empty());
    made
}

/// Whether the modes of `rule` hold `mode`.
fn lists_mode(rule: &Rule, mode: &str) -> (yes: bool)
    ensures
        yes == mode_matches(rule@, mode@),
{
    let mut i: usize = 0;
    while i < rule.modes.len()
        invariant
            i <= rule.modes.len(),
            forall|j: int| 0 <= j < i ==> rule@.modes[j] != mode@,
        decreases rule.modes.len() - i,
    {
        if str_eq(rule.modes[i].as_str(), mode) {
            assert(rule@.modes[i as int] == mode@);
            return true;
        }
        i += 1;
    }
    false
}

/// Whether `rule` is evaluated in `mode` on `platform`.
pub fn is_applicable(rule: &Rule, mode: &str, platform: &str) -> (yes: bool)
    ensures
        yes == applicable(rule@, mode@, platform@),
{
    if !lists_mode(rule, mode) {
        return false;
    }
    match &rule.platform {
        Some(wanted) => str_eq(wanted.as_str(), platform),
        None => true,
    }
}

/// Number of NVIDIA adapters.
fn count_nvidia(gpus: &[GPUInfo]) -> (count: usize)
    ensures
        count == nvidia_gpus(gpus.deep_view()).len(),
{
    let ghost all = gpus.deep_view();
    let ghost wanted = |g: GpuModel| g.is_nvidia;
    let mut count: usize = 0;
    let mut i: usize = 0;
    proof {
        lemma_first_match_none(all.take(0), wanted);
    }
    while i < gpus.len()
        invariant
            i <= gpus.len(),
            all == gpus.deep_view(),
            wanted == (|g: GpuModel| g.is_nvidia),
            count == all.take(i as int).filter(wanted).len(),
            count <= i,
        decreases gpus.len() - i,
    {
        proof {
            Seq::lemma_take_succ(all, i as int);
            assert(all.take(i + 1) =~= all.take(i as int).push(all[i as int]));
            all.take(i as int).lemma_filter_push(all[i as int], wanted);
        }
        if gpus[i].is_nvidia {
            count += 1;
        }
        i += 1;
    }
    assert(all.take(i as int) =~= all);
    count
}

/// Position of the first NVIDIA adapter with little memory.
fn find_low_vram(gpus: &[GPUInfo]) -> (at: Option<usize>)
    ensures
        match at {
            Some(i) => i < gpus.len() && first_low_vram(gpus.deep_view()) == Some(gpus@[i as int]@),
            None => first_low_vram(gpus.deep_view()) is None,
        },
{
    let ghost all = gpus.deep_view();
    let ghost wanted = |g: GpuModel| has_low_vram(g);
    let mut i: usize = 0;
    while i < gpus.len()
        invariant
            i <= gpus.len(),
            all == gpus.deep_view(),
            wanted == (|g: GpuModel| has_low_vram(g)),
            forall|j: int| 0 <= j < i ==> !wanted(#[trigger] all[j]),
        decreases gpus.len() - i,
    {
        let gpu = &gpus[i];
        if gpu.is_nvidia && gpu.vram_total_mb > 0 && gpu.vram_total_mb < 4096 {
            proof {
                lemma_first_match_at(all, wanted, i as int);
            }
            return Some(i);
        }
        i += 1;
    }
    proof {
        lemma_first_match_none(all, wanted);
    }
    None
}

/// Position of the first adapter in the warm band.
fn find_running_hot(gpus: &[GPUInfo]) -> (at: Option<usize>)
    ensures
        match at {
            Some(i) => i < gpus.len() && first_running_hot(gpus.deep_view()) == Some(
                gpus@[i as int]@,
            ),
            None => first_running_hot(gpus.deep_view()) is None,
        },
{
    let ghost all = gpus.deep_view();
    let ghost wanted = |g: GpuModel| runs_hot(g);
    let mut i: usize = 0;
    while i < gpus.len()
        invariant
            i <= gpus.len(),
            all == gpus.deep_view(),
            wanted == (|g: GpuModel| runs_hot(g)),
            forall|j: int| 0 <= j < i ==> !wanted(#[trigger] all[j]),
        decreases gpus.len() - i,
    {
        let gpu = &gpus[i];
        if gpu.temperature_c >= 75 && gpu.temperature_c < 85 {
            proof {
                lemma_first_match_at(all, wanted, i as int);
            }
            return Some(i);
        }
        i += 1;
    }
    proof {
        lemma_first_match_none(all, wanted);
    }
    None
}

/// Position of the first adapter at or above the throttling limit.
fn find_throttling(gpus: &[GPUInfo]) -> (at: Option<usize>)
    ensures
        match at {
            Some(i) => i < gpus.len() && first_throttling(gpus.deep_view()) == Some(
                gpus@[i as int]@,
            ),
            None => first_throttling(gpus.deep_view()) is None,
        },
{
    let ghost all = gpus.deep_view();
    let ghost wanted = |g: GpuModel| throttles(g);
    let mut i: usize = 0;
    while i < gpus.len()
        invariant
            i <= gpus.len(),
            all == gpus.deep_view(),
            wanted == (|g: GpuModel| throttles(g)),
            forall|j: int| 0 <= j < i ==> !wanted(#[trigger] all[j]),
        decreases gpus.len() - i,
    {
        let gpu = &gpus[i];
        if gpu.temperature_c >= 85 {
            proof {
                lemma_first_match_at(all, wanted, i as int);
            }
            return Some(i);
        }
        i += 1;
    }
    proof {
        lemma_first_match_none(all, wanted);
    }
    None
}

/// Evaluates one rule on the facts: dispatches on the rule's id to its
/// check, and returns the rule's finding where the check fires. A rule
/// whose id names no check yields nothing.
pub fn evaluate_rule(rule: &Rule, system: &SystemInfo, gpus: &[GPUInfo], driver: &DriverInfo) -> (found:
    Option<Finding>)
    ensures
        found.deep_view() == evaluation(rule@, gpus.deep_view(), driver@),
{
    let id = rule.id.as_str();
    if str_eq(id, "no-nvidia-gpu") {
        let nvidia = count_nvidia(gpus);
        if nvidia == 0 && gpus.len() == 0 {
            return Some(make_finding(rule, "No NVIDIA GPU detected in system."));
        }
        None
    } else if str_eq(id, "hybrid-gpu") {
        let nvidia = count_nvidia(gpus);
        let total = gpus.len();
        if nvidia > 0 && total > nvidia {
            return Some(make_finding(rule, "Both NVIDIA and integrated graphics detected."));
        }
        None
    } else if str_eq(id, "driver-not-detected") {
        if driver.version.as_str().is_empty() {
            return Some(make_finding(rule, "nvidia-smi did not return a driver version."));
        }
        None
    } else if str_eq(id, "nvidia-smi-missing") {
        if gpus.len() == 0 && driver.version.as_str().is_empty() {
            return Some(make_finding(rule, "nvidia-smi was not found or returned no data."));
        }
        None
    } else if str_eq(id, "low-vram") {
        match find_low_vram(gpus) {
            Some(i) => {
                let gpu = &gpus[i];
                let mut text = String::from_str("GPU ");
                text.append(gpu.name.as_str());
                text.append(" has ");
                push_signed_decimal(&mut text, gpu.vram_total_mb);
                text.append(" MB VRAM (< 4 GB).");
                assert(text@ =~= low_vram_evidence(gpu@));
                Some(make_finding(rule, text.as_str()))
            },
            None => None,
        }
    } else if str_eq(id, "gpu-running-hot") {
        match find_running_hot(gpus) {
            Some(i) => {
                let gpu = &gpus[i];
                let mut text = String::from_str("GPU temperature is ");
                push_signed_decimal(&mut text, gpu.temperature_c as i64);
                text.append("°C.");
                assert(text@ =~= running_hot_evidence(gpu@));
                Some(make_finding(rule, text.as_str()))
            },
            None => None,
        }
    } else if str_eq(id, "thermal-throttling") {
        match find_throttling(gpus) {
            Some(i) => {
                let gpu = &gpus[i];
                let mut text = String::from_str("GPU temperature is ");
                push_signed_decimal(&mut text, gpu.temperature_c as i64);
                text.append("°C — exceeds safe limit.");
                assert(text@ =~= throttling_evidence(gpu@));
                Some(make_finding(rule, text.as_str()))
            },
            None => None,
        }
    } else {
        None
    }
}

// ---------------------------------------------------------------------------
// Ordering and the whole run
// ---------------------------------------------------------------------------
/// Puts findings in report order: critical findings first, then warnings,
/// then informational ones, then the rest. Findings of equal rank keep the
/// order in which they came.
pub fn sort_by_severity(findings: Vec<Finding>) -> (sorted: Vec<Finding>)
    ensures
        sorted.deep_view() == by_severity(findings.deep_view()),
{
    let ghost all = findings.deep_view();
    let mut crit: Vec<Finding> = Vec::new();
    let mut warn: Vec<Finding> = Vec::new();
    let mut info: Vec<Finding> = Vec::new();
    let mut rest: Vec<Finding> = Vec::new();
    proof {
        assert(all.take(0) =~= Seq::empty());
        reveal(Seq::filter);
        assert(crit.deep_view() =~= of_rank(all.take(0), 0));
        assert(warn.deep_view() =~= of_rank(all.take(0), 1));
        assert(info.deep_view() =~= of_rank(all.take(0), 2));
        assert(rest.deep_view() =~= of_rank(all.take(0), 3));
    }
    for finding in it: findings
        invariant
            it.seq() == findings@,
            all == findings.deep_view(),
            crit.deep_view() == of_rank(all.take(it.index() as int), 0),
            warn.deep_view() == of_rank(all.take(it.index() as int), 1),
            info.deep_view() == of_rank(all.take(it.index() as int), 2),
            rest.deep_view() == of_rank(all.take(it.index() as int), 3),
    {
        let ghost seen = all.take(it.index() as int);
        let ghost old_crit = crit.deep_view();
        let ghost old_warn = warn.deep_view();
        let ghost old_info = info.deep_view();
        let ghost old_rest = rest.deep_view();
        proof {
            assert(all[it.index() as int] == finding@);
            assert(all.take(it.index() + 1) =~= seen.push(finding@));
            seen.lemma_filter_push(finding@, |f: FindingModel| severity_rank(f.severity) == 0);
            seen.lemma_filter_push(finding@, |f: FindingModel| severity_rank(f.severity) == 1);
            seen.lemma_filter_push(finding@, |f: FindingModel| severity_rank(f.severity) == 2);
            seen.lemma_filter_push(finding@, |f: FindingModel| severity_rank(f.severity) == 3);
        }
        let rank = severity_order(finding.severity.as_str());
        if rank == 0 {
            crit.push(finding);
            assert(crit.deep_view() =~= old_crit.push(finding@));
        } else if rank == 1 {
            warn.push(finding);
            assert(warn.deep_view() =~= old_warn.push(finding@));
        } else if rank == 2 {
            info.push(finding);
            assert(info.deep_view() =~= old_info.push(finding@));
        } else {
            rest.push(finding);
            assert(rest.deep_view() =~= old_rest.push(finding@));
        }
    }
    assert(all.take(all.len() as int) =~= all);
    let ghost crit_model = crit.deep_view();
    let ghost warn_model = warn.deep_view();
    let ghost info_model = info.deep_view();
    let ghost rest_model = rest.deep_view();
    crit.append(&mut warn);
    crit.append(&mut info);
    crit.append(&mut rest);
    assert(crit.deep_view() =~= crit_model + warn_model + info_model + rest_model);
    crit
}

/// Holds the facts against the catalog: every rule that applies in `mode`
/// on `platform` is evaluated in catalog order, and the findings of the
/// rules that fired are returned in report order.
pub fn analyze(
    system: &SystemInfo,
    gpus: &[GPUInfo],
    driver: &DriverInfo,
    rules: &[Rule],
    mode: &str,
    platform: &str,
) -> (findings: Vec<Finding>)
    ensures
        findings.deep_view() == analysis(
            rules.deep_view(),
            gpus.deep_view(),
            driver@,
            mode@,
            platform@,
        ),
{
    let ghost catalog = rules.deep_view();
    let ghost each = |r: RuleModel| outcome(r, gpus.deep_view(), driver@, mode@, platform@);
    let mut findings: Vec<Finding> = Vec::new();
    let mut i: usize = 0;
    assert(findings.deep_view() =~= catalog.take(0).filter_map(each));
    while i < rules.len()
        invariant
            i <= rules.len(),
            catalog == rules.deep_view(),
            each == (|r: RuleModel| outcome(r, gpus.deep_view(), driver@, mode@, platform@)),
            findings.deep_view() == catalog.take(i as int).filter_map(each),
        decreases rules.len() - i,
    {
        let rule = &rules[i];
        let ghost before = findings.deep_view();
        proof {
            catalog.lemma_filter_map_take_succ(each, i as int);
            assert(catalog[i as int] == rule@);
        }
        if is_applicable(rule, mode, platform) {
            if let Some(finding) = evaluate_rule(rule, system, gpus, driver) {
                let ghost model = finding@;
                findings.push(finding);
                assert(findings.deep_view() =~= before + seq![model]);
            }
        }
        i += 1;
    }
    assert(catalog.take(i as int) =~= catalog);
    sort_by_severity(findings)
}

/// The rules of a catalog file, in catalog order.
pub fn load_rules(file: RulesFile) -> (rules: Vec<Rule>)
    ensures
        rules.deep_view() == file@.rules,
{
    file.rules
}

} // verus!
