//! What holds of every run of the rule engine, whatever the catalog and the
//! facts: the report order, the silence of rules that do not apply or that
//! name no check, and the dependence of the findings on the inputs alone.

use crate::analyzer::rules::{
    analysis, applicable, by_severity, check_evidence, evaluation, fired, known_rule_id,
    mode_matches, of_rank, outcome, platform_matches, runs_hot, severity_rank, throttles,
};
use crate::types::{DriverModel, Finding, FindingModel, GpuModel, RuleModel};
use vstd::prelude::*;

verus! {

// ---------------------------------------------------------------------------
// Sequences
// ---------------------------------------------------------------------------
/// A filter that no element passes leaves nothing.
proof fn lemma_filter_none<A>(s: Seq<A>, keep: spec_fn(A) -> bool)
    requires
        forall|j: int| 0 <= j < s.len() ==> !keep(#[trigger] s[j]),
    ensures
        s.filter(keep) == Seq::<A>::empty(),
{
    let kept = s.filter(keep);
    if kept.len() > 0 {
        s.lemma_filter_pred(keep, 0);
        assert(kept.contains(kept[0]));
        s.lemma_filter_contains_rev(keep, kept[0]);
        let j = choose|j: int| 0 <= j < s.len() && s[j] == kept[0];
        assert(!keep(s[j]));
    }
    assert(kept =~= Seq::<A>::empty());
}

/// A filter that every element passes changes nothing.
proof fn lemma_filter_all<A>(s: Seq<A>, keep: spec_fn(A) -> bool)
    requires
        forall|j: int| 0 <= j < s.len() ==> keep(#[trigger] s[j]),
    ensures
        s.filter(keep) == s,
    decreases s.len(),
{
    reveal(Seq::filter);
    if s.len() > 0 {
        lemma_filter_all(s.drop_last(), keep);
        assert(s.drop_last().push(s.last()) =~= s);
    }
}

/// Mapping and filtering a concatenation is done part by part.
proof fn lemma_filter_map_add<A, B>(a: Seq<A>, b: Seq<A>, f: spec_fn(A) -> Option<B>)
    ensures
        (a + b).filter_map(f) == a.filter_map(f) + b.filter_map(f),
    decreases b.len(),
{
    if b.len() == 0 {
        assert(a + b =~= a);
        assert(a.filter_map(f) + b.filter_map(f) =~= a.filter_map(f));
    } else {
        lemma_filter_map_add(a, b.drop_last(), f);
        assert((a + b).drop_last() =~= a + b.drop_last());
        assert((a + b).last() == b.last());
        match f(b.last()) {
            Some(x) => {
                assert((a + b).filter_map(f) =~= a.filter_map(f) + b.filter_map(f));
            },
            None => {},
        }
    }
}

/// Every finding of one rank has that rank.
proof fn lemma_of_rank_has_rank(findings: Seq<FindingModel>, rank: nat)
    ensures
        forall|j: int|
            0 <= j < of_rank(findings, rank).len() ==> severity_rank(
                #[trigger] of_rank(findings, rank)[j].severity,
            ) == rank,
{
    let keep = |f: FindingModel| severity_rank(f.severity) == rank;
    assert forall|j: int| 0 <= j < of_rank(findings, rank).len() implies severity_rank(
        #[trigger] of_rank(findings, rank)[j].severity,
    ) == rank by {
        findings.lemma_filter_pred(keep, j);
    }
}

/// Picking one rank out of the findings of a rank yields all of them where
/// the ranks agree, and nothing where they differ.
proof fn lemma_of_rank_twice(findings: Seq<FindingModel>, inner: nat, outer: nat)
    ensures
        of_rank(of_rank(findings, inner), outer) == if inner == outer {
            of_rank(findings, inner)
        } else {
            Seq::<FindingModel>::empty()
        },
{
    lemma_of_rank_has_rank(findings, inner);
    let keep = |f: FindingModel| severity_rank(f.severity) == outer;
    if inner == outer {
        lemma_filter_all(of_rank(findings, inner), keep);
    } else {
        lemma_filter_none(of_rank(findings, inner), keep);
    }
}

// ---------------------------------------------------------------------------
// Report order
// ---------------------------------------------------------------------------
/// In report order no finding stands before one of a more urgent rank:
/// every `CRIT` finding precedes every `WARN` finding, which precedes every
/// `INFO` finding, which precedes every finding with another tag.
pub proof fn lemma_report_order_is_sorted(findings: Seq<FindingModel>)
    ensures
        forall|i: int, j: int|
            0 <= i < j < by_severity(findings).len() ==> severity_rank(
                by_severity(findings)[i].severity,
            ) <= severity_rank(by_severity(findings)[j].severity),
{
    lemma_of_rank_has_rank(findings, 0);
    lemma_of_rank_has_rank(findings, 1);
    lemma_of_rank_has_rank(findings, 2);
    lemma_of_rank_has_rank(findings, 3);
    let a0 = of_rank(findings, 0);
    let a1 = of_rank(findings, 1);
    let a2 = of_rank(findings, 2);
    let a3 = of_rank(findings, 3);
    let sorted = by_severity(findings);
    assert forall|i: int, j: int| 0 <= i < j < sorted.len() implies severity_rank(
        sorted[i].severity,
    ) <= severity_rank(sorted[j].severity) by {
        let n0 = a0.len() as int;
        let n1 = n0 + a1.len();
        let n2 = n1 + a2.len();
        assert(sorted[i] == if i < n0 {
            a0[i]
        } else if i < n1 {
            a1[i - n0]
        } else if i < n2 {
            a2[i - n1]
        } else {
            a3[i - n2]
        });
        assert(sorted[j] == if j < n0 {
            a0[j]
        } else if j < n1 {
            a1[j - n0]
        } else if j < n2 {
            a2[j - n1]
        } else {
            a3[j - n2]
        });
    }
}

/// Report order is stable: for every rank, the findings of that rank stand
/// in the sorted list exactly as they stood before, none lost, none added,
/// none moved past another of the same rank.
pub proof fn lemma_report_order_is_stable(findings: Seq<FindingModel>, rank: nat)
    ensures
        of_rank(by_severity(findings), rank) == of_rank(findings, rank),
{
    let keep = |f: FindingModel| severity_rank(f.severity) == rank;
    let a0 = of_rank(findings, 0);
    let a1 = of_rank(findings, 1);
    let a2 = of_rank(findings, 2);
    let a3 = of_rank(findings, 3);
    Seq::filter_distributes_over_add(a0 + a1 + a2, a3, keep);
    Seq::filter_distributes_over_add(a0 + a1, a2, keep);
    Seq::filter_distributes_over_add(a0, a1, keep);
    lemma_of_rank_twice(findings, 0, rank);
    lemma_of_rank_twice(findings, 1, rank);
    lemma_of_rank_twice(findings, 2, rank);
    lemma_of_rank_twice(findings, 3, rank);
    if rank > 3 {
        lemma_filter_none(findings, keep);
    }
    assert(of_rank(by_severity(findings), rank) =~= of_rank(findings, rank));
}

/// Sorting neither drops nor adds a finding.
pub proof fn lemma_report_order_keeps_every_finding(findings: Seq<FindingModel>)
    ensures
        by_severity(findings).len() == findings.len(),
        by_severity(findings).to_multiset() == findings.to_multiset(),
    decreases findings.len(),
{
    broadcast use vstd::seq_lib::group_to_multiset_ensures;

    let sorted = by_severity(findings);
    if findings.len() == 0 {
        reveal(Seq::filter);
        assert(sorted =~= findings);
    } else {
        let front = findings.drop_last();
        let last = findings.last();
        lemma_report_order_keeps_every_finding(front);
        assert(front.push(last) =~= findings);
        front.lemma_filter_push(last, |f: FindingModel| severity_rank(f.severity) == 0);
        front.lemma_filter_push(last, |f: FindingModel| severity_rank(f.severity) == 1);
        front.lemma_filter_push(last, |f: FindingModel| severity_rank(f.severity) == 2);
        front.lemma_filter_push(last, |f: FindingModel| severity_rank(f.severity) == 3);
        let a0 = of_rank(front, 0);
        let a1 = of_rank(front, 1);
        let a2 = of_rank(front, 2);
        let a3 = of_rank(front, 3);
        let rank = severity_rank(last.severity);
        let before = if rank == 0 {
            a0
        } else if rank == 1 {
            a0 + a1
        } else if rank == 2 {
            a0 + a1 + a2
        } else {
            a0 + a1 + a2 + a3
        };
        let after = if rank == 0 {
            a1 + a2 + a3
        } else if rank == 1 {
            a2 + a3
        } else if rank == 2 {
            a3
        } else {
            Seq::<FindingModel>::empty()
        };
        assert(by_severity(front) =~= before + after);
        assert(sorted =~= before.push(last) + after);
        vstd::seq_lib::lemma_multiset_commutative(before, after);
        vstd::seq_lib::lemma_multiset_commutative(before.push(last), after);
        assert(sorted.to_multiset() =~= by_severity(front).to_multiset().insert(last));
        assert(findings.to_multiset() =~= front.to_multiset().insert(last));
    }
}

/// The findings of a run come out sorted by rank, and within each rank in
/// the order of the rules in the catalog.
pub proof fn lemma_analysis_is_ordered(
    rules: Seq<RuleModel>,
    gpus: Seq<GpuModel>,
    driver: DriverModel,
    mode: Seq<char>,
    platform: Seq<char>,
)
    ensures
        forall|i: int, j: int|
            0 <= i < j < analysis(rules, gpus, driver, mode, platform).len() ==> severity_rank(
                analysis(rules, gpus, driver, mode, platform)[i].severity,
            ) <= severity_rank(analysis(rules, gpus, driver, mode, platform)[j].severity),
        forall|rank: nat| #[trigger]
            of_rank(analysis(rules, gpus, driver, mode, platform), rank) == of_rank(
                fired(rules, gpus, driver, mode, platform),
                rank,
            ),
        analysis(rules, gpus, driver, mode, platform).to_multiset() == fired(
            rules,
            gpus,
            driver,
            mode,
            platform,
        ).to_multiset(),
{
    let catalog_order = fired(rules, gpus, driver, mode, platform);
    lemma_report_order_is_sorted(catalog_order);
    lemma_report_order_keeps_every_finding(catalog_order);
    assert forall|rank: nat| #[trigger]
        of_rank(by_severity(catalog_order), rank) == of_rank(catalog_order, rank) by {
        lemma_report_order_is_stable(catalog_order, rank);
    }
}

// ---------------------------------------------------------------------------
// Rules that stay silent
// ---------------------------------------------------------------------------
/// A rule that contributes nothing can be taken out of the catalog without
/// any change to the findings.
pub proof fn lemma_silent_rule_is_inert(
    rules: Seq<RuleModel>,
    gpus: Seq<GpuModel>,
    driver: DriverModel,
    mode: Seq<char>,
    platform: Seq<char>,
    at: int,
)
    requires
        0 <= at < rules.len(),
        outcome(rules[at], gpus, driver, mode, platform) is None,
    ensures
        fired(rules.remove(at), gpus, driver, mode, platform) == fired(
            rules,
            gpus,
            driver,
            mode,
            platform,
        ),
        analysis(rules.remove(at), gpus, driver, mode, platform) == analysis(
            rules,
            gpus,
            driver,
            mode,
            platform,
        ),
{
    let each = |r: RuleModel| outcome(r, gpus, driver, mode, platform);
    let head = rules.take(at);
    let tail = rules.skip(at + 1);
    let one = seq![rules[at]];
    Seq::lemma_filter_map_singleton(rules[at], each);
    lemma_filter_map_add(head, one, each);
    lemma_filter_map_add(head + one, tail, each);
    lemma_filter_map_add(head, tail, each);
    assert(rules =~= head + one + tail);
    assert(rules.remove(at) =~= head + tail);
    assert(head.filter_map(each) + one.filter_map(each) =~= head.filter_map(each));
}

/// A rule without modes applies in no mode and on no platform.
pub proof fn lemma_rule_without_modes_never_applies(
    rule: RuleModel,
    mode: Seq<char>,
    platform: Seq<char>,
)
    requires
        rule.modes.len() == 0,
    ensures
        !applicable(rule, mode, platform),
{
}

/// The warm band and the throttling band share no temperature: of one
/// adapter at most one of the two holds.
pub proof fn lemma_temperature_bands_are_disjoint(g: GpuModel)
    ensures
        !(runs_hot(g) && throttles(g)),
{
}

/// A rule whose modes do not hold the requested mode never shows in the
/// findings, whatever the facts: it yields nothing, and the findings are
/// those of the catalog without it.
pub proof fn lemma_rule_of_other_mode_is_inert(
    rules: Seq<RuleModel>,
    gpus: Seq<GpuModel>,
    driver: DriverModel,
    mode: Seq<char>,
    platform: Seq<char>,
    at: int,
)
    requires
        0 <= at < rules.len(),
        !mode_matches(rules[at], mode),
    ensures
        outcome(rules[at], gpus, driver, mode, platform) is None,
        analysis(rules.remove(at), gpus, driver, mode, platform) == analysis(
            rules,
            gpus,
            driver,
            mode,
            platform,
        ),
{
    lemma_silent_rule_is_inert(rules, gpus, driver, mode, platform, at);
}

/// A rule that declares a platform other than the current one never shows
/// in the findings, whatever the facts.
pub proof fn lemma_rule_of_other_platform_is_inert(
    rules: Seq<RuleModel>,
    gpus: Seq<GpuModel>,
    driver: DriverModel,
    mode: Seq<char>,
    platform: Seq<char>,
    at: int,
)
    requires
        0 <= at < rules.len(),
        rules[at].platform is Some,
        rules[at].platform != Some(platform),
    ensures
        outcome(rules[at], gpus, driver, mode, platform) is None,
        analysis(rules.remove(at), gpus, driver, mode, platform) == analysis(
            rules,
            gpus,
            driver,
            mode,
            platform,
        ),
{
    assert(!platform_matches(rules[at], platform));
    lemma_silent_rule_is_inert(rules, gpus, driver, mode, platform, at);
}

/// A rule whose id names no built-in check yields no finding, whatever the
/// facts, the mode and the platform, and leaves the findings of the other
/// rules as they are.
pub proof fn lemma_rule_of_unknown_id_is_inert(
    rules: Seq<RuleModel>,
    gpus: Seq<GpuModel>,
    driver: DriverModel,
    mode: Seq<char>,
    platform: Seq<char>,
    at: int,
)
    requires
        0 <= at < rules.len(),
        !known_rule_id(rules[at].id),
    ensures
        check_evidence(rules[at].id, gpus, driver) is None,
        evaluation(rules[at], gpus, driver) is None,
        analysis(rules.remove(at), gpus, driver, mode, platform) == analysis(
            rules,
            gpus,
            driver,
            mode,
            platform,
        ),
{
    lemma_silent_rule_is_inert(rules, gpus, driver, mode, platform, at);
}

/// Every finding of a run is the finding of a rule of the catalog that
/// applies in the mode and on the platform and whose check fired: severity,
/// title, category, confidence and explanation are that rule's own.
pub proof fn lemma_finding_has_a_source(
    rules: Seq<RuleModel>,
    gpus: Seq<GpuModel>,
    driver: DriverModel,
    mode: Seq<char>,
    platform: Seq<char>,
    k: int,
) -> (at: int)
    requires
        0 <= k < analysis(rules, gpus, driver, mode, platform).len(),
    ensures
        0 <= at < rules.len(),
        applicable(rules[at], mode, platform),
        known_rule_id(rules[at].id),
        evaluation(rules[at], gpus, driver) == Some(
            analysis(rules, gpus, driver, mode, platform)[k],
        ),
{
    let each = |r: RuleModel| outcome(r, gpus, driver, mode, platform);
    let catalog_order = fired(rules, gpus, driver, mode, platform);
    let sorted = by_severity(catalog_order);
    let finding = sorted[k];
    lemma_report_order_keeps_every_finding(catalog_order);
    broadcast use vstd::seq_lib::group_to_multiset_ensures;

    assert(sorted.contains(finding));
    assert(sorted.to_multiset().count(finding) > 0);
    assert(catalog_order.contains(finding));
    rules.lemma_filter_map_contains(each, finding);
    let rule = choose|t: RuleModel| #[trigger] rules.contains(t) && each(t) == Some(finding);
    let at = choose|at: int| 0 <= at < rules.len() && rules[at] == rule;
    at
}

/// A mode that no rule of the catalog lists yields no findings.
pub proof fn lemma_unlisted_mode_yields_nothing(
    rules: Seq<RuleModel>,
    gpus: Seq<GpuModel>,
    driver: DriverModel,
    mode: Seq<char>,
    platform: Seq<char>,
)
    requires
        forall|i: int| 0 <= i < rules.len() ==> !mode_matches(#[trigger] rules[i], mode),
    ensures
        analysis(rules, gpus, driver, mode, platform) == Seq::<FindingModel>::empty(),
{
    let findings = analysis(rules, gpus, driver, mode, platform);
    if findings.len() > 0 {
        let at = lemma_finding_has_a_source(rules, gpus, driver, mode, platform, 0);
        assert(!mode_matches(rules[at], mode));
    }
    assert(findings =~= Seq::<FindingModel>::empty());
}

/// The check for a missing NVIDIA adapter fires exactly where no adapter
/// at all was found.
pub proof fn lemma_no_nvidia_check_fires_on_empty_set_only(
    gpus: Seq<GpuModel>,
    driver: DriverModel,
)
    ensures
        check_evidence("no-nvidia-gpu"@, gpus, driver) is Some <==> gpus.len() == 0,
{
    if gpus.len() == 0 {
        lemma_filter_none(gpus, |g: GpuModel| g.is_nvidia);
    }
}

/// Where every rule of the catalog is well formed, every finding carries a
/// confidence of at most one hundred.
pub proof fn lemma_confidence_is_bounded(
    rules: Seq<RuleModel>,
    gpus: Seq<GpuModel>,
    driver: DriverModel,
    mode: Seq<char>,
    platform: Seq<char>,
)
    requires
        forall|i: int| 0 <= i < rules.len() ==> (#[trigger] rules[i]).well_formed(),
    ensures
        forall|k: int|
            0 <= k < analysis(rules, gpus, driver, mode, platform).len() ==> (#[trigger] analysis(
                rules,
                gpus,
                driver,
                mode,
                platform,
            )[k]).confidence <= 100,
{
    assert forall|k: int|
        0 <= k < analysis(rules, gpus, driver, mode, platform).len() implies (#[trigger] analysis(
        rules,
        gpus,
        driver,
        mode,
        platform,
    )[k]).confidence <= 100 by {
        let at = lemma_finding_has_a_source(rules, gpus, driver, mode, platform, k);
        assert(rules[at].well_formed());
    }
}

// ---------------------------------------------------------------------------
// Determinism
// ---------------------------------------------------------------------------
/// Two runs on the same catalog, facts, mode and platform report the same
/// findings: as many, in the same order, and each with the same contents.
pub proof fn lemma_same_inputs_same_findings(
    first: Vec<Finding>,
    second: Vec<Finding>,
    rules: Seq<RuleModel>,
    gpus: Seq<GpuModel>,
    driver: DriverModel,
    mode: Seq<char>,
    platform: Seq<char>,
)
    requires
        first.deep_view() == analysis(rules, gpus, driver, mode, platform),
        second.deep_view() == analysis(rules, gpus, driver, mode, platform),
    ensures
        first.len() == second.len(),
        forall|i: int| 0 <= i < first.len() ==> first[i]@ == second[i]@,
{
    assert(first.deep_view().len() == second.deep_view().len());
    assert forall|i: int| 0 <= i < first.len() implies first[i]@ == second[i]@ by {
        assert(first.deep_view()[i] == second.deep_view()[i]);
    }
}

} // verus!
