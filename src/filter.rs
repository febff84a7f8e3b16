//! The record filters: depth, mapping and base quality, strand bias, the
//! position blacklist, and the aggregation of per-sample outcomes.
use vstd::prelude::*;

use crate::record::{allele_samples, evidence_complete, Evidence, VariantRecord};

verus! {

/// Fixed quality thresholds, passed explicitly to the filters.
#[derive(Debug, Clone, Copy, PartialEq, Eq, Structural)]
pub struct FilterThresholds {
    pub min_depth: u32,
    /// In hundredths.
    pub min_ref_mapping_quality: u32,
    /// In hundredths.
    pub min_alt_base_quality: u32,
    /// Lower bound of the forward share of alternate reads, in thousandths.
    pub strand_low: u32,
    /// Upper bound of the forward share of alternate reads, in thousandths.
    pub strand_high: u32,
}

impl FilterThresholds {
    pub open spec fn wf(&self) -> bool {
        self.strand_low <= self.strand_high <= 1000
    }

    /// Depth 15, mapping quality 30.0, base quality 20.0, strand share within
    /// [0.1, 0.9].
    pub fn standard() -> (r: FilterThresholds)
        ensures
            r.wf(),
            r.min_depth == 15,
            r.min_ref_mapping_quality == 3000,
            r.min_alt_base_quality == 2000,
            r.strand_low == 100,
            r.strand_high == 900,
    {
        FilterThresholds {
            min_depth: 15,
            min_ref_mapping_quality: 3000,
            min_alt_base_quality: 2000,
            strand_low: 100,
            strand_high: 900,
        }
    }
}

/// A filter rule, named when it fails.
#[derive(Debug, Clone, Copy, PartialEq, Eq, Structural)]
pub enum Rule {
    LowDepth,
    LowMappingQuality,
    LowBaseQuality,
    StrandBias,
    Blacklisted,
    /// The samples do not pass as the aggregation mode requires.
    SampleFailure,
}

/// Positions known to give recurrent artefacts.
#[derive(Debug)]
pub struct BlacklistSet {
    pub positions: Vec<u64>,
}

/// The outcome of the filters for one record.
#[derive(Debug)]
pub struct FilterDecision {
    pub pass: bool,
    /// Every rule the record fails, in rule order (its own evidence's rules
    /// are listed for diagnostics; they do not decide).
    pub failed: Vec<Rule>,
    /// For each sample, in sample order, the quality rules it fails.
    pub sample_failures: Vec<Vec<Rule>>,
}

/// The forward share of alternate reads lies within the closed interval
/// [low, high] (thousandths); with no alternate read there is no share.
pub open spec fn strand_ok(e: Evidence, t: FilterThresholds) -> bool {
    let total = e.alt_forward + e.alt_reverse;
    &&& total > 0
    &&& 1000 * e.alt_forward >= t.strand_low * total
    &&& 1000 * e.alt_forward <= t.strand_high * total
}

/// The quality rules that `e` fails, in rule order.
pub open spec fn quality_failures(e: Evidence, t: FilterThresholds) -> Seq<Rule> {
    (if e.depth < t.min_depth { seq![Rule::LowDepth] } else { seq![] })
    + (if e.ref_mapping_quality < t.min_ref_mapping_quality { seq![Rule::LowMappingQuality] } else { seq![] })
    + (if e.alt_base_quality < t.min_alt_base_quality { seq![Rule::LowBaseQuality] } else { seq![] })
    + (if !strand_ok(e, t) { seq![Rule::StrandBias] } else { seq![] })
}

pub open spec fn sample_passes(e: Evidence, t: FilterThresholds) -> bool {
    quality_failures(e, t).len() == 0
}

/// Every sample passes, or (when not all are required) at least one does.
pub open spec fn samples_pass(samples: Seq<Evidence>, t: FilterThresholds, all_required: bool) -> bool {
    if all_required {
        forall|i: int| 0 <= i < samples.len() ==> sample_passes(#[trigger] samples[i], t)
    } else {
        exists|i: int| 0 <= i < samples.len() && sample_passes(#[trigger] samples[i], t)
    }
}

/// A site passes when its position is not blacklisted and its samples pass
/// as the aggregation mode requires.
pub open spec fn site_passes(
    position: u64,
    samples: Seq<Evidence>,
    t: FilterThresholds,
    blacklist: Seq<u64>,
    all_required: bool,
) -> bool {
    !blacklist.contains(position) && samples_pass(samples, t, all_required)
}

/// The rules a record fails, for diagnostics: the quality rules on its site
/// evidence, the blacklist, then the sample aggregation. Only the last two
/// decide whether the site passes.
pub open spec fn site_failures(
    info: Evidence,
    position: u64,
    samples: Seq<Evidence>,
    t: FilterThresholds,
    blacklist: Seq<u64>,
    all_required: bool,
) -> Seq<Rule> {
    quality_failures(info, t)
    + (if blacklist.contains(position) { seq![Rule::Blacklisted] } else { seq![] })
    + (if !samples_pass(samples, t, all_required) { seq![Rule::SampleFailure] } else { seq![] })
}

fn push_if(v: &mut Vec<Rule>, cond: bool, rule: Rule)
    ensures
        final(v)@ == old(v)@ + (if cond { seq![rule] } else { seq![] }),
{
    if cond {
        v.push(rule);
    }
    assert(final(v)@ =~= old(v)@ + (if cond { seq![rule] } else { seq![] }));
}

/// Whether the forward share of alternate reads is acceptable.
pub fn strand_share_ok(e: &Evidence, t: &FilterThresholds) -> (r: bool)
    requires
        t.wf(),
    ensures
        r == strand_ok(*e, *t),
{
    let total: u64 = e.alt_forward as u64 + e.alt_reverse as u64;
    if total == 0 {
        return false;
    }
    assert(t.strand_high as u64 * total <= 1000 * total) by (nonlinear_arith)
        requires
            t.strand_high <= 1000,
    ;
    assert(t.strand_low as u64 * total <= 1000 * total) by (nonlinear_arith)
        requires
            t.strand_low <= 1000,
    ;
    let fwd: u64 = 1000 * e.alt_forward as u64;
    fwd >= t.strand_low as u64 * total && fwd <= t.strand_high as u64 * total
}

/// The quality rules that `e` fails, in rule order.
pub fn evidence_failures(e: &Evidence, t: &FilterThresholds) -> (r: Vec<Rule>)
    requires
        t.wf(),
    ensures
        r@ == quality_failures(*e, *t),
{
    let mut out: Vec<Rule> = Vec::new();
    push_if(&mut out, e.depth < t.min_depth, Rule::LowDepth);
    push_if(&mut out, e.ref_mapping_quality < t.min_ref_mapping_quality, Rule::LowMappingQuality);
    push_if(&mut out, e.alt_base_quality < t.min_alt_base_quality, Rule::LowBaseQuality);
    push_if(&mut out, !strand_share_ok(e, t), Rule::StrandBias);
    assert(out@ =~= quality_failures(*e, *t));
    out
}

/// Whether the samples pass: all of them when `all_required`, else at least one.
pub fn aggregate_samples(samples: &Vec<Evidence>, t: &FilterThresholds, all_required: bool) -> (r: bool)
    requires
        t.wf(),
    ensures
        r == samples_pass(samples@, *t, all_required),
{
    let mut i: usize = 0;
    while i < samples.len()
        invariant
            t.wf(),
            i <= samples.len(),
            all_required ==> forall|k: int| 0 <= k < i ==> sample_passes(#[trigger] samples@[k], *t),
            !all_required ==> forall|k: int| 0 <= k < i ==> !sample_passes(#[trigger] samples@[k], *t),
        decreases samples.len() - i,
    {
        let ok = evidence_failures(&samples[i], t).len() == 0;
        if all_required && !ok {
            return false;
        }
        if !all_required && ok {
            return true;
        }
        i = i + 1;
    }
    all_required
}

impl BlacklistSet {
    /// The positions of the mitochondrial genome known to give artefacts:
    /// 302 to 318, and 3105 to 3107.
    pub fn standard() -> (r: BlacklistSet)
        ensures
            forall|p: u64| r.positions@.contains(p) <==> (302 <= p <= 318 || 3105 <= p <= 3107),
    {
        let mut positions: Vec<u64> = Vec::new();
        let mut p: u64 = 302;
        while p <= 318
            invariant
                302 <= p <= 319,
                forall|q: u64| positions@.contains(q) <==> 302 <= q < p,
            decreases 319 - p,
        {
            let ghost before = positions@;
            positions.push(p);
            assert forall|q: u64| positions@.contains(q) <==> 302 <= q < p + 1 by {
                if q == p {
                    assert(positions@[positions@.len() - 1] == q);
                }
                if positions@.contains(q) && q != p {
                    let k = choose|k: int| 0 <= k < positions@.len() && positions@[k] == q;
                    assert(before[k] == q);
                }
                if before.contains(q) {
                    let k = choose|k: int| 0 <= k < before.len() && before[k] == q;
                    assert(positions@[k] == q);
                }
            }
            p = p + 1;
        }
        p = 3105;
        while p <= 3107
            invariant
                3105 <= p <= 3108,
                forall|q: u64| positions@.contains(q) <==> (302 <= q <= 318 || 3105 <= q < p),
            decreases 3108 - p,
        {
            let ghost before = positions@;
            positions.push(p);
            assert forall|q: u64| positions@.contains(q) <==> (302 <= q <= 318 || 3105 <= q < p
                + 1) by {
                if q == p {
                    assert(positions@[positions@.len() - 1] == q);
                }
                if positions@.contains(q) && q != p {
                    let k = choose|k: int| 0 <= k < positions@.len() && positions@[k] == q;
                    assert(before[k] == q);
                }
                if before.contains(q) {
                    let k = choose|k: int| 0 <= k < before.len() && before[k] == q;
                    assert(positions@[k] == q);
                }
            }
            p = p + 1;
        }
        BlacklistSet { positions }
    }

    /// Whether `position` is blacklisted.
    pub fn contains(&self, position: u64) -> (r: bool)
        ensures
            r == self.positions@.contains(position),
    {
        let mut i: usize = 0;
        while i < self.positions.len()
            invariant
                i <= self.positions.len(),
                forall|k: int| 0 <= k < i ==> self.positions@[k] != position,
            decreases self.positions.len() - i,
        {
            if self.positions[i] == position {
                return true;
            }
            i = i + 1;
        }
        false
    }
}

pub open spec fn rule_name_of(r: Rule) -> Seq<char> {
    match r {
        Rule::LowDepth => "LOW_DP"@,
        Rule::LowMappingQuality => "LOW_MQMR"@,
        Rule::LowBaseQuality => "LOW_AQR"@,
        Rule::StrandBias => "STRAND_BIAS"@,
        Rule::Blacklisted => "BLACKLIST"@,
        Rule::SampleFailure => "SAMPLE_FAIL"@,
    }
}

/// The FILTER value naming a failed rule.
pub fn rule_name(r: Rule) -> (s: &'static str)
    ensures
        s@ == rule_name_of(r),
{
    match r {
        Rule::LowDepth => "LOW_DP",
        Rule::LowMappingQuality => "LOW_MQMR",
        Rule::LowBaseQuality => "LOW_AQR",
        Rule::StrandBias => "STRAND_BIAS",
        Rule::Blacklisted => "BLACKLIST",
        Rule::SampleFailure => "SAMPLE_FAIL",
    }
}

/// The FILTER values of a decision: `PASS`, or the failed rules' names in order.
pub fn filter_labels(d: &FilterDecision) -> (r: Vec<String>)
    ensures
        d.pass ==> r.deep_view() == seq!["PASS"@],
        !d.pass ==> r.deep_view() == d.failed@.map_values(|x: Rule| rule_name_of(x)),
{
    let mut out: Vec<String> = Vec::new();
    if d.pass {
        out.push(String::from_str("PASS"));
        assert(out.deep_view() =~= seq!["PASS"@]);
        return out;
    }
    let mut i: usize = 0;
    while i < d.failed.len()
        invariant
            i <= d.failed.len(),
            out.deep_view() == d.failed@.subrange(0, i as int).map_values(|x: Rule| rule_name_of(x)),
        decreases d.failed.len() - i,
    {
        out.push(String::from_str(rule_name(d.failed[i])));
        assert(d.failed@.subrange(0, i + 1).map_values(|x: Rule| rule_name_of(x)) =~= d.failed@.subrange(
            0,
            i as int,
        ).map_values(|x: Rule| rule_name_of(x)).push(rule_name_of(d.failed@[i as int])));
        i = i + 1;
    }
    assert(d.failed@.subrange(0, d.failed.len() as int) == d.failed@);
    out
}

fn allele_evidence(samples: &Vec<Vec<Evidence>>, allele: usize) -> (r: Vec<Evidence>)
    requires
        forall|k: int| 0 <= k < samples.len() ==> allele < (#[trigger] samples@[k])@.len(),
    ensures
        r@ == samples@.map_values(|v: Vec<Evidence>| v@).map_values(
            |s: Seq<Evidence>| s[allele as int],
        ),
{
    let mut out: Vec<Evidence> = Vec::new();
    let mut k: usize = 0;
    while k < samples.len()
        invariant
            k <= samples.len(),
            forall|j: int| 0 <= j < samples.len() ==> allele < (#[trigger] samples@[j])@.len(),
            out@.len() == k,
            forall|j: int| 0 <= j < k ==> out@[j] == (#[trigger] samples@[j])@[allele as int],
        decreases samples.len() - k,
    {
        out.push(samples[k][allele]);
        k = k + 1;
    }
    assert(out@ =~= samples@.map_values(|v: Vec<Evidence>| v@).map_values(
        |s: Seq<Evidence>| s[allele as int],
    ));
    out
}

fn failures_of_each(samples: &Vec<Evidence>, t: &FilterThresholds) -> (r: Vec<Vec<Rule>>)
    requires
        t.wf(),
    ensures
        r.len() == samples.len(),
        forall|k: int| 0 <= k < r.len() ==> (#[trigger] r@[k])@ == quality_failures(samples@[k], *t),
{
    let mut out: Vec<Vec<Rule>> = Vec::new();
    let mut k: usize = 0;
    while k < samples.len()
        invariant
            t.wf(),
            k <= samples.len(),
            out.len() == k,
            forall|j: int| 0 <= j < k ==> (#[trigger] out@[j])@ == quality_failures(samples@[j], *t),
        decreases samples.len() - k,
    {
        out.push(evidence_failures(&samples[k], t));
        k = k + 1;
    }
    out
}

/// Decides allele `allele` of a record (after decomposition, its only one):
/// it passes when the position is not blacklisted and the samples' evidence
/// for the allele passes as the aggregation mode requires. Whatever the
/// verdict, the decision lists every rule the record fails and, for each
/// sample, the rules that sample fails.
pub fn filter_record(
    record: &VariantRecord,
    allele: usize,
    t: &FilterThresholds,
    blacklist: &BlacklistSet,
    all_required: bool,
) -> (r: FilterDecision)
    requires
        t.wf(),
        evidence_complete(record@),
        allele < record.alts.len(),
    ensures
        r.pass == site_passes(
            record.position,
            allele_samples(record@, allele as int),
            *t,
            blacklist.positions@,
            all_required,
        ),
        r.failed@ == site_failures(
            record@.info[allele as int],
            record.position,
            allele_samples(record@, allele as int),
            *t,
            blacklist.positions@,
            all_required,
        ),
        r.sample_failures.len() == record.samples.len(),
        forall|k: int|
            0 <= k < r.sample_failures.len() ==> (#[trigger] r.sample_failures@[k])@
                == quality_failures(allele_samples(record@, allele as int)[k], *t),
{
    proof {
        assert forall|k: int| 0 <= k < record.samples.len() implies allele < (
        #[trigger] record.samples@[k])@.len() by {
            assert(record@.samples[k] == record.samples@[k]@);
        }
    }
    let samples = allele_evidence(&record.samples, allele);
    let blacklisted = blacklist.contains(record.position);
    let samples_ok = aggregate_samples(&samples, t, all_required);
    let pass = !blacklisted && samples_ok;
    let mut failed = evidence_failures(&record.info[allele], t);
    push_if(&mut failed, blacklisted, Rule::Blacklisted);
    push_if(&mut failed, !samples_ok, Rule::SampleFailure);
    let sample_failures = failures_of_each(&samples, t);
    FilterDecision { pass, failed, sample_failures }
}

/// A blacklisted position never passes, whatever its depth, qualities,
/// strand shares or samples.
pub proof fn lemma_blacklisted_never_passes(
    info: Evidence,
    position: u64,
    samples: Seq<Evidence>,
    t: FilterThresholds,
    blacklist: Seq<u64>,
    all_required: bool,
)
    requires
        blacklist.contains(position),
    ensures
        !site_passes(position, samples, t, blacklist, all_required),
        site_failures(info, position, samples, t, blacklist, all_required).contains(
            Rule::Blacklisted,
        ),
{
    let q = quality_failures(info, t);
    let s = site_failures(info, position, samples, t, blacklist, all_required);
    assert(s[q.len() as int] == Rule::Blacklisted);
}

/// At a position off the blacklist, with one sample failing and another
/// passing: the site fails when every sample is required and passes when one
/// passing sample is enough, whatever the site-level evidence.
pub proof fn lemma_sample_aggregation(
    position: u64,
    samples: Seq<Evidence>,
    t: FilterThresholds,
    blacklist: Seq<u64>,
    failing: int,
    passing: int,
)
    requires
        !blacklist.contains(position),
        0 <= failing < samples.len(),
        0 <= passing < samples.len(),
        !sample_passes(samples[failing], t),
        sample_passes(samples[passing], t),
    ensures
        !site_passes(position, samples, t, blacklist, true),
        site_passes(position, samples, t, blacklist, false),
{
}

} // verus!
