use mity::filter::{
    filter_labels, aggregate_samples, evidence_failures, filter_record, strand_share_ok, BlacklistSet,
    FilterThresholds, Rule,
};
use mity::record::{Evidence, VariantRecord};

fn good() -> Evidence {
    Evidence {
        depth: 100,
        ref_mapping_quality: 5000,
        alt_base_quality: 3000,
        alt_forward: 10,
        alt_reverse: 10,
    }
}

fn bad() -> Evidence {
    Evidence { depth: 3, ..good() }
}

fn record(position: u64, info: Evidence, samples: Vec<Evidence>) -> VariantRecord {
    VariantRecord {
        contig: "chrM".to_string(),
        position,
        reference: "A".to_string(),
        alts: vec!["G".to_string()],
        quality: Some(10000),
        info: vec![info],
        samples: samples.into_iter().map(|s| vec![s]).collect(),
        genotypes: vec![],
    }
}

#[test]
fn standard_thresholds() {
    let t = FilterThresholds::standard();
    assert_eq!(t.min_depth, 15);
    assert_eq!(t.min_ref_mapping_quality, 3000);
    assert_eq!(t.min_alt_base_quality, 2000);
    assert_eq!((t.strand_low, t.strand_high), (100, 900));
}

#[test]
fn each_rule_reports_its_own_failure() {
    let t = FilterThresholds::standard();
    assert!(evidence_failures(&good(), &t).is_empty());
    let e = Evidence { depth: 14, ref_mapping_quality: 2999, alt_base_quality: 1999, alt_forward: 0, alt_reverse: 5 };
    assert_eq!(
        evidence_failures(&e, &t),
        vec![Rule::LowDepth, Rule::LowMappingQuality, Rule::LowBaseQuality, Rule::StrandBias]
    );
    let edge = Evidence { depth: 15, ref_mapping_quality: 3000, alt_base_quality: 2000, ..good() };
    assert!(evidence_failures(&edge, &t).is_empty());
}

#[test]
fn strand_share_bounds_are_closed() {
    let t = FilterThresholds::standard();
    let share = |f: u32, r: u32| strand_share_ok(&Evidence { alt_forward: f, alt_reverse: r, ..good() }, &t);
    assert!(share(1, 9));
    assert!(share(9, 1));
    assert!(!share(0, 10));
    assert!(!share(10, 0));
    assert!(!share(1, 10));
    assert!(!share(0, 0));
    assert!(share(u32::MAX, u32::MAX));
}

#[test]
fn blacklisted_position_never_passes() {
    let t = FilterThresholds::standard();
    let bl = BlacklistSet::standard();
    assert!(bl.contains(302) && bl.contains(318) && bl.contains(3107));
    assert!(!bl.contains(301) && !bl.contains(319) && !bl.contains(3108));
    for pos in [302u64, 310, 3105] {
        let d = filter_record(&record(pos, good(), vec![good(), good()]), 0, &t, &bl, false);
        assert!(!d.pass);
        assert_eq!(d.failed, vec![Rule::Blacklisted]);
    }
    let d = filter_record(&record(1000, good(), vec![good()]), 0, &t, &bl, true);
    assert!(d.pass);
    assert!(d.failed.is_empty());
}

#[test]
fn all_samples_required_changes_the_outcome() {
    let t = FilterThresholds::standard();
    let bl = BlacklistSet::standard();
    let rec = record(1000, good(), vec![good(), bad(), good()]);
    let strict = filter_record(&rec, 0, &t, &bl, true);
    assert!(!strict.pass);
    assert_eq!(strict.failed, vec![Rule::SampleFailure]);
    assert_eq!(strict.sample_failures[1], vec![Rule::LowDepth]);
    assert_eq!(filter_labels(&strict), vec!["SAMPLE_FAIL".to_string()]);
    let lenient = filter_record(&rec, 0, &t, &bl, false);
    assert!(lenient.pass);
    assert!(aggregate_samples(&vec![bad(), bad()], &t, false) == false);
    assert!(aggregate_samples(&vec![], &t, true));
    assert!(!aggregate_samples(&vec![], &t, false));
}

#[test]
fn site_evidence_does_not_veto_passing_samples() {
    let t = FilterThresholds::standard();
    let bl = BlacklistSet::standard();
    let rec = record(1000, bad(), vec![good(), good(), bad()]);
    let d = filter_record(&rec, 0, &t, &bl, false);
    assert!(d.pass);
    assert_eq!(d.failed, vec![Rule::LowDepth]);
    assert_eq!(d.sample_failures, vec![vec![], vec![], vec![Rule::LowDepth]]);
    assert_eq!(filter_labels(&d), vec!["PASS".to_string()]);
}

#[test]
fn each_allele_is_decided_on_its_own_evidence() {
    let t = FilterThresholds::standard();
    let bl = BlacklistSet::standard();
    let rec = VariantRecord {
        contig: "chrM".to_string(),
        position: 1000,
        reference: "A".to_string(),
        alts: vec!["G".to_string(), "T".to_string()],
        quality: None,
        info: vec![good(), bad()],
        samples: vec![vec![good(), bad()]],
        genotypes: vec![vec![Some(1), Some(2)]],
    };
    assert!(filter_record(&rec, 0, &t, &bl, true).pass);
    let second = filter_record(&rec, 1, &t, &bl, true);
    assert!(!second.pass);
    assert_eq!(second.failed, vec![Rule::LowDepth, Rule::SampleFailure]);
}

#[test]
fn failures_accumulate_in_rule_order() {
    let t = FilterThresholds::standard();
    let bl = BlacklistSet::standard();
    let d = filter_record(&record(303, bad(), vec![bad()]), 0, &t, &bl, false);
    assert_eq!(d.failed, vec![Rule::LowDepth, Rule::Blacklisted, Rule::SampleFailure]);
    assert!(!d.pass);
}
