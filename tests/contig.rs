use mity::contig::{
    bam_get_mt_contig, is_mito_contig, locate_mt_contig, mito_candidates, vcf_get_mt_contig,
    HeaderSummary, ReferenceSequence,
};
use mity::error::MityError;

fn header(seqs: &[(&str, Option<u64>)], read_groups: usize) -> HeaderSummary {
    HeaderSummary {
        sequences: seqs
            .iter()
            .map(|(n, l)| ReferenceSequence { name: n.to_string(), length: *l })
            .collect(),
        read_groups,
    }
}

#[test]
fn single_chrm_contig_gives_whole_region() {
    let h = header(&[("chr1", Some(249250621)), ("chrM", Some(16569)), ("chrX", Some(155270560))], 1);
    assert_eq!(bam_get_mt_contig(&h).unwrap(), "chrM:1-16569");
}

#[test]
fn single_mt_contig_gives_whole_region() {
    let h = header(&[("1", Some(249250621)), ("MT", Some(16569))], 1);
    assert_eq!(bam_get_mt_contig(&h).unwrap(), "MT:1-16569");
    let g = locate_mt_contig(&h).unwrap();
    assert_eq!(g.contig, "MT");
    assert_eq!(g.start, 1);
    assert_eq!(g.end, 16569);
}

#[test]
fn no_mito_contig_is_an_error_naming_none() {
    let h = header(&[("chr1", Some(100)), ("chrMT", Some(50)), ("mt", Some(10))], 1);
    match bam_get_mt_contig(&h) {
        Err(MityError::ContigResolution(c)) => assert!(c.is_empty()),
        other => panic!("unexpected {:?}", other),
    }
}

#[test]
fn two_mito_contigs_are_an_error_naming_both() {
    let h = header(&[("MT", Some(16569)), ("chr1", Some(100)), ("chrM", Some(16571))], 1);
    match bam_get_mt_contig(&h) {
        Err(MityError::ContigResolution(c)) => {
            assert_eq!(c, vec!["MT".to_string(), "chrM".to_string()])
        }
        other => panic!("unexpected {:?}", other),
    }
    match locate_mt_contig(&h) {
        Err(e) => assert_eq!(
            e.message(),
            "Expected exactly one mitochondrial contig, found: [MT, chrM]"
        ),
        Ok(_) => panic!("expected an error"),
    }
}

#[test]
fn mito_names_match_exactly() {
    assert!(is_mito_contig("MT"));
    assert!(is_mito_contig("chrM"));
    assert!(!is_mito_contig("chrm"));
    assert!(!is_mito_contig("M"));
    assert!(!is_mito_contig("MT "));
    let h = header(&[("chrM", Some(1)), ("x", Some(2)), ("MT", Some(3))], 0);
    let m = mito_candidates(&h);
    assert_eq!(m.len(), 2);
    assert_eq!(m[1].length, Some(3));
}

#[test]
fn variant_header_contig_keeps_length() {
    let h = header(&[("chrM", Some(16571))], 0);
    assert_eq!(vcf_get_mt_contig(&h).unwrap(), ("chrM".to_string(), 16571));
}

#[test]
fn contig_without_usable_length_is_an_error() {
    for length in [None, Some(0)] {
        let h = header(&[("chr1", Some(5)), ("MT", length)], 1);
        match vcf_get_mt_contig(&h) {
            Err(MityError::ContigWithoutLength(n)) => assert_eq!(n, "MT"),
            other => panic!("unexpected {:?}", other),
        }
        let e = locate_mt_contig(&h).unwrap_err();
        assert_eq!(e.message(), "Mitochondrial contig MT declares no length");
        assert!(bam_get_mt_contig(&h).is_err());
    }
}
