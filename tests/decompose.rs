use mity::decompose::{decompose, decompose_record, normalize_allele};
use mity::record::{Evidence, VariantRecord};

fn ev() -> Evidence {
    Evidence { depth: 20, ref_mapping_quality: 4000, alt_base_quality: 3000, alt_forward: 3, alt_reverse: 4 }
}

fn ev_n(n: u32) -> Evidence {
    Evidence { alt_forward: n, ..ev() }
}

fn rec(position: u64, reference: &str, alts: &[&str]) -> VariantRecord {
    let n = alts.len() as u32;
    VariantRecord {
        contig: "MT".to_string(),
        position,
        reference: reference.to_string(),
        alts: alts.iter().map(|s| s.to_string()).collect(),
        quality: Some(5000),
        info: (0..n).map(ev_n).collect(),
        samples: vec![(0..n).map(|i| ev_n(10 + i)).collect(), (0..n).map(|i| ev_n(20 + i)).collect()],
        genotypes: vec![vec![Some(0), Some(n)], vec![Some(1), None]],
    }
}

fn summary(rs: &[VariantRecord]) -> Vec<(u64, String, Vec<String>)> {
    rs.iter().map(|r| (r.position, r.reference.clone(), r.alts.clone())).collect()
}

// Positions 1..=12 of a small contig.
const CONTIG: &str = "GATTACAACCCA";

#[test]
fn normal_form_of_an_allele() {
    // A SNV: nothing to align or trim.
    assert_eq!(normalize_allele(CONTIG, 2, "A", "C"), (2, "A".to_string(), "C".to_string()));
    // A shared trailing base is dropped, then a shared leading one.
    assert_eq!(normalize_allele(CONTIG, 2, "AT", "CT"), (2, "A".to_string(), "C".to_string()));
    // Deleting one A of the run at 7-8 is anchored on the C at 6.
    assert_eq!(normalize_allele(CONTIG, 7, "AA", "A"), (6, "CA".to_string(), "C".to_string()));
    assert_eq!(normalize_allele(CONTIG, 6, "CA", "C"), (6, "CA".to_string(), "C".to_string()));
    // Inserting a C into the run of Cs at 9-11 moves to just before the run.
    assert_eq!(normalize_allele(CONTIG, 10, "C", "CC"), (8, "A".to_string(), "AC".to_string()));
    // Shared leading bases go, keeping one base on each side.
    assert_eq!(normalize_allele(CONTIG, 1, "GATT", "GATC"), (4, "T".to_string(), "C".to_string()));
}

#[test]
fn one_record_per_allele() {
    let genome = "N".repeat(99) + "ACGTCCCC";
    let out = decompose_record(&genome, &rec(100, "ACGT", &["AGGT", "ACG", "ACGTT"]));
    assert_eq!(
        summary(&out),
        vec![
            (101, "C".to_string(), vec!["G".to_string()]),
            (102, "GT".to_string(), vec!["G".to_string()]),
            (102, "G".to_string(), vec!["GT".to_string()]),
        ]
    );
    assert_eq!(out[0].samples.len(), 2);
    assert_eq!(out[0].quality, Some(5000));
    assert_eq!(out[1].info, vec![ev_n(1)]);
    assert_eq!(out[2].samples, vec![vec![ev_n(12)], vec![ev_n(22)]]);
    // Genotypes 0/3 and 1/. seen from each allele in turn.
    assert_eq!(out[0].genotypes, vec![vec![Some(0), Some(0)], vec![Some(1), None]]);
    assert_eq!(out[1].genotypes, vec![vec![Some(0), Some(0)], vec![Some(0), None]]);
    assert_eq!(out[2].genotypes, vec![vec![Some(0), Some(1)], vec![Some(0), None]]);
    let none = decompose_record(&genome, &rec(5, "A", &[]));
    assert!(none.is_empty());
}

#[test]
fn decomposing_twice_equals_once() {
    let genome = "GATTACAACCCA".repeat(30);
    let input = vec![
        rec(100, "ACGT", &["AGGT", "ACG"]),
        rec(200, "T", &["C"]),
        rec(300, "GA", &[]),
        rec(19, "AA", &["A", "AAA"]),
    ];
    let once = decompose(&genome, &input);
    let twice = decompose(&genome, &once);
    assert_eq!(summary(&once), summary(&twice));
    assert_eq!(once.len(), 5);
    for (a, b) in once.iter().zip(twice.iter()) {
        assert_eq!(a.info, b.info);
        assert_eq!(a.samples, b.samples);
        assert_eq!(a.genotypes, b.genotypes);
    }
}
