use mity::check::{mity_check, required_commands};
use mity::error::MityError;
use mity::mity_util::{
    annot_file_path, fasta_pattern, genome_pattern, get_annot_file, gsort, make_prefix,
    select_reference_fasta, select_reference_genome, tabix, GenomeBuild,
};
use mity::normalise::Normalise;

#[test]
fn vcf_prefix_drops_pipeline_name_parts() {
    assert_eq!(make_prefix("/out/trio.mity.call.vcf.gz"), "trio");
    assert_eq!(make_prefix("x.mity.normalise.vcf.gz"), "x");
    assert_eq!(make_prefix("dir/a.merge.report.vcf.gz"), "a");
    assert_eq!(make_prefix("sample.vcf"), "sample.vcf");
}

#[test]
fn annotation_files() {
    assert_eq!(annot_file_path("/opt/mity", "a.vcf.gz"), "/opt/mity/annot/a.vcf.gz");
    assert_eq!(get_annot_file("/opt/mity", "a.vcf.gz", true).unwrap(), "/opt/mity/annot/a.vcf.gz");
    let e = get_annot_file("/opt/mity/", "b.txt", false).unwrap_err();
    assert!(matches!(e, MityError::Io(_)));
    assert_eq!(annot_file_path("/opt/mity", "/abs/a.txt"), "/abs/a.txt");
    assert_eq!(get_annot_file("x", "/abs", true).unwrap(), "/abs");
    let std_join = std::path::Path::new("x").join("annot").join("/abs");
    assert_eq!(std_join.to_string_lossy(), "/abs");
    assert_eq!(e.message(), "Annotation file not found: /opt/mity/annot/b.txt");
}

#[test]
fn reference_selection() {
    assert_eq!(fasta_pattern("/m", "hg19"), "/m/reference/hg19.fa");
    assert_eq!(genome_pattern("/m", "mm10"), "/m/reference/mm10.genome");
    let one = vec!["/m/reference/hg19.fa".to_string()];
    assert_eq!(select_reference_fasta(None, false, &one).unwrap(), "/m/reference/hg19.fa");
    assert_eq!(select_reference_fasta(Some("/my.fa"), true, &vec![]).unwrap(), "/my.fa");
    assert_eq!(select_reference_fasta(Some("/my.fa"), false, &one).unwrap(), "/m/reference/hg19.fa");
    let two = vec!["a.genome".to_string(), "b.genome".to_string()];
    match select_reference_genome(None, false, &two) {
        Err(MityError::ReferenceNotFound(v)) => assert_eq!(v, two),
        other => panic!("unexpected {:?}", other),
    }
    let e = select_reference_genome(Some("/x"), false, &vec![]).unwrap_err();
    assert_eq!(e.message(), "Expected exactly one reference file, found: []");
}

#[test]
fn genome_builds() {
    assert_eq!(GenomeBuild::parse("hg38"), Some(GenomeBuild::Hg38));
    assert_eq!(GenomeBuild::parse("HG38"), None);
    let names: Vec<&str> = GenomeBuild::all().iter().map(|b| b.name()).collect();
    assert_eq!(names, vec!["hs37d5", "hg19", "hg38", "mm10"]);
}

#[test]
fn tool_arguments() {
    assert_eq!(tabix("o.vcf.gz"), vec!["-f", "o.vcf.gz"]);
    assert_eq!(gsort("in.vcf", "hg19.genome"), vec!["in.vcf", "hg19.genome"]);
}

#[test]
fn check_report_lines() {
    assert_eq!(required_commands(), vec!["freebayes", "tabix", "gsort"]);
    let r = mity_check(&vec![true, false, true], 8, &Some((vec![true, false, true, true], vec![true, true, true, false])));
    let got: Vec<(bool, String)> = r.into_iter().map(|l| (l.is_error, l.text)).collect();
    let want: Vec<(bool, String)> = vec![
        (false, "Checking for required commands...".to_string()),
        (true, "Error: Command 'tabix' is not installed or not in PATH.".to_string()),
        (false, "".to_string()),
        (false, "Number of available threads: 8\n".to_string()),
        (false, "Checking for required genome files...".to_string()),
        (true, "Reference fasta for 'hg19' is missing.".to_string()),
        (true, "Reference genome for 'mm10' is missing.".to_string()),
    ];
    assert_eq!(got, want);
    let r = mity_check(&vec![true, true, true], 1, &None);
    assert_eq!(r.len(), 4);
    assert!(r[3].is_error);
    assert_eq!(r[3].text, "Mity directory not found! Likely an issue with installation.");
}

#[test]
fn normalise_paths() {
    let n = Normalise::new(
        false,
        "/calls/trio.mity.call.vcf.gz".to_string(),
        "ref.fa".to_string(),
        "ref.genome".to_string(),
        "out".to_string(),
        None,
        true,
        false,
        "0.002".to_string(),
    );
    assert_eq!(n.prefix.as_deref(), Some("trio.mity.call.vcf.gz"));
    assert_eq!(n.bcftools_norm_path, "out/trio.mity.call.vcf.gz.bcftools.norm.vcf.gz");
    assert_eq!(n.filtered_vcf_path, "/calls/trio.mity.call.filtered.vcf");
    assert_eq!(n.normalised_vcf_path, "out/trio.mity.call.vcf.gz.mity.normalise.vcf.gz");
    assert_eq!(
        n.remove_intermediate_files(),
        vec![n.filtered_vcf_path.clone(), n.bcftools_norm_path.clone()]
    );
    let mut own = Normalise::new(
        false,
        "out/t.mity.call.vcf.gz".to_string(),
        "ref.fa".to_string(),
        "ref.genome".to_string(),
        "out".to_string(),
        Some("t".to_string()),
        false,
        false,
        "0.002".to_string(),
    );
    own.remove_input = true;
    assert_eq!(
        own.remove_intermediate_files(),
        vec![
            "out/t.mity.call.filtered.vcf".to_string(),
            "out/t.bcftools.norm.vcf.gz".to_string(),
            "out/t.mity.call.vcf.gz".to_string()
        ]
    );
    // An input that is the final output itself is never listed.
    let mut same = Normalise::new(
        false,
        "o/p.mity.normalise.vcf.gz".to_string(),
        "r.fa".to_string(),
        "r.genome".to_string(),
        "o".to_string(),
        Some("p".to_string()),
        false,
        false,
        "0.002".to_string(),
    );
    same.remove_input = true;
    assert!(!same.remove_intermediate_files().contains(&same.normalised_vcf_path));
    let abs = Normalise::new(
        false,
        "a.vcf.gz".to_string(),
        "r.fa".to_string(),
        "r.genome".to_string(),
        "o".to_string(),
        Some("/tmp/p".to_string()),
        false,
        false,
        "0.002".to_string(),
    );
    assert_eq!(abs.normalised_vcf_path, "/tmp/p.mity.normalise.vcf.gz");
    assert_eq!(n.decompose_args()[0], "norm");
    assert_eq!(n.pipeline().stages.len(), 4);
    let kept = Normalise::new(
        false,
        "a.vcf.gz".to_string(),
        "r.fa".to_string(),
        "r.genome".to_string(),
        "o".to_string(),
        Some("p".to_string()),
        false,
        true,
        "0.002".to_string(),
    );
    assert!(kept.remove_intermediate_files().is_empty());
    assert_eq!(kept.normalised_vcf_path, "o/p.mity.normalise.vcf.gz");
    assert_eq!(kept.bcftools_norm_path, "o/p.bcftools.norm.vcf.gz");
}
