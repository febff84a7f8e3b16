use mity::call::{rewrite_header_line, Call};
use mity::contig::{HeaderSummary, ReferenceSequence};
use mity::error::{ConfigIssue, MityError};
use mity::pipeline::{PipelineAction, Stage, StageOutcome};

fn header(read_groups: usize) -> HeaderSummary {
    HeaderSummary {
        sequences: vec![
            ReferenceSequence { name: "chr1".to_string(), length: Some(249250621) },
            ReferenceSequence { name: "chrM".to_string(), length: Some(16569) },
        ],
        read_groups,
    }
}

fn call(files: &[&str], prefix: Option<&str>, normalise: bool, genome: Option<&str>) -> Call {
    Call::new(
        false,
        files.iter().map(|s| s.to_string()).collect(),
        "ref/hg19.fa".to_string(),
        genome.map(String::from),
        prefix.map(String::from),
        None,
        None,
        None,
        None,
        None,
        normalise,
        "out".to_string(),
        None,
        false,
        false,
    )
}

#[test]
fn defaults_fill_unset_thresholds() {
    let c = call(&["a.bam"], None, false, None);
    assert_eq!(c.min_mq, 30);
    assert_eq!(c.min_bq, 24);
    assert_eq!(c.min_af, "0.01");
    assert_eq!(c.min_ac, 4);
    assert_eq!(c.p, "0.002");
    let c = Call::new(
        true,
        vec!["a.bam".to_string()],
        "r.fa".to_string(),
        None,
        None,
        Some(20),
        Some(10),
        Some("0.05".to_string()),
        Some(2),
        Some("0.01".to_string()),
        false,
        ".".to_string(),
        Some("MT:1-100".to_string()),
        false,
        true,
    );
    assert_eq!((c.min_mq, c.min_bq, c.min_ac), (20, 10, 2));
    assert_eq!(c.min_af, "0.05");
    assert_eq!(c.p, "0.01");
}

#[test]
fn missing_read_groups_are_all_named() {
    let c = call(&["A.bam", "B.bam", "C.bam"], Some("trio"), false, None);
    let exists = vec![true, true, true];
    let headers = vec![Some(header(0)), Some(header(1)), Some(header(0))];
    match c.run_checks(&exists, &headers) {
        Err(MityError::MissingReadGroups(files)) => {
            assert_eq!(files, vec!["A.bam".to_string(), "C.bam".to_string()])
        }
        other => panic!("unexpected {:?}", other),
    }
    let e = c.plan(&exists, &headers).unwrap_err();
    assert_eq!(e.message(), "The BAM/CRAM files: A.bam, C.bam lack an @RG header");
}

#[test]
fn unreadable_header_is_an_io_error() {
    let c = call(&["A.bam", "B.bam", "C.bam"], Some("x"), false, None);
    match c.run_checks(&vec![true, true, true], &vec![Some(header(0)), None, None]) {
        Err(MityError::UnreadableHeaders(files)) => {
            assert_eq!(files, vec!["B.bam".to_string(), "C.bam".to_string()])
        }
        other => panic!("unexpected {:?}", other),
    }
    let e = c.plan(&vec![true, true, true], &vec![Some(header(1)), None, Some(header(1))]).unwrap_err();
    assert_eq!(e.message(), "Could not read the header of: B.bam");
}

#[test]
fn missing_files_are_all_named() {
    let c = call(&["A.bam", "B.bam", "C.bam"], None, false, None);
    let e = c.run_checks(&vec![false, true, false], &vec![None, Some(header(1)), None]);
    match e {
        Err(MityError::MissingFiles(files)) => {
            assert_eq!(files, vec!["A.bam".to_string(), "C.bam".to_string()])
        }
        other => panic!("unexpected {:?}", other),
    }
}

#[test]
fn several_inputs_without_prefix_is_a_config_error() {
    let c = call(&["A.bam", "B.bam"], None, false, None);
    let exists = vec![true, true];
    let headers = vec![Some(header(1)), Some(header(1))];
    match c.plan(&exists, &headers) {
        Err(e) => {
            assert!(matches!(e, MityError::Config(ConfigIssue::PrefixRequired)));
            assert!(e.message().contains("prefix must be set"));
        }
        Ok(_) => panic!("expected a configuration error"),
    }
}

#[test]
fn normalise_without_genome_is_a_config_error() {
    let c = call(&["A.bam"], None, true, None);
    let r = c.run_checks(&vec![true], &vec![Some(header(1))]);
    assert!(matches!(r, Err(MityError::Config(ConfigIssue::GenomeRequired))));
    let c = call(&[], None, false, None);
    assert!(c.run_checks(&vec![], &vec![]).is_ok());
    let r = c.plan(&vec![], &vec![]);
    assert!(matches!(r, Err(MityError::Config(ConfigIssue::NoInputs))));
}

#[test]
fn end_to_end_trio_naming() {
    let c = call(&["/data/A.bam", "/data/B.bam"], Some("trio"), false, None);
    let exists = vec![true, true];
    let headers = vec![Some(header(1)), Some(header(1))];
    let q = c.plan(&exists, &headers).unwrap();
    assert_eq!(q.region, "chrM:1-16569");
    assert_eq!(q.call_vcf_path, "out/trio.mity.call.vcf.gz");
    assert_eq!(q.normalised_vcf_path, None);
    assert_eq!(q.index_target(), "out/trio.mity.call.vcf.gz");
    let p = q.pipeline();
    assert_eq!(p.stages, vec![Stage::Call, Stage::Rewrite, Stage::Compress, Stage::Index]);
    let c2 = call(&["/data/A.bam", "/data/B.bam"], None, false, None);
    let e = c2.plan(&exists, &headers).unwrap_err();
    assert!(matches!(e, MityError::Config(_)));
    assert!(e.message().contains("prefix must be set"));
}

#[test]
fn prefix_derived_from_single_input() {
    let c = call(&["/data/run1/sample.A.bam"], None, true, Some("ref/hg19.genome"));
    let q = c.plan(&vec![true], &vec![Some(header(1))]).unwrap();
    assert_eq!(q.prefix, "sample.A");
    assert_eq!(q.call_vcf_path, "out/sample.A.mity.call.vcf.gz");
    assert_eq!(q.normalised_vcf_path, Some("out/sample.A.mity.normalise.vcf.gz".to_string()));
    assert_eq!(q.mity_cmd, "##mityCommandline=\"mity call --reference ref/hg19.fa --prefix sample.A ...\"");
    assert_eq!(q.index_target(), "out/sample.A.mity.normalise.vcf.gz");
    let n = q.normaliser().unwrap();
    assert_eq!(n.prefix.as_deref(), Some("sample.A"));
    assert_eq!(n.bcftools_norm_path, "out/sample.A.bcftools.norm.vcf.gz");
    assert!(!n.allsamples);
    assert_eq!(n.vcf, "out/sample.A.mity.call.vcf.gz");
    assert_eq!(n.normalised_vcf_path, "out/sample.A.mity.normalise.vcf.gz");
    assert_eq!(n.genome, "ref/hg19.genome");
    let p = q.pipeline();
    assert_eq!(p.stages.len(), 7);
    assert_eq!(p.discard, vec![q.call_vcf_path.clone(), "out/sample.A.mity.normalise.vcf.gz".to_string()]);
    assert_eq!(c.make_prefix("dir/x.y.bam"), "x.y");
    assert_eq!(c.make_prefix("/"), "");
}

#[test]
fn explicit_region_is_kept_and_contig_errors_surface() {
    let mut c = call(&["A.bam"], None, false, None);
    c.region = Some("MT:100-200".to_string());
    let h = HeaderSummary { sequences: vec![], read_groups: 1 };
    let q = c.plan(&vec![true], &vec![Some(HeaderSummary { sequences: vec![], read_groups: 1 })]).unwrap();
    assert_eq!(q.region, "MT:100-200");
    c.region = None;
    let e = c.plan(&vec![true], &vec![Some(h)]).unwrap_err();
    assert!(matches!(e, MityError::ContigResolution(ref v) if v.is_empty()));
}

#[test]
fn caller_arguments_in_order() {
    let c = call(&["A.bam", "B.bam"], Some("duo"), false, None);
    let q = c.plan(&vec![true, true], &vec![Some(header(1)), Some(header(1))]).unwrap();
    let args = q.caller_args();
    let expected: Vec<String> = [
        "-f", "ref/hg19.fa", "-b", "A.bam", "-b", "B.bam", "--min-mapping-quality", "30",
        "--min-base-quality", "24", "--min-alternate-fraction", "0.01", "--min-alternate-count",
        "4", "--ploidy", "2", "--region", "chrM:1-16569",
    ]
    .iter()
    .map(|s| s.to_string())
    .collect();
    assert_eq!(args, expected);
}

#[test]
fn header_lines_are_renamed() {
    let cmd = "##mityCommandline=\"mity call\"";
    assert_eq!(rewrite_header_line("##source=freeBayes v1.3", cmd), "##freebayesSource=freeBayes v1.3");
    assert_eq!(rewrite_header_line("##commandline=\"freebayes -f\"", cmd), "##freebayesCommandline=\"freebayes -f\"");
    assert_eq!(rewrite_header_line("##phasing=none", cmd), cmd);
    assert_eq!(rewrite_header_line("##fileformat=VCFv4.2", cmd), "##fileformat=VCFv4.2");
    assert_eq!(rewrite_header_line("chrM\t1\t.\tA\tG", cmd), "chrM\t1\t.\tA\tG");
    let c = call(&["a.bam"], None, false, None);
    let q = c.plan(&vec![true], &vec![Some(header(1))]).unwrap();
    let out = q.rewrite_header("##fileformat=VCFv4.2\n##source=fb\n##phasing=none\n#CHROM\n");
    assert_eq!(
        out,
        format!("##fileformat=VCFv4.2\n##freebayesSource=fb\n{}\n#CHROM\n", q.mity_cmd)
    );
}

#[test]
fn list_mode_reads_one_path_per_line() {
    let mut c = call(&["list.txt"], Some("batch"), false, None);
    c.bam_list = true;
    assert_eq!(c.list_source().unwrap(), "list.txt");
    c.get_files_from_list("a.bam\r\nb.bam\nc.bam\n").unwrap();
    assert_eq!(c.files, vec!["a.bam", "b.bam", "c.bam"]);
    let mut two = call(&["l1", "l2"], None, false, None);
    assert!(matches!(two.list_source(), Err(MityError::Config(ConfigIssue::ListNeedsOneFile))));
    let e = two.get_files_from_list("x\n").unwrap_err();
    assert_eq!(e.message(), "--bam-file-list argument expects only 1 file to be provided.");
    assert_eq!(two.files, vec!["l1", "l2"]);
}

#[test]
fn failed_call_stage_discards_output() {
    let c = call(&["A.bam", "B.bam"], Some("trio"), false, None);
    let q = c.plan(&vec![true, true], &vec![Some(header(1)), Some(header(1))]).unwrap();
    let mut p = q.pipeline();
    assert!(matches!(p.first_action(), PipelineAction::Run(Stage::Call)));
    match p.record(StageOutcome::Failed("boom".to_string())) {
        PipelineAction::Abort { error, discard } => {
            assert_eq!(discard, vec!["out/trio.mity.call.vcf.gz".to_string()]);
            assert_eq!(error.message(), "freebayes failed: boom");
        }
        other => panic!("unexpected {:?}", other),
    }
}
