use mity::text::{
    decimal_string, file_name, file_stem, join_path_text, join_text, last_segment_text,
    remove_all_text, replace_all_text, same_text, split_lines, starts_with_text,
};

#[test]
fn decimal_rendering() {
    assert_eq!(decimal_string(0), "0");
    assert_eq!(decimal_string(7), "7");
    assert_eq!(decimal_string(16569), "16569");
    assert_eq!(decimal_string(u64::MAX), "18446744073709551615");
}

#[test]
fn text_comparison_and_prefix() {
    assert!(same_text("abc", "abc"));
    assert!(!same_text("abc", "abd"));
    assert!(!same_text("abc", "ab"));
    assert!(starts_with_text("##source=x", "##source"));
    assert!(!starts_with_text("#source", "##source"));
    assert!(starts_with_text("x", ""));
}

#[test]
fn replacement_is_left_to_right_without_overlap() {
    assert_eq!(remove_all_text("a.mity.mity.b", ".mity"), "a.b");
    assert_eq!(remove_all_text("aaa", "aa"), "a");
    assert_eq!(remove_all_text("abc", ""), "abc");
    assert_eq!(replace_all_text("x.vcf.gz", ".vcf.gz", ".filtered.vcf"), "x.filtered.vcf");
    assert_eq!(replace_all_text("ababa", "aba", "X"), "Xba");
}

#[test]
fn lines_follow_line_feeds() {
    assert_eq!(split_lines(""), Vec::<String>::new());
    assert_eq!(split_lines("a\nb\n"), vec!["a", "b"]);
    assert_eq!(split_lines("a\r\nb"), vec!["a", "b"]);
    assert_eq!(split_lines("a\n\nb"), vec!["a", "", "b"]);
    assert_eq!(split_lines("a\r"), vec!["a\r"]);
    assert_eq!(split_lines("\n"), vec![""]);
    let text = "x\r\ny\n\nz";
    let ours: Vec<String> = split_lines(text);
    let std_lines: Vec<String> = text.lines().map(String::from).collect();
    assert_eq!(ours, std_lines);
}

#[test]
fn file_names_and_stems() {
    assert_eq!(file_name("/data/a/sample.bam"), Some("sample.bam".to_string()));
    assert_eq!(file_name("sample.bam"), Some("sample.bam".to_string()));
    assert_eq!(file_name("dir/sub/"), Some("sub".to_string()));
    assert_eq!(file_name("dir/sub/."), Some("sub".to_string()));
    assert_eq!(file_name("dir/.."), None);
    assert_eq!(file_name("/"), None);
    assert_eq!(file_name(""), None);
    assert_eq!(file_stem("sample.bam"), "sample");
    assert_eq!(file_stem("a.b.c"), "a.b");
    assert_eq!(file_stem(".bashrc"), ".bashrc");
    assert_eq!(file_stem("noext"), "noext");
    for p in ["/data/a/sample.bam", "x/y.z.cram", "dir/sub/", "a/.hidden", "plain"] {
        let std_name = std::path::Path::new(p)
            .file_name()
            .map(|s| s.to_string_lossy().to_string());
        assert_eq!(file_name(p), std_name);
        let std_stem = std::path::Path::new(p)
            .file_stem()
            .unwrap_or_default()
            .to_string_lossy()
            .to_string();
        assert_eq!(file_name(p).map(|n| file_stem(&n)).unwrap_or_default(), std_stem);
    }
}

#[test]
fn joining() {
    assert_eq!(join_text(&vec![], ", "), "");
    assert_eq!(join_text(&vec!["a".to_string()], ", "), "a");
    assert_eq!(join_text(&vec!["a".to_string(), "b".to_string(), "c".to_string()], ", "), "a, b, c");
    assert_eq!(join_path_text("out", "x.vcf.gz"), "out/x.vcf.gz");
    assert_eq!(join_path_text("out/", "x.vcf.gz"), "out/x.vcf.gz");
    assert_eq!(join_path_text("", "x.vcf.gz"), "x.vcf.gz");
    assert_eq!(last_segment_text("a/b/c.vcf.gz"), "c.vcf.gz");
    assert_eq!(last_segment_text("c.vcf.gz"), "c.vcf.gz");
    assert_eq!(last_segment_text("a/"), "");
}
