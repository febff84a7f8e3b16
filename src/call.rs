//! The call orchestrator: input checks, output naming, region resolution and
//! the request handed to the pipeline.
use vstd::prelude::*;

use crate::contig::{
    bam_get_mt_contig, mito_sequences, resolution_error, resolves, whole_contig_text, HeaderSummary,
};
use crate::error::{err_view, ConfigIssue, ErrorView, MityError};
use crate::normalise::Normalise;
use crate::pipeline::{ActionView, Pipeline, Stage, StageOutcome};
use crate::text::{
    decimal, decimal_string, file_name_of, file_stem, join_path, join_path_text, lines, occurs_at,
    split_lines, starts_with_text, stem_of,
};

verus! {

/// Default minimum mapping quality.
pub const MIN_MQ: u32 = 30;

/// Default minimum base quality.
pub const MIN_BQ: u32 = 24;

/// Default minimum count of alternate-supporting reads.
pub const MIN_AC: u32 = 4;

/// The configuration of one `call` invocation, as given.
///
/// Fractional values (the minimum alternate fraction and the noise rate) are
/// kept as the decimal text handed to the external tools.
#[derive(Debug)]
pub struct Call {
    pub debug: bool,
    pub files: Vec<String>,
    pub reference: String,
    pub genome: Option<String>,
    pub prefix: Option<String>,
    pub min_mq: u32,
    pub min_bq: u32,
    pub min_af: String,
    pub min_ac: u32,
    pub p: String,
    pub normalise: bool,
    pub output_dir: String,
    pub region: Option<String>,
    pub bam_list: bool,
    pub keep: bool,
    /// A site passes only when every sample passes (otherwise one suffices).
    pub all_samples: bool,
}

/// Whether a probed header declares at least one read group; an unreadable
/// header declares none.
pub open spec fn has_read_group(h: Option<HeaderSummary>) -> bool {
    match h {
        Some(h) => h.read_groups > 0,
        None => false,
    }
}

/// The items among the first `n` of `files` whose flag is false, in order.
pub open spec fn unflagged_upto(files: Seq<Seq<char>>, flags: Seq<bool>, n: nat) -> Seq<Seq<char>>
    decreases n,
{
    if n == 0 {
        seq![]
    } else if !flags[n - 1] {
        unflagged_upto(files, flags, (n - 1) as nat).push(files[n - 1])
    } else {
        unflagged_upto(files, flags, (n - 1) as nat)
    }
}

/// The items of `files` whose flag is false, in order.
pub open spec fn unflagged(files: Seq<Seq<char>>, flags: Seq<bool>) -> Seq<Seq<char>> {
    unflagged_upto(files, flags, files.len())
}

/// Whether each probed header could be read.
pub open spec fn readable_flags(headers: Seq<Option<HeaderSummary>>) -> Seq<bool> {
    headers.map_values(|h: Option<HeaderSummary>| h is Some)
}

/// The read-group flag of each probed header.
pub open spec fn read_group_flags(headers: Seq<Option<HeaderSummary>>) -> Seq<bool> {
    headers.map_values(|h: Option<HeaderSummary>| has_read_group(h))
}

/// The prefix derived from an input path: its file name without extension.
pub open spec fn prefix_from_path(path: Seq<char>) -> Seq<char> {
    match file_name_of(path) {
        Some(n) => stem_of(n),
        None => seq![],
    }
}

/// `<dir>/<prefix>.mity.call.vcf.gz`
pub open spec fn call_path_of(dir: Seq<char>, prefix: Seq<char>) -> Seq<char> {
    join_path(dir, prefix + ".mity.call.vcf.gz"@)
}

/// `<dir>/<prefix>.mity.normalise.vcf.gz`
pub open spec fn normalise_path_of(dir: Seq<char>, prefix: Seq<char>) -> Seq<char> {
    join_path(dir, prefix + ".mity.normalise.vcf.gz"@)
}

/// The header line that records how the call set was made.
pub open spec fn mity_command_of(reference: Seq<char>, prefix: Seq<char>) -> Seq<char> {
    "##mityCommandline=\"mity call --reference "@ + reference + " --prefix "@ + prefix
        + " ...\""@
}

/// Everything a pipeline run needs, resolved once.
#[derive(Debug)]
pub struct CallRequest {
    pub reference: String,
    pub genome: Option<String>,
    pub files: Vec<String>,
    pub prefix: String,
    pub region: String,
    pub min_mq: u32,
    pub min_bq: u32,
    pub min_af: String,
    pub min_ac: u32,
    pub p: String,
    pub normalise: bool,
    pub keep: bool,
    pub all_samples: bool,
    pub output_dir: String,
    /// The raw call output.
    pub call_vcf_path: String,
    /// The normalised output, when normalisation was asked for.
    pub normalised_vcf_path: Option<String>,
    /// The header line recording the invocation.
    pub mity_cmd: String,
}

fn collect_unflagged(files: &Vec<String>, flags: &Vec<bool>) -> (r: Vec<String>)
    requires
        flags.len() == files.len(),
    ensures
        r.deep_view() == unflagged(files.deep_view(), flags@),
{
    let mut out: Vec<String> = Vec::new();
    let mut i: usize = 0;
    while i < files.len()
        invariant
            i <= files.len(),
            flags.len() == files.len(),
            out.deep_view() == unflagged_upto(files.deep_view(), flags@, i as nat),
        decreases files.len() - i,
    {
        if !flags[i] {
            out.push(files[i].clone());
        }
        i = i + 1;
    }
    out
}

fn readable_flags_of(headers: &Vec<Option<HeaderSummary>>) -> (r: Vec<bool>)
    ensures
        r@ == readable_flags(headers@),
{
    let mut out: Vec<bool> = Vec::new();
    let mut i: usize = 0;
    while i < headers.len()
        invariant
            i <= headers.len(),
            out@ == readable_flags(headers@.subrange(0, i as int)),
        decreases headers.len() - i,
    {
        out.push(headers[i].is_some());
        assert(readable_flags(headers@.subrange(0, i + 1)) == readable_flags(
            headers@.subrange(0, i as int),
        ).push(headers@[i as int] is Some));
        i = i + 1;
    }
    assert(headers@.subrange(0, headers.len() as int) == headers@);
    out
}

fn read_group_flags_of(headers: &Vec<Option<HeaderSummary>>) -> (r: Vec<bool>)
    ensures
        r@ == read_group_flags(headers@),
{
    let mut out: Vec<bool> = Vec::new();
    let mut i: usize = 0;
    while i < headers.len()
        invariant
            i <= headers.len(),
            out@ == read_group_flags(headers@.subrange(0, i as int)),
        decreases headers.len() - i,
    {
        let flag = match &headers[i] {
            Some(h) => h.read_groups > 0,
            None => false,
        };
        out.push(flag);
        assert(read_group_flags(headers@.subrange(0, i + 1)) == read_group_flags(
            headers@.subrange(0, i as int),
        ).push(has_read_group(headers@[i as int])));
        i = i + 1;
    }
    assert(headers@.subrange(0, headers.len() as int) == headers@);
    out
}

impl Call {
    /// A configuration with the given values, unset thresholds taking their
    /// defaults (30, 24, "0.01", 4 and "0.002"); `all_samples` starts off.
    pub fn new(
        debug: bool,
        files: Vec<String>,
        reference: String,
        genome: Option<String>,
        prefix: Option<String>,
        min_mq: Option<u32>,
        min_bq: Option<u32>,
        min_af: Option<String>,
        min_ac: Option<u32>,
        p: Option<String>,
        normalise: bool,
        output_dir: String,
        region: Option<String>,
        bam_list: bool,
        keep: bool,
    ) -> (r: Call)
        ensures
            r.debug == debug,
            r.files.deep_view() == files.deep_view(),
            r.reference@ == reference@,
            r.genome == genome,
            r.prefix == prefix,
            r.min_mq == match min_mq {
                Some(v) => v,
                None => MIN_MQ,
            },
            r.min_bq == match min_bq {
                Some(v) => v,
                None => MIN_BQ,
            },
            r.min_af@ == match min_af {
                Some(v) => v@,
                None => "0.01"@,
            },
            r.min_ac == match min_ac {
                Some(v) => v,
                None => MIN_AC,
            },
            r.p@ == match p {
                Some(v) => v@,
                None => "0.002"@,
            },
            r.normalise == normalise,
            r.output_dir@ == output_dir@,
            r.region == region,
            r.bam_list == bam_list,
            r.keep == keep,
            !r.all_samples,
    {
        let min_mq = match min_mq {
            Some(v) => v,
            None => MIN_MQ,
        };
        let min_bq = match min_bq {
            Some(v) => v,
            None => MIN_BQ,
        };
        let min_af = match min_af {
            Some(v) => v,
            None => String::from_str("0.01"),
        };
        let min_ac = match min_ac {
            Some(v) => v,
            None => MIN_AC,
        };
        let p = match p {
            Some(v) => v,
            None => String::from_str("0.002"),
        };
        Call {
            debug,
            files,
            reference,
            genome,
            prefix,
            min_mq,
            min_bq,
            min_af,
            min_ac,
            p,
            normalise,
            output_dir,
            region,
            bam_list,
            keep,
            all_samples: false,
        }
    }

    /// The path of the list file, in list mode: the one path given.
    pub fn list_source(&self) -> (r: Result<String, MityError>)
        ensures
            self.files.len() == 1 ==> (r matches Ok(p) && p@ == self.files[0]@),
            self.files.len() != 1 ==> err_view(r) == Some(
                ErrorView::Config(ConfigIssue::ListNeedsOneFile),
            ),
    {
        if self.files.len() != 1 {
            return Err(MityError::Config(ConfigIssue::ListNeedsOneFile));
        }
        Ok(self.files[0].clone())
    }

    /// In list mode, replaces the one path given (the list file) by the paths
    /// that `content`, the list file's text, holds, one per line.
    pub fn get_files_from_list(&mut self, content: &str) -> (r: Result<(), MityError>)
        ensures
            old(self).files.len() == 1 ==> r is Ok && final(self).files.deep_view() == lines(
                content@,
            ),
            old(self).files.len() != 1 ==> err_view(r) == Some(
                ErrorView::Config(ConfigIssue::ListNeedsOneFile),
            ) && final(self).files.deep_view() == old(self).files.deep_view(),
            final(self).prefix == old(self).prefix,
            final(self).genome == old(self).genome,
            final(self).region == old(self).region,
            final(self).normalise == old(self).normalise,
    {
        if self.files.len() != 1 {
            return Err(MityError::Config(ConfigIssue::ListNeedsOneFile));
        }
        self.files = split_lines(content);
        Ok(())
    }

    /// The outcome that the checks owe, in their order: missing inputs (all
    /// of them), inputs whose header cannot be read (all of them), inputs
    /// without read groups (all of them), several inputs without a prefix,
    /// normalisation without a genome file.
    pub open spec fn check_outcome(
        &self,
        exists: Seq<bool>,
        headers: Seq<Option<HeaderSummary>>,
    ) -> Option<ErrorView> {
        let missing = unflagged(self.files.deep_view(), exists);
        let unreadable = unflagged(self.files.deep_view(), readable_flags(headers));
        let no_rg = unflagged(self.files.deep_view(), read_group_flags(headers));
        if missing.len() > 0 {
            Some(ErrorView::MissingFiles(missing))
        } else if unreadable.len() > 0 {
            Some(ErrorView::UnreadableHeaders(unreadable))
        } else if no_rg.len() > 0 {
            Some(ErrorView::MissingReadGroups(no_rg))
        } else if self.files.len() > 1 && self.prefix is None {
            Some(ErrorView::Config(ConfigIssue::PrefixRequired))
        } else if self.normalise && self.genome is None {
            Some(ErrorView::Config(ConfigIssue::GenomeRequired))
        } else {
            None
        }
    }

    /// Checks the inputs before anything runs. `exists[i]` says whether
    /// `files[i]` exists; `headers[i]` is its parsed header, or `None` when it
    /// could not be read. Every offending input is reported, not just the first.
    pub fn run_checks(&self, exists: &Vec<bool>, headers: &Vec<Option<HeaderSummary>>) -> (r: Result<
        (),
        MityError,
    >)
        requires
            exists.len() == self.files.len(),
            headers.len() == self.files.len(),
        ensures
            err_view(r) == self.check_outcome(exists@, headers@),
    {
        let missing = collect_unflagged(&self.files, exists);
        if missing.len() > 0 {
            return Err(MityError::MissingFiles(missing));
        }
        let readable = readable_flags_of(headers);
        let unreadable = collect_unflagged(&self.files, &readable);
        if unreadable.len() > 0 {
            return Err(MityError::UnreadableHeaders(unreadable));
        }
        let flags = read_group_flags_of(headers);
        let no_rg = collect_unflagged(&self.files, &flags);
        if no_rg.len() > 0 {
            return Err(MityError::MissingReadGroups(no_rg));
        }
        if self.files.len() > 1 && self.prefix.is_none() {
            return Err(MityError::Config(ConfigIssue::PrefixRequired));
        }
        if self.normalise && self.genome.is_none() {
            return Err(MityError::Config(ConfigIssue::GenomeRequired));
        }
        Ok(())
    }

    /// The prefix derived from an input path: its file name without extension.
    pub fn make_prefix(&self, file_name: &str) -> (r: String)
        ensures
            r@ == prefix_from_path(file_name@),
    {
        match crate::text::file_name(file_name) {
            Some(n) => file_stem(n.as_str()),
            None => String::new(),
        }
    }

    /// The output prefix: the one given, else the one derived from the first input.
    pub open spec fn prefix_of(&self) -> Seq<char> {
        match self.prefix {
            Some(p) => p@,
            None => prefix_from_path(self.files[0]@),
        }
    }

    /// Checks the inputs, then resolves prefix, region and output paths into
    /// the request the pipeline runs. The region is the one given, else the
    /// mitochondrial contig of the first input's header. With no input at
    /// all there is nothing to name the outputs after or to call, which is a
    /// configuration error.
    pub fn plan(&self, exists: &Vec<bool>, headers: &Vec<Option<HeaderSummary>>) -> (r: Result<
        CallRequest,
        MityError,
    >)
        requires
            exists.len() == self.files.len(),
            headers.len() == self.files.len(),
        ensures
            self.check_outcome(exists@, headers@) is Some ==> err_view(r) == self.check_outcome(
                exists@,
                headers@,
            ),
            self.check_outcome(exists@, headers@) is None && self.files.len() == 0 ==> err_view(r)
                == Some(ErrorView::Config(ConfigIssue::NoInputs)),
            self.check_outcome(exists@, headers@) is None && self.files.len() > 0 ==> {
                &&& headers[0] is Some
                &&& match self.region {
                    Some(g) => r matches Ok(q) && q.region@ == g@,
                    None => {
                        let m = mito_sequences(headers[0]->0.sequences@);
                        if resolves(m) {
                            r matches Ok(q) && q.region@ == whole_contig_text(
                                m[0].name@,
                                m[0].length->0,
                            )
                        } else {
                            err_view(r) == Some(resolution_error(m))
                        }
                    },
                }
            },
            r matches Ok(q) ==> {
                &&& q.prefix@ == self.prefix_of()
                &&& q.call_vcf_path@ == call_path_of(self.output_dir@, q.prefix@)
                &&& q.normalise == self.normalise
                &&& (self.normalise ==> (q.normalised_vcf_path matches Some(n) && n@
                    == normalise_path_of(self.output_dir@, q.prefix@)))
                &&& (!self.normalise ==> q.normalised_vcf_path is None)
                &&& q.mity_cmd@ == mity_command_of(self.reference@, q.prefix@)
                &&& q.files.deep_view() == self.files.deep_view()
                &&& q.reference@ == self.reference@
                &&& q.genome == self.genome
                &&& q.output_dir@ == self.output_dir@
                &&& q.min_mq == self.min_mq
                &&& q.min_bq == self.min_bq
                &&& q.min_af@ == self.min_af@
                &&& q.min_ac == self.min_ac
                &&& q.p@ == self.p@
                &&& q.keep == self.keep
                &&& q.all_samples == self.all_samples
            },
    {
        match self.run_checks(exists, headers) {
            Ok(()) => {},
            Err(e) => {
                return Err(e);
            },
        }
        if self.files.len() == 0 {
            return Err(MityError::Config(ConfigIssue::NoInputs));
        }
        proof {
            let flags = read_group_flags(headers@);
            lemma_unflagged_empty(self.files.deep_view(), flags, 0);
        }
        let prefix = match &self.prefix {
            Some(p) => p.clone(),
            None => self.make_prefix(self.files[0].as_str()),
        };
        let region = match &self.region {
            Some(g) => g.clone(),
            None => {
                match bam_get_mt_contig(headers[0].as_ref().unwrap()) {
                    Ok(t) => t,
                    Err(e) => {
                        return Err(e);
                    },
                }
            },
        };
        let mut call_name = prefix.clone();
        call_name.append(".mity.call.vcf.gz");
        let call_vcf_path = join_path_text(self.output_dir.as_str(), call_name.as_str());
        let normalised_vcf_path = if self.normalise {
            let mut n = prefix.clone();
            n.append(".mity.normalise.vcf.gz");
            Some(join_path_text(self.output_dir.as_str(), n.as_str()))
        } else {
            None
        };
        let mut mity_cmd = String::from_str("##mityCommandline=\"mity call --reference ");
        mity_cmd.append(self.reference.as_str());
        mity_cmd.append(" --prefix ");
        mity_cmd.append(prefix.as_str());
        mity_cmd.append(" ...\"");
        Ok(CallRequest {
            reference: self.reference.clone(),
            genome: self.genome.clone(),
            files: self.files.clone(),
            prefix,
            region,
            min_mq: self.min_mq,
            min_bq: self.min_bq,
            min_af: self.min_af.clone(),
            min_ac: self.min_ac,
            p: self.p.clone(),
            normalise: self.normalise,
            keep: self.keep,
            all_samples: self.all_samples,
            output_dir: self.output_dir.clone(),
            call_vcf_path,
            normalised_vcf_path,
            mity_cmd,
        })
    }
}

/// With nothing unflagged, every flag is set.
proof fn lemma_unflagged_empty(files: Seq<Seq<char>>, flags: Seq<bool>, i: int)
    requires
        flags.len() == files.len(),
        unflagged(files, flags).len() == 0,
        0 <= i < files.len(),
    ensures
        flags[i],
{
    lemma_unflagged_upto_empty(files, flags, files.len(), i);
}

proof fn lemma_unflagged_upto_empty(files: Seq<Seq<char>>, flags: Seq<bool>, n: nat, i: int)
    requires
        n <= files.len(),
        flags.len() == files.len(),
        unflagged_upto(files, flags, n).len() == 0,
        0 <= i < n,
    ensures
        flags[i],
    decreases n,
{
    if i < n - 1 {
        if !flags[n - 1] {
            assert(unflagged_upto(files, flags, n).len() > 0);
        }
        lemma_unflagged_upto_empty(files, flags, (n - 1) as nat, i);
    } else {
        if !flags[n - 1] {
            assert(unflagged_upto(files, flags, n).len() > 0);
        }
    }
}

/// The input arguments of the caller: `-b <file>` for each input, in input order.
pub open spec fn input_args(files: Seq<Seq<char>>) -> Seq<Seq<char>>
    decreases files.len(),
{
    if files.len() == 0 {
        seq![]
    } else {
        input_args(files.drop_last()) + seq!["-b"@, files.last()]
    }
}

/// The full argument list of the variant caller for a request.
pub open spec fn caller_args(q: CallRequest) -> Seq<Seq<char>> {
    seq!["-f"@, q.reference@] + input_args(q.files.deep_view()) + seq![
        "--min-mapping-quality"@,
        decimal(q.min_mq as nat),
        "--min-base-quality"@,
        decimal(q.min_bq as nat),
        "--min-alternate-fraction"@,
        q.min_af@,
        "--min-alternate-count"@,
        decimal(q.min_ac as nat),
        "--ploidy"@,
        "2"@,
        "--region"@,
        q.region@,
    ]
}

/// The stages of a call: calling, header rewrite and compression, then either
/// indexing of the raw output or normalisation ending in an index.
pub open spec fn call_stages(normalise: bool) -> Seq<Stage> {
    if normalise {
        seq![
            Stage::Call,
            Stage::Rewrite,
            Stage::Compress,
            Stage::Decompose,
            Stage::Filter,
            Stage::Sort,
            Stage::Index,
        ]
    } else {
        seq![Stage::Call, Stage::Rewrite, Stage::Compress, Stage::Index]
    }
}

/// The outputs a failed call must not leave behind.
pub open spec fn call_discard(q: CallRequest) -> Seq<Seq<char>> {
    match q.normalised_vcf_path {
        Some(n) => seq![q.call_vcf_path@, n@],
        None => seq![q.call_vcf_path@],
    }
}

/// A header line of the caller's output, renamed where it would collide:
/// `##source` and `##commandline` become `##freebayesSource` and
/// `##freebayesCommandline`, and `##phasing=none` gives way to `cmd`.
pub open spec fn rewrite_line(l: Seq<char>, cmd: Seq<char>) -> Seq<char> {
    if occurs_at(l, "##source"@, 0) {
        "##freebayesSource"@ + l.subrange("##source"@.len() as int, l.len() as int)
    } else if occurs_at(l, "##commandline"@, 0) {
        "##freebayesCommandline"@ + l.subrange("##commandline"@.len() as int, l.len() as int)
    } else if occurs_at(l, "##phasing=none"@, 0) {
        cmd + l.subrange("##phasing=none"@.len() as int, l.len() as int)
    } else {
        l
    }
}

/// Each line rewritten and ended by a line feed.
pub open spec fn rewritten(ls: Seq<Seq<char>>, cmd: Seq<char>) -> Seq<char>
    decreases ls.len(),
{
    if ls.len() == 0 {
        seq![]
    } else {
        rewritten(ls.drop_last(), cmd) + rewrite_line(ls.last(), cmd) + "\n"@
    }
}

fn replace_prefix(line: &str, old_len: usize, new_head: &str) -> (r: String)
    requires
        old_len <= line@.len(),
    ensures
        r@ == new_head@ + line@.subrange(old_len as int, line@.len() as int),
{
    let mut out = String::from_str(new_head);
    out.append(line.substring_char(old_len, line.unicode_len()));
    out
}

/// Renames the colliding header lines of one line of the caller's output.
pub fn rewrite_header_line(line: &str, cmd: &str) -> (r: String)
    ensures
        r@ == rewrite_line(line@, cmd@),
{
    let source = "##source";
    let commandline = "##commandline";
    let phasing = "##phasing=none";
    if starts_with_text(line, source) {
        replace_prefix(line, source.unicode_len(), "##freebayesSource")
    } else if starts_with_text(line, commandline) {
        replace_prefix(line, commandline.unicode_len(), "##freebayesCommandline")
    } else if starts_with_text(line, phasing) {
        replace_prefix(line, phasing.unicode_len(), cmd)
    } else {
        String::from_str(line)
    }
}

impl CallRequest {
    /// The argument list of the variant caller: reference, inputs, thresholds,
    /// ploidy 2 and the region.
    pub fn caller_args(&self) -> (r: Vec<String>)
        ensures
            r.deep_view() == caller_args(*self),
    {
        let mut out: Vec<String> = Vec::new();
        out.push(String::from_str("-f"));
        out.push(self.reference.clone());
        let ghost base = out.deep_view();
        let ghost files = self.files.deep_view();
        let mut j: usize = 0;
        assert(files.subrange(0, 0).len() == 0);
        while j < self.files.len()
            invariant
                j <= self.files.len(),
                files == self.files.deep_view(),
                out.deep_view() == base + input_args(files.subrange(0, j as int)),
            decreases self.files.len() - j,
        {
            let ghost pre = files.subrange(0, j + 1);
            assert(pre.drop_last() == files.subrange(0, j as int));
            let ghost before = out.deep_view();
            out.push(String::from_str("-b"));
            out.push(self.files[j].clone());
            assert(out.deep_view() =~= before + seq!["-b"@, files[j as int]]);
            assert(pre.last() == files[j as int]);
            assert(out.deep_view() =~= base + input_args(pre));
            j = j + 1;
        }
        assert(files.subrange(0, files.len() as int) == files);
        let ghost head = out.deep_view();
        out.push(String::from_str("--min-mapping-quality"));
        out.push(decimal_string(self.min_mq as u64));
        out.push(String::from_str("--min-base-quality"));
        out.push(decimal_string(self.min_bq as u64));
        out.push(String::from_str("--min-alternate-fraction"));
        out.push(self.min_af.clone());
        out.push(String::from_str("--min-alternate-count"));
        out.push(decimal_string(self.min_ac as u64));
        out.push(String::from_str("--ploidy"));
        out.push(String::from_str("2"));
        out.push(String::from_str("--region"));
        out.push(self.region.clone());
        assert(out.deep_view() =~= head + seq![
            "--min-mapping-quality"@,
            decimal(self.min_mq as nat),
            "--min-base-quality"@,
            decimal(self.min_bq as nat),
            "--min-alternate-fraction"@,
            self.min_af@,
            "--min-alternate-count"@,
            decimal(self.min_ac as nat),
            "--ploidy"@,
            "2"@,
            "--region"@,
            self.region@,
        ]);
        assert(out.deep_view() =~= caller_args(*self));
        out
    }

    /// The caller's output with its colliding header lines renamed, one line
    /// feed after each line.
    pub fn rewrite_header(&self, text: &str) -> (r: String)
        ensures
            r@ == rewritten(lines(text@), self.mity_cmd@),
    {
        let ls = split_lines(text);
        let mut out = String::new();
        let mut i: usize = 0;
        while i < ls.len()
            invariant
                i <= ls.len(),
                ls.deep_view() == lines(text@),
                out@ == rewritten(ls.deep_view().subrange(0, i as int), self.mity_cmd@),
            decreases ls.len() - i,
        {
            let ghost pre = ls.deep_view().subrange(0, i as int);
            assert(ls.deep_view().subrange(0, i + 1).drop_last() == pre);
            let l = rewrite_header_line(ls[i].as_str(), self.mity_cmd.as_str());
            out.append(l.as_str());
            out.append("\n");
            i = i + 1;
        }
        assert(ls.deep_view().subrange(0, ls.len() as int) == ls.deep_view());
        out
    }

    /// The file the last stage indexes: the normalised output when
    /// normalisation was asked for, else the raw call output.
    pub fn index_target(&self) -> (r: String)
        ensures
            r@ == match self.normalised_vcf_path {
                Some(n) => n@,
                None => self.call_vcf_path@,
            },
    {
        match &self.normalised_vcf_path {
            Some(n) => n.clone(),
            None => self.call_vcf_path.clone(),
        }
    }

    /// The normalisation of the raw call output, when it was asked for; it
    /// writes the normalised output path.
    pub fn normaliser(&self) -> (r: Option<Normalise>)
        ensures
            r is Some <==> self.normalise && self.genome is Some,
            r matches Some(n) ==> {
                &&& n.wf()
                &&& n.vcf@ == self.call_vcf_path@
                &&& n.reference_fasta@ == self.reference@
                &&& n.genome@ == self.genome->0@
                &&& n.output_dir@ == self.output_dir@
                &&& n.prefix->0@ == self.prefix@
                &&& n.allsamples == self.all_samples
                &&& n.keep == self.keep
                &&& n.remove_input
                &&& n.p@ == self.p@
                &&& n.normalised_vcf_path@ == normalise_path_of(self.output_dir@, self.prefix@)
            },
    {
        if !self.normalise {
            return None;
        }
        match &self.genome {
            Some(g) => {
                let mut n = Normalise::new(
                    false,
                    self.call_vcf_path.clone(),
                    self.reference.clone(),
                    g.clone(),
                    self.output_dir.clone(),
                    Some(self.prefix.clone()),
                    self.all_samples,
                    self.keep,
                    self.p.clone(),
                );
                n.remove_input = true;
                Some(n)
            },
            None => None,
        }
    }

    /// The pipeline of this request, positioned on the calling stage.
    pub fn pipeline(&self) -> (r: Pipeline)
        ensures
            r.wf(),
            r.next == 0,
            r.stages@ == call_stages(self.normalise),
            r.discard.deep_view() == call_discard(*self),
            r.state == crate::pipeline::RunState::Running,
    {
        let mut stages: Vec<Stage> = Vec::new();
        stages.push(Stage::Call);
        stages.push(Stage::Rewrite);
        stages.push(Stage::Compress);
        if self.normalise {
            stages.push(Stage::Decompose);
            stages.push(Stage::Filter);
            stages.push(Stage::Sort);
        }
        stages.push(Stage::Index);
        let mut discard: Vec<String> = Vec::new();
        discard.push(self.call_vcf_path.clone());
        match &self.normalised_vcf_path {
            Some(n) => discard.push(n.clone()),
            None => {},
        }
        assert(stages@ == call_stages(self.normalise));
        Pipeline::new(stages, discard)
    }
}

/// Several inputs and no prefix: once the inputs exist and carry read
/// groups, the checks fail with the configuration error asking for a prefix,
/// so no request is made and nothing is run.
pub proof fn lemma_prefix_required(call: Call, exists: Seq<bool>, headers: Seq<Option<HeaderSummary>>)
    requires
        call.files.len() > 1,
        call.prefix is None,
        exists.len() == call.files.len(),
        headers.len() == call.files.len(),
        forall|i: int| 0 <= i < exists.len() ==> exists[i],
        forall|i: int| 0 <= i < headers.len() ==> has_read_group(#[trigger] headers[i]),
    ensures
        call.check_outcome(exists, headers) == Some(ErrorView::Config(ConfigIssue::PrefixRequired)),
{
    let files = call.files.deep_view();
    lemma_all_flagged(files, exists, files.len());
    let flags = read_group_flags(headers);
    assert forall|i: int| 0 <= i < flags.len() implies flags[i] by {
        assert(flags[i] == has_read_group(headers[i]));
    }
    lemma_all_flagged(files, flags, files.len());
    let readable = readable_flags(headers);
    assert forall|i: int| 0 <= i < readable.len() implies readable[i] by {
        assert(readable[i] == (headers[i] is Some));
        assert(has_read_group(headers[i]));
    }
    lemma_all_flagged(files, readable, files.len());
}

proof fn lemma_all_flagged(files: Seq<Seq<char>>, flags: Seq<bool>, n: nat)
    requires
        n <= files.len(),
        flags.len() == files.len(),
        forall|i: int| 0 <= i < flags.len() ==> flags[i],
    ensures
        unflagged_upto(files, flags, n).len() == 0,
    decreases n,
{
    if n > 0 {
        lemma_all_flagged(files, flags, (n - 1) as nat);
    }
}

/// A failure of the calling stage aborts the run: no later stage runs, the
/// failing stage's diagnostics are surfaced, and the compressed call output is
/// among the files deleted.
pub proof fn lemma_failed_call_keeps_no_output(q: CallRequest, p: Pipeline, d: String)
    requires
        p.wf(),
        p.stages@ == call_stages(q.normalise),
        p.discard.deep_view() == call_discard(q),
        p.stages[p.next as int] == Stage::Call,
    ensures
        p.step_action(StageOutcome::Failed(d)) matches ActionView::Abort { stage, diagnostics, discard }
            && stage == Stage::Call && diagnostics == d@ && discard.contains(q.call_vcf_path@),
{
    assert(call_discard(q)[0] == q.call_vcf_path@);
}

} // verus!
