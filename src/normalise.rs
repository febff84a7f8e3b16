//! The normalisation command: its derived paths, its stages and the
//! intermediate files it leaves behind or removes.
use vstd::prelude::*;

use crate::pipeline::{Pipeline, RunState, Stage};
use crate::text::{
    join_path, join_path_text, last_segment, last_segment_text, replace_all, replace_all_text,
};

verus! {

/// The configuration of one normalisation, with the paths derived from it.
///
/// The noise rate is kept as the decimal text it was given as.
#[derive(Debug)]
pub struct Normalise {
    pub debug: bool,
    pub vcf: String,
    pub reference_fasta: String,
    pub genome: String,
    pub output_dir: String,
    pub prefix: Option<String>,
    pub allsamples: bool,
    pub keep: bool,
    pub p: String,
    /// Output of the decomposition stage.
    pub bcftools_norm_path: String,
    /// Output of the filtering stage.
    pub filtered_vcf_path: String,
    /// The sorted, compressed result.
    pub normalised_vcf_path: String,
    /// The input is this run's own raw call output, to be deleted with the
    /// scratch files; a call set given by the user is never deleted.
    pub remove_input: bool,
}

/// `path` as a list of one file to delete, unless it is the final output.
pub open spec fn unless_output(path: Seq<char>, output: Seq<char>) -> Seq<Seq<char>> {
    if path == output {
        seq![]
    } else {
        seq![path]
    }
}

fn push_unless_output(v: &mut Vec<String>, path: &String, output: &String)
    ensures
        final(v).deep_view() == old(v).deep_view() + unless_output(path@, output@),
{
    if !crate::text::same_text(path.as_str(), output.as_str()) {
        v.push(path.clone());
    }
    assert(final(v).deep_view() =~= old(v).deep_view() + unless_output(path@, output@));
}

/// The prefix used when none is given: the input path after its last `/`.
pub open spec fn default_prefix(vcf: Seq<char>) -> Seq<char> {
    last_segment(vcf)
}

impl Normalise {
    /// The prefix in force.
    pub open spec fn prefix_in_force(&self) -> Seq<char> {
        match self.prefix {
            Some(p) => p@,
            None => default_prefix(self.vcf@),
        }
    }

    /// The derived paths agree with the configuration.
    pub open spec fn wf(&self) -> bool {
        &&& self.prefix is Some
        &&& self.bcftools_norm_path@ == join_path(
            self.output_dir@,
            self.prefix->0@ + ".bcftools.norm.vcf.gz"@,
        )
        &&& self.filtered_vcf_path@ == replace_all(self.vcf@, ".vcf.gz"@, ".filtered.vcf"@)
        &&& self.normalised_vcf_path@ == join_path(
            self.output_dir@,
            self.prefix->0@ + ".mity.normalise.vcf.gz"@,
        )
    }

    /// The prefix derived from an input path: the part after its last `/`.
    pub fn make_prefix(&self, vcf: &str) -> (r: String)
        ensures
            r@ == default_prefix(vcf@),
    {
        last_segment_text(vcf)
    }

    /// Fills in the prefix, if none was given, and derives the paths from it.
    pub fn set_paths(&mut self)
        ensures
            final(self).wf(),
            final(self).prefix->0@ == old(self).prefix_in_force(),
            final(self).vcf@ == old(self).vcf@,
            final(self).output_dir@ == old(self).output_dir@,
            final(self).reference_fasta@ == old(self).reference_fasta@,
            final(self).genome@ == old(self).genome@,
            final(self).keep == old(self).keep,
            final(self).allsamples == old(self).allsamples,
            final(self).debug == old(self).debug,
            final(self).p@ == old(self).p@,
            final(self).remove_input == old(self).remove_input,
    {
        let prefix = match &self.prefix {
            Some(p) => p.clone(),
            None => self.make_prefix(self.vcf.as_str()),
        };
        let mut norm_name = prefix.clone();
        norm_name.append(".bcftools.norm.vcf.gz");
        self.bcftools_norm_path = join_path_text(self.output_dir.as_str(), norm_name.as_str());
        self.filtered_vcf_path = replace_all_text(self.vcf.as_str(), ".vcf.gz", ".filtered.vcf");
        let mut out_name = prefix.clone();
        out_name.append(".mity.normalise.vcf.gz");
        self.normalised_vcf_path = join_path_text(self.output_dir.as_str(), out_name.as_str());
        self.prefix = Some(prefix);
    }

    /// A normalisation of `vcf` with its paths derived.
    pub fn new(
        debug: bool,
        vcf: String,
        reference_fasta: String,
        genome: String,
        output_dir: String,
        prefix: Option<String>,
        allsamples: bool,
        keep: bool,
        p: String,
    ) -> (r: Normalise)
        ensures
            r.wf(),
            r.prefix->0@ == match prefix {
                Some(x) => x@,
                None => default_prefix(vcf@),
            },
            r.debug == debug,
            r.vcf@ == vcf@,
            r.reference_fasta@ == reference_fasta@,
            r.genome@ == genome@,
            r.output_dir@ == output_dir@,
            r.allsamples == allsamples,
            r.keep == keep,
            r.p@ == p@,
            !r.remove_input,
    {
        let mut n = Normalise {
            debug,
            vcf,
            reference_fasta,
            genome,
            output_dir,
            prefix,
            allsamples,
            keep,
            p,
            bcftools_norm_path: String::new(),
            filtered_vcf_path: String::new(),
            normalised_vcf_path: String::new(),
            remove_input: false,
        };
        n.set_paths();
        n
    }

    /// The files to delete once the run is over, unless everything is to be
    /// kept: the filtering and decomposition scratch files, and the input when
    /// it is this run's own raw call output. The final output is never listed.
    pub fn remove_intermediate_files(&self) -> (r: Vec<String>)
        ensures
            self.keep ==> r.deep_view().len() == 0,
            !self.keep ==> r.deep_view() == unless_output(
                self.filtered_vcf_path@,
                self.normalised_vcf_path@,
            ) + unless_output(self.bcftools_norm_path@, self.normalised_vcf_path@) + (
            if self.remove_input {
                unless_output(self.vcf@, self.normalised_vcf_path@)
            } else {
                seq![]
            }),
            forall|i: int| 0 <= i < r.len() ==> r.deep_view()[i] != self.normalised_vcf_path@,
    {
        let mut v: Vec<String> = Vec::new();
        if !self.keep {
            push_unless_output(&mut v, &self.filtered_vcf_path, &self.normalised_vcf_path);
            push_unless_output(&mut v, &self.bcftools_norm_path, &self.normalised_vcf_path);
            if self.remove_input {
                push_unless_output(&mut v, &self.vcf, &self.normalised_vcf_path);
            } else {
                assert(v.deep_view() =~= v.deep_view() + Seq::<Seq<char>>::empty());
            }
        }
        v
    }

    /// Arguments of the decomposition tool: split multi-allelic records and
    /// left-align against the reference, compressed output.
    pub fn decompose_args(&self) -> (r: Vec<String>)
        ensures
            r.deep_view() == seq![
                "norm"@,
                "-f"@,
                self.reference_fasta@,
                "-m-both"@,
                "-Oz"@,
                "-o"@,
                self.bcftools_norm_path@,
                self.vcf@,
            ],
    {
        let mut v: Vec<String> = Vec::new();
        v.push(String::from_str("norm"));
        v.push(String::from_str("-f"));
        v.push(self.reference_fasta.clone());
        v.push(String::from_str("-m-both"));
        v.push(String::from_str("-Oz"));
        v.push(String::from_str("-o"));
        v.push(self.bcftools_norm_path.clone());
        v.push(self.vcf.clone());
        assert(v.deep_view() =~= seq![
            "norm"@,
            "-f"@,
            self.reference_fasta@,
            "-m-both"@,
            "-Oz"@,
            "-o"@,
            self.bcftools_norm_path@,
            self.vcf@,
        ]);
        v
    }

    /// The normalisation stages: decompose, filter, sort and compress, index.
    /// A failure discards the normalised output.
    pub fn pipeline(&self) -> (r: Pipeline)
        ensures
            r.wf(),
            r.next == 0,
            r.state == RunState::Running,
            r.stages@ == seq![Stage::Decompose, Stage::Filter, Stage::Sort, Stage::Index],
            r.discard.deep_view() == seq![self.normalised_vcf_path@],
    {
        let mut stages: Vec<Stage> = Vec::new();
        stages.push(Stage::Decompose);
        stages.push(Stage::Filter);
        stages.push(Stage::Sort);
        stages.push(Stage::Index);
        let mut discard: Vec<String> = Vec::new();
        discard.push(self.normalised_vcf_path.clone());
        assert(stages@ =~= seq![Stage::Decompose, Stage::Filter, Stage::Sort, Stage::Index]);
        assert(discard.deep_view() =~= seq![self.normalised_vcf_path@]);
        Pipeline::new(stages, discard)
    }
}

} // verus!
