//! The library's error type.
use vstd::prelude::*;

use crate::pipeline::{stage_name, stage_name_of, Stage};
use crate::text::{join_text, joined};

verus! {

/// A configuration that is ambiguous or lacks something it needs.
#[derive(Debug, Clone, Copy, PartialEq, Eq, Structural)]
pub enum ConfigIssue {
    /// List mode was asked for with more than one path.
    ListNeedsOneFile,
    /// Several inputs were given and no output prefix.
    PrefixRequired,
    /// Normalisation was asked for and no genome file is known.
    GenomeRequired,
    /// No input file was given.
    NoInputs,
}

/// Every way a run can fail.
#[derive(Debug)]
pub enum MityError {
    Config(ConfigIssue),
    /// Inputs that do not exist, all of them, in input order.
    MissingFiles(Vec<String>),
    /// Inputs whose header declares no read group, all of them, in input order.
    MissingReadGroups(Vec<String>),
    /// Inputs that exist but whose header could not be read, all of them, in
    /// input order: an I/O failure.
    UnreadableHeaders(Vec<String>),
    /// The mitochondrial contig names found, when there is not exactly one.
    ContigResolution(Vec<String>),
    /// The one mitochondrial contig declares no length, or a length of zero.
    ContigWithoutLength(String),
    /// The candidate reference files found, when there is not exactly one.
    ReferenceNotFound(Vec<String>),
    /// A pipeline stage failed, with what it reported.
    ExternalTool { stage: Stage, diagnostics: String },
    /// A file could not be read or written.
    Io(String),
}

/// The abstract content of an error.
pub ghost enum ErrorView {
    Config(ConfigIssue),
    MissingFiles(Seq<Seq<char>>),
    MissingReadGroups(Seq<Seq<char>>),
    UnreadableHeaders(Seq<Seq<char>>),
    ContigResolution(Seq<Seq<char>>),
    ContigWithoutLength(Seq<char>),
    ReferenceNotFound(Seq<Seq<char>>),
    ExternalTool { stage: Stage, diagnostics: Seq<char> },
    Io(Seq<char>),
}

impl View for MityError {
    type V = ErrorView;

    open spec fn view(&self) -> ErrorView {
        match self {
            MityError::Config(c) => ErrorView::Config(*c),
            MityError::MissingFiles(v) => ErrorView::MissingFiles(v.deep_view()),
            MityError::MissingReadGroups(v) => ErrorView::MissingReadGroups(v.deep_view()),
            MityError::UnreadableHeaders(v) => ErrorView::UnreadableHeaders(v.deep_view()),
            MityError::ContigResolution(v) => ErrorView::ContigResolution(v.deep_view()),
            MityError::ContigWithoutLength(n) => ErrorView::ContigWithoutLength(n@),
            MityError::ReferenceNotFound(v) => ErrorView::ReferenceNotFound(v.deep_view()),
            MityError::ExternalTool { stage, diagnostics } => ErrorView::ExternalTool {
                stage: *stage,
                diagnostics: diagnostics@,
            },
            MityError::Io(m) => ErrorView::Io(m@),
        }
    }
}

/// The error of a result, viewed; `None` for success.
pub open spec fn err_view<T>(r: Result<T, MityError>) -> Option<ErrorView> {
    match r {
        Ok(_) => None,
        Err(e) => Some(e@),
    }
}

pub open spec fn config_message(c: ConfigIssue) -> Seq<char> {
    match c {
        ConfigIssue::ListNeedsOneFile => "--bam-file-list argument expects only 1 file to be provided."@,
        ConfigIssue::PrefixRequired => "If there is more than one BAM/CRAM file, --prefix must be set"@,
        ConfigIssue::GenomeRequired => "A genome file should be supplied if mity call normalize=True"@,
        ConfigIssue::NoInputs => "At least one BAM/CRAM file must be given"@,
    }
}

/// The human-readable text of an error.
pub open spec fn message_of(e: MityError) -> Seq<char> {
    match e {
        MityError::Config(c) => config_message(c),
        MityError::MissingFiles(v) => "Missing files: "@ + joined(v.deep_view(), ", "@),
        MityError::MissingReadGroups(v) => "The BAM/CRAM files: "@ + joined(v.deep_view(), ", "@)
            + " lack an @RG header"@,
        MityError::UnreadableHeaders(v) => "Could not read the header of: "@ + joined(
            v.deep_view(),
            ", "@,
        ),
        MityError::ContigResolution(v) => "Expected exactly one mitochondrial contig, found: ["@
            + joined(v.deep_view(), ", "@) + "]"@,
        MityError::ContigWithoutLength(n) => "Mitochondrial contig "@ + n@
            + " declares no length"@,
        MityError::ReferenceNotFound(v) => "Expected exactly one reference file, found: ["@
            + joined(v.deep_view(), ", "@) + "]"@,
        MityError::ExternalTool { stage, diagnostics } => stage_name_of(stage) + " failed: "@
            + diagnostics@,
        MityError::Io(m) => m@,
    }
}

fn config_text(c: ConfigIssue) -> (r: &'static str)
    ensures
        r@ == config_message(c),
{
    match c {
        ConfigIssue::ListNeedsOneFile => "--bam-file-list argument expects only 1 file to be provided.",
        ConfigIssue::PrefixRequired => "If there is more than one BAM/CRAM file, --prefix must be set",
        ConfigIssue::GenomeRequired => "A genome file should be supplied if mity call normalize=True",
        ConfigIssue::NoInputs => "At least one BAM/CRAM file must be given",
    }
}

impl MityError {
    /// The human-readable text of this error.
    pub fn message(&self) -> (r: String)
        ensures
            r@ == message_of(*self),
    {
        match self {
            MityError::Config(c) => String::from_str(config_text(*c)),
            MityError::MissingFiles(v) => {
                let mut s = String::from_str("Missing files: ");
                s.append(join_text(v, ", ").as_str());
                s
            },
            MityError::MissingReadGroups(v) => {
                let mut s = String::from_str("The BAM/CRAM files: ");
                s.append(join_text(v, ", ").as_str());
                s.append(" lack an @RG header");
                s
            },
            MityError::UnreadableHeaders(v) => {
                let mut s = String::from_str("Could not read the header of: ");
                s.append(join_text(v, ", ").as_str());
                s
            },
            MityError::ContigWithoutLength(n) => {
                let mut s = String::from_str("Mitochondrial contig ");
                s.append(n.as_str());
                s.append(" declares no length");
                s
            },
            MityError::ContigResolution(v) => {
                let mut s = String::from_str("Expected exactly one mitochondrial contig, found: [");
                s.append(join_text(v, ", ").as_str());
                s.append("]");
                s
            },
            MityError::ReferenceNotFound(v) => {
                let mut s = String::from_str("Expected exactly one reference file, found: [");
                s.append(join_text(v, ", ").as_str());
                s.append("]");
                s
            },
            MityError::ExternalTool { stage, diagnostics } => {
                let mut s = String::from_str(stage_name(*stage));
                s.append(" failed: ");
                s.append(diagnostics.as_str());
                s
            },
            MityError::Io(m) => m.clone(),
        }
    }
}

} // verus!
