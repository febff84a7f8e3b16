//! Resolution of the mitochondrial contig from a parsed alignment or variant
//! header.
use vstd::prelude::*;

use crate::error::{ErrorView, MityError};
use crate::text::{decimal, decimal_string, same_text};

verus! {

/// A reference sequence declared by a header.
#[derive(Debug)]
pub struct ReferenceSequence {
    pub name: String,
    /// Declared length; a variant header may declare none.
    pub length: Option<u64>,
}

/// What the pipeline reads from one header, parsed once.
#[derive(Debug)]
pub struct HeaderSummary {
    /// Declared sequences, in header order.
    pub sequences: Vec<ReferenceSequence>,
    /// Number of read-group declarations.
    pub read_groups: usize,
}

/// A contiguous 1-based span on a contig.
#[derive(Debug)]
pub struct GenomicRegion {
    pub contig: String,
    pub start: u64,
    pub end: u64,
}

/// The names a mitochondrial contig may carry: exactly `MT` or `chrM`.
pub open spec fn is_mito_name(n: Seq<char>) -> bool {
    n == "MT"@ || n == "chrM"@
}

/// The declared sequences with a mitochondrial name, in header order.
pub open spec fn mito_sequences(s: Seq<ReferenceSequence>) -> Seq<ReferenceSequence>
    decreases s.len(),
{
    if s.len() == 0 {
        seq![]
    } else if is_mito_name(s.last().name@) {
        mito_sequences(s.drop_last()).push(s.last())
    } else {
        mito_sequences(s.drop_last())
    }
}

/// The names of a list of sequences.
pub open spec fn names_of(s: Seq<ReferenceSequence>) -> Seq<Seq<char>> {
    s.map_values(|r: ReferenceSequence| r.name@)
}

/// A declared length that a region can span: present and at least 1.
pub open spec fn usable_length(length: Option<u64>) -> bool {
    length matches Some(l) && l > 0
}

/// The outcome owed when the mitochondrial contig is resolved from
/// sequences `m` (those with a mitochondrial name): the one contig's name and
/// length, or the error.
pub open spec fn resolution_error(m: Seq<ReferenceSequence>) -> ErrorView {
    if m.len() != 1 {
        ErrorView::ContigResolution(names_of(m))
    } else {
        ErrorView::ContigWithoutLength(m[0].name@)
    }
}

/// Whether the mitochondrial contig resolves: exactly one, with a usable length.
pub open spec fn resolves(m: Seq<ReferenceSequence>) -> bool {
    m.len() == 1 && usable_length(m[0].length)
}

/// The text form of a region on a whole contig: `<name>:1-<length>`.
pub open spec fn whole_contig_text(name: Seq<char>, length: u64) -> Seq<char> {
    name + ":1-"@ + decimal(length as nat)
}

/// Whether `name` is a mitochondrial contig name.
pub fn is_mito_contig(name: &str) -> (r: bool)
    ensures
        r == is_mito_name(name@),
{
    same_text(name, "MT") || same_text(name, "chrM")
}

/// The declared sequences that carry a mitochondrial name, in header order.
pub fn mito_candidates(header: &HeaderSummary) -> (r: Vec<ReferenceSequence>)
    ensures
        r@ == mito_sequences(header.sequences@),
{
    let seqs = &header.sequences;
    let mut out: Vec<ReferenceSequence> = Vec::new();
    let mut i: usize = 0;
    while i < seqs.len()
        invariant
            i <= seqs.len(),
            out@ == mito_sequences(seqs@.subrange(0, i as int)),
        decreases seqs.len() - i,
    {
        assert(seqs@.subrange(0, i + 1).drop_last() == seqs@.subrange(0, i as int));
        if is_mito_contig(seqs[i].name.as_str()) {
            out.push(ReferenceSequence { name: seqs[i].name.clone(), length: seqs[i].length });
        }
        i = i + 1;
    }
    assert(seqs@.subrange(0, seqs.len() as int) == seqs@);
    out
}

fn names(v: &Vec<ReferenceSequence>) -> (r: Vec<String>)
    ensures
        r.deep_view() == names_of(v@),
{
    let mut out: Vec<String> = Vec::new();
    let mut i: usize = 0;
    while i < v.len()
        invariant
            i <= v.len(),
            out.deep_view() == names_of(v@.subrange(0, i as int)),
        decreases v.len() - i,
    {
        out.push(v[i].name.clone());
        assert(names_of(v@.subrange(0, i + 1)) == names_of(v@.subrange(0, i as int)).push(
            v@[i as int].name@,
        ));
        i = i + 1;
    }
    assert(v@.subrange(0, v.len() as int) == v@);
    out
}

/// The one mitochondrial contig of a header, as its name and declared length.
/// Fails, naming the candidates found, when there is not exactly one, and
/// naming the contig when it declares no length (or zero).
pub fn vcf_get_mt_contig(header: &HeaderSummary) -> (r: Result<(String, u64), MityError>)
    ensures
        ({
            let m = mito_sequences(header.sequences@);
            match r {
                Ok((name, length)) => resolves(m) && name@ == m[0].name@ && m[0].length == Some(
                    length,
                ),
                Err(e) => !resolves(m) && e@ == resolution_error(m),
            }
        }),
{
    let m = mito_candidates(header);
    if m.len() != 1 {
        return Err(MityError::ContigResolution(names(&m)));
    }
    match m[0].length {
        Some(l) => {
            if l == 0 {
                return Err(MityError::ContigWithoutLength(m[0].name.clone()));
            }
            Ok((m[0].name.clone(), l))
        },
        None => Err(MityError::ContigWithoutLength(m[0].name.clone())),
    }
}

/// The region spanning the one mitochondrial contig of a header: from 1 to
/// its declared length, so that start never exceeds end.
pub fn locate_mt_contig(header: &HeaderSummary) -> (r: Result<GenomicRegion, MityError>)
    ensures
        ({
            let m = mito_sequences(header.sequences@);
            match r {
                Ok(g) => resolves(m) && g.contig@ == m[0].name@ && g.start == 1 && Some(g.end)
                    == m[0].length && g.start <= g.end,
                Err(e) => !resolves(m) && e@ == resolution_error(m),
            }
        }),
{
    match vcf_get_mt_contig(header) {
        Ok((contig, length)) => Ok(GenomicRegion { contig, start: 1, end: length }),
        Err(e) => Err(e),
    }
}

/// The one mitochondrial contig of a header as region text `<name>:1-<length>`.
pub fn bam_get_mt_contig(header: &HeaderSummary) -> (r: Result<String, MityError>)
    ensures
        ({
            let m = mito_sequences(header.sequences@);
            match r {
                Ok(t) => resolves(m) && t@ == whole_contig_text(m[0].name@, m[0].length->0),
                Err(e) => !resolves(m) && e@ == resolution_error(m),
            }
        }),
{
    match vcf_get_mt_contig(header) {
        Ok((contig, length)) => {
            let mut t = contig;
            t.append(":1-");
            t.append(decimal_string(length).as_str());
            Ok(t)
        },
        Err(e) => Err(e),
    }
}

} // verus!
