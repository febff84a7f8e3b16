//! Variant records as the normalisation engine sees them.
use vstd::prelude::*;

verus! {

/// The evidence behind a record, for the site or for one sample.
///
/// Qualities are in hundredths (a mean mapping quality of 30.0 is 3000).
#[derive(Debug, Clone, Copy, PartialEq, Eq, Structural)]
pub struct Evidence {
    /// Read depth.
    pub depth: u32,
    /// Mean mapping quality of the reference-supporting reads, in hundredths.
    pub ref_mapping_quality: u32,
    /// Mean base quality of the alternate-supporting reads, in hundredths.
    pub alt_base_quality: u32,
    /// Alternate-supporting reads on the forward strand.
    pub alt_forward: u32,
    /// Alternate-supporting reads on the reverse strand.
    pub alt_reverse: u32,
}

/// One variant record.
#[derive(Debug)]
pub struct VariantRecord {
    pub contig: String,
    /// 1-based position of the first reference base.
    pub position: u64,
    pub reference: String,
    pub alts: Vec<String>,
    /// Record quality in hundredths, when known.
    pub quality: Option<u64>,
    /// Site-level evidence, one entry per alternate allele.
    pub info: Vec<Evidence>,
    /// Per-sample evidence, in sample order, one entry per alternate allele.
    pub samples: Vec<Vec<Evidence>>,
    /// Per-sample genotype, in sample order: allele indices (0 for the
    /// reference, `i + 1` for the `i`-th alternate), `None` where missing.
    pub genotypes: Vec<Vec<Option<u32>>>,
}

/// The abstract content of a record.
pub ghost struct RecordView {
    pub contig: Seq<char>,
    pub position: u64,
    pub reference: Seq<char>,
    pub alts: Seq<Seq<char>>,
    pub quality: Option<u64>,
    pub info: Seq<Evidence>,
    pub samples: Seq<Seq<Evidence>>,
    pub genotypes: Seq<Seq<Option<u32>>>,
}

impl View for VariantRecord {
    type V = RecordView;

    open spec fn view(&self) -> RecordView {
        RecordView {
            contig: self.contig@,
            position: self.position,
            reference: self.reference@,
            alts: self.alts.deep_view(),
            quality: self.quality,
            info: self.info@,
            samples: self.samples@.map_values(|v: Vec<Evidence>| v@),
            genotypes: self.genotypes@.map_values(|v: Vec<Option<u32>>| v@),
        }
    }
}

/// Every allele has its site evidence and its evidence in each sample.
pub open spec fn evidence_complete(r: RecordView) -> bool {
    &&& r.info.len() == r.alts.len()
    &&& forall|k: int| 0 <= k < r.samples.len() ==> (#[trigger] r.samples[k]).len() == r.alts.len()
}

/// The evidence of allele `i` in each sample.
pub open spec fn allele_samples(r: RecordView, i: int) -> Seq<Evidence> {
    r.samples.map_values(|s: Seq<Evidence>| s[i])
}

/// The views of a list of records.
pub open spec fn records_view(rs: Seq<VariantRecord>) -> Seq<RecordView> {
    rs.map_values(|r: VariantRecord| r@)
}

} // verus!
