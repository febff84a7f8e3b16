//! Decomposition of multi-allelic records: one record per alternate allele,
//! each left-aligned against the contig sequence and trimmed, with the
//! evidence of its own allele.
use vstd::prelude::*;

use crate::record::{evidence_complete, records_view, Evidence, RecordView, VariantRecord};

verus! {

/// Number of leading bases that reference and allele share and can lose
/// while both keep at least one base.
pub open spec fn prefix_trim(r: Seq<char>, a: Seq<char>) -> nat
    decreases r.len(),
{
    if r.len() > 1 && a.len() > 1 && r[0] == a[0] {
        1 + prefix_trim(r.subrange(1, r.len() as int), a.subrange(1, a.len() as int))
    } else {
        0
    }
}

/// A genotype allele index seen from allele `i` alone: that allele becomes
/// 1, the reference and every other allele become 0, a missing call stays
/// missing.
pub open spec fn recode_allele(a: Option<u32>, i: int) -> Option<u32> {
    match a {
        Some(x) => if x == i + 1 {
            Some(1u32)
        } else {
            Some(0u32)
        },
        None => None,
    }
}

/// A genotype recoded for allele `i`.
pub open spec fn recode_genotype(gt: Seq<Option<u32>>, i: int) -> Seq<Option<u32>> {
    gt.map_values(|a: Option<u32>| recode_allele(a, i))
}

/// The record for allele `i` of `rec`: reference and allele in normal form
/// against contig sequence `g` (left-aligned, then trimmed), the site and
/// sample evidence of that allele alone, and each genotype recoded for it.
pub open spec fn allele_record(g: Seq<char>, rec: RecordView, i: int) -> RecordView {
    let (p, r, a) = norm_pair(g, rec.position as nat, rec.reference, rec.alts[i]);
    RecordView {
        position: p as u64,
        reference: r,
        alts: seq![a],
        info: seq![rec.info[i]],
        samples: rec.samples.map_values(|s: Seq<Evidence>| seq![s[i]]),
        genotypes: rec.genotypes.map_values(|gt: Seq<Option<u32>>| recode_genotype(gt, i)),
        ..rec
    }
}

/// The records a record decomposes into: one per alternate allele (none
/// for a record without one).
pub open spec fn split_record(g: Seq<char>, rec: RecordView) -> Seq<RecordView> {
    Seq::new(rec.alts.len(), |i: int| allele_record(g, rec, i))
}

/// The decomposition of a list of records on contig sequence `g`, in order.
pub open spec fn decomposed(g: Seq<char>, rs: Seq<RecordView>) -> Seq<RecordView>
    decreases rs.len(),
{
    if rs.len() == 0 {
        seq![]
    } else {
        decomposed(g, rs.drop_last()) + split_record(g, rs.last())
    }
}

/// Left-alignment of the allele pair (`r`, `a`) placed at 1-based position
/// `pos` on contig sequence `g`: while both alleles end in the same base,
/// drop it; when an allele is empty, extend both by the contig base before
/// them (as long as there is one).
pub open spec fn left_align(g: Seq<char>, pos: nat, r: Seq<char>, a: Seq<char>) -> (nat, Seq<char>, Seq<char>)
    decreases pos, r.len(),
{
    if r.len() > 0 && a.len() > 0 && r.last() == a.last() {
        left_align(g, pos, r.drop_last(), a.drop_last())
    } else if (r.len() == 0 || a.len() == 0) && 1 < pos && pos <= g.len() + 1 {
        let b = g[pos - 2];
        left_align(g, (pos - 1) as nat, seq![b] + r, seq![b] + a)
    } else {
        (pos, r, a)
    }
}

/// Neither step of left-alignment applies.
pub open spec fn aligned(g: Seq<char>, pos: nat, r: Seq<char>, a: Seq<char>) -> bool {
    &&& !(r.len() > 0 && a.len() > 0 && r.last() == a.last())
    &&& !((r.len() == 0 || a.len() == 0) && 1 < pos && pos <= g.len() + 1)
}

/// The normal form of an allele pair: left-aligned against `g`, then shared
/// leading bases removed (both keeping at least one), the position moved
/// past them.
pub open spec fn norm_pair(g: Seq<char>, pos: nat, r: Seq<char>, a: Seq<char>) -> (nat, Seq<char>, Seq<char>) {
    let (p1, r1, a1) = left_align(g, pos, r, a);
    let k = prefix_trim(r1, a1);
    ((p1 + k) as nat, r1.subrange(k as int, r1.len() as int), a1.subrange(k as int, a1.len() as int))
}

proof fn lemma_left_align(g: Seq<char>, pos: nat, r: Seq<char>, a: Seq<char>)
    ensures
        ({
            let (p1, r1, a1) = left_align(g, pos, r, a);
            aligned(g, p1, r1, a1) && p1 + r1.len() <= pos + r.len()
        }),
    decreases pos, r.len(),
{
    if r.len() > 0 && a.len() > 0 && r.last() == a.last() {
        lemma_left_align(g, pos, r.drop_last(), a.drop_last());
    } else if (r.len() == 0 || a.len() == 0) && 1 < pos && pos <= g.len() + 1 {
        let b = g[pos - 2];
        lemma_left_align(g, (pos - 1) as nat, seq![b] + r, seq![b] + a);
    }
}

proof fn lemma_aligned_fixed(g: Seq<char>, pos: nat, r: Seq<char>, a: Seq<char>)
    requires
        aligned(g, pos, r, a),
    ensures
        left_align(g, pos, r, a) == (pos, r, a),
{
}

/// A pair in normal form is its own normal form; its position stays within
/// the span of the original reference.
proof fn lemma_norm_pair_fixed(g: Seq<char>, pos: nat, r: Seq<char>, a: Seq<char>)
    ensures
        ({
            let (p2, r2, a2) = norm_pair(g, pos, r, a);
            norm_pair(g, p2, r2, a2) == (p2, r2, a2) && p2 + r2.len() <= pos + r.len()
        }),
{
    let (p1, r1, a1) = left_align(g, pos, r, a);
    lemma_left_align(g, pos, r, a);
    lemma_prefix_trim_bound(r1, a1);
    let (p2, r2, a2) = norm_pair(g, pos, r, a);
    let k = prefix_trim(r1, a1);
    if k > 0 {
        assert(r2.last() == r1.last());
        assert(a2.last() == a1.last());
        assert(aligned(g, p2, r2, a2));
    } else {
        assert(r2 == r1);
        assert(a2 == a1);
        assert(aligned(g, p2, r2, a2));
    }
    lemma_aligned_fixed(g, p2, r2, a2);
    assert(prefix_trim(r2, a2) == 0);
    assert(r2.subrange(0, r2.len() as int) == r2);
    assert(a2.subrange(0, a2.len() as int) == a2);
}

/// A record whose position can move past its whole reference.
pub open spec fn position_fits(rec: RecordView) -> bool {
    rec.position + rec.reference.len() <= u64::MAX
}

proof fn lemma_prefix_trim_bound(r: Seq<char>, a: Seq<char>)
    ensures
        prefix_trim(r, a) < r.len() || r.len() == 0,
        prefix_trim(r, a) < a.len() || a.len() == 0,
        prefix_trim(r, a) == 0 || (r.len() > 1 && a.len() > 1),
        ({
            let k = prefix_trim(r, a);
            let r2 = r.subrange(k as int, r.len() as int);
            let a2 = a.subrange(k as int, a.len() as int);
            !(r2.len() > 1 && a2.len() > 1 && r2[0] == a2[0])
        }),
    decreases r.len(),
{
    if r.len() > 1 && a.len() > 1 && r[0] == a[0] {
        let rt = r.subrange(1, r.len() as int);
        let at = a.subrange(1, a.len() as int);
        lemma_prefix_trim_bound(rt, at);
        let k = prefix_trim(r, a);
        assert(rt.subrange(k - 1, rt.len() as int) == r.subrange(k as int, r.len() as int));
        assert(at.subrange(k - 1, at.len() as int) == a.subrange(k as int, a.len() as int));
    } else {
        assert(r.subrange(0, r.len() as int) == r);
        assert(a.subrange(0, a.len() as int) == a);
    }
}

/// A record for a single allele decomposes into itself.
proof fn lemma_allele_record_fixed(g: Seq<char>, rec: RecordView, i: int)
    requires
        position_fits(rec),
    ensures
        split_record(g, allele_record(g, rec, i)) == seq![allele_record(g, rec, i)],
{
    let t = allele_record(g, rec, i);
    let n = norm_pair(g, rec.position as nat, rec.reference, rec.alts[i]);
    lemma_norm_pair_fixed(g, rec.position as nat, rec.reference, rec.alts[i]);
    assert(t.alts[0] == n.2);
    assert(t.position as nat == n.0);
    let u = allele_record(g, t, 0);
    assert(u.info =~= t.info);
    assert(u.samples =~= t.samples) by {
        assert forall|k: int| 0 <= k < t.samples.len() implies u.samples[k] == t.samples[k] by {
            assert(u.samples[k] =~= t.samples[k]);
        }
    }
    assert(u.genotypes =~= t.genotypes) by {
        assert forall|k: int| 0 <= k < t.genotypes.len() implies u.genotypes[k] == t.genotypes[k] by {
            assert(u.genotypes[k] =~= t.genotypes[k]);
        }
    }
    assert(u.alts =~= t.alts);
    assert(u == t);
    assert(split_record(g, t) =~= seq![t]);
}

proof fn lemma_decomposed_append(g: Seq<char>, a: Seq<RecordView>, b: Seq<RecordView>)
    ensures
        decomposed(g, a + b) == decomposed(g, a) + decomposed(g, b),
    decreases b.len(),
{
    if b.len() == 0 {
        assert(a + b == a);
        assert(decomposed(g, a) + decomposed(g, b) == decomposed(g, a));
    } else {
        lemma_decomposed_append(g, a, b.drop_last());
        assert((a + b).drop_last() == a + b.drop_last());
        assert((a + b).last() == b.last());
        assert(decomposed(g, a) + decomposed(g, b) == decomposed(g, a) + decomposed(g, b.drop_last())
            + split_record(g, b.last()));
    }
}

/// A list of records that each decompose into themselves decomposes into itself.
proof fn lemma_decomposed_fixed(g: Seq<char>, rs: Seq<RecordView>)
    requires
        forall|i: int| 0 <= i < rs.len() ==> split_record(g, #[trigger] rs[i]) == seq![rs[i]],
    ensures
        decomposed(g, rs) == rs,
    decreases rs.len(),
{
    if rs.len() > 0 {
        lemma_decomposed_fixed(g, rs.drop_last());
        assert(split_record(g, rs.last()) == seq![rs[rs.len() - 1]]);
        assert(rs.drop_last().push(rs.last()) == rs);
        assert(rs.drop_last() + seq![rs.last()] == rs);
    }
}

proof fn lemma_split_record_fixed(g: Seq<char>, rec: RecordView)
    requires
        position_fits(rec),
    ensures
        decomposed(g, split_record(g, rec)) == split_record(g, rec),
{
    let s = split_record(g, rec);
    assert forall|i: int| 0 <= i < s.len() implies split_record(g, #[trigger] s[i]) == seq![s[i]] by {
        lemma_allele_record_fixed(g, rec, i);
    }
    lemma_decomposed_fixed(g, s);
}

/// The records a record decomposes into can be decomposed again.
proof fn lemma_split_record_ready(g: Seq<char>, rec: RecordView)
    requires
        position_fits(rec),
    ensures
        forall|i: int|
            0 <= i < split_record(g, rec).len() ==> position_fits(
                #[trigger] split_record(g, rec)[i],
            ) && evidence_complete(split_record(g, rec)[i]),
{
    assert forall|i: int| 0 <= i < split_record(g, rec).len() implies position_fits(
        #[trigger] split_record(g, rec)[i],
    ) && evidence_complete(split_record(g, rec)[i]) by {
        let t = split_record(g, rec)[i];
        lemma_norm_pair_fixed(g, rec.position as nat, rec.reference, rec.alts[i]);
        assert(t == allele_record(g, rec, i));
        assert forall|k: int| 0 <= k < t.samples.len() implies (#[trigger] t.samples[k]).len()
            == t.alts.len() by {
            assert(t.samples[k] == seq![rec.samples[k][i]]);
        }
    }
}

/// Decomposed records can be decomposed again.
proof fn lemma_decomposed_ready(g: Seq<char>, rs: Seq<RecordView>)
    requires
        forall|i: int| 0 <= i < rs.len() ==> position_fits(#[trigger] rs[i]),
    ensures
        forall|i: int|
            0 <= i < decomposed(g, rs).len() ==> position_fits(#[trigger] decomposed(g, rs)[i])
                && evidence_complete(decomposed(g, rs)[i]),
    decreases rs.len(),
{
    if rs.len() > 0 {
        assert forall|i: int| 0 <= i < rs.drop_last().len() implies position_fits(
            #[trigger] rs.drop_last()[i],
        ) by {
            assert(rs.drop_last()[i] == rs[i]);
        }
        lemma_decomposed_ready(g, rs.drop_last());
        assert(position_fits(rs[rs.len() - 1]));
        lemma_split_record_ready(g, rs.last());
        let a = decomposed(g, rs.drop_last());
        let b = split_record(g, rs.last());
        assert forall|i: int| 0 <= i < decomposed(g, rs).len() implies position_fits(
            #[trigger] decomposed(g, rs)[i],
        ) && evidence_complete(decomposed(g, rs)[i]) by {
            if i < a.len() {
                assert(decomposed(g, rs)[i] == a[i]);
            } else {
                assert(decomposed(g, rs)[i] == b[i - a.len()]);
            }
        }
    }
}

/// Decomposing twice gives the same records as decomposing once, for
/// records whose position can move past their whole reference.
pub proof fn lemma_decompose_idempotent(g: Seq<char>, rs: Seq<RecordView>)
    requires
        forall|i: int| 0 <= i < rs.len() ==> position_fits(#[trigger] rs[i]),
    ensures
        decomposed(g, decomposed(g, rs)) == decomposed(g, rs),
    decreases rs.len(),
{
    if rs.len() > 0 {
        assert forall|i: int| 0 <= i < rs.drop_last().len() implies position_fits(
            #[trigger] rs.drop_last()[i],
        ) by {
            assert(rs.drop_last()[i] == rs[i]);
        }
        lemma_decompose_idempotent(g, rs.drop_last());
        lemma_decomposed_append(g, decomposed(g, rs.drop_last()), split_record(g, rs.last()));
        assert(position_fits(rs[rs.len() - 1]));
        lemma_split_record_fixed(g, rs.last());
    }
}

/// The normal form of one allele against contig sequence `genome`: the pair
/// left-aligned, then its shared leading bases removed; with the new position.
pub fn normalize_allele(genome: &str, position: u64, reference: &str, alt: &str) -> (r: (
    u64,
    String,
    String,
))
    requires
        position + reference@.len() <= u64::MAX,
    ensures
        (r.0 as nat, r.1@, r.2@) == norm_pair(genome@, position as nat, reference@, alt@),
{
    let glen = genome.unicode_len();
    let ghost g = genome@;
    let mut p: u64 = position;
    let mut r = String::from_str(reference);
    let mut a = String::from_str(alt);
    loop
        invariant
            glen == g.len(),
            g == genome@,
            left_align(g, position as nat, reference@, alt@) == left_align(g, p as nat, r@, a@),
            p + r@.len() <= position + reference@.len(),
            position + reference@.len() <= u64::MAX,
        ensures
            aligned(g, p as nat, r@, a@),
            left_align(g, position as nat, reference@, alt@) == left_align(g, p as nat, r@, a@),
            p + r@.len() <= position + reference@.len(),
        decreases p, r@.len(),
    {
        let rl = r.unicode_len();
        let al = a.unicode_len();
        if rl > 0 && al > 0 && r.get_char(rl - 1) == a.get_char(al - 1) {
            let nr = String::from_str(r.as_str().substring_char(0, rl - 1));
            let na = String::from_str(a.as_str().substring_char(0, al - 1));
            assert(nr@ == r@.drop_last());
            assert(na@ == a@.drop_last());
            r = nr;
            a = na;
        } else if (rl == 0 || al == 0) && 1 < p && p - 1 <= glen as u64 {
            let b = genome.substring_char((p - 2) as usize, (p - 1) as usize);
            assert(b@ =~= seq![g[p - 2]]);
            let mut nr = String::from_str(b);
            nr.append(r.as_str());
            let mut na = String::from_str(b);
            na.append(a.as_str());
            r = nr;
            a = na;
            p = p - 1;
        } else {
            assert(aligned(g, p as nat, r@, a@));
            break;
        }
    }
    proof {
        lemma_aligned_fixed(g, p as nat, r@, a@);
    }
    let rl = r.unicode_len();
    let al = a.unicode_len();
    let mut k: usize = 0;
    let ghost rv = r@;
    let ghost av = a@;
    assert(rv.subrange(0, rl as int) == rv);
    assert(av.subrange(0, al as int) == av);
    while rl - k > 1 && al - k > 1 && r.get_char(k) == a.get_char(k)
        invariant
            rl == rv.len(),
            al == av.len(),
            rv == r@,
            av == a@,
            k <= rl,
            k <= al,
            prefix_trim(rv, av) == k + prefix_trim(
                rv.subrange(k as int, rl as int),
                av.subrange(k as int, al as int),
            ),
        decreases rl - k,
    {
        let ghost r2 = rv.subrange(k as int, rl as int);
        let ghost a2 = av.subrange(k as int, al as int);
        assert(r2[0] == rv[k as int]);
        assert(a2[0] == av[k as int]);
        assert(r2.subrange(1, r2.len() as int) == rv.subrange(k + 1, rl as int));
        assert(a2.subrange(1, a2.len() as int) == av.subrange(k + 1, al as int));
        k = k + 1;
    }
    assert(prefix_trim(rv.subrange(k as int, rl as int), av.subrange(k as int, al as int)) == 0);
    proof {
        lemma_prefix_trim_bound(rv, av);
    }
    let r2 = String::from_str(r.as_str().substring_char(k, rl));
    let a2 = String::from_str(a.as_str().substring_char(k, al));
    (p + k as u64, r2, a2)
}

fn allele_samples_of(samples: &Vec<Vec<Evidence>>, i: usize) -> (r: Vec<Vec<Evidence>>)
    requires
        forall|k: int| 0 <= k < samples.len() ==> i < (#[trigger] samples@[k])@.len(),
    ensures
        r@.map_values(|v: Vec<Evidence>| v@) == samples@.map_values(|v: Vec<Evidence>| v@).map_values(
            |s: Seq<Evidence>| seq![s[i as int]],
        ),
{
    let mut out: Vec<Vec<Evidence>> = Vec::new();
    let mut k: usize = 0;
    while k < samples.len()
        invariant
            k <= samples.len(),
            forall|j: int| 0 <= j < samples.len() ==> i < (#[trigger] samples@[j])@.len(),
            out@.len() == k,
            forall|j: int| 0 <= j < k ==> (#[trigger] out@[j])@ == seq![samples@[j]@[i as int]],
        decreases samples.len() - k,
    {
        let mut one: Vec<Evidence> = Vec::new();
        one.push(samples[k][i]);
        assert(one@ =~= seq![samples@[k as int]@[i as int]]);
        out.push(one);
        k = k + 1;
    }
    assert(out@.map_values(|v: Vec<Evidence>| v@) =~= samples@.map_values(|v: Vec<Evidence>| v@).map_values(
        |s: Seq<Evidence>| seq![s[i as int]],
    ));
    out
}

fn recode_genotypes_of(genotypes: &Vec<Vec<Option<u32>>>, i: usize) -> (r: Vec<Vec<Option<u32>>>)
    ensures
        r@.map_values(|v: Vec<Option<u32>>| v@) == genotypes@.map_values(
            |v: Vec<Option<u32>>| v@,
        ).map_values(|gt: Seq<Option<u32>>| recode_genotype(gt, i as int)),
{
    let mut out: Vec<Vec<Option<u32>>> = Vec::new();
    let mut k: usize = 0;
    while k < genotypes.len()
        invariant
            k <= genotypes.len(),
            out@.len() == k,
            forall|j: int| 0 <= j < k ==> (#[trigger] out@[j])@ == recode_genotype(
                genotypes@[j]@,
                i as int,
            ),
        decreases genotypes.len() - k,
    {
        let gt = &genotypes[k];
        let mut one: Vec<Option<u32>> = Vec::new();
        let mut m: usize = 0;
        while m < gt.len()
            invariant
                m <= gt.len(),
                one@.len() == m,
                forall|j: int| 0 <= j < m ==> one@[j] == recode_allele(#[trigger] gt@[j], i as int),
            decreases gt.len() - m,
        {
            let a = match gt[m] {
                Some(x) => if i < u32::MAX as usize && x == (i + 1) as u32 {
                    Some(1u32)
                } else {
                    Some(0u32)
                },
                None => None,
            };
            one.push(a);
            m = m + 1;
        }
        assert(one@ =~= recode_genotype(gt@, i as int));
        out.push(one);
        k = k + 1;
    }
    assert(out@.map_values(|v: Vec<Option<u32>>| v@) =~= genotypes@.map_values(
        |v: Vec<Option<u32>>| v@,
    ).map_values(|gt: Seq<Option<u32>>| recode_genotype(gt, i as int)));
    out
}

/// The records one record decomposes into: one per alternate allele,
/// normalised, each with its allele's own site and sample evidence and its
/// genotypes recoded for that allele.
pub fn decompose_record(genome: &str, rec: &VariantRecord) -> (r: Vec<VariantRecord>)
    requires
        position_fits(rec@),
        evidence_complete(rec@),
    ensures
        records_view(r@) == split_record(genome@, rec@),
        forall|j: int|
            0 <= j < r.len() ==> position_fits(#[trigger] r@[j]@) && evidence_complete(r@[j]@),
{
    let mut out: Vec<VariantRecord> = Vec::new();
    let mut i: usize = 0;
    while i < rec.alts.len()
        invariant
            position_fits(rec@),
            evidence_complete(rec@),
            i <= rec.alts.len(),
            records_view(out@) == split_record(genome@, rec@).subrange(0, i as int),
        decreases rec.alts.len() - i,
    {
        let (position, reference, alt) = normalize_allele(
            genome,
            rec.position,
            rec.reference.as_str(),
            rec.alts[i].as_str(),
        );
        proof {
            assert forall|j: int| 0 <= j < rec.samples.len() implies i < (
            #[trigger] rec.samples@[j])@.len() by {
                assert(rec@.samples[j] == rec.samples@[j]@);
            }
        }
        let mut alts: Vec<String> = Vec::new();
        alts.push(alt);
        let mut info: Vec<Evidence> = Vec::new();
        info.push(rec.info[i]);
        let piece = VariantRecord {
            contig: rec.contig.clone(),
            position,
            reference,
            alts,
            quality: rec.quality,
            info,
            samples: allele_samples_of(&rec.samples, i),
            genotypes: recode_genotypes_of(&rec.genotypes, i),
        };
        assert(piece@.info =~= seq![rec@.info[i as int]]);
        assert(piece@.alts =~= seq![
            norm_pair(genome@, rec.position as nat, rec.reference@, rec.alts.deep_view()[i as int]).2,
        ]);
        assert(piece@ == allele_record(genome@, rec@, i as int));
        let ghost pv = piece@;
        let ghost before = records_view(out@);
        out.push(piece);
        assert(records_view(out@) =~= before.push(pv));
        assert(split_record(genome@, rec@).subrange(0, i + 1) =~= split_record(genome@, rec@).subrange(
            0,
            i as int,
        ).push(pv));
        i = i + 1;
    }
    assert(split_record(genome@, rec@).subrange(0, rec.alts.len() as int) =~= split_record(
        genome@,
        rec@,
    ));
    proof {
        lemma_split_record_ready(genome@, rec@);
        assert forall|j: int| 0 <= j < out.len() implies position_fits(#[trigger] out@[j]@)
            && evidence_complete(out@[j]@) by {
            assert(records_view(out@)[j] == out@[j]@);
        }
    }
    out
}

/// Decomposes every record against contig sequence `genome`, keeping record
/// order.
pub fn decompose(genome: &str, records: &Vec<VariantRecord>) -> (r: Vec<VariantRecord>)
    requires
        forall|i: int|
            0 <= i < records.len() ==> position_fits(#[trigger] records@[i]@) && evidence_complete(
                records@[i]@,
            ),
    ensures
        records_view(r@) == decomposed(genome@, records_view(records@)),
        forall|j: int|
            0 <= j < r.len() ==> position_fits(#[trigger] r@[j]@) && evidence_complete(r@[j]@),
{
    let mut out: Vec<VariantRecord> = Vec::new();
    let mut i: usize = 0;
    while i < records.len()
        invariant
            i <= records.len(),
            forall|j: int|
                0 <= j < records.len() ==> position_fits(#[trigger] records@[j]@)
                    && evidence_complete(records@[j]@),
            records_view(out@) == decomposed(genome@, records_view(records@.subrange(0, i as int))),
        decreases records.len() - i,
    {
        let mut pieces = decompose_record(genome, &records[i]);
        let ghost before = records_view(out@);
        let ghost added = records_view(pieces@);
        out.append(&mut pieces);
        assert(records_view(out@) =~= before + added);
        assert(records_view(records@.subrange(0, i + 1)).drop_last() =~= records_view(
            records@.subrange(0, i as int),
        ));
        assert(records_view(records@.subrange(0, i + 1)).last() == records@[i as int]@);
        i = i + 1;
    }
    assert(records@.subrange(0, records.len() as int) == records@);
    proof {
        let rs = records_view(records@);
        assert forall|i: int| 0 <= i < rs.len() implies position_fits(#[trigger] rs[i]) by {
            assert(rs[i] == records@[i]@);
        }
        lemma_decomposed_ready(genome@, rs);
        assert forall|j: int| 0 <= j < out.len() implies position_fits(#[trigger] out@[j]@)
            && evidence_complete(out@[j]@) by {
            assert(records_view(out@)[j] == out@[j]@);
        }
    }
    out
}

} // verus!
