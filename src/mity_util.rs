//! Naming rules and reference-asset selection shared by the commands.
use vstd::prelude::*;

use crate::error::{err_view, ErrorView, MityError};
use crate::text::{
    file_name, file_name_of, join_path, join_path_text, remove_all, remove_all_text,
};

verus! {

/// A supported genome build.
#[derive(Debug, Clone, Copy, PartialEq, Eq, Structural)]
pub enum GenomeBuild {
    Hs37d5,
    Hg19,
    Hg38,
    Mm10,
}

pub open spec fn build_name_of(b: GenomeBuild) -> Seq<char> {
    match b {
        GenomeBuild::Hs37d5 => "hs37d5"@,
        GenomeBuild::Hg19 => "hg19"@,
        GenomeBuild::Hg38 => "hg38"@,
        GenomeBuild::Mm10 => "mm10"@,
    }
}

impl GenomeBuild {
    /// The build's name, as its asset files are named.
    pub fn name(&self) -> (r: &'static str)
        ensures
            r@ == build_name_of(*self),
    {
        match self {
            GenomeBuild::Hs37d5 => "hs37d5",
            GenomeBuild::Hg19 => "hg19",
            GenomeBuild::Hg38 => "hg38",
            GenomeBuild::Mm10 => "mm10",
        }
    }

    /// The build of the given name, if it is one of the supported builds.
    pub fn parse(name: &str) -> (r: Option<GenomeBuild>)
        ensures
            r matches Some(b) ==> build_name_of(b) == name@,
            r is None ==> forall|b: GenomeBuild| build_name_of(b) != name@,
    {
        if crate::text::same_text(name, "hs37d5") {
            Some(GenomeBuild::Hs37d5)
        } else if crate::text::same_text(name, "hg19") {
            Some(GenomeBuild::Hg19)
        } else if crate::text::same_text(name, "hg38") {
            Some(GenomeBuild::Hg38)
        } else if crate::text::same_text(name, "mm10") {
            Some(GenomeBuild::Mm10)
        } else {
            proof {
                assert forall|b: GenomeBuild| build_name_of(b) != name@ by {
                    match b {
                        GenomeBuild::Hs37d5 => {},
                        GenomeBuild::Hg19 => {},
                        GenomeBuild::Hg38 => {},
                        GenomeBuild::Mm10 => {},
                    }
                }
            }
            None
        }
    }

    /// Every supported build, in the order they are listed to users.
    pub fn all() -> (r: Vec<GenomeBuild>)
        ensures
            r@ == seq![GenomeBuild::Hs37d5, GenomeBuild::Hg19, GenomeBuild::Hg38, GenomeBuild::Mm10],
    {
        let mut v: Vec<GenomeBuild> = Vec::new();
        v.push(GenomeBuild::Hs37d5);
        v.push(GenomeBuild::Hg19);
        v.push(GenomeBuild::Hg38);
        v.push(GenomeBuild::Mm10);
        assert(v@ =~= seq![GenomeBuild::Hs37d5, GenomeBuild::Hg19, GenomeBuild::Hg38, GenomeBuild::Mm10]);
        v
    }
}

/// The prefix of a call-set path: its file name with the pipeline's name
/// parts removed, in this order: `.mity`, `.call`, `.normalise`, `.merge`,
/// `.report`, `.vcf.gz`.
pub open spec fn prefix_of_vcf(name: Seq<char>) -> Seq<char> {
    remove_all(
        remove_all(
            remove_all(
                remove_all(remove_all(remove_all(name, ".mity"@), ".call"@), ".normalise"@),
                ".merge"@,
            ),
            ".report"@,
        ),
        ".vcf.gz"@,
    )
}

/// Makes a prefix from a call-set path (which must have a file name).
pub fn make_prefix(vcf_path: &str) -> (r: String)
    requires
        file_name_of(vcf_path@) is Some,
    ensures
        r@ == prefix_of_vcf(file_name_of(vcf_path@)->0),
{
    let name = file_name(vcf_path).unwrap();
    let a = remove_all_text(name.as_str(), ".mity");
    let b = remove_all_text(a.as_str(), ".call");
    let c = remove_all_text(b.as_str(), ".normalise");
    let d = remove_all_text(c.as_str(), ".merge");
    let e = remove_all_text(d.as_str(), ".report");
    remove_all_text(e.as_str(), ".vcf.gz")
}

/// `<mity_dir>/annot/<name>`
pub open spec fn annot_path_of(mity_dir: Seq<char>, name: Seq<char>) -> Seq<char> {
    join_path(join_path(mity_dir, "annot"@), name)
}

/// Where an annotation file lives under the installation directory.
pub fn annot_file_path(mity_dir: &str, annotation_file_path: &str) -> (r: String)
    ensures
        r@ == annot_path_of(mity_dir@, annotation_file_path@),
{
    let dir = join_path_text(mity_dir, "annot");
    join_path_text(dir.as_str(), annotation_file_path)
}

/// The path of an annotation file under the installation directory, given
/// whether that path exists; a missing file is an error that names it.
pub fn get_annot_file(mity_dir: &str, annotation_file_path: &str, exists: bool) -> (r: Result<
    String,
    MityError,
>)
    ensures
        exists ==> (r matches Ok(p) && p@ == annot_path_of(mity_dir@, annotation_file_path@)),
        !exists ==> err_view(r) == Some(
            ErrorView::Io(
                "Annotation file not found: "@ + annot_path_of(mity_dir@, annotation_file_path@),
            ),
        ),
{
    let path = annot_file_path(mity_dir, annotation_file_path);
    if !exists {
        let mut m = String::from_str("Annotation file not found: ");
        m.append(path.as_str());
        return Err(MityError::Io(m));
    }
    Ok(path)
}

/// `<mity_dir>/reference/<build>.fa`
pub open spec fn fasta_pattern_of(mity_dir: Seq<char>, build: Seq<char>) -> Seq<char> {
    join_path(mity_dir, "reference"@) + "/"@ + build + ".fa"@
}

/// `<mity_dir>/reference/<build>.genome`
pub open spec fn genome_pattern_of(mity_dir: Seq<char>, build: Seq<char>) -> Seq<char> {
    join_path(mity_dir, "reference"@) + "/"@ + build + ".genome"@
}

fn reference_pattern(mity_dir: &str, build: &str, ext: &str) -> (r: String)
    ensures
        r@ == join_path(mity_dir@, "reference"@) + "/"@ + build@ + ext@,
{
    let mut p = join_path_text(mity_dir, "reference");
    p.append("/");
    p.append(build);
    p.append(ext);
    p
}

/// The search pattern of a build's reference sequence file.
pub fn fasta_pattern(mity_dir: &str, build: &str) -> (r: String)
    ensures
        r@ == fasta_pattern_of(mity_dir@, build@),
{
    reference_pattern(mity_dir, build, ".fa")
}

/// The search pattern of a build's genome-length file.
pub fn genome_pattern(mity_dir: &str, build: &str) -> (r: String)
    ensures
        r@ == genome_pattern_of(mity_dir@, build@),
{
    reference_pattern(mity_dir, build, ".genome")
}

/// The reference file to use: an existing override as given, else the one
/// file that matched the search pattern; zero or several matches are an
/// error that lists them.
pub open spec fn chosen_reference(
    custom: Option<Seq<char>>,
    custom_exists: bool,
    matches: Seq<Seq<char>>,
) -> Result<Seq<char>, Seq<Seq<char>>> {
    if custom is Some && custom_exists {
        Ok(custom->0)
    } else if matches.len() == 1 {
        Ok(matches[0])
    } else {
        Err(matches)
    }
}

/// The view of a reference choice.
pub open spec fn choice_view(r: Result<String, MityError>) -> Result<Seq<char>, Seq<Seq<char>>> {
    match r {
        Ok(p) => Ok(p@),
        Err(MityError::ReferenceNotFound(v)) => Err(v.deep_view()),
        Err(_) => Err(seq![]),
    }
}

fn choose_reference(custom: Option<&str>, custom_exists: bool, matches: &Vec<String>) -> (r: Result<
    String,
    MityError,
>)
    ensures
        r is Err ==> r->Err_0 is ReferenceNotFound,
        choice_view(r) == chosen_reference(
            match custom {
                Some(c) => Some(c@),
                None => None,
            },
            custom_exists,
            matches.deep_view(),
        ),
{
    if let Some(c) = custom {
        if custom_exists {
            return Ok(String::from_str(c));
        }
    }
    if matches.len() != 1 {
        return Err(MityError::ReferenceNotFound(matches.clone()));
    }
    Ok(matches[0].clone())
}

/// Selects the reference sequence file: `custom_reference_fa` when given and
/// existing, else the one file that matched the build's `.fa` pattern.
pub fn select_reference_fasta(
    custom_reference_fa: Option<&str>,
    custom_exists: bool,
    matches: &Vec<String>,
) -> (r: Result<String, MityError>)
    ensures
        r is Err ==> r->Err_0 is ReferenceNotFound,
        choice_view(r) == chosen_reference(
            match custom_reference_fa {
                Some(c) => Some(c@),
                None => None,
            },
            custom_exists,
            matches.deep_view(),
        ),
{
    choose_reference(custom_reference_fa, custom_exists, matches)
}

/// Selects the genome-length file: `custom_reference_genome` when given and
/// existing, else the one file that matched the build's `.genome` pattern.
pub fn select_reference_genome(
    custom_reference_genome: Option<&str>,
    custom_exists: bool,
    matches: &Vec<String>,
) -> (r: Result<String, MityError>)
    ensures
        r is Err ==> r->Err_0 is ReferenceNotFound,
        choice_view(r) == chosen_reference(
            match custom_reference_genome {
                Some(c) => Some(c@),
                None => None,
            },
            custom_exists,
            matches.deep_view(),
        ),
{
    choose_reference(custom_reference_genome, custom_exists, matches)
}

/// Arguments of the indexer for a compressed file: `-f <file>`.
pub fn tabix(file: &str) -> (r: Vec<String>)
    ensures
        r.deep_view() == seq!["-f"@, file@],
{
    let mut v: Vec<String> = Vec::new();
    v.push(String::from_str("-f"));
    v.push(String::from_str(file));
    assert(v.deep_view() =~= seq!["-f"@, file@]);
    v
}

/// Arguments of the sorter: the input and the genome-length file that gives
/// contig order.
pub fn gsort(input_path: &str, genome: &str) -> (r: Vec<String>)
    ensures
        r.deep_view() == seq![input_path@, genome@],
{
    let mut v: Vec<String> = Vec::new();
    v.push(String::from_str(input_path));
    v.push(String::from_str(genome));
    assert(v.deep_view() =~= seq![input_path@, genome@]);
    v
}

} // verus!
