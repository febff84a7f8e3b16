//! The environment check report, built from what the caller probed.
use vstd::prelude::*;

use crate::mity_util::{build_name_of, GenomeBuild};
use crate::text::{decimal, decimal_string};

verus! {

/// One line of the report, for standard output or for the error channel.
#[derive(Debug)]
pub struct CheckLine {
    pub is_error: bool,
    pub text: String,
}

pub open spec fn line_view(l: CheckLine) -> (bool, Seq<char>) {
    (l.is_error, l.text@)
}

pub open spec fn lines_view(ls: Seq<CheckLine>) -> Seq<(bool, Seq<char>)> {
    ls.map_values(|l: CheckLine| line_view(l))
}

/// The commands the pipeline runs, in the order they are checked.
pub open spec fn required_command_names() -> Seq<Seq<char>> {
    seq!["freebayes"@, "tabix"@, "gsort"@]
}

/// The commands the pipeline runs.
pub fn required_commands() -> (r: Vec<String>)
    ensures
        r.deep_view() == required_command_names(),
{
    let mut v: Vec<String> = Vec::new();
    v.push(String::from_str("freebayes"));
    v.push(String::from_str("tabix"));
    v.push(String::from_str("gsort"));
    assert(v.deep_view() =~= required_command_names());
    v
}

/// An error line for each command that is not available, in order.
pub open spec fn command_lines(names: Seq<Seq<char>>, available: Seq<bool>, n: nat) -> Seq<(bool, Seq<char>)>
    decreases n,
{
    if n == 0 {
        seq![]
    } else if !available[n - 1] {
        command_lines(names, available, (n - 1) as nat).push(
            (true, "Error: Command '"@ + names[n - 1] + "' is not installed or not in PATH."@),
        )
    } else {
        command_lines(names, available, (n - 1) as nat)
    }
}

/// For each build in order, an error line for a missing sequence file, then
/// one for a missing genome-length file.
pub open spec fn reference_lines(builds: Seq<GenomeBuild>, fasta: Seq<bool>, genome: Seq<bool>, n: nat) -> Seq<
    (bool, Seq<char>),
>
    decreases n,
{
    if n == 0 {
        seq![]
    } else {
        let b = build_name_of(builds[n - 1]);
        reference_lines(builds, fasta, genome, (n - 1) as nat)
            + (if fasta[n - 1] { seq![] } else { seq![(true, "Reference fasta for '"@ + b + "' is missing."@)] })
            + (if genome[n - 1] { seq![] } else { seq![(true, "Reference genome for '"@ + b + "' is missing."@)] })
    }
}

/// The whole report: the command checks, the thread count, then either the
/// reference-file checks or the notice that the installation directory is
/// missing.
pub open spec fn check_report(
    available: Seq<bool>,
    threads: nat,
    references: Option<(Seq<bool>, Seq<bool>)>,
) -> Seq<(bool, Seq<char>)> {
    seq![(false, "Checking for required commands..."@)]
        + command_lines(required_command_names(), available, 3)
        + seq![(false, ""@), (false, "Number of available threads: "@ + decimal(threads) + "\n"@)]
        + match references {
        Some((fasta, genome)) => seq![(false, "Checking for required genome files..."@)]
            + reference_lines(
            seq![GenomeBuild::Hs37d5, GenomeBuild::Hg19, GenomeBuild::Hg38, GenomeBuild::Mm10],
            fasta,
            genome,
            4,
        ),
        None => seq![(true, "Mity directory not found! Likely an issue with installation."@)],
    }
}

fn push_line(out: &mut Vec<CheckLine>, is_error: bool, text: String)
    ensures
        lines_view(final(out)@) == lines_view(old(out)@).push((is_error, text@)),
{
    out.push(CheckLine { is_error, text });
    assert(lines_view(final(out)@) =~= lines_view(old(out)@).push((is_error, text@)));
}

fn quoted(head: &str, name: &str, tail: &str) -> (r: String)
    ensures
        r@ == head@ + name@ + tail@,
{
    let mut s = String::from_str(head);
    s.append(name);
    s.append(tail);
    s
}

/// The report of an environment check. `available[i]` says whether the i-th
/// required command was found; `threads` is the available parallelism;
/// `references` holds, for each supported build in order, whether its
/// sequence file and its genome-length file were found, or is `None` when
/// the installation directory was not found.
pub fn mity_check(available: &Vec<bool>, threads: usize, references: &Option<(Vec<bool>, Vec<bool>)>) -> (r: Vec<CheckLine>)
    requires
        available.len() == 3,
        references matches Some((f, g)) ==> f.len() == 4 && g.len() == 4,
    ensures
        lines_view(r@) == check_report(
            available@,
            threads as nat,
            match references {
                Some((f, g)) => Some((f@, g@)),
                None => None,
            },
        ),
{
    let names = required_commands();
    let mut out: Vec<CheckLine> = Vec::new();
    push_line(&mut out, false, String::from_str("Checking for required commands..."));
    let ghost head = lines_view(out@);
    assert(names.deep_view().len() == 3);
    let mut i: usize = 0;
    while i < 3
        invariant
            i <= 3,
            available.len() == 3,
            names.len() == 3,
            names.deep_view() == required_command_names(),
            lines_view(out@) == head + command_lines(required_command_names(), available@, i as nat),
        decreases 3 - i,
    {
        assert(names.deep_view()[i as int] == names@[i as int]@);
        if !available[i] {
            let t = quoted("Error: Command '", names[i].as_str(), "' is not installed or not in PATH.");
            push_line(&mut out, true, t);
        }
        i = i + 1;
    }
    push_line(&mut out, false, String::new());
    let mut t = String::from_str("Number of available threads: ");
    t.append(decimal_string(threads as u64).as_str());
    t.append("\n");
    push_line(&mut out, false, t);
    let ghost middle = lines_view(out@);
    proof {
        reveal_strlit("");
    }
    assert((threads as u64) as nat == threads as nat);
    assert(""@ =~= Seq::<char>::empty());
    assert(middle =~= seq![(false, "Checking for required commands..."@)] + command_lines(
        required_command_names(),
        available@,
        3,
    ) + seq![(false, ""@), (false, "Number of available threads: "@ + decimal(threads as nat) + "\n"@)]);
    match references {
        Some((fasta, genome)) => {
            push_line(&mut out, false, String::from_str("Checking for required genome files..."));
            let builds = GenomeBuild::all();
            let ghost start = lines_view(out@);
            let mut j: usize = 0;
            while j < 4
                invariant
                    j <= 4,
                    fasta.len() == 4,
                    genome.len() == 4,
                    builds@ == seq![GenomeBuild::Hs37d5, GenomeBuild::Hg19, GenomeBuild::Hg38, GenomeBuild::Mm10],
                    lines_view(out@) == start + reference_lines(builds@, fasta@, genome@, j as nat),
                decreases 4 - j,
            {
                let b = builds[j].name();
                if !fasta[j] {
                    push_line(&mut out, true, quoted("Reference fasta for '", b, "' is missing."));
                }
                if !genome[j] {
                    push_line(&mut out, true, quoted("Reference genome for '", b, "' is missing."));
                }
                assert(lines_view(out@) =~= start + reference_lines(builds@, fasta@, genome@, (j + 1) as nat));
                j = j + 1;
            }
            assert(lines_view(out@) =~= middle + (seq![(false, "Checking for required genome files..."@)]
                + reference_lines(builds@, fasta@, genome@, 4)));
        },
        None => {
            push_line(
                &mut out,
                true,
                String::from_str("Mity directory not found! Likely an issue with installation."),
            );
        },
    }
    assert(lines_view(out@) =~= check_report(
        available@,
        threads as nat,
        match references {
            Some((f, g)) => Some((f@, g@)),
            None => None,
        },
    ));
    out
}

} // verus!
