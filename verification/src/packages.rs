//! Counting installed packages: which package manager to ask, and what to
//! make of its answer.

use vstd::prelude::*;

use crate::distro::Distro;
use crate::number::{decimal, decimal_string};

verus! {

/// Lists the packages of the whole system on Nix, one on each line.
pub const NIX_SYSTEM_QUERY: &'static str =
    "nix-store -qR /run/current-system | cut -d- -f2- | grep -o '.\\+[0-9]\\+\\.[0-9a-z.]\\+' | sort | uniq";

/// Lists the packages of the user's profile on Nix, one on each line.
pub const NIX_USER_QUERY: &'static str =
    "nix-store -qR $HOME/.nix-profile | cut -d- -f2- | grep -o '.\\+[0-9]\\+\\.[0-9a-z.]\\+' | sort | uniq";

/// A command whose output lists packages, one on each line.
pub struct PackageQuery {
    pub program: &'static str,
    pub arguments: Vec<&'static str>,
}

/// A command as the contracts speak of it: the program, then its
/// arguments.
pub open spec fn command(query: PackageQuery) -> Seq<Seq<char>> {
    seq![query.program@] + query.arguments@.map_values(|a: &'static str| a@)
}

/// The commands to run for a distribution: one for Arch, two for Nix (the
/// system's packages, then the user's), none for any other.
pub open spec fn queries_of(distro: Distro) -> Seq<Seq<Seq<char>>> {
    match distro {
        Distro::Arch => seq![seq!["pacman"@, "-Q"@]],
        Distro::Nix => seq![
            seq!["sh"@, "-c"@, NIX_SYSTEM_QUERY@],
            seq!["sh"@, "-c"@, NIX_USER_QUERY@],
        ],
        Distro::Unknown => Seq::empty(),
    }
}

/// The number of line feeds in an output.
pub open spec fn line_feeds(output: Seq<u8>) -> nat
    decreases output.len(),
{
    if output.len() == 0 {
        0
    } else {
        line_feeds(output.drop_last()) + if output.last() == 10 {
            1nat
        } else {
            0nat
        }
    }
}

/// The number of lines in an output: each line feed ends a line, and what
/// follows the last line feed is a line of its own unless it is empty.
pub open spec fn line_count(output: Seq<u8>) -> nat {
    line_feeds(output) + if output.len() > 0 && output.last() != 10 {
        1nat
    } else {
        0nat
    }
}

/// The count of query `i`, if that query was run and gave one.
pub open spec fn count_at(counts: Seq<Option<usize>>, i: int) -> Option<usize> {
    if 0 <= i < counts.len() {
        counts[i]
    } else {
        None
    }
}

/// A count with the name of what was counted.
pub open spec fn tally(count: usize, what: Seq<char>) -> Seq<char> {
    decimal(count as nat) + " ("@ + what + ")"@
}

/// What the report says of the installed packages, given the counts that
/// the queries of the distribution gave, in the order of the queries. A
/// query that gave no count is left out; where none gave one, and for a
/// distribution without queries, the report says nothing.
pub open spec fn packages_text(distro: Distro, counts: Seq<Option<usize>>) -> Option<Seq<char>> {
    match distro {
        Distro::Arch => match count_at(counts, 0) {
            Some(n) => Some(tally(n, "pacman"@)),
            None => None,
        },
        Distro::Nix => match (count_at(counts, 0), count_at(counts, 1)) {
            (Some(system), Some(user)) => Some(
                tally(system, "nix system"@) + ", "@ + tally(user, "nix user"@),
            ),
            (Some(system), None) => Some(tally(system, "nix system"@)),
            (None, Some(user)) => Some(tally(user, "nix user"@)),
            (None, None) => None,
        },
        Distro::Unknown => None,
    }
}

/// There are never more line feeds than bytes.
pub proof fn lemma_line_feeds_bound(output: Seq<u8>)
    ensures
        line_feeds(output) <= output.len(),
    decreases output.len(),
{
    if output.len() > 0 {
        lemma_line_feeds_bound(output.drop_last());
    }
}

/// The commands to run to count the packages of a distribution.
pub fn package_queries(distro: &Distro) -> (queries: Vec<PackageQuery>)
    ensures
        queries@.map_values(|q: PackageQuery| command(q)) == queries_of(*distro),
{
    let mut queries: Vec<PackageQuery> = Vec::new();
    match distro {
        Distro::Arch => {
            let pacman = PackageQuery { program: "pacman", arguments: vec!["-Q"] };
            assert(command(pacman) == seq!["pacman"@, "-Q"@]);
            queries.push(pacman);
        },
        Distro::Nix => {
            let system = PackageQuery { program: "sh", arguments: vec!["-c", NIX_SYSTEM_QUERY] };
            let user = PackageQuery { program: "sh", arguments: vec!["-c", NIX_USER_QUERY] };
            assert(command(system) == seq!["sh"@, "-c"@, NIX_SYSTEM_QUERY@]);
            assert(command(user) == seq!["sh"@, "-c"@, NIX_USER_QUERY@]);
            queries.push(system);
            queries.push(user);
        },
        Distro::Unknown => {},
    }
    queries
}

/// Counts the lines in the output of a query.
pub fn count_lines(output: &Vec<u8>) -> (n: usize)
    ensures
        n == line_count(output@),
{
    let mut feeds: usize = 0;
    let mut i: usize = 0;
    while i < output.len()
        invariant
            i <= output.len(),
            feeds == line_feeds(output@.take(i as int)),
            feeds <= i,
        decreases output.len() - i,
    {
        assert(output@.take(i + 1).drop_last() == output@.take(i as int));
        if output[i] == 10 {
            feeds += 1;
        }
        i += 1;
    }
    assert(output@.take(output.len() as int) == output@);
    if output.len() > 0 && output[output.len() - 1] != 10 {
        proof {
            lemma_line_feeds_bound(output@.drop_last());
        }
        feeds + 1
    } else {
        feeds
    }
}

/// Writes a count with the name of what was counted.
pub fn write_tally(count: usize, what: &str) -> (out: String)
    ensures
        out@ == tally(count, what@),
{
    let mut out = decimal_string(count as u64);
    out.append(" (");
    out.append(what);
    out.append(")");
    out
}

/// What the report says of the installed packages; see `packages_text`.
pub fn describe_packages(distro: &Distro, counts: &Vec<Option<usize>>) -> (out: Option<String>)
    ensures
        out is Some <==> packages_text(*distro, counts@) is Some,
        out matches Some(text) ==> packages_text(*distro, counts@) == Some(text@),
{
    let first = if counts.len() > 0 {
        counts[0]
    } else {
        None
    };
    let second = if counts.len() > 1 {
        counts[1]
    } else {
        None
    };
    match distro {
        Distro::Arch => match first {
            Some(n) => Some(write_tally(n, "pacman")),
            None => None,
        },
        Distro::Nix => match (first, second) {
            (Some(system), Some(user)) => {
                let mut out = write_tally(system, "nix system");
                let rest = write_tally(user, "nix user");
                out.append(", ");
                out.append(rest.as_str());
                Some(out)
            },
            (Some(system), None) => Some(write_tally(system, "nix system")),
            (None, Some(user)) => Some(write_tally(user, "nix user")),
            (None, None) => None,
        },
        Distro::Unknown => None,
    }
}

} // verus!
