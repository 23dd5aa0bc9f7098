//! The picture: a logo striped in the colours of a scheme, with the host
//! facts set beside it.

use itertools::{EitherOrBoth, Itertools};
use vstd::arithmetic::div_mod::lemma_div_is_ordered;
use vstd::prelude::*;

use crate::style::{paint, painted, Rgb};
use crate::text::{blank, chars_of, lines, spaces, split_lines, string_of, texts, views};

verus! {

/// The number of columns between the widest logo line and the facts.
pub const DISTANCE: usize = 3;

/// How many lines each colour gets: the logo's lines shared out evenly,
/// rounded down, but never less than one.
pub open spec fn stripe_size(lines: nat, colors: nat) -> nat
    recommends
        colors > 0,
{
    if lines / colors == 0 {
        1
    } else {
        lines / colors
    }
}

/// The colour of the line `index`, as an index into the scheme. Lines that
/// are left over when the stripes are shared out take the last colour.
pub open spec fn band(index: nat, lines: nat, colors: nat) -> nat
    recommends
        colors > 0,
{
    let b = index / stripe_size(lines, colors);
    if b >= colors {
        (colors - 1) as nat
    } else {
        b
    }
}

/// The length of the longest line, in characters; zero where there is no
/// line.
pub open spec fn longest(lines: Seq<Seq<char>>) -> nat
    decreases lines.len(),
{
    if lines.len() == 0 {
        0
    } else {
        let before = longest(lines.drop_last());
        if lines.last().len() > before {
            lines.last().len()
        } else {
            before
        }
    }
}

/// What stands in a row of the picture: a logo line and a fact, or only one
/// of them. The numbers say which line and which fact.
#[derive(Clone, Copy, Debug, PartialEq, Eq, Structural)]
pub enum Pairing {
    Both(usize, usize),
    Left(usize),
    Right(usize),
}

/// What stands in row `i` when `left` logo lines meet `right` facts: both
/// as long as both last, then what is left of the longer side.
pub open spec fn pairing(i: int, left: nat, right: nat) -> Pairing {
    if i < left && i < right {
        Pairing::Both(i as usize, i as usize)
    } else if i < left {
        Pairing::Left(i as usize)
    } else {
        Pairing::Right(i as usize)
    }
}

/// The rows of the picture: as many as the longer side has lines.
pub open spec fn pairings(left: nat, right: nat) -> Seq<Pairing> {
    Seq::new(
        if left >= right {
            left
        } else {
            right
        },
        |i: int| pairing(i, left, right),
    )
}

/// A logo line in the colour of its band.
pub open spec fn striped(logo: Seq<Seq<char>>, palette: Seq<Rgb>, i: int) -> Seq<char> {
    painted(logo[i], palette[band(i as nat, logo.len(), palette.len()) as int])
}

/// Row `i` of the picture. Beside a logo line the fact starts `DISTANCE`
/// columns after the end of the widest logo line; below the logo it starts
/// in the same column.
pub open spec fn row(logo: Seq<Seq<char>>, palette: Seq<Rgb>, info: Seq<Seq<char>>, i: int) -> Seq<
    char,
> {
    if i < logo.len() && i < info.len() {
        striped(logo, palette, i) + blank((longest(logo) - logo[i].len() + DISTANCE) as nat)
            + info[i]
    } else if i < logo.len() {
        striped(logo, palette, i)
    } else {
        blank(longest(logo) + DISTANCE as nat) + info[i]
    }
}

/// The picture, row by row.
pub open spec fn rendered(logo: Seq<Seq<char>>, palette: Seq<Rgb>, info: Seq<Seq<char>>) -> Seq<
    Seq<char>,
> {
    Seq::new(
        if logo.len() >= info.len() {
            logo.len()
        } else {
            info.len()
        },
        |i: int| row(logo, palette, info, i),
    )
}

/// Every band is a colour of the scheme, and a line further down never has
/// an earlier colour than a line further up.
pub proof fn lemma_band_monotonic(i: nat, j: nat, lines: nat, colors: nat)
    requires
        colors >= 1,
        i <= j,
    ensures
        band(i, lines, colors) <= band(j, lines, colors) < colors,
{
    let s = stripe_size(lines, colors);
    lemma_div_is_ordered(i as int, j as int, s as int);
}

/// With `s` lines to a stripe, the `s` lines from `k * s` on have the
/// colour `k`, for every colour but the last; the last colour has all the
/// lines from `(colors - 1) * s` on, the left-over lines among them.
pub proof fn lemma_band_stripes(index: nat, k: nat, lines: nat, colors: nat)
    requires
        1 <= colors <= lines,
    ensures
        k + 1 < colors && k * (lines / colors) <= index < (k + 1) * (lines / colors) ==> band(
            index,
            lines,
            colors,
        ) == k,
        index >= (colors - 1) * (lines / colors) ==> band(index, lines, colors) == colors - 1,
{
    let s = lines / colors;
    assert(s >= 1) by (nonlinear_arith)
        requires
            1 <= colors <= lines,
            s == lines / colors,
    ;
    if k + 1 < colors && k * s <= index < (k + 1) * s {
        assert(index / s == k) by (nonlinear_arith)
            requires
                s >= 1,
                k * s <= index < (k + 1) * s,
        ;
    }
    if index >= (colors - 1) * s {
        assert(index / s >= colors - 1) by (nonlinear_arith)
            requires
                s >= 1,
                index >= (colors - 1) * s,
        ;
    }
}

/// No line is longer than the longest.
pub proof fn lemma_longest_bounds(lines: Seq<Seq<char>>, i: int)
    requires
        0 <= i < lines.len(),
    ensures
        lines[i].len() <= longest(lines),
    decreases lines.len(),
{
    if i < lines.len() - 1 {
        lemma_longest_bounds(lines.drop_last(), i);
    }
}

/// Beside every logo line the fact starts in the same column: `DISTANCE`
/// columns behind the end of the widest logo line.
pub proof fn lemma_facts_align(logo: Seq<Seq<char>>, i: int)
    requires
        0 <= i < logo.len(),
    ensures
        logo[i].len() + blank((longest(logo) - logo[i].len() + DISTANCE) as nat).len() == longest(
            logo,
        ) + DISTANCE,
{
    lemma_longest_bounds(logo, i);
}

/// The colour of line `index` of a logo of `lines` lines, as an index into
/// a scheme of `colors` colours.
pub fn band_index(index: usize, lines: usize, colors: usize) -> (b: usize)
    requires
        colors > 0,
    ensures
        b == band(index as nat, lines as nat, colors as nat),
{
    let mut stripe = lines / colors;
    if stripe == 0 {
        stripe = 1;
    }
    let b = index / stripe;
    if b >= colors {
        colors - 1
    } else {
        b
    }
}

/// The length of the longest of `lines`, in characters.
pub fn longest_line(lines: &Vec<Vec<char>>) -> (n: usize)
    ensures
        n == longest(views(lines@)),
{
    let mut n: usize = 0;
    let mut i: usize = 0;
    while i < lines.len()
        invariant
            i <= lines.len(),
            n == longest(views(lines@).take(i as int)),
        decreases lines.len() - i,
    {
        assert(views(lines@).take(i + 1).drop_last() == views(lines@).take(i as int));
        if lines[i].len() > n {
            n = lines[i].len();
        }
        i += 1;
    }
    assert(views(lines@).take(lines.len() as int) == views(lines@));
    n
}

/// The blank columns between a logo line of `used` characters and its
/// fact, where the widest logo line has `width` characters.
pub fn padding(width: usize, used: usize) -> (out: String)
    requires
        used <= width,
    ensures
        out@ == blank((width - used + DISTANCE) as nat),
{
    let mut out = spaces(width - used);
    let gap = spaces(DISTANCE);
    out.append(gap.as_str());
    out
}

/// `Itertools::zip_longest` of itertools on the numbers below `left` and
/// the numbers below `right`. The crate pairs the two sides item by item as
/// long as both last (`Both`), and then hands out what is left of the
/// longer side alone (`Left` or `Right`).
#[verifier::external_body]
fn zip_longest(left: usize, right: usize) -> (rows: Vec<Pairing>)
    ensures
        rows@ == pairings(left as nat, right as nat),
{
    (0..left).zip_longest(0..right).map(
        |pair| match pair {
            EitherOrBoth::Both(l, r) => Pairing::Both(l, r),
            EitherOrBoth::Left(l) => Pairing::Left(l),
            EitherOrBoth::Right(r) => Pairing::Right(r),
        },
    ).collect()
}

/// Line `index` of a logo, in the colour of its band.
pub fn stripe(logo: &Vec<Vec<char>>, palette: &Vec<Rgb>, index: usize) -> (out: String)
    requires
        palette@.len() > 0,
        index < logo@.len(),
    ensures
        out@ == striped(views(logo@), palette@, index as int),
{
    let b = band_index(index, logo.len(), palette.len());
    let text = string_of(&logo[index]);
    paint(text.as_str(), palette[b])
}

/// Draws the picture: the lines of `logo` in the colours of `palette`, with
/// the lines of `info` beside them.
pub fn render(logo: &str, palette: &Vec<Rgb>, info: &str) -> (out: Vec<String>)
    requires
        palette@.len() > 0,
    ensures
        texts(out@) == rendered(lines(logo@), palette@, lines(info@)),
{
    let logo_chars = chars_of(logo);
    let info_chars = chars_of(info);
    let logo_lines = split_lines(&logo_chars);
    let info_lines = split_lines(&info_chars);
    let width = longest_line(&logo_lines);
    let rows = zip_longest(logo_lines.len(), info_lines.len());
    let ghost picture = rendered(lines(logo@), palette@, lines(info@));
    let mut out: Vec<String> = Vec::new();
    let mut i: usize = 0;
    while i < rows.len()
        invariant
            i <= rows.len(),
            palette@.len() > 0,
            rows@ == pairings(logo_lines@.len(), info_lines@.len()),
            views(logo_lines@) == lines(logo@),
            views(info_lines@) == lines(info@),
            width == longest(lines(logo@)),
            picture == rendered(lines(logo@), palette@, lines(info@)),
            texts(out@) == picture.take(i as int),
        decreases rows.len() - i,
    {
        let ghost before = texts(out@);
        let line = match rows[i] {
            Pairing::Both(l, r) => {
                proof {
                    lemma_longest_bounds(views(logo_lines@), l as int);
                }
                let mut line = stripe(&logo_lines, palette, l);
                let pad = padding(width, logo_lines[l].len());
                let fact = string_of(&info_lines[r]);
                line.append(pad.as_str());
                line.append(fact.as_str());
                line
            },
            Pairing::Left(l) => stripe(&logo_lines, palette, l),
            Pairing::Right(r) => {
                let mut line = padding(width, 0);
                let fact = string_of(&info_lines[r]);
                line.append(fact.as_str());
                line
            },
        };
        out.push(line);
        assert(texts(out@) == before.push(line@));
        i += 1;
    }
    out
}

} // verus!
