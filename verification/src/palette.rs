//! The colour schemes that a logo can be striped with.

use vstd::prelude::*;

use crate::style::Rgb;

verus! {

/// Light blue, pink, white, light blue, pink.
pub open spec fn transgender_flag() -> Seq<Rgb> {
    seq![
        Rgb(91, 206, 250),
        Rgb(245, 169, 184),
        Rgb(255, 255, 255),
        Rgb(91, 206, 250),
        Rgb(245, 169, 184),
    ]
}

/// Yellow, white, purple, black.
pub open spec fn nonbinary_flag() -> Seq<Rgb> {
    seq![Rgb(252, 244, 52), Rgb(255, 255, 255), Rgb(156, 89, 209), Rgb(44, 44, 44)]
}

/// Red, orange, yellow, green, blue, purple.
pub open spec fn rainbow_flag() -> Seq<Rgb> {
    seq![
        Rgb(230, 0, 0),
        Rgb(255, 142, 0),
        Rgb(255, 239, 0),
        Rgb(0, 130, 27),
        Rgb(0, 75, 255),
        Rgb(120, 0, 137),
    ]
}

/// The scheme that goes by `name`. A name that is not known, the empty name
/// among them, stands for the first scheme.
pub open spec fn scheme(name: Seq<char>) -> Seq<Rgb> {
    if name == "transgender"@ || name == "trans"@ || name == "t"@ {
        transgender_flag()
    } else if name == "non-binary"@ || name == "nonbinary"@ || name == "enby"@ || name == "nb"@ {
        nonbinary_flag()
    } else if name == "rainbow"@ || name == "r"@ {
        rainbow_flag()
    } else {
        transgender_flag()
    }
}

/// The colours of the scheme that goes by `name`, from the top stripe down.
pub fn get_colors(name: &str) -> (colors: Vec<Rgb>)
    ensures
        colors@ == scheme(name@),
        colors@.len() > 0,
{
    if name.eq("transgender") || name.eq("trans") || name.eq("t") {
        vec![
            Rgb(91, 206, 250),
            Rgb(245, 169, 184),
            Rgb(255, 255, 255),
            Rgb(91, 206, 250),
            Rgb(245, 169, 184),
        ]
    } else if name.eq("non-binary") || name.eq("nonbinary") || name.eq("enby") || name.eq("nb") {
        vec![Rgb(252, 244, 52), Rgb(255, 255, 255), Rgb(156, 89, 209), Rgb(44, 44, 44)]
    } else if name.eq("rainbow") || name.eq("r") {
        vec![
            Rgb(230, 0, 0),
            Rgb(255, 142, 0),
            Rgb(255, 239, 0),
            Rgb(0, 130, 27),
            Rgb(0, 75, 255),
            Rgb(120, 0, 137),
        ]
    } else {
        vec![
            Rgb(91, 206, 250),
            Rgb(245, 169, 184),
            Rgb(255, 255, 255),
            Rgb(91, 206, 250),
            Rgb(245, 169, 184),
        ]
    }
}

} // verus!
