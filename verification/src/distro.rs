//! Which distribution the machine runs, and the logo that goes with it.

use vstd::prelude::*;

use crate::os_release::OsRelease;
use crate::text::chars_of;

verus! {

/// The distributions that have a logo and a package manager of their own;
/// all others are `Unknown`.
#[derive(Clone, Copy, Debug, PartialEq, Eq, Structural)]
pub enum Distro {
    Arch,
    Nix,
    Unknown,
}

pub const ARCH_LOGO: &'static str = "       /\\
      /  \\
     /    \\
    /      \\
   /   ,,   \\
  /   |  |   \\
 /_-''    ''-_\\
";

pub const NIXOS_LOGO: &'static str = "  \\\\  \\\\ //
 ==\\\\__\\\\/ //
   //   \\\\//
==//     //==
 //\\\\___//
// /\\\\  \\\\==
  // \\\\  \\\\
";

pub const LINUX_LOGO: &'static str = "    .--.
   |o_o |
   |:_/ |
  //   \\ \\
 (|     | )
/'\\_   _/`\\
\\___)=(___/
";

/// A letter of the ASCII alphabet in lower case; any other character as it
/// is.
pub open spec fn lower(c: char) -> char {
    if 'A' <= c <= 'Z' {
        (c as u8 + 32) as char
    } else {
        c
    }
}

/// A text with its ASCII letters in lower case.
pub open spec fn folded(s: Seq<char>) -> Seq<char> {
    s.map_values(|c: char| lower(c))
}

/// The distribution that a name stands for. Case does not count, and the
/// whole name has to match.
pub open spec fn distro_of(name: Seq<char>) -> Distro {
    let f = folded(name);
    if f == "arch"@ || f == "arch linux"@ {
        Distro::Arch
    } else if f == "nix"@ || f == "nixos"@ {
        Distro::Nix
    } else {
        Distro::Unknown
    }
}

/// The name by which a machine tells its distribution: `ID`, or `NAME`
/// where there is no `ID`, or nothing at all.
pub open spec fn detected_name(os_release: Map<Seq<char>, Seq<char>>) -> Seq<char> {
    if os_release.contains_key("ID"@) {
        os_release["ID"@]
    } else if os_release.contains_key("NAME"@) {
        os_release["NAME"@]
    } else {
        Seq::empty()
    }
}

/// The logo of each distribution.
pub open spec fn logo_of(distro: Distro) -> Seq<char> {
    match distro {
        Distro::Arch => ARCH_LOGO@,
        Distro::Nix => NIXOS_LOGO@,
        Distro::Unknown => LINUX_LOGO@,
    }
}

/// Puts the ASCII letters of a text in lower case.
pub fn fold(name: &str) -> (out: String)
    ensures
        out@ == folded(name@),
{
    let chars = chars_of(name);
    let mut out = String::new();
    let mut i: usize = 0;
    while i < chars.len()
        invariant
            i <= chars.len(),
            chars@ == name@,
            out@ == folded(name@).take(i as int),
        decreases chars.len() - i,
    {
        let c = chars[i];
        let low = if 'A' <= c && c <= 'Z' {
            (c as u8 + 32) as char
        } else {
            c
        };
        out.push(low);
        i += 1;
    }
    out
}

impl Distro {
    /// The distribution that a name stands for.
    pub fn from(value: &str) -> (d: Distro)
        ensures
            d == distro_of(value@),
    {
        let name = fold(value);
        if name.as_str().eq("arch") || name.as_str().eq("arch linux") {
            Distro::Arch
        } else if name.as_str().eq("nix") || name.as_str().eq("nixos") {
            Distro::Nix
        } else {
            Distro::Unknown
        }
    }
}

/// The distribution that the machine's own description names.
pub fn detect_distro(os_release: &OsRelease) -> (d: Distro)
    ensures
        d == distro_of(detected_name(os_release@)),
{
    match os_release.id() {
        Some(id) => Distro::from(id),
        None => match os_release.name() {
            Some(name) => Distro::from(name),
            None => {
                proof {
                    reveal_strlit("");
                    assert(""@ == Seq::<char>::empty());
                }
                Distro::from("")
            },
        },
    }
}

/// The distribution to report: the one that was asked for by name, or else
/// the one that the machine's own description names.
pub fn select_distro(requested: Option<&str>, os_release: &OsRelease) -> (d: Distro)
    ensures
        d == match requested {
            Some(name) => distro_of(name@),
            None => distro_of(detected_name(os_release@)),
        },
{
    match requested {
        Some(name) => Distro::from(name),
        None => detect_distro(os_release),
    }
}

/// The logo to print for a distribution.
pub fn get_logo(distro: &Distro) -> (logo: &'static str)
    ensures
        logo@ == logo_of(*distro),
{
    match distro {
        Distro::Arch => ARCH_LOGO,
        Distro::Nix => NIXOS_LOGO,
        Distro::Unknown => LINUX_LOGO,
    }
}

} // verus!
