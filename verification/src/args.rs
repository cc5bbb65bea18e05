//! The formatting options, and how the shorthand switches resolve into them.

use vstd::prelude::*;

verus! {

/// The switches as they are given, before any shorthand is resolved.
#[derive(Debug)]
pub struct CrabArgs {
    /// Sources to concatenate; `-` stands for standard input.
    pub files: Vec<String>,
    /// Number every output line.
    pub number_lines: bool,
    /// Number the lines that are not blank; implies `number_lines`.
    pub number_non_blank: bool,
    /// Shorthand for `show_non_printing`, `show_ends` and `show_tabs`.
    pub show_all: bool,
    /// Shorthand for `show_non_printing` and `show_ends`.
    pub ev: bool,
    /// Shorthand for `show_non_printing` and `show_tabs`.
    pub t: bool,
    /// Mark the end of each line with `$`.
    pub show_ends: bool,
    /// Show a tab as `^I`.
    pub show_tabs: bool,
    /// Let a run of blank lines through as one.
    pub squeeze_blank: bool,
    /// Show bytes that do not print in caret and meta notation.
    pub show_non_printing: bool,
}

/// The resolved formatting options. Each is independent of the others; a
/// value of this type is made once and handed to whoever needs it.
#[derive(Clone, Copy, Debug, PartialEq, Eq, Structural)]
pub struct Args {
    pub show_non_printing: bool,
    pub show_ends: bool,
    pub show_tabs: bool,
    pub number_lines: bool,
    pub squeeze_blank: bool,
    pub number_non_blank: bool,
}

/// The options that `given` resolves to.
pub open spec fn resolved(given: CrabArgs) -> Args {
    Args {
        show_non_printing: given.show_non_printing || given.ev || given.show_all || given.t,
        show_ends: given.show_ends || given.ev || given.show_all,
        show_tabs: given.show_tabs || given.show_all || given.t,
        number_lines: given.number_lines || given.number_non_blank,
        squeeze_blank: given.squeeze_blank,
        number_non_blank: given.number_non_blank,
    }
}

impl Args {
    /// No option set: the output is the input.
    pub open spec fn plain() -> Args {
        Args {
            show_non_printing: false,
            show_ends: false,
            show_tabs: false,
            number_lines: false,
            squeeze_blank: false,
            number_non_blank: false,
        }
    }

    /// Whether no option is set.
    pub open spec fn is_plain(self) -> bool {
        self == Args::plain()
    }

    /// The value with no option set.
    pub fn none() -> (a: Args)
        ensures
            a == Args::plain(),
    {
        Args {
            show_non_printing: false,
            show_ends: false,
            show_tabs: false,
            number_lines: false,
            squeeze_blank: false,
            number_non_blank: false,
        }
    }

    /// Whether the output is bound to equal the input, so that the bytes
    /// can be copied through untouched.
    pub fn is_identity(&self) -> (b: bool)
        ensures
            b == self.is_plain(),
    {
        !self.show_non_printing && !self.show_ends && !self.show_tabs && !self.number_lines
            && !self.number_non_blank && !self.squeeze_blank
    }
}

/// Resolves the switches as given into the list of sources and the options:
/// each shorthand switches on what it stands for, and numbering the lines
/// that are not blank switches numbering on.
pub fn args(given: CrabArgs) -> (res: (Vec<String>, Args))
    ensures
        res.0 == given.files,
        res.1 == resolved(given),
{
    let show_non_printing = given.show_non_printing || given.ev || given.show_all || given.t;
    let show_ends = given.show_ends || given.ev || given.show_all;
    let show_tabs = given.show_tabs || given.show_all || given.t;
    let number_lines = given.number_lines || given.number_non_blank;
    (
        given.files,
        Args {
            show_non_printing,
            show_ends,
            show_tabs,
            number_lines,
            squeeze_blank: given.squeeze_blank,
            number_non_blank: given.number_non_blank,
        },
    )
}

} // verus!
