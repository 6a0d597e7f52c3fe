//! The environments whose evidence can be normalised, and what is particular
//! to each: its tag, the grammar of its measurement log and its seal.

use vstd::prelude::*;
use crate::text::same_text;

verus! {

/// The root of trust that produced a piece of evidence. The set is closed:
/// evidence of any other environment is refused.
#[derive(Clone, Copy, Debug, PartialEq, Eq, Structural)]
pub enum EnvironmentKind {
    Tdx,
    SevSnp,
}

/// The kind that a tag names, if it names one.
pub open spec fn kind_of_tag(tag: Seq<char>) -> Option<EnvironmentKind> {
    if tag == "tdx"@ {
        Some(EnvironmentKind::Tdx)
    } else if tag == "snp"@ {
        Some(EnvironmentKind::SevSnp)
    } else {
        None
    }
}

impl EnvironmentKind {
    /// The tag by which evidence declares this kind.
    pub open spec fn tag_text(self) -> Seq<char> {
        match self {
            EnvironmentKind::Tdx => "tdx"@,
            EnvironmentKind::SevSnp => "snp"@,
        }
    }

    /// The character between two records of this kind's measurement log.
    pub open spec fn separator(self) -> char {
        match self {
            EnvironmentKind::Tdx => ';',
            EnvironmentKind::SevSnp => '\n',
        }
    }

    /// The character between the two sides of a record.
    pub open spec fn delimiter(self) -> char {
        match self {
            EnvironmentKind::Tdx => '=',
            EnvironmentKind::SevSnp => ' ',
        }
    }

    /// Whether a record states its value before its name.
    pub open spec fn value_first(self) -> bool {
        self == EnvironmentKind::SevSnp
    }

    /// The byte between two records of this kind's measurement log.
    pub fn separator_byte(self) -> (b: u8)
        ensures
            b < 128,
            b as char == self.separator(),
    {
        match self {
            EnvironmentKind::Tdx => 59,
            EnvironmentKind::SevSnp => 10,
        }
    }

    /// The byte between the two sides of a record.
    pub fn delimiter_byte(self) -> (b: u8)
        ensures
            b < 128,
            b as char == self.delimiter(),
    {
        match self {
            EnvironmentKind::Tdx => 61,
            EnvironmentKind::SevSnp => 32,
        }
    }

    /// Whether a record states its value before its name.
    pub fn lists_value_first(self) -> (r: bool)
        ensures
            r == self.value_first(),
    {
        match self {
            EnvironmentKind::Tdx => false,
            EnvironmentKind::SevSnp => true,
        }
    }

    /// The kind that `tag` names.
    pub fn from_tag(tag: &str) -> (r: Option<EnvironmentKind>)
        ensures
            r == kind_of_tag(tag@),
    {
        if same_text(tag, "tdx") {
            Some(EnvironmentKind::Tdx)
        } else if same_text(tag, "snp") {
            Some(EnvironmentKind::SevSnp)
        } else {
            None
        }
    }

    /// The tag by which evidence declares this kind.
    pub fn tag(self) -> (r: &'static str)
        ensures
            r@ == self.tag_text(),
    {
        match self {
            EnvironmentKind::Tdx => "tdx",
            EnvironmentKind::SevSnp => "snp",
        }
    }
}

/// Every kind is named by its own tag, so the tags tell the kinds apart.
pub proof fn lemma_tag_names_kind(kind: EnvironmentKind)
    ensures
        kind_of_tag(kind.tag_text()) == Some(kind),
{
    reveal_strlit("tdx");
    reveal_strlit("snp");
    assert("tdx"@[0] != "snp"@[0]);
}

} // verus!
