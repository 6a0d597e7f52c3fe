//! Reference values: what a measurement of a given name is allowed to be.

use vstd::prelude::*;
use vstd::string::*;
use vstd::utf8::*;
use crate::document::{field_value, field_views, find_field, json_text_fields, parse_document};
use crate::error::AttestationError;
use crate::text::{decimal_value, parse_decimal, pieces_of, split_ascii, text_views};

verus! {

/// The span of time, both ends included, in which a reference value holds.
#[derive(Clone, Copy, Debug, PartialEq, Eq, Structural)]
pub struct ValidityWindow {
    pub not_before: u64,
    pub not_after: u64,
}

impl ValidityWindow {
    /// Whether the window holds the instant `t`.
    pub open spec fn covers(self, t: u64) -> bool {
        self.not_before <= t && t <= self.not_after
    }

    /// Whether the window holds the instant `t`.
    pub fn contains(&self, t: u64) -> (r: bool)
        ensures
            r == self.covers(t),
    {
        self.not_before <= t && t <= self.not_after
    }
}

/// The accepted values of the measurement called `name`. A measurement
/// agrees with the reference where it equals any one of the alternatives;
/// none of them is preferred.
#[derive(Clone, Debug, PartialEq, Eq)]
pub struct ReferenceValue {
    pub name: String,
    pub alternatives: Vec<String>,
    pub validity: Option<ValidityWindow>,
}

/// What a reference value says.
pub struct ReferenceModel {
    pub name: Seq<char>,
    pub alternatives: Seq<Seq<char>>,
    pub validity: Option<ValidityWindow>,
}

impl View for ReferenceValue {
    type V = ReferenceModel;

    open spec fn view(&self) -> ReferenceModel {
        ReferenceModel {
            name: self.name@,
            alternatives: text_views(self.alternatives@),
            validity: self.validity,
        }
    }
}

/// The views of `references`, in order.
pub open spec fn reference_models(references: Seq<ReferenceValue>) -> Seq<ReferenceModel> {
    Seq::new(references.len(), |i: int| references[i]@)
}

/// The alternatives that a text lists between commas. The empty text lists
/// none; an empty alternative, or a text that is not ASCII, spoils the list.
pub open spec fn alternatives_of(text: Seq<char>) -> Option<Seq<Seq<char>>> {
    if !is_ascii_chars(text) {
        None
    } else if text.len() == 0 {
        Some(Seq::empty())
    } else {
        let pieces = pieces_of(text, ',');
        if forall|i: int| 0 <= i < pieces.len() ==> (#[trigger] pieces[i]).len() > 0 {
            Some(pieces)
        } else {
            None
        }
    }
}

/// The window that two optional bounds state: none where both are missing,
/// `None` where only one is there or one is no decimal number of 64 bits.
pub open spec fn window_of(not_before: Option<Seq<char>>, not_after: Option<Seq<char>>) -> Option<
    Option<ValidityWindow>,
> {
    match (not_before, not_after) {
        (None, None) => Some(None),
        (Some(from), Some(to)) => match (decimal_value(from), decimal_value(to)) {
            (Some(a), Some(b)) => Some(Some(ValidityWindow { not_before: a, not_after: b })),
            _ => None,
        },
        _ => None,
    }
}

/// The reference value that the members of a document make up.
pub open spec fn reference_of_fields(fields: Seq<(Seq<char>, Seq<char>)>) -> Option<
    ReferenceModel,
> {
    match (field_value(fields, "name"@), field_value(fields, "accepted"@)) {
        (Some(name), Some(accepted)) => match (
            alternatives_of(accepted),
            window_of(field_value(fields, "not_before"@), field_value(fields, "not_after"@)),
        ) {
            (Some(alternatives), Some(validity)) => Some(
                ReferenceModel { name, alternatives, validity },
            ),
            _ => None,
        },
        _ => None,
    }
}

/// The reference value that a document states, if it states one.
pub open spec fn reference_of_document(text: Seq<char>) -> Option<ReferenceModel> {
    match json_text_fields(text) {
        Some(fields) => reference_of_fields(fields),
        None => None,
    }
}

/// The view of an optional reference value.
pub open spec fn reference_view(reference: Option<ReferenceValue>) -> Option<ReferenceModel> {
    match reference {
        Some(r) => Some(r@),
        None => None,
    }
}

/// Reads a list of alternatives.
pub fn read_alternatives(text: &str) -> (r: Option<Vec<String>>)
    ensures
        match r {
            Some(list) => alternatives_of(text@) == Some(text_views(list@)),
            None => alternatives_of(text@) is None,
        },
{
    if !text.is_ascii() {
        return None;
    }
    if text.is_empty() {
        let list: Vec<String> = Vec::new();
        assert(text_views(list@) =~= Seq::empty());
        return Some(list);
    }
    let list: Vec<String> = split_ascii(text, 44);
    let n: usize = list.len();
    let mut i: usize = 0;
    while i < n
        invariant
            n == list@.len(),
            i <= n,
            text.is_ascii(),
            text@.len() > 0,
            text_views(list@) == pieces_of(text@, ','),
            forall|j: int| 0 <= j < i ==> (#[trigger] text_views(list@)[j]).len() > 0,
        decreases n - i,
    {
        assert(text_views(list@)[i as int] == list@[i as int]@);
        if list[i].as_str().is_empty() {
            return None;
        }
        i += 1;
    }
    Some(list)
}

/// Reads the two bounds of a validity window.
pub fn read_window(not_before: Option<String>, not_after: Option<String>) -> (r: Option<
    Option<ValidityWindow>,
>)
    ensures
        r == window_of(crate::document::text_of(not_before), crate::document::text_of(not_after)),
{
    match (not_before, not_after) {
        (None, None) => Some(None),
        (Some(from), Some(to)) => match (parse_decimal(from.as_str()), parse_decimal(to.as_str())) {
            (Some(a), Some(b)) => Some(Some(ValidityWindow { not_before: a, not_after: b })),
            _ => None,
        },
        _ => None,
    }
}

impl ReferenceValue {
    /// Assembles a reference value from the members of a document.
    pub fn from_fields(fields: &Vec<(String, String)>) -> (r: Option<ReferenceValue>)
        ensures
            reference_view(r) == reference_of_fields(field_views(fields@)),
    {
        let name = find_field(fields, "name");
        let accepted = find_field(fields, "accepted");
        match (name, accepted) {
            (Some(name), Some(accepted)) => {
                let alternatives = read_alternatives(accepted.as_str());
                let validity = read_window(
                    find_field(fields, "not_before"),
                    find_field(fields, "not_after"),
                );
                match (alternatives, validity) {
                    (Some(alternatives), Some(validity)) => Some(
                        ReferenceValue { name, alternatives, validity },
                    ),
                    _ => None,
                }
            },
            _ => None,
        }
    }

    /// Reads a reference-value document; a text that states no reference
    /// value is malformed.
    pub fn decode(text: &str) -> (r: Result<ReferenceValue, AttestationError>)
        ensures
            match r {
                Ok(reference) => reference_of_document(text@) == Some(reference@),
                Err(e) => e == AttestationError::MalformedReference && reference_of_document(text@)
                    is None,
            },
    {
        match parse_document(text) {
            Some(fields) => match ReferenceValue::from_fields(&fields) {
                Some(reference) => Ok(reference),
                None => Err(AttestationError::MalformedReference),
            },
            None => Err(AttestationError::MalformedReference),
        }
    }
}

} // verus!
