//! Why a run stops.

use vstd::prelude::*;

verus! {

/// An attribute whose value is read as more than text.
#[derive(Clone, Copy, PartialEq, Eq, Structural, Debug)]
pub enum Field {
    Id,
    Version,
    Changeset,
    Uid,
    Visible,
    Lat,
    Lon,
    Ref,
    Type,
}

/// A condition that stops the whole run.
#[derive(Clone, Copy, PartialEq, Eq, Structural, Debug)]
pub enum ConvertError {
    /// The attribute is present but its value is not of its type.
    MalformedAttribute(Field),
    /// A required attribute is absent.
    MissingAttribute(Field),
    /// Tag names have used up every id of the tag table.
    TooManyTags,
    /// An element name or an attribute is not UTF-8 text.
    InvalidText,
}

} // verus!
