//! Absolute domain names.
//!
//! Names are parsed and held by the `domain` crate. What this library reads
//! of a name is its wire format: the labels, each behind its length, closed
//! by the empty root label.

use crate::errors::Error;
use core::str::FromStr;
use domain::base::name::{Name, UncertainName};
use vstd::prelude::*;

verus! {

#[verifier::external_type_specification]
#[verifier::external_body]
#[verifier::reject_recursive_types(Octs)]
pub struct ExName<Octs: ?Sized>(Name<Octs>);

/// The octets that a `domain` name wraps: the name in wire format.
pub uninterp spec fn name_octets(name: Name<Vec<u8>>) -> Seq<u8>;

/// What `domain` makes of a name in presentation format (labels separated
/// by dots, with backslash escapes), made absolute: its wire format, or
/// `None` where `domain` refuses the text.
pub uninterp spec fn parsed_name(text: Seq<char>) -> Option<Seq<u8>>;

/// The longest wire format that a domain name can have.
pub const MAX_NAME_LEN: usize = 255;

/// The number of octets of the label sequence that starts at `from` and
/// runs to the first root label, or `None` where `octets` holds no such
/// sequence of plain labels (of 1 to 63 octets each).
pub open spec fn labels_end(octets: Seq<u8>, from: int) -> Option<int>
    decreases octets.len() - from,
{
    if 0 <= from < octets.len() {
        let width = octets[from] as int;
        if width == 0 {
            Some(from + 1)
        } else if width <= 63 && from + 1 + width < octets.len() {
            labels_end(octets, from + 1 + width)
        } else {
            None
        }
    } else {
        None
    }
}

/// Plain labels up to the root label, which is the last octet.
pub open spec fn is_label_sequence(octets: Seq<u8>) -> bool {
    labels_end(octets, 0) == Some(octets.len() as int)
}

/// An uncompressed absolute name in wire format: plain labels up to the
/// root label, which is the last octet, in at most 255 octets.
pub open spec fn is_wire_name(octets: Seq<u8>) -> bool {
    octets.len() <= MAX_NAME_LEN && is_label_sequence(octets)
}

/// The wire format of the absolute name that a text stands for: what
/// `domain` makes of it, unless that is longer than a name may be. `None`
/// where the text is no domain name.
pub open spec fn absolute_name(text: Seq<char>) -> Option<Seq<u8>> {
    match parsed_name(text) {
        Some(octets) => if octets.len() <= MAX_NAME_LEN {
            Some(octets)
        } else {
            None
        },
        None => None,
    }
}

/// `UncertainName::<Vec<u8>>::from_str` followed by `into_absolute`: the
/// text is read as a name in presentation format and, where it has no
/// trailing dot, the root label is added. The result is the named parse of
/// the text; `None` stands for either call's error. What comes out is a
/// sequence of labels of 1 to 63 octets each, closed by the root label.
/// Nothing is claimed of its length: the builder lets a name of 256
/// octets through.
#[verifier::external_body]
fn parse_absolute(text: &str) -> (name: Option<Name<Vec<u8>>>)
    ensures
        match name {
            Some(n) => parsed_name(text@) == Some(name_octets(n)) && is_label_sequence(name_octets(n)),
            None => parsed_name(text@) is None,
        },
{
    UncertainName::<Vec<u8>>::from_str(text).ok()?.into_absolute().ok()
}

/// `Name::as_slice` copied into a vector: the name's wire format.
#[verifier::external_body]
fn octets_of(name: &Name<Vec<u8>>) -> (octets: Vec<u8>)
    ensures
        octets@ == name_octets(*name),
{
    name.as_slice().to_vec()
}

/// An absolute domain name, ready to be asked about.
#[derive(Debug)]
pub struct AbsoluteName {
    inner: Name<Vec<u8>>,
}

impl View for AbsoluteName {
    type V = Seq<u8>;

    /// The name in wire format.
    closed spec fn view(&self) -> Seq<u8> {
        name_octets(self.inner)
    }
}

impl AbsoluteName {
    #[verifier::type_invariant]
    spec fn well_formed(self) -> bool {
        is_wire_name(name_octets(self.inner))
    }

    /// Parses a name in presentation format. A name without a trailing dot
    /// is taken relative to the root. Fails with `Error::NameParse` exactly
    /// where the text is no domain name: where `domain` refuses it, and
    /// where its wire format would be longer than 255 octets.
    pub fn parse(text: &str) -> (name: Result<AbsoluteName, Error>)
        ensures
            match name {
                Ok(n) => absolute_name(text@) == Some(n@) && is_wire_name(n@),
                Err(e) => absolute_name(text@) is None && e == Error::NameParse,
            },
    {
        match parse_absolute(text) {
            Some(inner) => {
                if octets_of(&inner).len() <= MAX_NAME_LEN {
                    Ok(AbsoluteName { inner })
                } else {
                    Err(Error::NameParse)
                }
            },
            None => Err(Error::NameParse),
        }
    }

    /// The name in wire format.
    pub fn to_wire(&self) -> (octets: Vec<u8>)
        ensures
            octets@ == self@,
            is_wire_name(self@),
    {
        proof {
            use_type_invariant(self);
        }
        octets_of(&self.inner)
    }

    /// The name as `domain` holds it.
    pub(crate) fn inner(&self) -> (inner: &Name<Vec<u8>>)
        ensures
            name_octets(*inner) == self@,
            is_wire_name(self@),
    {
        proof {
            use_type_invariant(self);
        }
        &self.inner
    }
}

} // verus!
