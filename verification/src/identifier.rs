//! Names of vertex types, edge types and properties.

use vstd::prelude::*;
use vstd::string::StringSliceAdditionalSpecFns;

verus! {

/// Why a name was refused as an identifier.
#[derive(Clone, Copy, Debug, PartialEq, Eq, Structural)]
pub enum IdentifierError {
    /// The name is longer than 255 bytes.
    TooLong,
    /// The name holds a character that is neither a letter, a digit, `-` nor `_`.
    InvalidCharacter,
}

/// What the graph store's own validation says of a name.
pub uninterp spec fn identifier_verdict(name: Seq<char>) -> Result<(), IdentifierError>;

/// The verdict that refuses a name for the reason `e`.
pub open spec fn refused(e: IdentifierError) -> Result<(), IdentifierError> {
    Err(e)
}

/// An ASCII letter or digit, `-` or `_`.
pub open spec fn is_plain_char(c: char) -> bool {
    ||| 'a' <= c <= 'z'
    ||| 'A' <= c <= 'Z'
    ||| '0' <= c <= '9'
    ||| c == '-'
    ||| c == '_'
}

/// A name of at most 255 characters, each an ASCII letter or digit, `-` or `_`.
pub open spec fn is_plain_name(name: Seq<char>) -> bool {
    &&& name.len() <= 255
    &&& forall|i: int| 0 <= i < name.len() ==> is_plain_char(#[trigger] name[i])
}

/// Asks `indradb::Identifier::new` whether it takes `name`.
///
/// Trusted: the answer depends on `name` alone; a name of more than 255 bytes
/// is refused as too long, and exactly such names are; a name of at most 255
/// ASCII letters, digits, dashes and underscores is taken. Which other
/// characters count as letters or digits is left to the store's library.
#[verifier::external_body]
fn validate_name(name: &str) -> (verdict: Result<(), IdentifierError>)
    ensures
        verdict == identifier_verdict(name@),
        verdict == refused(IdentifierError::TooLong) <==> name.spec_bytes().len() > 255,
        is_plain_name(name@) ==> verdict is Ok,
{
    match indradb::Identifier::new(name) {
        Ok(_) => Ok(()),
        Err(indradb::ValidationError::ValueTooLong) => Err(IdentifierError::TooLong),
        Err(_) => Err(IdentifierError::InvalidCharacter),
    }
}

/// A name that the graph store accepts for a vertex type, an edge type or a
/// property.
#[derive(Debug)]
pub struct Identifier {
    name: String,
}

impl View for Identifier {
    type V = Seq<char>;

    closed spec fn view(&self) -> Seq<char> {
        self.name@
    }
}

impl Clone for Identifier {
    fn clone(&self) -> (copy: Self)
        ensures
            copy@ == self@,
    {
        proof {
            use_type_invariant(self);
        }
        Identifier { name: self.name.clone() }
    }
}

impl Identifier {
    #[verifier::type_invariant]
    spec fn accepted(self) -> bool {
        identifier_verdict(self.name@) is Ok
    }

    /// Makes an identifier of `name`, if the store accepts it.
    pub fn new(name: &str) -> (made: Result<Identifier, IdentifierError>)
        ensures
            match made {
                Ok(id) => id@ == name@ && identifier_verdict(name@) is Ok,
                Err(e) => identifier_verdict(name@) == refused(e),
            },
            is_plain_name(name@) ==> made is Ok,
            name.spec_bytes().len() > 255 <==> identifier_verdict(name@) == refused(
                IdentifierError::TooLong,
            ),
    {
        match validate_name(name) {
            Ok(()) => Ok(Identifier { name: name.to_owned() }),
            Err(e) => Err(e),
        }
    }

    /// The name, which the store accepts.
    pub fn as_str(&self) -> (name: &str)
        ensures
            name@ == self@,
            identifier_verdict(name@) is Ok,
    {
        proof {
            use_type_invariant(self);
        }
        self.name.as_str()
    }
}

} // verus!
