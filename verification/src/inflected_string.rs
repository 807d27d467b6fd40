//! Names as they are written in a schema, and their spelling as identifiers.

use crate::error::{failure, Error, ErrorKind, ErrorModel};
use crate::text::first_char;
use inflector::Inflector;
use vstd::prelude::*;
use vstd::string::*;

verus! {

/// The PascalCase spelling that the `inflector` crate gives a text.
pub uninterp spec fn pascal_case(s: Seq<char>) -> Seq<char>;

/// The camelCase spelling that the `inflector` crate gives a text.
pub uninterp spec fn camel_case(s: Seq<char>) -> Seq<char>;

/// Whether Unicode classes a character as numeric.
pub uninterp spec fn is_numeric(c: char) -> bool;

/// Trusted: the result of `Inflector::to_pascal_case` on a string slice. The
/// crate computes it from the characters of the argument alone and does not
/// fail; the contract only gives that result its name.
#[verifier::external_body]
fn inflect_pascal(s: &str) -> (out: String)
    ensures
        out@ == pascal_case(s@),
{
    s.to_pascal_case()
}

/// Trusted: the result of `Inflector::to_camel_case` on a string slice. The
/// crate computes it from the characters of the argument alone and does not
/// fail; the contract only gives that result its name.
#[verifier::external_body]
fn inflect_camel(s: &str) -> (out: String)
    ensures
        out@ == camel_case(s@),
{
    s.to_camel_case()
}

/// Trusted: the result of `char::is_numeric`. std documents it as true for
/// the characters of the Unicode number categories, the decimal digits among
/// them; the contract names the result and states it for the ten ASCII digits.
#[verifier::external_body]
fn numeric(c: char) -> (yes: bool)
    ensures
        yes == is_numeric(c),
        '0' <= c <= '9' ==> yes,
{
    c.is_numeric()
}

/// A name can be spelled as an identifier unless it starts with a numeric
/// character.
pub open spec fn can_be_identifier(s: Seq<char>) -> bool {
    s.len() == 0 || !is_numeric(s[0])
}

/// The failure for a name that cannot be an identifier.
pub open spec fn identifier_failure(s: Seq<char>) -> ErrorModel {
    failure(ErrorKind::IdentifierInvalid, "identifier `"@ + s + "` cannot start with a digit"@)
}

/// The PascalCase identifier for the name `s`.
pub open spec fn pascal_identifier(s: Seq<char>) -> Result<Seq<char>, ErrorModel> {
    if can_be_identifier(s) {
        Ok(pascal_case(s))
    } else {
        Err(identifier_failure(s))
    }
}

/// The camelCase identifier for the name `s`.
pub open spec fn camel_identifier(s: Seq<char>) -> Result<Seq<char>, ErrorModel> {
    if can_be_identifier(s) {
        Ok(camel_case(s))
    } else {
        Err(identifier_failure(s))
    }
}

/// Whether an executable outcome holds the text or failure that `model` says.
pub open spec fn text_matches(r: Result<String, Error>, model: Result<Seq<char>, ErrorModel>) -> bool {
    match (r, model) {
        (Ok(s), Ok(m)) => s@ == m,
        (Err(e), Err(m)) => e@ == m,
        _ => false,
    }
}

/// Checks that `s` can be spelled as an identifier.
pub fn sanitize(s: &str) -> (r: Result<(), Error>)
    ensures
        match r {
            Ok(_) => can_be_identifier(s@),
            Err(e) => !can_be_identifier(s@) && e@ == identifier_failure(s@),
        },
        s@.len() > 0 && '0' <= s@[0] <= '9' ==> r is Err,
{
    match first_char(s) {
        None => Ok(()),
        Some(c) => {
            if numeric(c) {
                let mut cause = String::from_str("identifier `");
                cause.append(s);
                cause.append("` cannot start with a digit");
                Err(Error::new(ErrorKind::IdentifierInvalid, cause))
            } else {
                Ok(())
            }
        },
    }
}

/// The PascalCase identifier for the name `s`.
pub fn to_pascal(s: &str) -> (r: Result<String, Error>)
    ensures
        text_matches(r, pascal_identifier(s@)),
        s@.len() > 0 && '0' <= s@[0] <= '9' ==> r is Err,
{
    match sanitize(s) {
        Ok(_) => Ok(inflect_pascal(s)),
        Err(e) => Err(e),
    }
}

/// The camelCase identifier for the name `s`.
pub fn to_camel(s: &str) -> (r: Result<String, Error>)
    ensures
        text_matches(r, camel_identifier(s@)),
        s@.len() > 0 && '0' <= s@[0] <= '9' ==> r is Err,
{
    match sanitize(s) {
        Ok(_) => Ok(inflect_camel(s)),
        Err(e) => Err(e),
    }
}

/// A name taken from a schema, kept as written.
#[derive(Debug, PartialEq, Eq, PartialOrd, Ord)]
pub struct InflectedString(pub String);

impl View for InflectedString {
    type V = Seq<char>;

    open spec fn view(&self) -> Seq<char> {
        self.0@
    }
}

impl Clone for InflectedString {
    fn clone(&self) -> (copy: Self)
        ensures
            copy@ == self@,
    {
        InflectedString(self.0.clone())
    }
}

impl InflectedString {
    /// The name `name`, kept as written.
    pub fn new(name: &str) -> (kept: Self)
        ensures
            kept@ == name@,
    {
        InflectedString(name.to_owned())
    }

    /// The name as it was written.
    pub fn orig(&self) -> (name: &str)
        ensures
            name@ == self@,
    {
        self.0.as_str()
    }

    /// The name in PascalCase, as used for types and constructors.
    pub fn to_pascal_case(&self) -> (r: Result<String, Error>)
        ensures
            text_matches(r, pascal_identifier(self@)),
            self@.len() > 0 && '0' <= self@[0] <= '9' ==> r is Err,
    {
        to_pascal(self.0.as_str())
    }

    /// The name in camelCase, as used for values and fields.
    pub fn to_camel_case(&self) -> (r: Result<String, Error>)
        ensures
            text_matches(r, camel_identifier(self@)),
            self@.len() > 0 && '0' <= self@[0] <= '9' ==> r is Err,
    {
        to_camel(self.0.as_str())
    }
}

impl From<String> for InflectedString {
    fn from(s: String) -> (name: Self) {
        InflectedString(s)
    }
}

impl vstd::std_specs::convert::FromSpecImpl<String> for InflectedString {
    open spec fn obeys_from_spec() -> bool {
        true
    }

    open spec fn from_spec(s: String) -> Self {
        InflectedString(s)
    }
}

impl From<&str> for InflectedString {
    fn from(s: &str) -> (name: Self)
        ensures
            name@ == s@,
    {
        InflectedString::new(s)
    }
}

impl vstd::std_specs::convert::FromSpecImpl<&str> for InflectedString {
    open spec fn obeys_from_spec() -> bool {
        false
    }

    open spec fn from_spec(s: &str) -> Self {
        arbitrary()
    }
}

} // verus!
