//! The types of other crates that values of this crate hold.

use vstd::prelude::*;

verus! {

/// A compiled list of CSS selectors.
#[verifier::external_type_specification]
#[verifier::external_body]
pub struct ExSelectors(kuchiki::Selectors);

/// A reference to a node of a parsed document.
#[verifier::external_type_specification]
#[verifier::external_body]
pub struct ExNodeRef(kuchiki::NodeRef);

/// A compiled regular expression.
#[verifier::external_type_specification]
#[verifier::external_body]
pub struct ExRegex(regex::Regex);

/// A value of a parsed TOML document.
#[verifier::external_type_specification]
#[verifier::external_body]
pub struct ExTomlValue(toml::Value);

} // verus!
