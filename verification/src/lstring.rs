//! Language string: a text string associated with a language tag.

use std::rc::Rc;
use vstd::prelude::*;

verus! {

/// A text string ([`String`]) associated with a specific language tag ([`Rc`]`<String>`).
///
/// The language tag is expected to be a BCP 47 language tag, though no check is done on it.
#[derive(PartialEq, Debug, Clone)]
pub struct LString {
    string: String,
    language_tag: Rc<String>,
}

impl LString {
    /// The text of the language string.
    pub closed spec fn text(&self) -> Seq<char> {
        self.string@
    }

    /// The language tag of the language string.
    pub closed spec fn tag(&self) -> Rc<String> {
        self.language_tag
    }

    /// Creates a `LString` from a string slice and a language tag, sharing the language tag.
    pub fn new(string: &str, language_tag: &Rc<String>) -> (result: Self)
        ensures
            result.text() == string@,
            result.tag() == *language_tag,
            result.tag()@ == language_tag@,
    {
        LString { string: string.to_owned(), language_tag: Rc::clone(language_tag) }
    }

    /// Returns a reference to the text.
    pub fn as_str(&self) -> (result: &str)
        ensures
            result@ == self.text(),
    {
        self.string.as_str()
    }

    /// Returns a reference to the language tag.
    pub fn language_tag(&self) -> (result: &Rc<String>)
        ensures
            *result == self.tag(),
    {
        &self.language_tag
    }
}

} // verus!
