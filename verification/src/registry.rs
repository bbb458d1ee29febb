//! A registry of language tags: each language tag in the canonical form of its language identifier, shared
//! between its users.

use crate::error::{FormatterError, LocaliserError, LocaliserErrorView};
use crate::icu::{parse_locale, spec_locale};
use crate::values::str_eq;
use std::rc::Rc;
use vstd::prelude::*;

verus! {

/// The language tags of a registry, as character sequences.
pub open spec fn tags_view(tags: Seq<Rc<String>>) -> Seq<Seq<char>> {
    tags.map_values(|t: Rc<String>| t@)
}

/// The registered tags after asking for the tag `tag`: unchanged if it is registered, else with it added.
pub open spec fn registered(before: Seq<Seq<char>>, after: Seq<Seq<char>>, tag: Seq<char>) -> bool {
    after == if before.contains(tag) {
        before
    } else {
        before.push(tag)
    }
}

/// A language tag holds once asked for; asked for again, it leaves the registry as it is.
pub proof fn lemma_registered_twice(before: Seq<Seq<char>>, middle: Seq<Seq<char>>, after: Seq<Seq<char>>, tag: Seq<char>)
    requires
        registered(before, middle, tag),
        registered(middle, after, tag),
    ensures
        middle.contains(tag),
        after == middle,
{
    if !before.contains(tag) {
        assert(middle[middle.len() - 1] == tag);
    }
}

/// A registry of language tags, in the order they were first asked for.
pub struct LanguageTagRegistry {
    tags: Vec<Rc<String>>,
}

impl LanguageTagRegistry {
    /// The registered language tags.
    pub closed spec fn tags(&self) -> Seq<Seq<char>> {
        tags_view(self.tags@)
    }

    /// Creates an empty registry.
    pub fn new() -> (result: Self)
        ensures
            result.tags() == Seq::<Seq<char>>::empty(),
    {
        let result = LanguageTagRegistry { tags: Vec::new() };
        assert(result.tags() =~= Seq::<Seq<char>>::empty());
        result
    }

    /// The registered language tag in the canonical form of the language identifier of `language_tag`,
    /// registered first if it is not yet. Fails with `Registry` where `language_tag` is not a language
    /// identifier, leaving the registry as it is.
    pub fn tag(&mut self, language_tag: &str) -> (result: Result<Rc<String>, LocaliserError>)
        ensures
            match spec_locale(language_tag@) {
                Some(t) => result matches Ok(r) && r@ == t && registered(old(self).tags(), final(self).tags(), t),
                None => result matches Err(e) && e@ == LocaliserErrorView::Registry && final(self).tags() == old(
                    self,
                ).tags(),
            },
    {
        let canonical = match parse_locale(language_tag) {
            Ok(tag) => tag,
            Err(FormatterError::Locale(e)) => return Err(LocaliserError::Registry(e)),
            Err(e) => return Err(LocaliserError::Formatter(e)),
        };
        let mut i: usize = 0;
        while i < self.tags.len()
            invariant
                0 <= i <= self.tags@.len(),
                self.tags() == tags_view(self.tags@),
                self.tags@ == old(self).tags@,
                spec_locale(language_tag@) == Some(canonical@),
                forall|k: int| 0 <= k < i ==> self.tags()[k] != canonical@,
            decreases self.tags.len() - i,
        {
            if str_eq(self.tags[i].as_str(), canonical.as_str()) {
                assert(self.tags()[i as int] == canonical@);
                assert(old(self).tags().contains(canonical@));
                return Ok(Rc::clone(&self.tags[i]));
            }
            i = i + 1;
        }
        assert(!old(self).tags().contains(canonical@));
        let tag = Rc::new(canonical);
        let ghost before = self.tags@;
        self.tags.push(Rc::clone(&tag));
        assert(tags_view(self.tags@) =~= tags_view(before).push(tag@));
        Ok(tag)
    }
}

} // verus!
