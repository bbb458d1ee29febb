use i18n_localiser::error::LocaliserError;
use i18n_localiser::registry::LanguageTagRegistry;
use std::rc::Rc;

#[test]
fn language_tags_are_canonical_and_shared() {
    let mut registry = LanguageTagRegistry::new();
    let first = registry.tag("en-za").unwrap();
    assert_eq!(first.as_str(), "en-ZA");
    let second = registry.tag("EN-ZA").unwrap();
    assert!(Rc::ptr_eq(&first, &second));
    assert!(matches!(registry.tag("not a tag!"), Err(LocaliserError::Registry(_))));
}
