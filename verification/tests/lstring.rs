use i18n_localiser::lstring::LString;
use std::rc::Rc;

#[test]
fn string_with_language_tag() {
    let string = "This is a test string.";
    let tag = Rc::new("en-ZA".to_string());
    let lang_string = LString::new(string, &tag);
    assert_eq!(lang_string.language_tag(), &tag, "Language tag failed.");
    assert_eq!(lang_string.as_str(), string, "String failed.");
}
