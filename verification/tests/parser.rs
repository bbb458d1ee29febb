use i18n_localiser::lexer::{DataProvider, IcuDataProvider};
use i18n_localiser::tree::{NodeType, Tree};
use std::rc::Rc;

fn tree(string: &str) -> Tree {
    let icu_data_provider = Rc::new(IcuDataProvider::try_new(DataProvider::Internal).unwrap());
    Tree::try_new(string, "{}`#", &icu_data_provider).unwrap().unwrap()
}

#[test]
fn decimal() {
    let tree = tree("String contains a {placeholder decimal sign#negative}.");
    assert_eq!(tree.len(), 10, "Should contain 10 nodes.");
}

#[test]
fn plural() {
    let tree = tree("There {dogs_number plural one#one_dog other#dogs} in the park.#{dogs are # dogs}{one_dog is 1 dog}");
    assert_eq!(tree.len(), 24, "Should contain 24 nodes.");
}

#[test]
fn tree_lengths() {
    let tree = tree("Earth = \u{1F30D}. {x}");
    assert_eq!(tree.length().bytes, "Earth = \u{1F30D}. {x}".len());
    assert_eq!(tree.length().characters, 14);
    assert!(tree.has_grammar());
}

#[test]
fn tree_errors() {
    let icu_data_provider = Rc::new(IcuDataProvider::try_new(DataProvider::Internal).unwrap());
    assert!(matches!(
        Tree::try_new("An {unfinished pattern", "{}`#", &icu_data_provider),
        Some(Err(i18n_localiser::tree::TreeError::EndedAbruptly))
    ));
}

#[test]
fn tree_without_transition() {
    let icu_data_provider = Rc::new(IcuDataProvider::try_new(DataProvider::Internal).unwrap());
    assert!(Tree::try_new("{#one#}", "{}`#", &icu_data_provider).is_none());
}

#[test]
fn literal_pattern_closes() {
    let literal = tree("a {`b`} c");
    assert!(literal.len() > 1);
    let escaped = tree("a {`b``c`} d");
    assert!(escaped.len() > 1);
    let icu_data_provider = Rc::new(IcuDataProvider::try_new(DataProvider::Internal).unwrap());
    assert!(matches!(
        Tree::try_new("a {`b`", "{}`#", &icu_data_provider),
        Some(Err(i18n_localiser::tree::TreeError::EndedAbruptly))
    ));
}

#[test]
fn tree_root_shape() {
    for string in ["plain text", "a {x} b", "There {n plural one#one other#many}.#{one 1}{many #}"] {
        let tree = tree(string);
        assert_eq!(*tree.node_type(0), NodeType::Root);
        let first = tree.children(0)[0];
        assert_eq!(first, 1);
        assert_eq!(*tree.node_type(first), NodeType::String);
    }
}
