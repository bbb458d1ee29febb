use i18n_localiser::script::{Category, DataProvider, ScriptDirection};

#[test]
fn script_data() {
    let provider = DataProvider::new();
    let latin = provider.get("Latn").unwrap();
    assert_eq!(latin.category, Category::Alphabetic);
    assert_eq!(latin.directions, vec![ScriptDirection::TopToBottomLeftToRight]);
    assert!(!latin.historic);
    let arabic = provider.get("Arab").unwrap();
    assert_eq!(arabic.category, Category::Abjad);
    let yezidi = provider.get("Yezi").unwrap();
    assert_eq!(yezidi.category, Category::Syllabic);
    assert!(provider.get("Zzzz").is_none());
}

#[test]
fn script_directions_are_distinct() {
    let provider = DataProvider::new();
    let bopomofo = provider.get("Bopo").unwrap();
    assert_eq!(
        bopomofo.directions,
        vec![ScriptDirection::TopToBottomLeftToRight, ScriptDirection::TopToBottomRightToLeft]
    );
    for code in ["Adlm", "Cari", "Hani", "Latn", "Mong", "Zand"] {
        if let Some(data) = provider.get(code) {
            assert!(!data.directions.is_empty());
            for i in 0..data.directions.len() {
                for j in (i + 1)..data.directions.len() {
                    assert_ne!(data.directions[i], data.directions[j]);
                }
            }
        }
    }
}
