[package]
name = "i18n_localiser"
version = "0.1.0"
edition = "2021"
publish = false

[dependencies]
icu_properties = "1.5"
icu_segmenter = "1.5"
icu_plurals = "1.5"
icu_decimal = "1.5"
icu_datetime = "1.5"
icu_calendar = "1.5"
icu_locid = "1.5"
icu_provider = "1.5"
fixed_decimal = "0.5"
