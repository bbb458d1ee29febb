# i18n_localiser

A verified internationalisation library: pattern strings such as
`There {dogs_number plural one#one_dog other#dogs} in the park.#{dogs are # dogs}{one_dog is 1 dog}`
are split into tokens, parsed into a tree, analysed into patterns and formatted with placeholder values,
using the compiled data of ICU4X for numbers, plural rules, dates and times. A localiser fetches pattern
strings from a localisation provider that the application implements, falls back to a component's default
language, and caches literal strings and formatters.

Every function of `src/` is verified with Verus against its contract; the calls into ICU4X and std that
Verus cannot read stand behind small trusted wrappers whose contracts are stated in their doc comments.

* `src/`: the library, one module per part (see the crate documentation in `src/lib.rs`);
* `tests/`: tests on concrete values, run with the real ICU4X crates.
