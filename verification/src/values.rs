//! Placeholder values, tagged strings and localisation data.
//!
//! Placeholder values are handed to the formatter by name, as a list of `(name, value)` pairs; the first pair
//! with a name gives the value of that name.

use std::rc::Rc;
use vstd::prelude::*;

verus! {

/// The sign of a decimal number: none (implicitly positive), negative, or an explicit positive sign.
#[derive(Debug, Clone, Copy, PartialEq, Eq, Structural)]
pub enum DecimalSign {
    Unsigned,
    Negative,
    Positive,
}

/// A decimal number: the integer `digits` times ten to the power `exponent`, with its sign. A negative
/// exponent also gives the number of fraction digits shown: `3678` with exponent `-3` is 3.678, `150` with
/// exponent `-2` is 1.50.
#[derive(Debug, Clone, Copy, PartialEq, Eq, Structural)]
pub struct Decimal {
    pub sign: DecimalSign,
    pub digits: u128,
    pub exponent: i16,
}

/// A text string associated with a language tag.
#[derive(Debug, Clone)]
pub struct TaggedString {
    string: String,
    tag: Rc<String>,
}

impl TaggedString {
    /// The text of the tagged string.
    pub closed spec fn text(&self) -> Seq<char> {
        self.string@
    }

    /// The language tag of the tagged string.
    pub closed spec fn tag(&self) -> Seq<char> {
        self.tag@
    }

    /// Creates a tagged string from its text and its language tag, sharing the language tag.
    pub fn new(string: &str, language_tag: &Rc<String>) -> (result: Self)
        ensures
            result.text() == string@,
            result.tag() == language_tag@,
    {
        TaggedString { string: string.to_owned(), tag: Rc::clone(language_tag) }
    }

    /// A copy of the tagged string, sharing the language tag.
    pub fn duplicate(&self) -> (result: Self)
        ensures
            result.text() == self.text(),
            result.tag() == self.tag(),
    {
        TaggedString { string: self.string.clone(), tag: Rc::clone(&self.tag) }
    }

    /// The text as a string slice.
    pub fn as_str(&self) -> (result: &str)
        ensures
            result@ == self.text(),
    {
        self.string.as_str()
    }

    /// The text as a string.
    pub fn as_string(&self) -> (result: &String)
        ensures
            result@ == self.text(),
    {
        &self.string
    }

    /// The language tag.
    pub fn language_tag(&self) -> (result: &Rc<String>)
        ensures
            result@ == self.tag(),
    {
        &self.tag
    }
}

/// An ISO calendar date: year, month (1 to 12) and day (1 to 31). Whether the date exists is checked when it
/// is formatted.
#[derive(Debug, Clone, Copy, PartialEq, Eq, Structural)]
pub struct IsoDate {
    pub year: i32,
    pub month: u8,
    pub day: u8,
}

/// A time of day: hour (0 to 24), minute (0 to 60), second (0 to 61) and nanosecond (0 to 999 999 999). The
/// ranges are checked when the time is formatted.
#[derive(Debug, Clone, Copy, PartialEq, Eq, Structural)]
pub struct IsoTime {
    pub hour: u8,
    pub minute: u8,
    pub second: u8,
    pub nanosecond: u32,
}

/// An ISO calendar date with a time of day.
#[derive(Debug, Clone, Copy, PartialEq, Eq, Structural)]
pub struct IsoDateTime {
    pub date: IsoDate,
    pub time: IsoTime,
}

/// The value of a placeholder:
///
/// * `String`: a string, also used for ISO 8601 dates and times,
/// * `Integer`, `Unsigned`: integers,
/// * `TaggedString`: a string with its language tag,
/// * `FixedDecimal`: a decimal number,
/// * `DateTime`, `Date`, `Time`: ISO dates and times,
/// * `LocalisationData`: the data to localise a message.
#[derive(Debug)]
pub enum PlaceholderValue {
    String(String),
    Integer(i128),
    Unsigned(u128),
    TaggedString(TaggedString),
    FixedDecimal(Decimal),
    DateTime(IsoDateTime),
    Date(IsoDate),
    Time(IsoTime),
    LocalisationData(LocalisationData),
}

/// The data to localise a message: the component and identifier of its pattern string and the values of its
/// placeholders.
#[derive(Debug)]
pub struct LocalisationData {
    pub component: String,
    pub identifier: String,
    pub values: Option<Vec<(String, PlaceholderValue)>>,
}

/// A placeholder value with its strings as character sequences.
pub enum ValueView {
    String(Seq<char>),
    Integer(i128),
    Unsigned(u128),
    TaggedString(Seq<char>, Seq<char>),
    FixedDecimal(Decimal),
    DateTime(IsoDateTime),
    Date(IsoDate),
    Time(IsoTime),
    LocalisationData(DataView),
}

/// Localisation data with its strings as character sequences.
pub struct DataView {
    pub component: Seq<char>,
    pub identifier: Seq<char>,
    pub values: Option<Seq<(Seq<char>, ValueView)>>,
}

/// The number of pairs of localisation data (none without values).
pub open spec fn pair_count(data: LocalisationData) -> nat {
    match data.values {
        Some(pairs) => pairs@.len(),
        None => 0,
    }
}

/// The view of a placeholder value.
pub open spec fn value_view(value: PlaceholderValue) -> ValueView
    decreases value, 0nat,
{
    match value {
        PlaceholderValue::String(s) => ValueView::String(s@),
        PlaceholderValue::Integer(n) => ValueView::Integer(n),
        PlaceholderValue::Unsigned(n) => ValueView::Unsigned(n),
        PlaceholderValue::TaggedString(t) => ValueView::TaggedString(t.text(), t.tag()),
        PlaceholderValue::FixedDecimal(d) => ValueView::FixedDecimal(d),
        PlaceholderValue::DateTime(d) => ValueView::DateTime(d),
        PlaceholderValue::Date(d) => ValueView::Date(d),
        PlaceholderValue::Time(t) => ValueView::Time(t),
        PlaceholderValue::LocalisationData(data) => ValueView::LocalisationData(data_view(data)),
    }
}

/// The view of localisation data.
pub open spec fn data_view(data: LocalisationData) -> DataView
    decreases data, pair_count(data) + 1,
{
    DataView {
        component: data.component@,
        identifier: data.identifier@,
        values: match data.values {
            Some(pairs) => Some(pairs_view(data, pairs@.len())),
            None => None,
        },
    }
}

/// The views of the first `n` pairs of localisation data.
pub open spec fn pairs_view(data: LocalisationData, n: nat) -> Seq<(Seq<char>, ValueView)>
    decreases data, n,
{
    match data.values {
        Some(pairs) => if n == 0 || n > pairs@.len() {
            Seq::empty()
        } else {
            let e = pairs@[n - 1];
            proof {
                let v = data.values;
                let w = pairs;
                assert(decreases_to!(data => v));
                assert(decreases_to!(v => v->0));
                assert(decreases_to!(w => w@));
                assert(decreases_to!(w@ => e));
                assert(decreases_to!(e => e.1));
            }
            pairs_view(data, (n - 1) as nat).push((e.0@, value_view(e.1)))
        },
        None => Seq::empty(),
    }
}

/// The views of a sequence of named values, one by one.
pub open spec fn named_views(pairs: Seq<(String, PlaceholderValue)>) -> Seq<(Seq<char>, ValueView)> {
    pairs.map_values(|p: (String, PlaceholderValue)| (p.0@, value_view(p.1)))
}

/// The views of the first `n` pairs of localisation data are the views of its first `n` named values.
pub proof fn lemma_pairs_view(data: LocalisationData, n: nat)
    requires
        data.values is Some,
        n <= pair_count(data),
    ensures
        pairs_view(data, n) == named_views(data.values->0@.take(n as int)),
    decreases n,
{
    let pairs = data.values->0@;
    if n > 0 {
        lemma_pairs_view(data, (n - 1) as nat);
        assert(named_views(pairs.take(n as int)) =~= named_views(pairs.take(n - 1)).push(
            (pairs[n - 1].0@, value_view(pairs[n - 1].1)),
        ));
    } else {
        assert(named_views(pairs.take(0)) =~= Seq::empty());
    }
}

/// The view of localisation data with values holds the views of all its named values.
pub proof fn lemma_data_view(data: LocalisationData)
    requires
        data.values is Some,
    ensures
        data_view(data).values == Some(named_views(data.values->0@)),
{
    lemma_pairs_view(data, pair_count(data));
    assert(data.values->0@.take(pair_count(data) as int) =~= data.values->0@);
}

/// The value of the first pair named `name`.
pub open spec fn lookup(values: Seq<(String, PlaceholderValue)>, name: Seq<char>) -> Option<PlaceholderValue>
    decreases values.len(),
{
    if values.len() == 0 {
        None
    } else if values[0].0@ == name {
        Some(values[0].1)
    } else {
        lookup(values.drop_first(), name)
    }
}

/// Whether two strings are equal.
pub fn str_eq(a: &str, b: &str) -> (result: bool)
    ensures
        result == (a@ == b@),
{
    let n = a.unicode_len();
    if n != b.unicode_len() {
        return false;
    }
    let mut i: usize = 0;
    while i < n
        invariant
            n == a@.len(),
            n == b@.len(),
            0 <= i <= n,
            forall|k: int| 0 <= k < i ==> a@[k] == b@[k],
        decreases n - i,
    {
        if a.get_char(i) != b.get_char(i) {
            return false;
        }
        i = i + 1;
    }
    assert(a@ =~= b@);
    true
}

/// The value of the first pair named `name`, as [`lookup`].
pub fn get_value<'a>(values: &'a Vec<(String, PlaceholderValue)>, name: &str) -> (result: Option<
    &'a PlaceholderValue,
>)
    ensures
        match lookup(values@, name@) {
            Some(v) => result matches Some(r) && *r == v,
            None => result is None,
        },
{
    let mut i: usize = 0;
    assert(values@.skip(0) =~= values@);
    while i < values.len()
        invariant
            0 <= i <= values.len(),
            lookup(values@, name@) == lookup(values@.skip(i as int), name@),
        decreases values.len() - i,
    {
        assert(values@.skip(i as int).drop_first() =~= values@.skip(i + 1));
        if str_eq(values[i].0.as_str(), name) {
            return Some(&values[i].1);
        }
        i = i + 1;
    }
    None
}

/// A copy of a placeholder value.
pub fn clone_value(value: &PlaceholderValue) -> (result: PlaceholderValue)
    ensures
        value_view(result) == value_view(*value),
    decreases value,
{
    match value {
        PlaceholderValue::String(s) => PlaceholderValue::String(s.clone()),
        PlaceholderValue::Integer(n) => PlaceholderValue::Integer(*n),
        PlaceholderValue::Unsigned(n) => PlaceholderValue::Unsigned(*n),
        PlaceholderValue::TaggedString(t) => PlaceholderValue::TaggedString(t.duplicate()),
        PlaceholderValue::FixedDecimal(d) => PlaceholderValue::FixedDecimal(*d),
        PlaceholderValue::DateTime(d) => PlaceholderValue::DateTime(*d),
        PlaceholderValue::Date(d) => PlaceholderValue::Date(*d),
        PlaceholderValue::Time(t) => PlaceholderValue::Time(*t),
        PlaceholderValue::LocalisationData(data) => PlaceholderValue::LocalisationData(clone_data(data)),
    }
}

/// A copy of localisation data.
pub fn clone_data(data: &LocalisationData) -> (result: LocalisationData)
    ensures
        data_view(result) == data_view(*data),
    decreases data,
{
    let values = match &data.values {
        None => None,
        Some(pairs) => {
            let mut copy: Vec<(String, PlaceholderValue)> = Vec::new();
            let mut i: usize = 0;
            while i < pairs.len()
                invariant
                    0 <= i <= pairs@.len(),
                    data.values == Some(*pairs),
                    named_views(copy@) == named_views(pairs@.take(i as int)),
                decreases pairs.len() - i,
            {
                proof {
                    let v = data.values;
                    let w = *pairs;
                    let e = pairs@[i as int];
                    assert(decreases_to!(*data => v));
                    assert(decreases_to!(v => v->0));
                    assert(v->0 == w);
                    assert(decreases_to!(w => w@));
                    assert(decreases_to!(w@ => e));
                    assert(decreases_to!(e => e.1));
                    assert(decreases_to!(*data => e.1));
                }
                let ghost before = copy@;
                copy.push((pairs[i].0.clone(), clone_value(&pairs[i].1)));
                assert(named_views(copy@) =~= named_views(before).push((pairs@[i as int].0@, value_view(pairs@[i as int].1))));
                assert(named_views(pairs@.take(i + 1)) =~= named_views(pairs@.take(i as int)).push(
                    (pairs@[i as int].0@, value_view(pairs@[i as int].1)),
                ));
                i = i + 1;
            }
            assert(pairs@.take(pairs@.len() as int) =~= pairs@);
            Some(copy)
        },
    };
    let result = LocalisationData { component: data.component.clone(), identifier: data.identifier.clone(), values };
    proof {
        if data.values is Some {
            lemma_data_view(*data);
            lemma_data_view(result);
        }
    }
    result
}

} // verus!
