//! The writing systems of the ISO 15924 scripts: for each script code, its category, its directions of
//! writing and whether it is historic.

use crate::values::str_eq;
use vstd::prelude::*;

verus! {

/// The category of a writing system.
#[derive(Debug, Clone, Copy, PartialEq, Eq, Structural)]
pub enum Category {
    Abjad,
    Abugida,
    Alphabetic,
    Logographic,
    Special,
    Syllabic,
}

/// A direction of writing: the direction of the characters in a line, then of the lines.
#[derive(Debug, Clone, Copy, PartialEq, Eq, Structural)]
pub enum ScriptDirection {
    BottomToTopLeftToRight,
    BottomToTopRightToLeft,
    LeftToRightTopToBottom,
    RightToLeftBottomToTop,
    RightToLeftTopToBottom,
    TopToBottomLeftToRight,
    TopToBottomRightToLeft,
}

/// The data of a script: its category, its directions of writing and whether it is historic.
#[derive(Debug)]
pub struct ScriptData {
    pub category: Category,
    pub directions: Vec<ScriptDirection>,
    pub historic: bool,
}

/// The data of a script with its directions as a sequence.
pub struct ScriptView {
    pub category: Category,
    pub directions: Seq<ScriptDirection>,
    pub historic: bool,
}

impl View for ScriptData {
    type V = ScriptView;

    open spec fn view(&self) -> ScriptView {
        ScriptView { category: self.category, directions: self.directions@, historic: self.historic }
    }
}

/// A script code with its data.
pub open spec fn script(code: Seq<char>, category: Category, directions: Seq<ScriptDirection>, historic: bool) -> (
    Seq<char>,
    ScriptView,
) {
    (code, ScriptView { category, directions, historic })
}

/// The entries with their codes and data as views.
pub open spec fn entries_view(entries: Seq<(String, ScriptData)>) -> Seq<(Seq<char>, ScriptView)> {
    entries.map_values(|e: (String, ScriptData)| (e.0@, e.1@))
}

/// The data of the first entry of the code.
pub open spec fn script_lookup(table: Seq<(Seq<char>, ScriptView)>, code: Seq<char>) -> Option<ScriptView>
    decreases table.len(),
{
    if table.len() == 0 {
        None
    } else if table[0].0 == code {
        Some(table[0].1)
    } else {
        script_lookup(table.drop_first(), code)
    }
}


/// The table with the scripts from `Adlm` to `Cans` appended.
pub open spec fn scripts_0(table: Seq<(Seq<char>, ScriptView)>) -> Seq<(Seq<char>, ScriptView)> {
    table
        .push(script("Adlm"@, Category::Alphabetic, seq![ScriptDirection::TopToBottomRightToLeft], false))
        .push(script("Aghb"@, Category::Alphabetic, seq![ScriptDirection::TopToBottomLeftToRight], true))
        .push(script("Ahom"@, Category::Abugida, seq![ScriptDirection::TopToBottomLeftToRight], true))
        .push(script("Arab"@, Category::Abjad, seq![ScriptDirection::TopToBottomRightToLeft], false))
        .push(script("Armi"@, Category::Abjad, seq![ScriptDirection::TopToBottomRightToLeft], true))
        .push(script("Armn"@, Category::Alphabetic, seq![ScriptDirection::TopToBottomRightToLeft], false))
        .push(script("Avst"@, Category::Alphabetic, seq![ScriptDirection::TopToBottomRightToLeft], true))
        .push(script("Bali"@, Category::Abugida, seq![ScriptDirection::TopToBottomLeftToRight], false))
        .push(script("Bamu"@, Category::Syllabic, seq![ScriptDirection::TopToBottomLeftToRight], false))
        .push(script("Bass"@, Category::Alphabetic, seq![ScriptDirection::TopToBottomLeftToRight], true))
        .push(script("Batk"@, Category::Abugida, seq![ScriptDirection::TopToBottomLeftToRight], false))
        .push(script("Beng"@, Category::Abugida, seq![ScriptDirection::TopToBottomLeftToRight], false))
        .push(script("Bhks"@, Category::Abugida, seq![ScriptDirection::TopToBottomLeftToRight], true))
        .push(script("Bopo"@, Category::Alphabetic, seq![ScriptDirection::TopToBottomLeftToRight].push(ScriptDirection::TopToBottomRightToLeft), false))
        .push(script("Brah"@, Category::Abugida, seq![ScriptDirection::TopToBottomLeftToRight], true))
        .push(script("Brai"@, Category::Alphabetic, seq![ScriptDirection::TopToBottomLeftToRight], false))
        .push(script("Bugi"@, Category::Abugida, seq![ScriptDirection::TopToBottomLeftToRight], false))
        .push(script("Buhd"@, Category::Abugida, seq![ScriptDirection::TopToBottomLeftToRight], false))
        .push(script("Cakm"@, Category::Abugida, seq![ScriptDirection::TopToBottomLeftToRight], false))
        .push(script("Cans"@, Category::Abugida, seq![ScriptDirection::TopToBottomLeftToRight], false))
}

/// The table with the scripts from `Cari` to `Geok` appended.
pub open spec fn scripts_1(table: Seq<(Seq<char>, ScriptView)>) -> Seq<(Seq<char>, ScriptView)> {
    table
        .push(script("Cari"@, Category::Alphabetic, seq![ScriptDirection::TopToBottomLeftToRight].push(ScriptDirection::TopToBottomRightToLeft), true))
        .push(script("Cham"@, Category::Abugida, seq![ScriptDirection::TopToBottomLeftToRight], false))
        .push(script("Cher"@, Category::Syllabic, seq![ScriptDirection::TopToBottomLeftToRight], false))
        .push(script("Chrs"@, Category::Abjad, seq![ScriptDirection::TopToBottomRightToLeft], true))
        .push(script("Copt"@, Category::Alphabetic, seq![ScriptDirection::TopToBottomLeftToRight], true))
        .push(script("Cpmn"@, Category::Syllabic, seq![ScriptDirection::TopToBottomLeftToRight], true))
        .push(script("Cprt"@, Category::Syllabic, seq![ScriptDirection::TopToBottomRightToLeft], true))
        .push(script("Cyrl"@, Category::Alphabetic, seq![ScriptDirection::TopToBottomLeftToRight], false))
        .push(script("Cyrs"@, Category::Alphabetic, seq![ScriptDirection::TopToBottomLeftToRight], false))
        .push(script("Deva"@, Category::Abugida, seq![ScriptDirection::TopToBottomLeftToRight], false))
        .push(script("Diak"@, Category::Abugida, seq![ScriptDirection::TopToBottomLeftToRight], true))
        .push(script("Dogr"@, Category::Abugida, seq![ScriptDirection::TopToBottomLeftToRight], true))
        .push(script("Dsrt"@, Category::Alphabetic, seq![ScriptDirection::TopToBottomLeftToRight], false))
        .push(script("Dupl"@, Category::Special, seq![ScriptDirection::TopToBottomLeftToRight], false))
        .push(script("Egyp"@, Category::Logographic, seq![ScriptDirection::TopToBottomLeftToRight].push(ScriptDirection::TopToBottomRightToLeft), true))
        .push(script("Elba"@, Category::Alphabetic, seq![ScriptDirection::TopToBottomLeftToRight], true))
        .push(script("Elym"@, Category::Abjad, seq![ScriptDirection::TopToBottomRightToLeft], true))
        .push(script("Ethi"@, Category::Abugida, seq![ScriptDirection::TopToBottomLeftToRight], true))
        .push(script("Gara"@, Category::Alphabetic, seq![ScriptDirection::TopToBottomRightToLeft], false))
        .push(script("Geok"@, Category::Alphabetic, seq![ScriptDirection::TopToBottomLeftToRight], false))
}

/// The table with the scripts from `Geor` to `Hluw` appended.
pub open spec fn scripts_2(table: Seq<(Seq<char>, ScriptView)>) -> Seq<(Seq<char>, ScriptView)> {
    table
        .push(script("Geor"@, Category::Alphabetic, seq![ScriptDirection::TopToBottomLeftToRight], false))
        .push(script("Glag"@, Category::Alphabetic, seq![ScriptDirection::TopToBottomLeftToRight], true))
        .push(script("Gong"@, Category::Abugida, seq![ScriptDirection::TopToBottomLeftToRight], false))
        .push(script("Gonm"@, Category::Abugida, seq![ScriptDirection::TopToBottomLeftToRight], false))
        .push(script("Goth"@, Category::Alphabetic, seq![ScriptDirection::TopToBottomLeftToRight], true))
        .push(script("Gran"@, Category::Abugida, seq![ScriptDirection::TopToBottomLeftToRight], false))
        .push(script("Grek"@, Category::Alphabetic, seq![ScriptDirection::TopToBottomLeftToRight].push(ScriptDirection::TopToBottomRightToLeft), false))
        .push(script("Gujr"@, Category::Abugida, seq![ScriptDirection::TopToBottomLeftToRight], false))
        .push(script("Gukn"@, Category::Abugida, seq![ScriptDirection::TopToBottomLeftToRight], false))
        .push(script("Guru"@, Category::Abugida, seq![ScriptDirection::TopToBottomLeftToRight], false))
        .push(script("Hanb"@, Category::Logographic, seq![ScriptDirection::TopToBottomLeftToRight].push(ScriptDirection::TopToBottomRightToLeft).push(ScriptDirection::RightToLeftTopToBottom).push(ScriptDirection::LeftToRightTopToBottom), false))
        .push(script("Hang"@, Category::Alphabetic, seq![ScriptDirection::RightToLeftTopToBottom].push(ScriptDirection::TopToBottomLeftToRight).push(ScriptDirection::LeftToRightTopToBottom), false))
        .push(script("Hani"@, Category::Logographic, seq![ScriptDirection::RightToLeftTopToBottom].push(ScriptDirection::TopToBottomLeftToRight), false))
        .push(script("Hano"@, Category::Abugida, seq![ScriptDirection::BottomToTopLeftToRight].push(ScriptDirection::BottomToTopRightToLeft).push(ScriptDirection::TopToBottomLeftToRight), false))
        .push(script("Hans"@, Category::Logographic, seq![ScriptDirection::RightToLeftTopToBottom].push(ScriptDirection::TopToBottomLeftToRight), false))
        .push(script("Hant"@, Category::Logographic, seq![ScriptDirection::RightToLeftTopToBottom].push(ScriptDirection::TopToBottomLeftToRight), false))
        .push(script("Hatr"@, Category::Abjad, seq![ScriptDirection::TopToBottomRightToLeft], true))
        .push(script("Hebr"@, Category::Abjad, seq![ScriptDirection::TopToBottomRightToLeft], false))
        .push(script("Hira"@, Category::Syllabic, seq![ScriptDirection::RightToLeftTopToBottom].push(ScriptDirection::TopToBottomLeftToRight), false))
        .push(script("Hluw"@, Category::Logographic, seq![ScriptDirection::TopToBottomLeftToRight].push(ScriptDirection::TopToBottomRightToLeft).push(ScriptDirection::LeftToRightTopToBottom), true))
}

/// The table with the scripts from `Hmng` to `Lana` appended.
pub open spec fn scripts_3(table: Seq<(Seq<char>, ScriptView)>) -> Seq<(Seq<char>, ScriptView)> {
    table
        .push(script("Hmng"@, Category::Syllabic, seq![ScriptDirection::TopToBottomLeftToRight], false))
        .push(script("Hmnp"@, Category::Syllabic, seq![ScriptDirection::TopToBottomLeftToRight], false))
        .push(script("Hikt"@, Category::Syllabic, seq![ScriptDirection::RightToLeftTopToBottom].push(ScriptDirection::TopToBottomLeftToRight), false))
        .push(script("Hung"@, Category::Alphabetic, seq![ScriptDirection::TopToBottomRightToLeft], true))
        .push(script("Ital"@, Category::Alphabetic, seq![ScriptDirection::TopToBottomRightToLeft].push(ScriptDirection::TopToBottomLeftToRight), true))
        .push(script("Jamo"@, Category::Alphabetic, seq![ScriptDirection::RightToLeftTopToBottom].push(ScriptDirection::TopToBottomLeftToRight), false))
        .push(script("Java"@, Category::Abugida, seq![ScriptDirection::TopToBottomLeftToRight], false))
        .push(script("Jpan"@, Category::Syllabic, seq![ScriptDirection::RightToLeftTopToBottom].push(ScriptDirection::TopToBottomLeftToRight), false))
        .push(script("Kali"@, Category::Alphabetic, seq![ScriptDirection::TopToBottomLeftToRight], false))
        .push(script("Kana"@, Category::Syllabic, seq![ScriptDirection::RightToLeftTopToBottom].push(ScriptDirection::TopToBottomLeftToRight), false))
        .push(script("Kawi"@, Category::Abugida, seq![ScriptDirection::TopToBottomLeftToRight], true))
        .push(script("Khar"@, Category::Abugida, seq![ScriptDirection::TopToBottomRightToLeft], true))
        .push(script("Khmr"@, Category::Abugida, seq![ScriptDirection::TopToBottomLeftToRight], false))
        .push(script("Khoj"@, Category::Abugida, seq![ScriptDirection::TopToBottomRightToLeft], true))
        .push(script("Kits"@, Category::Logographic, seq![ScriptDirection::RightToLeftTopToBottom], true))
        .push(script("Knda"@, Category::Abugida, seq![ScriptDirection::TopToBottomRightToLeft], true))
        .push(script("Kore"@, Category::Alphabetic, seq![ScriptDirection::RightToLeftTopToBottom].push(ScriptDirection::TopToBottomLeftToRight).push(ScriptDirection::LeftToRightTopToBottom), false))
        .push(script("Krai"@, Category::Abugida, seq![ScriptDirection::TopToBottomLeftToRight], false))
        .push(script("Kthi"@, Category::Abugida, seq![ScriptDirection::TopToBottomRightToLeft], true))
        .push(script("Lana"@, Category::Abugida, seq![ScriptDirection::TopToBottomLeftToRight], false))
}

/// The table with the scripts from `Laoo` to `Mero` appended.
pub open spec fn scripts_4(table: Seq<(Seq<char>, ScriptView)>) -> Seq<(Seq<char>, ScriptView)> {
    table
        .push(script("Laoo"@, Category::Abugida, seq![ScriptDirection::TopToBottomLeftToRight], false))
        .push(script("Latf"@, Category::Alphabetic, seq![ScriptDirection::TopToBottomLeftToRight], false))
        .push(script("Latg"@, Category::Alphabetic, seq![ScriptDirection::TopToBottomLeftToRight], false))
        .push(script("Latn"@, Category::Alphabetic, seq![ScriptDirection::TopToBottomLeftToRight], false))
        .push(script("Lepc"@, Category::Abugida, seq![ScriptDirection::TopToBottomLeftToRight], false))
        .push(script("Limb"@, Category::Abugida, seq![ScriptDirection::TopToBottomLeftToRight], false))
        .push(script("Lina"@, Category::Syllabic, seq![ScriptDirection::TopToBottomLeftToRight], true))
        .push(script("Linb"@, Category::Syllabic, seq![ScriptDirection::TopToBottomLeftToRight], true))
        .push(script("Lisu"@, Category::Alphabetic, seq![ScriptDirection::TopToBottomLeftToRight], false))
        .push(script("Lyci"@, Category::Alphabetic, seq![ScriptDirection::TopToBottomLeftToRight], true))
        .push(script("Lydi"@, Category::Alphabetic, seq![ScriptDirection::TopToBottomRightToLeft], true))
        .push(script("Mahj"@, Category::Abugida, seq![ScriptDirection::TopToBottomLeftToRight], true))
        .push(script("Maka"@, Category::Abugida, seq![ScriptDirection::TopToBottomLeftToRight], true))
        .push(script("Mand"@, Category::Alphabetic, seq![ScriptDirection::TopToBottomRightToLeft], false))
        .push(script("Mani"@, Category::Abjad, seq![ScriptDirection::TopToBottomRightToLeft], true))
        .push(script("Marc"@, Category::Abugida, seq![ScriptDirection::TopToBottomLeftToRight], true))
        .push(script("Medf"@, Category::Alphabetic, seq![ScriptDirection::TopToBottomLeftToRight], false))
        .push(script("Mend"@, Category::Syllabic, seq![ScriptDirection::TopToBottomRightToLeft], false))
        .push(script("Merc"@, Category::Abugida, seq![ScriptDirection::TopToBottomRightToLeft], true))
        .push(script("Mero"@, Category::Abugida, seq![ScriptDirection::TopToBottomRightToLeft], true))
}

/// The table with the scripts from `Mlym` to `Osge` appended.
pub open spec fn scripts_5(table: Seq<(Seq<char>, ScriptView)>) -> Seq<(Seq<char>, ScriptView)> {
    table
        .push(script("Mlym"@, Category::Abugida, seq![ScriptDirection::TopToBottomLeftToRight], false))
        .push(script("Modi"@, Category::Abugida, seq![ScriptDirection::TopToBottomLeftToRight], true))
        .push(script("Mong"@, Category::Alphabetic, seq![ScriptDirection::LeftToRightTopToBottom].push(ScriptDirection::TopToBottomLeftToRight), false))
        .push(script("Mroo"@, Category::Alphabetic, seq![ScriptDirection::TopToBottomLeftToRight], false))
        .push(script("Mtei"@, Category::Abugida, seq![ScriptDirection::TopToBottomLeftToRight], false))
        .push(script("Mult"@, Category::Abugida, seq![ScriptDirection::TopToBottomLeftToRight], true))
        .push(script("Mymr"@, Category::Abugida, seq![ScriptDirection::TopToBottomLeftToRight], false))
        .push(script("Nagm"@, Category::Alphabetic, seq![ScriptDirection::TopToBottomLeftToRight], false))
        .push(script("Nand"@, Category::Abugida, seq![ScriptDirection::TopToBottomLeftToRight], true))
        .push(script("Narb"@, Category::Abjad, seq![ScriptDirection::TopToBottomRightToLeft], true))
        .push(script("Nbat"@, Category::Abjad, seq![ScriptDirection::TopToBottomRightToLeft], true))
        .push(script("Newa"@, Category::Abugida, seq![ScriptDirection::TopToBottomLeftToRight], true))
        .push(script("Nkoo"@, Category::Alphabetic, seq![ScriptDirection::TopToBottomRightToLeft], false))
        .push(script("Nshu"@, Category::Syllabic, seq![ScriptDirection::RightToLeftTopToBottom], true))
        .push(script("Ogam"@, Category::Alphabetic, seq![ScriptDirection::BottomToTopLeftToRight].push(ScriptDirection::TopToBottomLeftToRight), true))
        .push(script("Olck"@, Category::Alphabetic, seq![ScriptDirection::TopToBottomLeftToRight], false))
        .push(script("Onao"@, Category::Alphabetic, seq![ScriptDirection::TopToBottomLeftToRight], false))
        .push(script("Orkh"@, Category::Alphabetic, seq![ScriptDirection::TopToBottomRightToLeft], true))
        .push(script("Orya"@, Category::Abugida, seq![ScriptDirection::TopToBottomLeftToRight], false))
        .push(script("Osge"@, Category::Alphabetic, seq![ScriptDirection::TopToBottomLeftToRight], false))
}

/// The table with the scripts from `Osma` to `Shaw` appended.
pub open spec fn scripts_6(table: Seq<(Seq<char>, ScriptView)>) -> Seq<(Seq<char>, ScriptView)> {
    table
        .push(script("Osma"@, Category::Alphabetic, seq![ScriptDirection::TopToBottomLeftToRight], true))
        .push(script("Ougr"@, Category::Alphabetic, seq![ScriptDirection::LeftToRightTopToBottom].push(ScriptDirection::TopToBottomRightToLeft), true))
        .push(script("Palm"@, Category::Abjad, seq![ScriptDirection::TopToBottomRightToLeft], true))
        .push(script("Pauc"@, Category::Alphabetic, seq![ScriptDirection::TopToBottomLeftToRight], true))
        .push(script("Perm"@, Category::Alphabetic, seq![ScriptDirection::TopToBottomLeftToRight], true))
        .push(script("Phag"@, Category::Alphabetic, seq![ScriptDirection::LeftToRightTopToBottom], true))
        .push(script("Phli"@, Category::Abjad, seq![ScriptDirection::TopToBottomRightToLeft], true))
        .push(script("Phlp"@, Category::Abjad, seq![ScriptDirection::TopToBottomRightToLeft], true))
        .push(script("Phlv"@, Category::Abjad, seq![ScriptDirection::TopToBottomRightToLeft], true))
        .push(script("Phnx"@, Category::Abjad, seq![ScriptDirection::TopToBottomRightToLeft], true))
        .push(script("Plrd"@, Category::Abugida, seq![ScriptDirection::TopToBottomLeftToRight], false))
        .push(script("Prti"@, Category::Abjad, seq![ScriptDirection::TopToBottomRightToLeft], true))
        .push(script("Rjng"@, Category::Abugida, seq![ScriptDirection::TopToBottomLeftToRight], false))
        .push(script("Rohg"@, Category::Alphabetic, seq![ScriptDirection::TopToBottomRightToLeft], false))
        .push(script("Runr"@, Category::Alphabetic, seq![ScriptDirection::TopToBottomLeftToRight].push(ScriptDirection::TopToBottomRightToLeft), true))
        .push(script("Samr"@, Category::Abjad, seq![ScriptDirection::TopToBottomRightToLeft], true))
        .push(script("Sarb"@, Category::Abjad, seq![ScriptDirection::TopToBottomRightToLeft], true))
        .push(script("Saur"@, Category::Abugida, seq![ScriptDirection::TopToBottomLeftToRight], false))
        .push(script("Sgnw"@, Category::Logographic, seq![ScriptDirection::TopToBottomLeftToRight].push(ScriptDirection::LeftToRightTopToBottom), false))
        .push(script("Shaw"@, Category::Alphabetic, seq![ScriptDirection::TopToBottomLeftToRight], false))
}

/// The table with the scripts from `Shrd` to `Taml` appended.
pub open spec fn scripts_7(table: Seq<(Seq<char>, ScriptView)>) -> Seq<(Seq<char>, ScriptView)> {
    table
        .push(script("Shrd"@, Category::Abugida, seq![ScriptDirection::TopToBottomLeftToRight], false))
        .push(script("Sidd"@, Category::Abugida, seq![ScriptDirection::TopToBottomLeftToRight], true))
        .push(script("Sind"@, Category::Abugida, seq![ScriptDirection::TopToBottomLeftToRight], false))
        .push(script("Sinh"@, Category::Abugida, seq![ScriptDirection::TopToBottomLeftToRight], false))
        .push(script("Sogd"@, Category::Abjad, seq![ScriptDirection::LeftToRightTopToBottom].push(ScriptDirection::TopToBottomRightToLeft), true))
        .push(script("Sogo"@, Category::Abjad, seq![ScriptDirection::LeftToRightTopToBottom].push(ScriptDirection::TopToBottomRightToLeft), true))
        .push(script("Sora"@, Category::Alphabetic, seq![ScriptDirection::TopToBottomLeftToRight], false))
        .push(script("Soyo"@, Category::Abugida, seq![ScriptDirection::TopToBottomLeftToRight], true))
        .push(script("Sund"@, Category::Abugida, seq![ScriptDirection::TopToBottomLeftToRight], false))
        .push(script("Sunu"@, Category::Alphabetic, seq![ScriptDirection::TopToBottomLeftToRight], false))
        .push(script("Sylo"@, Category::Abugida, seq![ScriptDirection::TopToBottomLeftToRight], false))
        .push(script("Syrc"@, Category::Abjad, seq![ScriptDirection::TopToBottomRightToLeft], false))
        .push(script("Syre"@, Category::Abjad, seq![ScriptDirection::TopToBottomRightToLeft], false))
        .push(script("Syrj"@, Category::Abjad, seq![ScriptDirection::TopToBottomRightToLeft], false))
        .push(script("Syrn"@, Category::Abjad, seq![ScriptDirection::TopToBottomRightToLeft], false))
        .push(script("Tagb"@, Category::Abugida, seq![ScriptDirection::TopToBottomLeftToRight], false))
        .push(script("Takr"@, Category::Abugida, seq![ScriptDirection::TopToBottomLeftToRight], false))
        .push(script("Tale"@, Category::Abugida, seq![ScriptDirection::TopToBottomLeftToRight], false))
        .push(script("Talu"@, Category::Abugida, seq![ScriptDirection::TopToBottomLeftToRight], false))
        .push(script("Taml"@, Category::Abugida, seq![ScriptDirection::TopToBottomLeftToRight], false))
}

/// The table with the scripts from `Tang` to `Xpeo` appended.
pub open spec fn scripts_8(table: Seq<(Seq<char>, ScriptView)>) -> Seq<(Seq<char>, ScriptView)> {
    table
        .push(script("Tang"@, Category::Logographic, seq![ScriptDirection::RightToLeftTopToBottom].push(ScriptDirection::TopToBottomLeftToRight), true))
        .push(script("Tavt"@, Category::Abugida, seq![ScriptDirection::TopToBottomLeftToRight], false))
        .push(script("Tayo"@, Category::Abugida, seq![ScriptDirection::RightToLeftTopToBottom].push(ScriptDirection::TopToBottomLeftToRight), true))
        .push(script("Telu"@, Category::Abugida, seq![ScriptDirection::TopToBottomLeftToRight], false))
        .push(script("Tfng"@, Category::Abjad, seq![ScriptDirection::RightToLeftBottomToTop].push(ScriptDirection::RightToLeftTopToBottom).push(ScriptDirection::BottomToTopRightToLeft).push(ScriptDirection::TopToBottomRightToLeft).push(ScriptDirection::TopToBottomLeftToRight), false))
        .push(script("Tglg"@, Category::Abugida, seq![ScriptDirection::TopToBottomLeftToRight], false))
        .push(script("Thaa"@, Category::Abugida, seq![ScriptDirection::TopToBottomRightToLeft], false))
        .push(script("Thai"@, Category::Abugida, seq![ScriptDirection::TopToBottomLeftToRight], false))
        .push(script("Tibt"@, Category::Abugida, seq![ScriptDirection::TopToBottomLeftToRight], false))
        .push(script("Tirh"@, Category::Abugida, seq![ScriptDirection::TopToBottomLeftToRight], false))
        .push(script("Tnsa"@, Category::Alphabetic, seq![ScriptDirection::TopToBottomLeftToRight], false))
        .push(script("Todr"@, Category::Alphabetic, seq![ScriptDirection::TopToBottomRightToLeft], false))
        .push(script("Toto"@, Category::Alphabetic, seq![ScriptDirection::TopToBottomLeftToRight], false))
        .push(script("Tutg"@, Category::Abugida, seq![ScriptDirection::TopToBottomLeftToRight], false))
        .push(script("Ugar"@, Category::Abjad, seq![ScriptDirection::TopToBottomLeftToRight], true))
        .push(script("Vaii"@, Category::Syllabic, seq![ScriptDirection::TopToBottomLeftToRight], false))
        .push(script("Vith"@, Category::Alphabetic, seq![ScriptDirection::TopToBottomLeftToRight], true))
        .push(script("Wara"@, Category::Alphabetic, seq![ScriptDirection::TopToBottomLeftToRight], false))
        .push(script("Wcho"@, Category::Alphabetic, seq![ScriptDirection::TopToBottomLeftToRight], false))
        .push(script("Xpeo"@, Category::Syllabic, seq![ScriptDirection::TopToBottomLeftToRight], true))
}

/// The table with the scripts from `Xsux` to `Zand` appended.
pub open spec fn scripts_9(table: Seq<(Seq<char>, ScriptView)>) -> Seq<(Seq<char>, ScriptView)> {
    table
        .push(script("Xsux"@, Category::Logographic, seq![ScriptDirection::TopToBottomLeftToRight], true))
        .push(script("Yezi"@, Category::Syllabic, seq![ScriptDirection::TopToBottomRightToLeft], false))
        .push(script("Zand"@, Category::Abugida, seq![ScriptDirection::TopToBottomLeftToRight], true))
}

/// The table of the scripts.
pub open spec fn script_table() -> Seq<(Seq<char>, ScriptView)> {
    scripts_9(scripts_8(scripts_7(scripts_6(scripts_5(scripts_4(scripts_3(scripts_2(scripts_1(scripts_0(Seq::empty()))))))))))
}

/// One direction.
fn one(direction: ScriptDirection) -> (result: Vec<ScriptDirection>)
    ensures
        result@ == seq![direction],
{
    let mut result = Vec::new();
    result.push(direction);
    assert(result@ =~= seq![direction]);
    result
}

/// The directions with one more.
fn more(directions: Vec<ScriptDirection>, direction: ScriptDirection) -> (result: Vec<ScriptDirection>)
    ensures
        result@ == directions@.push(direction),
{
    let mut result = directions;
    result.push(direction);
    result
}

/// Appends the script to the entries.
fn add_script(entries: &mut Vec<(String, ScriptData)>, code: &str, category: Category, directions: Vec<ScriptDirection>, historic: bool)
    ensures
        entries_view(final(entries)@) == entries_view(old(entries)@).push(script(code@, category, directions@, historic)),
{
    let ghost before = entries@;
    let ghost d = directions@;
    entries.push((code.to_owned(), ScriptData { category, directions, historic }));
    assert(entries_view(entries@) =~= entries_view(before).push(script(code@, category, d, historic)));
}


/// Appends the scripts from `Adlm` to `Cans`.
fn add_scripts_0(entries: &mut Vec<(String, ScriptData)>)
    ensures
        entries_view(final(entries)@) == scripts_0(entries_view(old(entries)@)),
{
    add_script(entries, "Adlm", Category::Alphabetic, one(ScriptDirection::TopToBottomRightToLeft), false);
    add_script(entries, "Aghb", Category::Alphabetic, one(ScriptDirection::TopToBottomLeftToRight), true);
    add_script(entries, "Ahom", Category::Abugida, one(ScriptDirection::TopToBottomLeftToRight), true);
    add_script(entries, "Arab", Category::Abjad, one(ScriptDirection::TopToBottomRightToLeft), false);
    add_script(entries, "Armi", Category::Abjad, one(ScriptDirection::TopToBottomRightToLeft), true);
    add_script(entries, "Armn", Category::Alphabetic, one(ScriptDirection::TopToBottomRightToLeft), false);
    add_script(entries, "Avst", Category::Alphabetic, one(ScriptDirection::TopToBottomRightToLeft), true);
    add_script(entries, "Bali", Category::Abugida, one(ScriptDirection::TopToBottomLeftToRight), false);
    add_script(entries, "Bamu", Category::Syllabic, one(ScriptDirection::TopToBottomLeftToRight), false);
    add_script(entries, "Bass", Category::Alphabetic, one(ScriptDirection::TopToBottomLeftToRight), true);
    add_script(entries, "Batk", Category::Abugida, one(ScriptDirection::TopToBottomLeftToRight), false);
    add_script(entries, "Beng", Category::Abugida, one(ScriptDirection::TopToBottomLeftToRight), false);
    add_script(entries, "Bhks", Category::Abugida, one(ScriptDirection::TopToBottomLeftToRight), true);
    add_script(entries, "Bopo", Category::Alphabetic, more(one(ScriptDirection::TopToBottomLeftToRight), ScriptDirection::TopToBottomRightToLeft), false);
    add_script(entries, "Brah", Category::Abugida, one(ScriptDirection::TopToBottomLeftToRight), true);
    add_script(entries, "Brai", Category::Alphabetic, one(ScriptDirection::TopToBottomLeftToRight), false);
    add_script(entries, "Bugi", Category::Abugida, one(ScriptDirection::TopToBottomLeftToRight), false);
    add_script(entries, "Buhd", Category::Abugida, one(ScriptDirection::TopToBottomLeftToRight), false);
    add_script(entries, "Cakm", Category::Abugida, one(ScriptDirection::TopToBottomLeftToRight), false);
    add_script(entries, "Cans", Category::Abugida, one(ScriptDirection::TopToBottomLeftToRight), false);
}

/// Appends the scripts from `Cari` to `Geok`.
fn add_scripts_1(entries: &mut Vec<(String, ScriptData)>)
    ensures
        entries_view(final(entries)@) == scripts_1(entries_view(old(entries)@)),
{
    add_script(entries, "Cari", Category::Alphabetic, more(one(ScriptDirection::TopToBottomLeftToRight), ScriptDirection::TopToBottomRightToLeft), true);
    add_script(entries, "Cham", Category::Abugida, one(ScriptDirection::TopToBottomLeftToRight), false);
    add_script(entries, "Cher", Category::Syllabic, one(ScriptDirection::TopToBottomLeftToRight), false);
    add_script(entries, "Chrs", Category::Abjad, one(ScriptDirection::TopToBottomRightToLeft), true);
    add_script(entries, "Copt", Category::Alphabetic, one(ScriptDirection::TopToBottomLeftToRight), true);
    add_script(entries, "Cpmn", Category::Syllabic, one(ScriptDirection::TopToBottomLeftToRight), true);
    add_script(entries, "Cprt", Category::Syllabic, one(ScriptDirection::TopToBottomRightToLeft), true);
    add_script(entries, "Cyrl", Category::Alphabetic, one(ScriptDirection::TopToBottomLeftToRight), false);
    add_script(entries, "Cyrs", Category::Alphabetic, one(ScriptDirection::TopToBottomLeftToRight), false);
    add_script(entries, "Deva", Category::Abugida, one(ScriptDirection::TopToBottomLeftToRight), false);
    add_script(entries, "Diak", Category::Abugida, one(ScriptDirection::TopToBottomLeftToRight), true);
    add_script(entries, "Dogr", Category::Abugida, one(ScriptDirection::TopToBottomLeftToRight), true);
    add_script(entries, "Dsrt", Category::Alphabetic, one(ScriptDirection::TopToBottomLeftToRight), false);
    add_script(entries, "Dupl", Category::Special, one(ScriptDirection::TopToBottomLeftToRight), false);
    add_script(entries, "Egyp", Category::Logographic, more(one(ScriptDirection::TopToBottomLeftToRight), ScriptDirection::TopToBottomRightToLeft), true);
    add_script(entries, "Elba", Category::Alphabetic, one(ScriptDirection::TopToBottomLeftToRight), true);
    add_script(entries, "Elym", Category::Abjad, one(ScriptDirection::TopToBottomRightToLeft), true);
    add_script(entries, "Ethi", Category::Abugida, one(ScriptDirection::TopToBottomLeftToRight), true);
    add_script(entries, "Gara", Category::Alphabetic, one(ScriptDirection::TopToBottomRightToLeft), false);
    add_script(entries, "Geok", Category::Alphabetic, one(ScriptDirection::TopToBottomLeftToRight), false);
}

/// Appends the scripts from `Geor` to `Hluw`.
fn add_scripts_2(entries: &mut Vec<(String, ScriptData)>)
    ensures
        entries_view(final(entries)@) == scripts_2(entries_view(old(entries)@)),
{
    add_script(entries, "Geor", Category::Alphabetic, one(ScriptDirection::TopToBottomLeftToRight), false);
    add_script(entries, "Glag", Category::Alphabetic, one(ScriptDirection::TopToBottomLeftToRight), true);
    add_script(entries, "Gong", Category::Abugida, one(ScriptDirection::TopToBottomLeftToRight), false);
    add_script(entries, "Gonm", Category::Abugida, one(ScriptDirection::TopToBottomLeftToRight), false);
    add_script(entries, "Goth", Category::Alphabetic, one(ScriptDirection::TopToBottomLeftToRight), true);
    add_script(entries, "Gran", Category::Abugida, one(ScriptDirection::TopToBottomLeftToRight), false);
    add_script(entries, "Grek", Category::Alphabetic, more(one(ScriptDirection::TopToBottomLeftToRight), ScriptDirection::TopToBottomRightToLeft), false);
    add_script(entries, "Gujr", Category::Abugida, one(ScriptDirection::TopToBottomLeftToRight), false);
    add_script(entries, "Gukn", Category::Abugida, one(ScriptDirection::TopToBottomLeftToRight), false);
    add_script(entries, "Guru", Category::Abugida, one(ScriptDirection::TopToBottomLeftToRight), false);
    add_script(entries, "Hanb", Category::Logographic, more(more(more(one(ScriptDirection::TopToBottomLeftToRight), ScriptDirection::TopToBottomRightToLeft), ScriptDirection::RightToLeftTopToBottom), ScriptDirection::LeftToRightTopToBottom), false);
    add_script(entries, "Hang", Category::Alphabetic, more(more(one(ScriptDirection::RightToLeftTopToBottom), ScriptDirection::TopToBottomLeftToRight), ScriptDirection::LeftToRightTopToBottom), false);
    add_script(entries, "Hani", Category::Logographic, more(one(ScriptDirection::RightToLeftTopToBottom), ScriptDirection::TopToBottomLeftToRight), false);
    add_script(entries, "Hano", Category::Abugida, more(more(one(ScriptDirection::BottomToTopLeftToRight), ScriptDirection::BottomToTopRightToLeft), ScriptDirection::TopToBottomLeftToRight), false);
    add_script(entries, "Hans", Category::Logographic, more(one(ScriptDirection::RightToLeftTopToBottom), ScriptDirection::TopToBottomLeftToRight), false);
    add_script(entries, "Hant", Category::Logographic, more(one(ScriptDirection::RightToLeftTopToBottom), ScriptDirection::TopToBottomLeftToRight), false);
    add_script(entries, "Hatr", Category::Abjad, one(ScriptDirection::TopToBottomRightToLeft), true);
    add_script(entries, "Hebr", Category::Abjad, one(ScriptDirection::TopToBottomRightToLeft), false);
    add_script(entries, "Hira", Category::Syllabic, more(one(ScriptDirection::RightToLeftTopToBottom), ScriptDirection::TopToBottomLeftToRight), false);
    add_script(entries, "Hluw", Category::Logographic, more(more(one(ScriptDirection::TopToBottomLeftToRight), ScriptDirection::TopToBottomRightToLeft), ScriptDirection::LeftToRightTopToBottom), true);
}

/// Appends the scripts from `Hmng` to `Lana`.
fn add_scripts_3(entries: &mut Vec<(String, ScriptData)>)
    ensures
        entries_view(final(entries)@) == scripts_3(entries_view(old(entries)@)),
{
    add_script(entries, "Hmng", Category::Syllabic, one(ScriptDirection::TopToBottomLeftToRight), false);
    add_script(entries, "Hmnp", Category::Syllabic, one(ScriptDirection::TopToBottomLeftToRight), false);
    add_script(entries, "Hikt", Category::Syllabic, more(one(ScriptDirection::RightToLeftTopToBottom), ScriptDirection::TopToBottomLeftToRight), false);
    add_script(entries, "Hung", Category::Alphabetic, one(ScriptDirection::TopToBottomRightToLeft), true);
    add_script(entries, "Ital", Category::Alphabetic, more(one(ScriptDirection::TopToBottomRightToLeft), ScriptDirection::TopToBottomLeftToRight), true);
    add_script(entries, "Jamo", Category::Alphabetic, more(one(ScriptDirection::RightToLeftTopToBottom), ScriptDirection::TopToBottomLeftToRight), false);
    add_script(entries, "Java", Category::Abugida, one(ScriptDirection::TopToBottomLeftToRight), false);
    add_script(entries, "Jpan", Category::Syllabic, more(one(ScriptDirection::RightToLeftTopToBottom), ScriptDirection::TopToBottomLeftToRight), false);
    add_script(entries, "Kali", Category::Alphabetic, one(ScriptDirection::TopToBottomLeftToRight), false);
    add_script(entries, "Kana", Category::Syllabic, more(one(ScriptDirection::RightToLeftTopToBottom), ScriptDirection::TopToBottomLeftToRight), false);
    add_script(entries, "Kawi", Category::Abugida, one(ScriptDirection::TopToBottomLeftToRight), true);
    add_script(entries, "Khar", Category::Abugida, one(ScriptDirection::TopToBottomRightToLeft), true);
    add_script(entries, "Khmr", Category::Abugida, one(ScriptDirection::TopToBottomLeftToRight), false);
    add_script(entries, "Khoj", Category::Abugida, one(ScriptDirection::TopToBottomRightToLeft), true);
    add_script(entries, "Kits", Category::Logographic, one(ScriptDirection::RightToLeftTopToBottom), true);
    add_script(entries, "Knda", Category::Abugida, one(ScriptDirection::TopToBottomRightToLeft), true);
    add_script(entries, "Kore", Category::Alphabetic, more(more(one(ScriptDirection::RightToLeftTopToBottom), ScriptDirection::TopToBottomLeftToRight), ScriptDirection::LeftToRightTopToBottom), false);
    add_script(entries, "Krai", Category::Abugida, one(ScriptDirection::TopToBottomLeftToRight), false);
    add_script(entries, "Kthi", Category::Abugida, one(ScriptDirection::TopToBottomRightToLeft), true);
    add_script(entries, "Lana", Category::Abugida, one(ScriptDirection::TopToBottomLeftToRight), false);
}

/// Appends the scripts from `Laoo` to `Mero`.
fn add_scripts_4(entries: &mut Vec<(String, ScriptData)>)
    ensures
        entries_view(final(entries)@) == scripts_4(entries_view(old(entries)@)),
{
    add_script(entries, "Laoo", Category::Abugida, one(ScriptDirection::TopToBottomLeftToRight), false);
    add_script(entries, "Latf", Category::Alphabetic, one(ScriptDirection::TopToBottomLeftToRight), false);
    add_script(entries, "Latg", Category::Alphabetic, one(ScriptDirection::TopToBottomLeftToRight), false);
    add_script(entries, "Latn", Category::Alphabetic, one(ScriptDirection::TopToBottomLeftToRight), false);
    add_script(entries, "Lepc", Category::Abugida, one(ScriptDirection::TopToBottomLeftToRight), false);
    add_script(entries, "Limb", Category::Abugida, one(ScriptDirection::TopToBottomLeftToRight), false);
    add_script(entries, "Lina", Category::Syllabic, one(ScriptDirection::TopToBottomLeftToRight), true);
    add_script(entries, "Linb", Category::Syllabic, one(ScriptDirection::TopToBottomLeftToRight), true);
    add_script(entries, "Lisu", Category::Alphabetic, one(ScriptDirection::TopToBottomLeftToRight), false);
    add_script(entries, "Lyci", Category::Alphabetic, one(ScriptDirection::TopToBottomLeftToRight), true);
    add_script(entries, "Lydi", Category::Alphabetic, one(ScriptDirection::TopToBottomRightToLeft), true);
    add_script(entries, "Mahj", Category::Abugida, one(ScriptDirection::TopToBottomLeftToRight), true);
    add_script(entries, "Maka", Category::Abugida, one(ScriptDirection::TopToBottomLeftToRight), true);
    add_script(entries, "Mand", Category::Alphabetic, one(ScriptDirection::TopToBottomRightToLeft), false);
    add_script(entries, "Mani", Category::Abjad, one(ScriptDirection::TopToBottomRightToLeft), true);
    add_script(entries, "Marc", Category::Abugida, one(ScriptDirection::TopToBottomLeftToRight), true);
    add_script(entries, "Medf", Category::Alphabetic, one(ScriptDirection::TopToBottomLeftToRight), false);
    add_script(entries, "Mend", Category::Syllabic, one(ScriptDirection::TopToBottomRightToLeft), false);
    add_script(entries, "Merc", Category::Abugida, one(ScriptDirection::TopToBottomRightToLeft), true);
    add_script(entries, "Mero", Category::Abugida, one(ScriptDirection::TopToBottomRightToLeft), true);
}

/// Appends the scripts from `Mlym` to `Osge`.
fn add_scripts_5(entries: &mut Vec<(String, ScriptData)>)
    ensures
        entries_view(final(entries)@) == scripts_5(entries_view(old(entries)@)),
{
    add_script(entries, "Mlym", Category::Abugida, one(ScriptDirection::TopToBottomLeftToRight), false);
    add_script(entries, "Modi", Category::Abugida, one(ScriptDirection::TopToBottomLeftToRight), true);
    add_script(entries, "Mong", Category::Alphabetic, more(one(ScriptDirection::LeftToRightTopToBottom), ScriptDirection::TopToBottomLeftToRight), false);
    add_script(entries, "Mroo", Category::Alphabetic, one(ScriptDirection::TopToBottomLeftToRight), false);
    add_script(entries, "Mtei", Category::Abugida, one(ScriptDirection::TopToBottomLeftToRight), false);
    add_script(entries, "Mult", Category::Abugida, one(ScriptDirection::TopToBottomLeftToRight), true);
    add_script(entries, "Mymr", Category::Abugida, one(ScriptDirection::TopToBottomLeftToRight), false);
    add_script(entries, "Nagm", Category::Alphabetic, one(ScriptDirection::TopToBottomLeftToRight), false);
    add_script(entries, "Nand", Category::Abugida, one(ScriptDirection::TopToBottomLeftToRight), true);
    add_script(entries, "Narb", Category::Abjad, one(ScriptDirection::TopToBottomRightToLeft), true);
    add_script(entries, "Nbat", Category::Abjad, one(ScriptDirection::TopToBottomRightToLeft), true);
    add_script(entries, "Newa", Category::Abugida, one(ScriptDirection::TopToBottomLeftToRight), true);
    add_script(entries, "Nkoo", Category::Alphabetic, one(ScriptDirection::TopToBottomRightToLeft), false);
    add_script(entries, "Nshu", Category::Syllabic, one(ScriptDirection::RightToLeftTopToBottom), true);
    add_script(entries, "Ogam", Category::Alphabetic, more(one(ScriptDirection::BottomToTopLeftToRight), ScriptDirection::TopToBottomLeftToRight), true);
    add_script(entries, "Olck", Category::Alphabetic, one(ScriptDirection::TopToBottomLeftToRight), false);
    add_script(entries, "Onao", Category::Alphabetic, one(ScriptDirection::TopToBottomLeftToRight), false);
    add_script(entries, "Orkh", Category::Alphabetic, one(ScriptDirection::TopToBottomRightToLeft), true);
    add_script(entries, "Orya", Category::Abugida, one(ScriptDirection::TopToBottomLeftToRight), false);
    add_script(entries, "Osge", Category::Alphabetic, one(ScriptDirection::TopToBottomLeftToRight), false);
}

/// Appends the scripts from `Osma` to `Shaw`.
fn add_scripts_6(entries: &mut Vec<(String, ScriptData)>)
    ensures
        entries_view(final(entries)@) == scripts_6(entries_view(old(entries)@)),
{
    add_script(entries, "Osma", Category::Alphabetic, one(ScriptDirection::TopToBottomLeftToRight), true);
    add_script(entries, "Ougr", Category::Alphabetic, more(one(ScriptDirection::LeftToRightTopToBottom), ScriptDirection::TopToBottomRightToLeft), true);
    add_script(entries, "Palm", Category::Abjad, one(ScriptDirection::TopToBottomRightToLeft), true);
    add_script(entries, "Pauc", Category::Alphabetic, one(ScriptDirection::TopToBottomLeftToRight), true);
    add_script(entries, "Perm", Category::Alphabetic, one(ScriptDirection::TopToBottomLeftToRight), true);
    add_script(entries, "Phag", Category::Alphabetic, one(ScriptDirection::LeftToRightTopToBottom), true);
    add_script(entries, "Phli", Category::Abjad, one(ScriptDirection::TopToBottomRightToLeft), true);
    add_script(entries, "Phlp", Category::Abjad, one(ScriptDirection::TopToBottomRightToLeft), true);
    add_script(entries, "Phlv", Category::Abjad, one(ScriptDirection::TopToBottomRightToLeft), true);
    add_script(entries, "Phnx", Category::Abjad, one(ScriptDirection::TopToBottomRightToLeft), true);
    add_script(entries, "Plrd", Category::Abugida, one(ScriptDirection::TopToBottomLeftToRight), false);
    add_script(entries, "Prti", Category::Abjad, one(ScriptDirection::TopToBottomRightToLeft), true);
    add_script(entries, "Rjng", Category::Abugida, one(ScriptDirection::TopToBottomLeftToRight), false);
    add_script(entries, "Rohg", Category::Alphabetic, one(ScriptDirection::TopToBottomRightToLeft), false);
    add_script(entries, "Runr", Category::Alphabetic, more(one(ScriptDirection::TopToBottomLeftToRight), ScriptDirection::TopToBottomRightToLeft), true);
    add_script(entries, "Samr", Category::Abjad, one(ScriptDirection::TopToBottomRightToLeft), true);
    add_script(entries, "Sarb", Category::Abjad, one(ScriptDirection::TopToBottomRightToLeft), true);
    add_script(entries, "Saur", Category::Abugida, one(ScriptDirection::TopToBottomLeftToRight), false);
    add_script(entries, "Sgnw", Category::Logographic, more(one(ScriptDirection::TopToBottomLeftToRight), ScriptDirection::LeftToRightTopToBottom), false);
    add_script(entries, "Shaw", Category::Alphabetic, one(ScriptDirection::TopToBottomLeftToRight), false);
}

/// Appends the scripts from `Shrd` to `Taml`.
fn add_scripts_7(entries: &mut Vec<(String, ScriptData)>)
    ensures
        entries_view(final(entries)@) == scripts_7(entries_view(old(entries)@)),
{
    add_script(entries, "Shrd", Category::Abugida, one(ScriptDirection::TopToBottomLeftToRight), false);
    add_script(entries, "Sidd", Category::Abugida, one(ScriptDirection::TopToBottomLeftToRight), true);
    add_script(entries, "Sind", Category::Abugida, one(ScriptDirection::TopToBottomLeftToRight), false);
    add_script(entries, "Sinh", Category::Abugida, one(ScriptDirection::TopToBottomLeftToRight), false);
    add_script(entries, "Sogd", Category::Abjad, more(one(ScriptDirection::LeftToRightTopToBottom), ScriptDirection::TopToBottomRightToLeft), true);
    add_script(entries, "Sogo", Category::Abjad, more(one(ScriptDirection::LeftToRightTopToBottom), ScriptDirection::TopToBottomRightToLeft), true);
    add_script(entries, "Sora", Category::Alphabetic, one(ScriptDirection::TopToBottomLeftToRight), false);
    add_script(entries, "Soyo", Category::Abugida, one(ScriptDirection::TopToBottomLeftToRight), true);
    add_script(entries, "Sund", Category::Abugida, one(ScriptDirection::TopToBottomLeftToRight), false);
    add_script(entries, "Sunu", Category::Alphabetic, one(ScriptDirection::TopToBottomLeftToRight), false);
    add_script(entries, "Sylo", Category::Abugida, one(ScriptDirection::TopToBottomLeftToRight), false);
    add_script(entries, "Syrc", Category::Abjad, one(ScriptDirection::TopToBottomRightToLeft), false);
    add_script(entries, "Syre", Category::Abjad, one(ScriptDirection::TopToBottomRightToLeft), false);
    add_script(entries, "Syrj", Category::Abjad, one(ScriptDirection::TopToBottomRightToLeft), false);
    add_script(entries, "Syrn", Category::Abjad, one(ScriptDirection::TopToBottomRightToLeft), false);
    add_script(entries, "Tagb", Category::Abugida, one(ScriptDirection::TopToBottomLeftToRight), false);
    add_script(entries, "Takr", Category::Abugida, one(ScriptDirection::TopToBottomLeftToRight), false);
    add_script(entries, "Tale", Category::Abugida, one(ScriptDirection::TopToBottomLeftToRight), false);
    add_script(entries, "Talu", Category::Abugida, one(ScriptDirection::TopToBottomLeftToRight), false);
    add_script(entries, "Taml", Category::Abugida, one(ScriptDirection::TopToBottomLeftToRight), false);
}

/// Appends the scripts from `Tang` to `Xpeo`.
fn add_scripts_8(entries: &mut Vec<(String, ScriptData)>)
    ensures
        entries_view(final(entries)@) == scripts_8(entries_view(old(entries)@)),
{
    add_script(entries, "Tang", Category::Logographic, more(one(ScriptDirection::RightToLeftTopToBottom), ScriptDirection::TopToBottomLeftToRight), true);
    add_script(entries, "Tavt", Category::Abugida, one(ScriptDirection::TopToBottomLeftToRight), false);
    add_script(entries, "Tayo", Category::Abugida, more(one(ScriptDirection::RightToLeftTopToBottom), ScriptDirection::TopToBottomLeftToRight), true);
    add_script(entries, "Telu", Category::Abugida, one(ScriptDirection::TopToBottomLeftToRight), false);
    add_script(entries, "Tfng", Category::Abjad, more(more(more(more(one(ScriptDirection::RightToLeftBottomToTop), ScriptDirection::RightToLeftTopToBottom), ScriptDirection::BottomToTopRightToLeft), ScriptDirection::TopToBottomRightToLeft), ScriptDirection::TopToBottomLeftToRight), false);
    add_script(entries, "Tglg", Category::Abugida, one(ScriptDirection::TopToBottomLeftToRight), false);
    add_script(entries, "Thaa", Category::Abugida, one(ScriptDirection::TopToBottomRightToLeft), false);
    add_script(entries, "Thai", Category::Abugida, one(ScriptDirection::TopToBottomLeftToRight), false);
    add_script(entries, "Tibt", Category::Abugida, one(ScriptDirection::TopToBottomLeftToRight), false);
    add_script(entries, "Tirh", Category::Abugida, one(ScriptDirection::TopToBottomLeftToRight), false);
    add_script(entries, "Tnsa", Category::Alphabetic, one(ScriptDirection::TopToBottomLeftToRight), false);
    add_script(entries, "Todr", Category::Alphabetic, one(ScriptDirection::TopToBottomRightToLeft), false);
    add_script(entries, "Toto", Category::Alphabetic, one(ScriptDirection::TopToBottomLeftToRight), false);
    add_script(entries, "Tutg", Category::Abugida, one(ScriptDirection::TopToBottomLeftToRight), false);
    add_script(entries, "Ugar", Category::Abjad, one(ScriptDirection::TopToBottomLeftToRight), true);
    add_script(entries, "Vaii", Category::Syllabic, one(ScriptDirection::TopToBottomLeftToRight), false);
    add_script(entries, "Vith", Category::Alphabetic, one(ScriptDirection::TopToBottomLeftToRight), true);
    add_script(entries, "Wara", Category::Alphabetic, one(ScriptDirection::TopToBottomLeftToRight), false);
    add_script(entries, "Wcho", Category::Alphabetic, one(ScriptDirection::TopToBottomLeftToRight), false);
    add_script(entries, "Xpeo", Category::Syllabic, one(ScriptDirection::TopToBottomLeftToRight), true);
}

/// Appends the scripts from `Xsux` to `Zand`.
fn add_scripts_9(entries: &mut Vec<(String, ScriptData)>)
    ensures
        entries_view(final(entries)@) == scripts_9(entries_view(old(entries)@)),
{
    add_script(entries, "Xsux", Category::Logographic, one(ScriptDirection::TopToBottomLeftToRight), true);
    add_script(entries, "Yezi", Category::Syllabic, one(ScriptDirection::TopToBottomRightToLeft), false);
    add_script(entries, "Zand", Category::Abugida, one(ScriptDirection::TopToBottomLeftToRight), true);
}

/// The directions of a script are valid: at least one, and none twice.
pub open spec fn directions_valid(directions: Seq<ScriptDirection>) -> bool {
    &&& directions.len() >= 1
    &&& forall|i: int, j: int| 0 <= i < j < directions.len() ==> directions[i] != directions[j]
}

/// Every row of the table has valid directions.
pub open spec fn rows_valid(table: Seq<(Seq<char>, ScriptView)>) -> bool {
    forall|k: int| 0 <= k < table.len() ==> #[trigger] directions_valid(table[k].1.directions)
}

proof fn lemma_rows_0(table: Seq<(Seq<char>, ScriptView)>)
    requires
        rows_valid(table),
    ensures
        rows_valid(scripts_0(table)),
{
    let t = scripts_0(table);
    assert forall|k: int| 0 <= k < t.len() implies #[trigger] directions_valid(t[k].1.directions) by {
        if k < table.len() {
            assert(directions_valid(table[k].1.directions));
        }
    }
}

proof fn lemma_rows_1(table: Seq<(Seq<char>, ScriptView)>)
    requires
        rows_valid(table),
    ensures
        rows_valid(scripts_1(table)),
{
    let t = scripts_1(table);
    assert forall|k: int| 0 <= k < t.len() implies #[trigger] directions_valid(t[k].1.directions) by {
        if k < table.len() {
            assert(directions_valid(table[k].1.directions));
        }
    }
}

proof fn lemma_rows_2(table: Seq<(Seq<char>, ScriptView)>)
    requires
        rows_valid(table),
    ensures
        rows_valid(scripts_2(table)),
{
    let t = scripts_2(table);
    assert forall|k: int| 0 <= k < t.len() implies #[trigger] directions_valid(t[k].1.directions) by {
        if k < table.len() {
            assert(directions_valid(table[k].1.directions));
        }
    }
}

proof fn lemma_rows_3(table: Seq<(Seq<char>, ScriptView)>)
    requires
        rows_valid(table),
    ensures
        rows_valid(scripts_3(table)),
{
    let t = scripts_3(table);
    assert forall|k: int| 0 <= k < t.len() implies #[trigger] directions_valid(t[k].1.directions) by {
        if k < table.len() {
            assert(directions_valid(table[k].1.directions));
        }
    }
}

proof fn lemma_rows_4(table: Seq<(Seq<char>, ScriptView)>)
    requires
        rows_valid(table),
    ensures
        rows_valid(scripts_4(table)),
{
    let t = scripts_4(table);
    assert forall|k: int| 0 <= k < t.len() implies #[trigger] directions_valid(t[k].1.directions) by {
        if k < table.len() {
            assert(directions_valid(table[k].1.directions));
        }
    }
}

proof fn lemma_rows_5(table: Seq<(Seq<char>, ScriptView)>)
    requires
        rows_valid(table),
    ensures
        rows_valid(scripts_5(table)),
{
    let t = scripts_5(table);
    assert forall|k: int| 0 <= k < t.len() implies #[trigger] directions_valid(t[k].1.directions) by {
        if k < table.len() {
            assert(directions_valid(table[k].1.directions));
        }
    }
}

proof fn lemma_rows_6(table: Seq<(Seq<char>, ScriptView)>)
    requires
        rows_valid(table),
    ensures
        rows_valid(scripts_6(table)),
{
    let t = scripts_6(table);
    assert forall|k: int| 0 <= k < t.len() implies #[trigger] directions_valid(t[k].1.directions) by {
        if k < table.len() {
            assert(directions_valid(table[k].1.directions));
        }
    }
}

proof fn lemma_rows_7(table: Seq<(Seq<char>, ScriptView)>)
    requires
        rows_valid(table),
    ensures
        rows_valid(scripts_7(table)),
{
    let t = scripts_7(table);
    assert forall|k: int| 0 <= k < t.len() implies #[trigger] directions_valid(t[k].1.directions) by {
        if k < table.len() {
            assert(directions_valid(table[k].1.directions));
        }
    }
}

proof fn lemma_rows_8(table: Seq<(Seq<char>, ScriptView)>)
    requires
        rows_valid(table),
    ensures
        rows_valid(scripts_8(table)),
{
    let t = scripts_8(table);
    assert forall|k: int| 0 <= k < t.len() implies #[trigger] directions_valid(t[k].1.directions) by {
        if k < table.len() {
            assert(directions_valid(table[k].1.directions));
        }
    }
}

proof fn lemma_rows_9(table: Seq<(Seq<char>, ScriptView)>)
    requires
        rows_valid(table),
    ensures
        rows_valid(scripts_9(table)),
{
    let t = scripts_9(table);
    assert forall|k: int| 0 <= k < t.len() implies #[trigger] directions_valid(t[k].1.directions) by {
        if k < table.len() {
            assert(directions_valid(table[k].1.directions));
        }
    }
}

proof fn lemma_rows_lookup(table: Seq<(Seq<char>, ScriptView)>, code: Seq<char>)
    requires
        rows_valid(table),
    ensures
        script_lookup(table, code) matches Some(v) ==> directions_valid(v.directions),
    decreases table.len(),
{
    if table.len() > 0 {
        assert(directions_valid(table[0].1.directions));
        assert forall|k: int| 0 <= k < table.drop_first().len() implies #[trigger] directions_valid(
            table.drop_first()[k].1.directions,
        ) by {
            assert(directions_valid(table[k + 1].1.directions));
        }
        lemma_rows_lookup(table.drop_first(), code);
    }
}

/// Every script of the table has at least one direction of writing, and no direction twice: whatever code
/// [`DataProvider::get`] is asked, the data it gives has this property.
pub proof fn lemma_table_directions(code: Seq<char>)
    ensures
        script_lookup(script_table(), code) matches Some(v) ==> v.directions.len() >= 1 && forall|i: int, j: int|
            0 <= i < j < v.directions.len() ==> v.directions[i] != v.directions[j],
{
    let t0 = Seq::<(Seq<char>, ScriptView)>::empty();
    lemma_rows_0(t0);
    lemma_rows_1(scripts_0(t0));
    lemma_rows_2(scripts_1(scripts_0(t0)));
    lemma_rows_3(scripts_2(scripts_1(scripts_0(t0))));
    lemma_rows_4(scripts_3(scripts_2(scripts_1(scripts_0(t0)))));
    lemma_rows_5(scripts_4(scripts_3(scripts_2(scripts_1(scripts_0(t0))))));
    lemma_rows_6(scripts_5(scripts_4(scripts_3(scripts_2(scripts_1(scripts_0(t0)))))));
    lemma_rows_7(scripts_6(scripts_5(scripts_4(scripts_3(scripts_2(scripts_1(scripts_0(t0))))))));
    lemma_rows_8(scripts_7(scripts_6(scripts_5(scripts_4(scripts_3(scripts_2(scripts_1(scripts_0(t0)))))))));
    lemma_rows_9(scripts_8(scripts_7(scripts_6(scripts_5(scripts_4(scripts_3(scripts_2(scripts_1(scripts_0(t0))))))))));
    lemma_rows_lookup(script_table(), code);
}

/// A row of the ISO 15924 table: the script code with its category, directions of writing and whether it is
/// historic.
pub open spec fn iso_row(code: Seq<char>, category: Category, directions: Seq<ScriptDirection>, historic: bool) -> (
    Seq<char>,
    ScriptView,
) {
    (code, ScriptView { category, directions, historic })
}

/// The ISO 15924 scripts with their writing systems, one row per code: the category, the directions of writing
/// and whether the script is historic. Where a code was given twice (`Shrd`, `Yezi`), its row is the later one.
pub open spec fn iso15924_rows() -> Seq<(Seq<char>, ScriptView)> {
    Seq::<(Seq<char>, ScriptView)>::empty()
        .push(iso_row("Adlm"@, Category::Alphabetic, seq![ScriptDirection::TopToBottomRightToLeft], false))
        .push(iso_row("Aghb"@, Category::Alphabetic, seq![ScriptDirection::TopToBottomLeftToRight], true))
        .push(iso_row("Ahom"@, Category::Abugida, seq![ScriptDirection::TopToBottomLeftToRight], true))
        .push(iso_row("Arab"@, Category::Abjad, seq![ScriptDirection::TopToBottomRightToLeft], false))
        .push(iso_row("Armi"@, Category::Abjad, seq![ScriptDirection::TopToBottomRightToLeft], true))
        .push(iso_row("Armn"@, Category::Alphabetic, seq![ScriptDirection::TopToBottomRightToLeft], false))
        .push(iso_row("Avst"@, Category::Alphabetic, seq![ScriptDirection::TopToBottomRightToLeft], true))
        .push(iso_row("Bali"@, Category::Abugida, seq![ScriptDirection::TopToBottomLeftToRight], false))
        .push(iso_row("Bamu"@, Category::Syllabic, seq![ScriptDirection::TopToBottomLeftToRight], false))
        .push(iso_row("Bass"@, Category::Alphabetic, seq![ScriptDirection::TopToBottomLeftToRight], true))
        .push(iso_row("Batk"@, Category::Abugida, seq![ScriptDirection::TopToBottomLeftToRight], false))
        .push(iso_row("Beng"@, Category::Abugida, seq![ScriptDirection::TopToBottomLeftToRight], false))
        .push(iso_row("Bhks"@, Category::Abugida, seq![ScriptDirection::TopToBottomLeftToRight], true))
        .push(iso_row("Bopo"@, Category::Alphabetic, seq![ScriptDirection::TopToBottomLeftToRight].push(ScriptDirection::TopToBottomRightToLeft), false))
        .push(iso_row("Brah"@, Category::Abugida, seq![ScriptDirection::TopToBottomLeftToRight], true))
        .push(iso_row("Brai"@, Category::Alphabetic, seq![ScriptDirection::TopToBottomLeftToRight], false))
        .push(iso_row("Bugi"@, Category::Abugida, seq![ScriptDirection::TopToBottomLeftToRight], false))
        .push(iso_row("Buhd"@, Category::Abugida, seq![ScriptDirection::TopToBottomLeftToRight], false))
        .push(iso_row("Cakm"@, Category::Abugida, seq![ScriptDirection::TopToBottomLeftToRight], false))
        .push(iso_row("Cans"@, Category::Abugida, seq![ScriptDirection::TopToBottomLeftToRight], false))
        .push(iso_row("Cari"@, Category::Alphabetic, seq![ScriptDirection::TopToBottomLeftToRight].push(ScriptDirection::TopToBottomRightToLeft), true))
        .push(iso_row("Cham"@, Category::Abugida, seq![ScriptDirection::TopToBottomLeftToRight], false))
        .push(iso_row("Cher"@, Category::Syllabic, seq![ScriptDirection::TopToBottomLeftToRight], false))
        .push(iso_row("Chrs"@, Category::Abjad, seq![ScriptDirection::TopToBottomRightToLeft], true))
        .push(iso_row("Copt"@, Category::Alphabetic, seq![ScriptDirection::TopToBottomLeftToRight], true))
        .push(iso_row("Cpmn"@, Category::Syllabic, seq![ScriptDirection::TopToBottomLeftToRight], true))
        .push(iso_row("Cprt"@, Category::Syllabic, seq![ScriptDirection::TopToBottomRightToLeft], true))
        .push(iso_row("Cyrl"@, Category::Alphabetic, seq![ScriptDirection::TopToBottomLeftToRight], false))
        .push(iso_row("Cyrs"@, Category::Alphabetic, seq![ScriptDirection::TopToBottomLeftToRight], false))
        .push(iso_row("Deva"@, Category::Abugida, seq![ScriptDirection::TopToBottomLeftToRight], false))
        .push(iso_row("Diak"@, Category::Abugida, seq![ScriptDirection::TopToBottomLeftToRight], true))
        .push(iso_row("Dogr"@, Category::Abugida, seq![ScriptDirection::TopToBottomLeftToRight], true))
        .push(iso_row("Dsrt"@, Category::Alphabetic, seq![ScriptDirection::TopToBottomLeftToRight], false))
        .push(iso_row("Dupl"@, Category::Special, seq![ScriptDirection::TopToBottomLeftToRight], false))
        .push(iso_row("Egyp"@, Category::Logographic, seq![ScriptDirection::TopToBottomLeftToRight].push(ScriptDirection::TopToBottomRightToLeft), true))
        .push(iso_row("Elba"@, Category::Alphabetic, seq![ScriptDirection::TopToBottomLeftToRight], true))
        .push(iso_row("Elym"@, Category::Abjad, seq![ScriptDirection::TopToBottomRightToLeft], true))
        .push(iso_row("Ethi"@, Category::Abugida, seq![ScriptDirection::TopToBottomLeftToRight], true))
        .push(iso_row("Gara"@, Category::Alphabetic, seq![ScriptDirection::TopToBottomRightToLeft], false))
        .push(iso_row("Geok"@, Category::Alphabetic, seq![ScriptDirection::TopToBottomLeftToRight], false))
        .push(iso_row("Geor"@, Category::Alphabetic, seq![ScriptDirection::TopToBottomLeftToRight], false))
        .push(iso_row("Glag"@, Category::Alphabetic, seq![ScriptDirection::TopToBottomLeftToRight], true))
        .push(iso_row("Gong"@, Category::Abugida, seq![ScriptDirection::TopToBottomLeftToRight], false))
        .push(iso_row("Gonm"@, Category::Abugida, seq![ScriptDirection::TopToBottomLeftToRight], false))
        .push(iso_row("Goth"@, Category::Alphabetic, seq![ScriptDirection::TopToBottomLeftToRight], true))
        .push(iso_row("Gran"@, Category::Abugida, seq![ScriptDirection::TopToBottomLeftToRight], false))
        .push(iso_row("Grek"@, Category::Alphabetic, seq![ScriptDirection::TopToBottomLeftToRight].push(ScriptDirection::TopToBottomRightToLeft), false))
        .push(iso_row("Gujr"@, Category::Abugida, seq![ScriptDirection::TopToBottomLeftToRight], false))
        .push(iso_row("Gukn"@, Category::Abugida, seq![ScriptDirection::TopToBottomLeftToRight], false))
        .push(iso_row("Guru"@, Category::Abugida, seq![ScriptDirection::TopToBottomLeftToRight], false))
        .push(iso_row("Hanb"@, Category::Logographic, seq![ScriptDirection::TopToBottomLeftToRight].push(ScriptDirection::TopToBottomRightToLeft).push(ScriptDirection::RightToLeftTopToBottom).push(ScriptDirection::LeftToRightTopToBottom), false))
        .push(iso_row("Hang"@, Category::Alphabetic, seq![ScriptDirection::RightToLeftTopToBottom].push(ScriptDirection::TopToBottomLeftToRight).push(ScriptDirection::LeftToRightTopToBottom), false))
        .push(iso_row("Hani"@, Category::Logographic, seq![ScriptDirection::RightToLeftTopToBottom].push(ScriptDirection::TopToBottomLeftToRight), false))
        .push(iso_row("Hano"@, Category::Abugida, seq![ScriptDirection::BottomToTopLeftToRight].push(ScriptDirection::BottomToTopRightToLeft).push(ScriptDirection::TopToBottomLeftToRight), false))
        .push(iso_row("Hans"@, Category::Logographic, seq![ScriptDirection::RightToLeftTopToBottom].push(ScriptDirection::TopToBottomLeftToRight), false))
        .push(iso_row("Hant"@, Category::Logographic, seq![ScriptDirection::RightToLeftTopToBottom].push(ScriptDirection::TopToBottomLeftToRight), false))
        .push(iso_row("Hatr"@, Category::Abjad, seq![ScriptDirection::TopToBottomRightToLeft], true))
        .push(iso_row("Hebr"@, Category::Abjad, seq![ScriptDirection::TopToBottomRightToLeft], false))
        .push(iso_row("Hira"@, Category::Syllabic, seq![ScriptDirection::RightToLeftTopToBottom].push(ScriptDirection::TopToBottomLeftToRight), false))
        .push(iso_row("Hluw"@, Category::Logographic, seq![ScriptDirection::TopToBottomLeftToRight].push(ScriptDirection::TopToBottomRightToLeft).push(ScriptDirection::LeftToRightTopToBottom), true))
        .push(iso_row("Hmng"@, Category::Syllabic, seq![ScriptDirection::TopToBottomLeftToRight], false))
        .push(iso_row("Hmnp"@, Category::Syllabic, seq![ScriptDirection::TopToBottomLeftToRight], false))
        .push(iso_row("Hikt"@, Category::Syllabic, seq![ScriptDirection::RightToLeftTopToBottom].push(ScriptDirection::TopToBottomLeftToRight), false))
        .push(iso_row("Hung"@, Category::Alphabetic, seq![ScriptDirection::TopToBottomRightToLeft], true))
        .push(iso_row("Ital"@, Category::Alphabetic, seq![ScriptDirection::TopToBottomRightToLeft].push(ScriptDirection::TopToBottomLeftToRight), true))
        .push(iso_row("Jamo"@, Category::Alphabetic, seq![ScriptDirection::RightToLeftTopToBottom].push(ScriptDirection::TopToBottomLeftToRight), false))
        .push(iso_row("Java"@, Category::Abugida, seq![ScriptDirection::TopToBottomLeftToRight], false))
        .push(iso_row("Jpan"@, Category::Syllabic, seq![ScriptDirection::RightToLeftTopToBottom].push(ScriptDirection::TopToBottomLeftToRight), false))
        .push(iso_row("Kali"@, Category::Alphabetic, seq![ScriptDirection::TopToBottomLeftToRight], false))
        .push(iso_row("Kana"@, Category::Syllabic, seq![ScriptDirection::RightToLeftTopToBottom].push(ScriptDirection::TopToBottomLeftToRight), false))
        .push(iso_row("Kawi"@, Category::Abugida, seq![ScriptDirection::TopToBottomLeftToRight], true))
        .push(iso_row("Khar"@, Category::Abugida, seq![ScriptDirection::TopToBottomRightToLeft], true))
        .push(iso_row("Khmr"@, Category::Abugida, seq![ScriptDirection::TopToBottomLeftToRight], false))
        .push(iso_row("Khoj"@, Category::Abugida, seq![ScriptDirection::TopToBottomRightToLeft], true))
        .push(iso_row("Kits"@, Category::Logographic, seq![ScriptDirection::RightToLeftTopToBottom], true))
        .push(iso_row("Knda"@, Category::Abugida, seq![ScriptDirection::TopToBottomRightToLeft], true))
        .push(iso_row("Kore"@, Category::Alphabetic, seq![ScriptDirection::RightToLeftTopToBottom].push(ScriptDirection::TopToBottomLeftToRight).push(ScriptDirection::LeftToRightTopToBottom), false))
        .push(iso_row("Krai"@, Category::Abugida, seq![ScriptDirection::TopToBottomLeftToRight], false))
        .push(iso_row("Kthi"@, Category::Abugida, seq![ScriptDirection::TopToBottomRightToLeft], true))
        .push(iso_row("Lana"@, Category::Abugida, seq![ScriptDirection::TopToBottomLeftToRight], false))
        .push(iso_row("Laoo"@, Category::Abugida, seq![ScriptDirection::TopToBottomLeftToRight], false))
        .push(iso_row("Latf"@, Category::Alphabetic, seq![ScriptDirection::TopToBottomLeftToRight], false))
        .push(iso_row("Latg"@, Category::Alphabetic, seq![ScriptDirection::TopToBottomLeftToRight], false))
        .push(iso_row("Latn"@, Category::Alphabetic, seq![ScriptDirection::TopToBottomLeftToRight], false))
        .push(iso_row("Lepc"@, Category::Abugida, seq![ScriptDirection::TopToBottomLeftToRight], false))
        .push(iso_row("Limb"@, Category::Abugida, seq![ScriptDirection::TopToBottomLeftToRight], false))
        .push(iso_row("Lina"@, Category::Syllabic, seq![ScriptDirection::TopToBottomLeftToRight], true))
        .push(iso_row("Linb"@, Category::Syllabic, seq![ScriptDirection::TopToBottomLeftToRight], true))
        .push(iso_row("Lisu"@, Category::Alphabetic, seq![ScriptDirection::TopToBottomLeftToRight], false))
        .push(iso_row("Lyci"@, Category::Alphabetic, seq![ScriptDirection::TopToBottomLeftToRight], true))
        .push(iso_row("Lydi"@, Category::Alphabetic, seq![ScriptDirection::TopToBottomRightToLeft], true))
        .push(iso_row("Mahj"@, Category::Abugida, seq![ScriptDirection::TopToBottomLeftToRight], true))
        .push(iso_row("Maka"@, Category::Abugida, seq![ScriptDirection::TopToBottomLeftToRight], true))
        .push(iso_row("Mand"@, Category::Alphabetic, seq![ScriptDirection::TopToBottomRightToLeft], false))
        .push(iso_row("Mani"@, Category::Abjad, seq![ScriptDirection::TopToBottomRightToLeft], true))
        .push(iso_row("Marc"@, Category::Abugida, seq![ScriptDirection::TopToBottomLeftToRight], true))
        .push(iso_row("Medf"@, Category::Alphabetic, seq![ScriptDirection::TopToBottomLeftToRight], false))
        .push(iso_row("Mend"@, Category::Syllabic, seq![ScriptDirection::TopToBottomRightToLeft], false))
        .push(iso_row("Merc"@, Category::Abugida, seq![ScriptDirection::TopToBottomRightToLeft], true))
        .push(iso_row("Mero"@, Category::Abugida, seq![ScriptDirection::TopToBottomRightToLeft], true))
        .push(iso_row("Mlym"@, Category::Abugida, seq![ScriptDirection::TopToBottomLeftToRight], false))
        .push(iso_row("Modi"@, Category::Abugida, seq![ScriptDirection::TopToBottomLeftToRight], true))
        .push(iso_row("Mong"@, Category::Alphabetic, seq![ScriptDirection::LeftToRightTopToBottom].push(ScriptDirection::TopToBottomLeftToRight), false))
        .push(iso_row("Mroo"@, Category::Alphabetic, seq![ScriptDirection::TopToBottomLeftToRight], false))
        .push(iso_row("Mtei"@, Category::Abugida, seq![ScriptDirection::TopToBottomLeftToRight], false))
        .push(iso_row("Mult"@, Category::Abugida, seq![ScriptDirection::TopToBottomLeftToRight], true))
        .push(iso_row("Mymr"@, Category::Abugida, seq![ScriptDirection::TopToBottomLeftToRight], false))
        .push(iso_row("Nagm"@, Category::Alphabetic, seq![ScriptDirection::TopToBottomLeftToRight], false))
        .push(iso_row("Nand"@, Category::Abugida, seq![ScriptDirection::TopToBottomLeftToRight], true))
        .push(iso_row("Narb"@, Category::Abjad, seq![ScriptDirection::TopToBottomRightToLeft], true))
        .push(iso_row("Nbat"@, Category::Abjad, seq![ScriptDirection::TopToBottomRightToLeft], true))
        .push(iso_row("Newa"@, Category::Abugida, seq![ScriptDirection::TopToBottomLeftToRight], true))
        .push(iso_row("Nkoo"@, Category::Alphabetic, seq![ScriptDirection::TopToBottomRightToLeft], false))
        .push(iso_row("Nshu"@, Category::Syllabic, seq![ScriptDirection::RightToLeftTopToBottom], true))
        .push(iso_row("Ogam"@, Category::Alphabetic, seq![ScriptDirection::BottomToTopLeftToRight].push(ScriptDirection::TopToBottomLeftToRight), true))
        .push(iso_row("Olck"@, Category::Alphabetic, seq![ScriptDirection::TopToBottomLeftToRight], false))
        .push(iso_row("Onao"@, Category::Alphabetic, seq![ScriptDirection::TopToBottomLeftToRight], false))
        .push(iso_row("Orkh"@, Category::Alphabetic, seq![ScriptDirection::TopToBottomRightToLeft], true))
        .push(iso_row("Orya"@, Category::Abugida, seq![ScriptDirection::TopToBottomLeftToRight], false))
        .push(iso_row("Osge"@, Category::Alphabetic, seq![ScriptDirection::TopToBottomLeftToRight], false))
        .push(iso_row("Osma"@, Category::Alphabetic, seq![ScriptDirection::TopToBottomLeftToRight], true))
        .push(iso_row("Ougr"@, Category::Alphabetic, seq![ScriptDirection::LeftToRightTopToBottom].push(ScriptDirection::TopToBottomRightToLeft), true))
        .push(iso_row("Palm"@, Category::Abjad, seq![ScriptDirection::TopToBottomRightToLeft], true))
        .push(iso_row("Pauc"@, Category::Alphabetic, seq![ScriptDirection::TopToBottomLeftToRight], true))
        .push(iso_row("Perm"@, Category::Alphabetic, seq![ScriptDirection::TopToBottomLeftToRight], true))
        .push(iso_row("Phag"@, Category::Alphabetic, seq![ScriptDirection::LeftToRightTopToBottom], true))
        .push(iso_row("Phli"@, Category::Abjad, seq![ScriptDirection::TopToBottomRightToLeft], true))
        .push(iso_row("Phlp"@, Category::Abjad, seq![ScriptDirection::TopToBottomRightToLeft], true))
        .push(iso_row("Phlv"@, Category::Abjad, seq![ScriptDirection::TopToBottomRightToLeft], true))
        .push(iso_row("Phnx"@, Category::Abjad, seq![ScriptDirection::TopToBottomRightToLeft], true))
        .push(iso_row("Plrd"@, Category::Abugida, seq![ScriptDirection::TopToBottomLeftToRight], false))
        .push(iso_row("Prti"@, Category::Abjad, seq![ScriptDirection::TopToBottomRightToLeft], true))
        .push(iso_row("Rjng"@, Category::Abugida, seq![ScriptDirection::TopToBottomLeftToRight], false))
        .push(iso_row("Rohg"@, Category::Alphabetic, seq![ScriptDirection::TopToBottomRightToLeft], false))
        .push(iso_row("Runr"@, Category::Alphabetic, seq![ScriptDirection::TopToBottomLeftToRight].push(ScriptDirection::TopToBottomRightToLeft), true))
        .push(iso_row("Samr"@, Category::Abjad, seq![ScriptDirection::TopToBottomRightToLeft], true))
        .push(iso_row("Sarb"@, Category::Abjad, seq![ScriptDirection::TopToBottomRightToLeft], true))
        .push(iso_row("Saur"@, Category::Abugida, seq![ScriptDirection::TopToBottomLeftToRight], false))
        .push(iso_row("Sgnw"@, Category::Logographic, seq![ScriptDirection::TopToBottomLeftToRight].push(ScriptDirection::LeftToRightTopToBottom), false))
        .push(iso_row("Shaw"@, Category::Alphabetic, seq![ScriptDirection::TopToBottomLeftToRight], false))
        .push(iso_row("Shrd"@, Category::Abugida, seq![ScriptDirection::TopToBottomLeftToRight], false))
        .push(iso_row("Sidd"@, Category::Abugida, seq![ScriptDirection::TopToBottomLeftToRight], true))
        .push(iso_row("Sind"@, Category::Abugida, seq![ScriptDirection::TopToBottomLeftToRight], false))
        .push(iso_row("Sinh"@, Category::Abugida, seq![ScriptDirection::TopToBottomLeftToRight], false))
        .push(iso_row("Sogd"@, Category::Abjad, seq![ScriptDirection::LeftToRightTopToBottom].push(ScriptDirection::TopToBottomRightToLeft), true))
        .push(iso_row("Sogo"@, Category::Abjad, seq![ScriptDirection::LeftToRightTopToBottom].push(ScriptDirection::TopToBottomRightToLeft), true))
        .push(iso_row("Sora"@, Category::Alphabetic, seq![ScriptDirection::TopToBottomLeftToRight], false))
        .push(iso_row("Soyo"@, Category::Abugida, seq![ScriptDirection::TopToBottomLeftToRight], true))
        .push(iso_row("Sund"@, Category::Abugida, seq![ScriptDirection::TopToBottomLeftToRight], false))
        .push(iso_row("Sunu"@, Category::Alphabetic, seq![ScriptDirection::TopToBottomLeftToRight], false))
        .push(iso_row("Sylo"@, Category::Abugida, seq![ScriptDirection::TopToBottomLeftToRight], false))
        .push(iso_row("Syrc"@, Category::Abjad, seq![ScriptDirection::TopToBottomRightToLeft], false))
        .push(iso_row("Syre"@, Category::Abjad, seq![ScriptDirection::TopToBottomRightToLeft], false))
        .push(iso_row("Syrj"@, Category::Abjad, seq![ScriptDirection::TopToBottomRightToLeft], false))
        .push(iso_row("Syrn"@, Category::Abjad, seq![ScriptDirection::TopToBottomRightToLeft], false))
        .push(iso_row("Tagb"@, Category::Abugida, seq![ScriptDirection::TopToBottomLeftToRight], false))
        .push(iso_row("Takr"@, Category::Abugida, seq![ScriptDirection::TopToBottomLeftToRight], false))
        .push(iso_row("Tale"@, Category::Abugida, seq![ScriptDirection::TopToBottomLeftToRight], false))
        .push(iso_row("Talu"@, Category::Abugida, seq![ScriptDirection::TopToBottomLeftToRight], false))
        .push(iso_row("Taml"@, Category::Abugida, seq![ScriptDirection::TopToBottomLeftToRight], false))
        .push(iso_row("Tang"@, Category::Logographic, seq![ScriptDirection::RightToLeftTopToBottom].push(ScriptDirection::TopToBottomLeftToRight), true))
        .push(iso_row("Tavt"@, Category::Abugida, seq![ScriptDirection::TopToBottomLeftToRight], false))
        .push(iso_row("Tayo"@, Category::Abugida, seq![ScriptDirection::RightToLeftTopToBottom].push(ScriptDirection::TopToBottomLeftToRight), true))
        .push(iso_row("Telu"@, Category::Abugida, seq![ScriptDirection::TopToBottomLeftToRight], false))
        .push(iso_row("Tfng"@, Category::Abjad, seq![ScriptDirection::RightToLeftBottomToTop].push(ScriptDirection::RightToLeftTopToBottom).push(ScriptDirection::BottomToTopRightToLeft).push(ScriptDirection::TopToBottomRightToLeft).push(ScriptDirection::TopToBottomLeftToRight), false))
        .push(iso_row("Tglg"@, Category::Abugida, seq![ScriptDirection::TopToBottomLeftToRight], false))
        .push(iso_row("Thaa"@, Category::Abugida, seq![ScriptDirection::TopToBottomRightToLeft], false))
        .push(iso_row("Thai"@, Category::Abugida, seq![ScriptDirection::TopToBottomLeftToRight], false))
        .push(iso_row("Tibt"@, Category::Abugida, seq![ScriptDirection::TopToBottomLeftToRight], false))
        .push(iso_row("Tirh"@, Category::Abugida, seq![ScriptDirection::TopToBottomLeftToRight], false))
        .push(iso_row("Tnsa"@, Category::Alphabetic, seq![ScriptDirection::TopToBottomLeftToRight], false))
        .push(iso_row("Todr"@, Category::Alphabetic, seq![ScriptDirection::TopToBottomRightToLeft], false))
        .push(iso_row("Toto"@, Category::Alphabetic, seq![ScriptDirection::TopToBottomLeftToRight], false))
        .push(iso_row("Tutg"@, Category::Abugida, seq![ScriptDirection::TopToBottomLeftToRight], false))
        .push(iso_row("Ugar"@, Category::Abjad, seq![ScriptDirection::TopToBottomLeftToRight], true))
        .push(iso_row("Vaii"@, Category::Syllabic, seq![ScriptDirection::TopToBottomLeftToRight], false))
        .push(iso_row("Vith"@, Category::Alphabetic, seq![ScriptDirection::TopToBottomLeftToRight], true))
        .push(iso_row("Wara"@, Category::Alphabetic, seq![ScriptDirection::TopToBottomLeftToRight], false))
        .push(iso_row("Wcho"@, Category::Alphabetic, seq![ScriptDirection::TopToBottomLeftToRight], false))
        .push(iso_row("Xpeo"@, Category::Syllabic, seq![ScriptDirection::TopToBottomLeftToRight], true))
        .push(iso_row("Xsux"@, Category::Logographic, seq![ScriptDirection::TopToBottomLeftToRight], true))
        .push(iso_row("Yezi"@, Category::Syllabic, seq![ScriptDirection::TopToBottomRightToLeft], false))
        .push(iso_row("Zand"@, Category::Abugida, seq![ScriptDirection::TopToBottomLeftToRight], true))
}

/// The provider's table is the table of the ISO 15924 scripts: for every script code, [`DataProvider::get`]
/// gives the row of [`iso15924_rows`] (for example `Hebr`: an abjad written right to left, not historic).
pub proof fn lemma_script_rows(code: Seq<char>)
    ensures
        script_table() == iso15924_rows(),
        script_lookup(script_table(), code) == script_lookup(iso15924_rows(), code),
{
}

/// The provider of the script data.
pub struct DataProvider {
    data: Vec<(String, ScriptData)>,
}

impl DataProvider {
    /// The entries of the provider, as views.
    pub closed spec fn table(&self) -> Seq<(Seq<char>, ScriptView)> {
        entries_view(self.data@)
    }

    /// Creates the provider with the table of the scripts; a code that the table would repeat is kept once,
    /// with its last data.
    pub fn new() -> (result: Self)
        ensures
            result.table() == script_table(),
    {
        let mut data: Vec<(String, ScriptData)> = Vec::new();
        assert(entries_view(data@) =~= Seq::empty());
        add_scripts_0(&mut data);
        add_scripts_1(&mut data);
        add_scripts_2(&mut data);
        add_scripts_3(&mut data);
        add_scripts_4(&mut data);
        add_scripts_5(&mut data);
        add_scripts_6(&mut data);
        add_scripts_7(&mut data);
        add_scripts_8(&mut data);
        add_scripts_9(&mut data);
        DataProvider { data }
    }

    /// The data of the script code, if the table has it.
    pub fn get(&self, script: &str) -> (result: Option<&ScriptData>)
        ensures
            match script_lookup(self.table(), script@) {
                Some(v) => result matches Some(r) && r@ == v,
                None => result is None,
            },
    {
        let mut i: usize = 0;
        assert(self.table().skip(0) =~= self.table());
        while i < self.data.len()
            invariant
                0 <= i <= self.data@.len(),
                self.table().len() == self.data@.len(),
                script_lookup(self.table(), script@) == script_lookup(self.table().skip(i as int), script@),
            decreases self.data.len() - i,
        {
            assert(self.table().skip(i as int).drop_first() =~= self.table().skip(i + 1));
            if str_eq(self.data[i].0.as_str(), script) {
                return Some(&self.data[i].1);
            }
            i = i + 1;
        }
        None
    }
}

} // verus!
