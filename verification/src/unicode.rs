//! Character classification: apostrophe variants, punctuation, whitespace.

use vstd::prelude::*;

verus! {

/// The fixed table of Unicode code points treated as interchangeable
/// apostrophes, in the order used when expanding stopword lists.
pub open spec fn apostrophe_variant(i: int) -> char {
    if i == 0 {
        '\u{0027}'  // apostrophe
    } else if i == 1 {
        '\u{2019}'  // right single quotation mark
    } else if i == 2 {
        '\u{02BC}'  // modifier letter apostrophe
    } else if i == 3 {
        '\u{02BB}'  // modifier letter turned comma
    } else if i == 4 {
        '\u{055A}'  // Armenian apostrophe
    } else if i == 5 {
        '\u{A78B}'  // Latin capital letter saltillo
    } else if i == 6 {
        '\u{A78C}'  // Latin small letter saltillo
    } else {
        '\u{FF07}'  // fullwidth apostrophe
    }
}

/// A character counts as an apostrophe when it is one of the eight variants.
pub open spec fn is_apostrophe(c: char) -> bool {
    ||| c == apostrophe_variant(0)
    ||| c == apostrophe_variant(1)
    ||| c == apostrophe_variant(2)
    ||| c == apostrophe_variant(3)
    ||| c == apostrophe_variant(4)
    ||| c == apostrophe_variant(5)
    ||| c == apostrophe_variant(6)
    ||| c == apostrophe_variant(7)
}

/// The apostrophe variant table as a vector, in table order.
pub fn apostrophes() -> (v: Vec<char>)
    ensures
        v@.len() == 8,
        forall|i: int| 0 <= i < 8 ==> v@[i] == apostrophe_variant(i),
{
    let mut v: Vec<char> = Vec::new();
    v.push('\u{0027}');
    v.push('\u{2019}');
    v.push('\u{02BC}');
    v.push('\u{02BB}');
    v.push('\u{055A}');
    v.push('\u{A78B}');
    v.push('\u{A78C}');
    v.push('\u{FF07}');
    v
}

/// Decide apostrophe membership for a single character.
pub fn is_apostrophe_char(c: char) -> (r: bool)
    ensures
        r == is_apostrophe(c),
{
    c == '\u{0027}' || c == '\u{2019}' || c == '\u{02BC}' || c == '\u{02BB}' || c == '\u{055A}'
        || c == '\u{A78B}' || c == '\u{A78C}' || c == '\u{FF07}'
}

/// The crate's punctuation classification: the Unicode punctuation
/// categories (connector, dash, open, close, initial, final, other) over
/// ASCII and the principal punctuation blocks of the Basic Multilingual
/// Plane. Symbol characters (currency, math, modifier) are not punctuation;
/// in particular the ASCII symbols `$ + < = > ^ \u{60} | ~` are excluded, as
/// Unicode excludes them.
pub open spec fn is_punct(c: char) -> bool {
    let u = c as u32;
    ||| (0x21 <= u && u <= 0x23)
    ||| (0x25 <= u && u <= 0x2A)
    ||| (0x2C <= u && u <= 0x2F)
    ||| (0x3A <= u && u <= 0x3B)
    ||| (0x3F <= u && u <= 0x40)
    ||| (0x5B <= u && u <= 0x5D)
    ||| u == 0x5F
    ||| u == 0x7B
    ||| u == 0x7D
    ||| u == 0xA1
    ||| u == 0xA7
    ||| u == 0xAB
    ||| u == 0xB6
    ||| u == 0xB7
    ||| u == 0xBB
    ||| u == 0xBF
    ||| u == 0x37E
    ||| u == 0x387
    ||| (0x55A <= u && u <= 0x55F)
    ||| (0x589 <= u && u <= 0x58A)
    ||| u == 0x5BE
    ||| u == 0x5C0
    ||| u == 0x5C3
    ||| u == 0x5C6
    ||| (0x5F3 <= u && u <= 0x5F4)
    ||| (0x609 <= u && u <= 0x60A)
    ||| (0x60C <= u && u <= 0x60D)
    ||| u == 0x61B
    ||| (0x61E <= u && u <= 0x61F)
    ||| (0x66A <= u && u <= 0x66D)
    ||| u == 0x6D4
    ||| (0x964 <= u && u <= 0x965)
    ||| u == 0x970
    ||| (0x2010 <= u && u <= 0x2027)
    ||| (0x2030 <= u && u <= 0x2043)
    ||| (0x2045 <= u && u <= 0x2051)
    ||| (0x2053 <= u && u <= 0x205E)
    ||| (0x2E00 <= u && u <= 0x2E4F)
    ||| (0x3001 <= u && u <= 0x3003)
    ||| (0x3008 <= u && u <= 0x3011)
    ||| (0x3014 <= u && u <= 0x301F)
    ||| u == 0x3030
    ||| u == 0x303D
    ||| u == 0x30A0
    ||| u == 0x30FB
    ||| (0xFE10 <= u && u <= 0xFE19)
    ||| (0xFE30 <= u && u <= 0xFE52)
    ||| (0xFE54 <= u && u <= 0xFE61)
    ||| u == 0xFE63
    ||| u == 0xFE68
    ||| (0xFE6A <= u && u <= 0xFE6B)
    ||| (0xFF01 <= u && u <= 0xFF03)
    ||| (0xFF05 <= u && u <= 0xFF0A)
    ||| (0xFF0C <= u && u <= 0xFF0F)
    ||| (0xFF1A <= u && u <= 0xFF1B)
    ||| (0xFF1F <= u && u <= 0xFF20)
    ||| (0xFF3B <= u && u <= 0xFF3D)
    ||| u == 0xFF3F
    ||| u == 0xFF5B
    ||| u == 0xFF5D
    ||| (0xFF5F <= u && u <= 0xFF65)
}

/// Decide punctuation membership for a single character.
pub fn is_punct_char(c: char) -> (r: bool)
    ensures
        r == is_punct(c),
{
    let u = c as u32;
    (0x21 <= u && u <= 0x23) || (0x25 <= u && u <= 0x2A) || (0x2C <= u && u <= 0x2F) || (0x3A <= u
        && u <= 0x3B) || (0x3F <= u && u <= 0x40) || (0x5B <= u && u <= 0x5D) || u == 0x5F || u
        == 0x7B || u == 0x7D || u == 0xA1 || u == 0xA7 || u == 0xAB || u == 0xB6 || u == 0xB7 || u
        == 0xBB || u == 0xBF || u == 0x37E || u == 0x387 || (0x55A <= u && u <= 0x55F) || (0x589
        <= u && u <= 0x58A) || u == 0x5BE || u == 0x5C0 || u == 0x5C3 || u == 0x5C6 || (0x5F3 <= u
        && u <= 0x5F4) || (0x609 <= u && u <= 0x60A) || (0x60C <= u && u <= 0x60D) || u == 0x61B
        || (0x61E <= u && u <= 0x61F) || (0x66A <= u && u <= 0x66D) || u == 0x6D4 || (0x964 <= u
        && u <= 0x965) || u == 0x970 || (0x2010 <= u && u <= 0x2027) || (0x2030 <= u && u
        <= 0x2043) || (0x2045 <= u && u <= 0x2051) || (0x2053 <= u && u <= 0x205E) || (0x2E00 <= u
        && u <= 0x2E4F) || (0x3001 <= u && u <= 0x3003) || (0x3008 <= u && u <= 0x3011) || (0x3014
        <= u && u <= 0x301F) || u == 0x3030 || u == 0x303D || u == 0x30A0 || u == 0x30FB || (0xFE10
        <= u && u <= 0xFE19) || (0xFE30 <= u && u <= 0xFE52) || (0xFE54 <= u && u <= 0xFE61) || u
        == 0xFE63 || u == 0xFE68 || (0xFE6A <= u && u <= 0xFE6B) || (0xFF01 <= u && u <= 0xFF03)
        || (0xFF05 <= u && u <= 0xFF0A) || (0xFF0C <= u && u <= 0xFF0F) || (0xFF1A <= u && u
        <= 0xFF1B) || (0xFF1F <= u && u <= 0xFF20) || (0xFF3B <= u && u <= 0xFF3D) || u == 0xFF3F
        || u == 0xFF5B || u == 0xFF5D || (0xFF5F <= u && u <= 0xFF65)
}

/// Whitespace as the whitespace tokenizer splits on it: the ASCII
/// whitespace characters (space, horizontal tab, line feed, form feed,
/// carriage return).
pub open spec fn is_space(c: char) -> bool {
    let u = c as u32;
    ||| u == 0x20
    ||| u == 0x09
    ||| u == 0x0A
    ||| u == 0x0C
    ||| u == 0x0D
}

/// Decide whitespace membership for a single character.
pub fn is_space_char(c: char) -> (r: bool)
    ensures
        r == is_space(c),
{
    let u = c as u32;
    u == 0x20 || u == 0x09 || u == 0x0A || u == 0x0C || u == 0x0D
}

} // verus!
