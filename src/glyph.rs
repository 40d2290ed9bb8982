//! The glyphs of the language: which grapheme clusters are symbols, digits,
//! decimal markers and white space.
use vstd::prelude::*;
use vstd::string::StrSliceExecFns;
use crate::token::TokenType;

verus! {

/// Variation selector 16, which asks for the emoji form of the glyph before it.
pub const EMOJI_FORM: char = '\u{FE0F}';

/// The combining mark that turns a digit or `#` into a keycap.
pub const KEYCAP: char = '\u{20E3}';

/// The glyph is the single code point `c`.
pub open spec fn glyph1(g: Seq<char>, c: char) -> bool {
    g.len() == 1 && g[0] == c
}

/// The glyph is the code point `c` in its emoji form.
pub open spec fn glyph2(g: Seq<char>, c: char) -> bool {
    g.len() == 2 && g[0] == c && g[1] == EMOJI_FORM
}

/// The glyph is the keycap of `c`.
pub open spec fn keycap(g: Seq<char>, c: char) -> bool {
    g.len() == 3 && g[0] == c && g[1] == EMOJI_FORM && g[2] == KEYCAP
}

/// The kind of a glyph that always stands for one token by itself.
pub open spec fn symbol_type(g: Seq<char>) -> Option<TokenType> {
    if glyph2(g, '\u{2B05}') {
        Some(TokenType::Assign)
    } else if glyph1(g, '\u{2795}') {
        Some(TokenType::Plus)
    } else if glyph1(g, '\u{2796}') {
        Some(TokenType::Minus)
    } else if glyph2(g, '\u{2716}') {
        Some(TokenType::Multiply)
    } else if glyph1(g, '\u{2797}') {
        Some(TokenType::Divide)
    } else if glyph2(g, '\u{3030}') {
        Some(TokenType::Modulo)
    } else if glyph1(g, '\u{1F7F0}') {
        Some(TokenType::Equal)
    } else if glyph1(g, '\u{1F501}') {
        Some(TokenType::And)
    } else if glyph1(g, '\u{1F500}') {
        Some(TokenType::Or)
    } else if glyph2(g, '\u{23F8}') {
        Some(TokenType::Not)
    } else if glyph2(g, '\u{2199}') {
        Some(TokenType::Semicolon)
    } else if glyph2(g, '\u{2714}') {
        Some(TokenType::True)
    } else if glyph1(g, '\u{274C}') {
        Some(TokenType::False)
    } else if glyph1(g, '\u{2753}') {
        Some(TokenType::If)
    } else if glyph1(g, '\u{2B55}') {
        Some(TokenType::While)
    } else if glyph1(g, '\u{1F4DB}') {
        Some(TokenType::Function)
    } else if glyph1(g, '\u{1F519}') {
        Some(TokenType::Return)
    } else if glyph1(g, '\u{1F9B6}') {
        Some(TokenType::Comma)
    } else if glyph1(g, '\u{1F31C}') {
        Some(TokenType::LParenthesis)
    } else if glyph1(g, '\u{1F31B}') {
        Some(TokenType::RParenthesis)
    } else if glyph1(g, '\u{1F449}') {
        Some(TokenType::LBracket)
    } else if glyph1(g, '\u{1F448}') {
        Some(TokenType::RBracket)
    } else if glyph1(g, '\u{1FAF8}') {
        Some(TokenType::LBrace)
    } else if glyph1(g, '\u{1FAF7}') {
        Some(TokenType::RBrace)
    } else {
        None
    }
}

/// The glyph `🟰` that turns `▶️`, `◀️` and `❗` into two-glyph operators.
pub open spec fn equal_sign(g: Seq<char>) -> bool {
    glyph1(g, '\u{1F7F0}')
}

/// For a glyph that may open a two-glyph operator: its kind alone, and the
/// kind of the operator it makes with a following `🟰`.
pub open spec fn pair_types(g: Seq<char>) -> Option<(TokenType, TokenType)> {
    if glyph2(g, '\u{25B6}') {
        Some((TokenType::GreaterThan, TokenType::GreaterThanOrEqual))
    } else if glyph2(g, '\u{25C0}') {
        Some((TokenType::LessThan, TokenType::LessThanOrEqual))
    } else if glyph1(g, '\u{2757}') {
        Some((TokenType::Else, TokenType::NotEqual))
    } else {
        None
    }
}

/// `🗨️`, which opens a string.
pub open spec fn string_open(g: Seq<char>) -> bool {
    glyph2(g, '\u{1F5E8}')
}

/// `💬`, which closes a string.
pub open spec fn string_close(g: Seq<char>) -> bool {
    glyph1(g, '\u{1F4AC}')
}

/// The keycap digits `0️⃣` to `9️⃣`.
pub open spec fn digit_glyph(g: Seq<char>) -> bool {
    g.len() == 3 && '0' <= g[0] <= '9' && g[1] == EMOJI_FORM && g[2] == KEYCAP
}

/// The coloured circles, each of which marks the decimal point.
pub open spec fn dot_glyph(g: Seq<char>) -> bool {
    glyph1(g, '\u{26AA}') || glyph1(g, '\u{26AB}') || glyph1(g, '\u{1F7E4}') || glyph1(
        g,
        '\u{1F7E3}',
    ) || glyph1(g, '\u{1F535}') || glyph1(g, '\u{1F7E2}') || glyph1(g, '\u{1F7E1}') || glyph1(
        g,
        '\u{1F7E0}',
    ) || glyph1(g, '\u{1F534}')
}

/// Space, tab, and the three line breaks.
pub open spec fn space_glyph(g: Seq<char>) -> bool {
    glyph1(g, ' ') || glyph1(g, '\t') || glyph1(g, '\r') || glyph1(g, '\n') || (g.len() == 2
        && g[0] == '\r' && g[1] == '\n')
}

/// Glyphs that the language keeps for itself: none of them is part of a name.
pub open spec fn reserved_glyph(g: Seq<char>) -> bool {
    symbol_type(g) is Some || pair_types(g) is Some || string_open(g) || string_close(g) || glyph2(
        g,
        '\u{2049}',
    ) || keycap(g, '#')
}

/// A glyph that may stand in a name.
pub open spec fn identifier_glyph(g: Seq<char>) -> bool {
    !reserved_glyph(g) && !digit_glyph(g) && !dot_glyph(g) && !space_glyph(g)
}

fn is_glyph1(g: &str, c: char) -> (r: bool)
    ensures
        r == glyph1(g@, c),
{
    g.unicode_len() == 1 && g.get_char(0) == c
}

fn is_glyph2(g: &str, c: char) -> (r: bool)
    ensures
        r == glyph2(g@, c),
{
    g.unicode_len() == 2 && g.get_char(0) == c && g.get_char(1) == EMOJI_FORM
}

fn is_keycap(g: &str, c: char) -> (r: bool)
    ensures
        r == keycap(g@, c),
{
    g.unicode_len() == 3 && g.get_char(0) == c && g.get_char(1) == EMOJI_FORM && g.get_char(2)
        == KEYCAP
}

pub fn symbol_type_of(g: &str) -> (r: Option<TokenType>)
    ensures
        r == symbol_type(g@),
{
    if is_glyph2(g, '\u{2B05}') {
        Some(TokenType::Assign)
    } else if is_glyph1(g, '\u{2795}') {
        Some(TokenType::Plus)
    } else if is_glyph1(g, '\u{2796}') {
        Some(TokenType::Minus)
    } else if is_glyph2(g, '\u{2716}') {
        Some(TokenType::Multiply)
    } else if is_glyph1(g, '\u{2797}') {
        Some(TokenType::Divide)
    } else if is_glyph2(g, '\u{3030}') {
        Some(TokenType::Modulo)
    } else if is_glyph1(g, '\u{1F7F0}') {
        Some(TokenType::Equal)
    } else if is_glyph1(g, '\u{1F501}') {
        Some(TokenType::And)
    } else if is_glyph1(g, '\u{1F500}') {
        Some(TokenType::Or)
    } else if is_glyph2(g, '\u{23F8}') {
        Some(TokenType::Not)
    } else if is_glyph2(g, '\u{2199}') {
        Some(TokenType::Semicolon)
    } else if is_glyph2(g, '\u{2714}') {
        Some(TokenType::True)
    } else if is_glyph1(g, '\u{274C}') {
        Some(TokenType::False)
    } else if is_glyph1(g, '\u{2753}') {
        Some(TokenType::If)
    } else if is_glyph1(g, '\u{2B55}') {
        Some(TokenType::While)
    } else if is_glyph1(g, '\u{1F4DB}') {
        Some(TokenType::Function)
    } else if is_glyph1(g, '\u{1F519}') {
        Some(TokenType::Return)
    } else if is_glyph1(g, '\u{1F9B6}') {
        Some(TokenType::Comma)
    } else if is_glyph1(g, '\u{1F31C}') {
        Some(TokenType::LParenthesis)
    } else if is_glyph1(g, '\u{1F31B}') {
        Some(TokenType::RParenthesis)
    } else if is_glyph1(g, '\u{1F449}') {
        Some(TokenType::LBracket)
    } else if is_glyph1(g, '\u{1F448}') {
        Some(TokenType::RBracket)
    } else if is_glyph1(g, '\u{1FAF8}') {
        Some(TokenType::LBrace)
    } else if is_glyph1(g, '\u{1FAF7}') {
        Some(TokenType::RBrace)
    } else {
        None
    }
}

pub fn is_equal_sign(g: &str) -> (r: bool)
    ensures
        r == equal_sign(g@),
{
    is_glyph1(g, '\u{1F7F0}')
}

pub fn pair_types_of(g: &str) -> (r: Option<(TokenType, TokenType)>)
    ensures
        r == pair_types(g@),
{
    if is_glyph2(g, '\u{25B6}') {
        Some((TokenType::GreaterThan, TokenType::GreaterThanOrEqual))
    } else if is_glyph2(g, '\u{25C0}') {
        Some((TokenType::LessThan, TokenType::LessThanOrEqual))
    } else if is_glyph1(g, '\u{2757}') {
        Some((TokenType::Else, TokenType::NotEqual))
    } else {
        None
    }
}

pub fn is_string_open(g: &str) -> (r: bool)
    ensures
        r == string_open(g@),
{
    is_glyph2(g, '\u{1F5E8}')
}

pub fn is_string_close(g: &str) -> (r: bool)
    ensures
        r == string_close(g@),
{
    is_glyph1(g, '\u{1F4AC}')
}

pub fn is_digit_glyph(g: &str) -> (r: bool)
    ensures
        r == digit_glyph(g@),
{
    if g.unicode_len() != 3 {
        return false;
    }
    let c = g.get_char(0);
    '0' <= c && c <= '9' && g.get_char(1) == EMOJI_FORM && g.get_char(2) == KEYCAP
}

pub fn is_dot_glyph(g: &str) -> (r: bool)
    ensures
        r == dot_glyph(g@),
{
    is_glyph1(g, '\u{26AA}') || is_glyph1(g, '\u{26AB}') || is_glyph1(g, '\u{1F7E4}')
        || is_glyph1(g, '\u{1F7E3}') || is_glyph1(g, '\u{1F535}') || is_glyph1(g, '\u{1F7E2}')
        || is_glyph1(g, '\u{1F7E1}') || is_glyph1(g, '\u{1F7E0}') || is_glyph1(g, '\u{1F534}')
}

pub fn is_space_glyph(g: &str) -> (r: bool)
    ensures
        r == space_glyph(g@),
{
    is_glyph1(g, ' ') || is_glyph1(g, '\t') || is_glyph1(g, '\r') || is_glyph1(g, '\n') || (
    g.unicode_len() == 2 && g.get_char(0) == '\r' && g.get_char(1) == '\n')
}

pub fn is_reserved_glyph(g: &str) -> (r: bool)
    ensures
        r == reserved_glyph(g@),
{
    symbol_type_of(g).is_some() || pair_types_of(g).is_some() || is_string_open(g)
        || is_string_close(g) || is_glyph2(g, '\u{2049}') || is_keycap(g, '#')
}

} // verus!
