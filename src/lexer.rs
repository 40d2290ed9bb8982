//! Scanning a source text into tokens.
use vstd::prelude::*;
use vstd::string::{StrSliceExecFns, StringExecFns};
use unicode_segmentation::UnicodeSegmentation;
use crate::glyph::{
    digit_glyph, dot_glyph, equal_sign, identifier_glyph, is_digit_glyph, is_dot_glyph,
    is_equal_sign, is_reserved_glyph, is_space_glyph, is_string_close, is_string_open,
    pair_types, pair_types_of, space_glyph, string_close, string_open, symbol_type, symbol_type_of,
};
use crate::token::{start_view, Token, TokenType};
use crate::util::StatefulVector;

verus! {

/// What `UnicodeSegmentation::graphemes` makes of a text: its extended
/// grapheme clusters, in order.
pub uninterp spec fn grapheme_clusters(s: Seq<char>) -> Seq<Seq<char>>;

/// Relies on `UnicodeSegmentation::graphemes(s, true)`: the extended grapheme
/// clusters of `s`; each is a non-empty slice of `s`, and they follow one
/// another from its start to its end.
#[verifier::external_body]
fn split_graphemes<'a>(s: &'a str) -> (r: Vec<&'a str>)
    ensures
        r@.len() == grapheme_clusters(s@).len(),
        forall|i: int| 0 <= i < r@.len() ==> #[trigger] r@[i]@ == grapheme_clusters(s@)[i],
        forall|i: int| 0 <= i < r@.len() ==> #[trigger] r@[i]@.len() > 0,
        join(r@.map_values(|g: &str| g@), 0, r@.len() as int) == s@,
{
    s.graphemes(true).collect::<Vec<&str>>()
}

/// The glyphs `lo..hi` written one after the other.
pub open spec fn join(gs: Seq<Seq<char>>, lo: int, hi: int) -> Seq<char>
    decreases hi - lo,
{
    if hi <= lo {
        Seq::<char>::empty()
    } else {
        join(gs, lo, hi - 1) + gs[hi - 1]
    }
}

/// How many glyphs from `j` on come before the first `💬` (or the end).
pub open spec fn string_len(gs: Seq<Seq<char>>, j: int) -> nat
    decreases gs.len() - j,
{
    if j < 0 || j >= gs.len() || string_close(gs[j]) {
        0
    } else {
        1 + string_len(gs, j + 1)
    }
}

/// How many glyphs from `j` on may stand in a name.
pub open spec fn identifier_len(gs: Seq<Seq<char>>, j: int) -> nat
    decreases gs.len() - j,
{
    if 0 <= j < gs.len() && identifier_glyph(gs[j]) {
        1 + identifier_len(gs, j + 1)
    } else {
        0
    }
}

/// How many glyphs from `j` on continue a number, which has taken a decimal
/// marker already when `dot` holds; and whether one was taken by the end.
pub open spec fn number_len(gs: Seq<Seq<char>>, j: int, dot: bool) -> (nat, bool)
    decreases gs.len() - j,
{
    if 0 <= j < gs.len() && digit_glyph(gs[j]) {
        let (n, d) = number_len(gs, j + 1, dot);
        (n + 1, d)
    } else if 0 <= j < gs.len() && dot_glyph(gs[j]) && !dot {
        let (n, d) = number_len(gs, j + 1, true);
        (n + 1, d)
    } else {
        (0, dot)
    }
}

/// The ASCII character that a glyph of a number stands for.
pub open spec fn number_char(g: Seq<char>) -> char {
    if digit_glyph(g) {
        g[0]
    } else {
        '.'
    }
}

/// The ASCII text of the number glyphs `lo..hi`.
pub open spec fn number_text(gs: Seq<Seq<char>>, lo: int, hi: int) -> Seq<char>
    decreases hi - lo,
{
    if hi <= lo {
        Seq::<char>::empty()
    } else {
        number_text(gs, lo, hi - 1).push(number_char(gs[hi - 1]))
    }
}

/// The token that starts at glyph `i` (none for white space), and the index
/// of the glyph after it.
pub open spec fn scan_one(gs: Seq<Seq<char>>, i: int) -> (Option<(TokenType, Seq<char>)>, int) {
    let g = gs[i];
    if symbol_type(g) is Some {
        (Some((symbol_type(g)->0, g)), i + 1)
    } else if pair_types(g) is Some {
        let (single, double) = pair_types(g)->0;
        if i + 1 < gs.len() && equal_sign(gs[i + 1]) {
            (Some((double, g + gs[i + 1])), i + 2)
        } else {
            (Some((single, g)), i + 1)
        }
    } else if string_open(g) {
        let close = i + 1 + string_len(gs, i + 1);
        if close < gs.len() {
            (Some((TokenType::String, join(gs, i + 1, close))), close + 1)
        } else {
            // a string that is never closed is not a string
            (Some((TokenType::Illegal, join(gs, i, close))), close)
        }
    } else if digit_glyph(g) {
        let (n, dot) = number_len(gs, i + 1, false);
        let kind = if dot {
            TokenType::Float
        } else {
            TokenType::Integer
        };
        (Some((kind, number_text(gs, i, i + 1 + n))), i + 1 + n)
    } else if space_glyph(g) {
        (None, i + 1)
    } else if identifier_glyph(g) {
        let end = i + 1 + identifier_len(gs, i + 1);
        (Some((TokenType::Identifier, join(gs, i, end))), end)
    } else {
        (Some((TokenType::Illegal, g)), i + 1)
    }
}

/// The tokens of the glyphs from `i` on.
pub open spec fn scan_from(gs: Seq<Seq<char>>, i: int) -> Seq<(TokenType, Seq<char>)>
    decreases gs.len() - i,
{
    if i < 0 || i >= gs.len() {
        Seq::empty()
    } else {
        let tok = scan_one(gs, i).0;
        let next = scan_one(gs, i).1;
        let rest = if i < next <= gs.len() {
            scan_from(gs, next)
        } else {
            Seq::empty()
        };
        match tok {
            Some(t) => seq![t] + rest,
            None => rest,
        }
    }
}

/// The tokens of a source text.
pub open spec fn scan(s: Seq<char>) -> Seq<(TokenType, Seq<char>)> {
    scan_from(grapheme_clusters(s), 0)
}

pub open spec fn token_views(ts: Seq<Token>) -> Seq<(TokenType, Seq<char>)> {
    ts.map_values(|t: Token| t@)
}

proof fn lemma_string_len_bound(gs: Seq<Seq<char>>, j: int)
    requires
        0 <= j,
    ensures
        j + string_len(gs, j) <= if j <= gs.len() {
            gs.len() as int
        } else {
            j
        },
    decreases gs.len() - j,
{
    if j < gs.len() && !string_close(gs[j]) {
        lemma_string_len_bound(gs, j + 1);
    }
}

proof fn lemma_identifier_len_bound(gs: Seq<Seq<char>>, j: int)
    requires
        0 <= j <= gs.len(),
    ensures
        j + identifier_len(gs, j) <= gs.len(),
    decreases gs.len() - j,
{
    if j < gs.len() && identifier_glyph(gs[j]) {
        lemma_identifier_len_bound(gs, j + 1);
    }
}

proof fn lemma_number_len_bound(gs: Seq<Seq<char>>, j: int, dot: bool)
    requires
        0 <= j <= gs.len(),
    ensures
        j + number_len(gs, j, dot).0 <= gs.len(),
    decreases gs.len() - j,
{
    if j < gs.len() && digit_glyph(gs[j]) {
        lemma_number_len_bound(gs, j + 1, dot);
    } else if j < gs.len() && dot_glyph(gs[j]) && !dot {
        lemma_number_len_bound(gs, j + 1, true);
    }
}

proof fn lemma_scan_one_advances(gs: Seq<Seq<char>>, i: int)
    requires
        0 <= i < gs.len(),
    ensures
        i < scan_one(gs, i).1 <= gs.len(),
{
    lemma_string_len_bound(gs, i + 1);
    lemma_identifier_len_bound(gs, i + 1);
    lemma_number_len_bound(gs, i + 1, false);
}

/// One grapheme cluster of the source.
pub type Glyph<'a> = &'a str;

/// Splits source text into glyphs and scans the glyphs into tokens.
pub struct Lexer<'a> {
    chars: StatefulVector<&'a str>,
}

impl<'a> Lexer<'a> {
    /// The glyphs of the source.
    pub closed spec fn glyphs(&self) -> Seq<Seq<char>> {
        self.chars@.map_values(|g: &str| g@)
    }

    /// The index of the glyph the lexer stands on.
    pub closed spec fn cursor(&self) -> int {
        self.chars.pos()
    }

    pub fn new(input: &'a str) -> (r: Lexer<'a>)
        ensures
            r.glyphs() == grapheme_clusters(input@),
            forall|i: int| 0 <= i < r.glyphs().len() ==> #[trigger] r.glyphs()[i].len() > 0,
            join(r.glyphs(), 0, r.glyphs().len() as int) == input@,
            r.cursor() == 0,
    {
        let gs = split_graphemes(input);
        let ghost views = gs@.map_values(|g: &str| g@);
        let r = Lexer { chars: StatefulVector::from_vec(gs) };
        assert(r.glyphs() =~= grapheme_clusters(input@));
        assert(r.glyphs() =~= views);
        r
    }

    /// A lexer over glyphs already split.
    pub fn from_graphemes(glyphs: Vec<&'a str>) -> (r: Lexer<'a>)
        ensures
            r.glyphs().len() == glyphs@.len(),
            forall|i: int| 0 <= i < glyphs@.len() ==> #[trigger] r.glyphs()[i] == glyphs@[i]@,
            r.cursor() == 0,
    {
        Lexer { chars: StatefulVector::from_vec(glyphs) }
    }

    /// The start token followed by the tokens of the glyphs from the cursor on.
    pub fn tokenize(&mut self) -> (r: StatefulVector<Token>)
        ensures
            final(self).glyphs() == old(self).glyphs(),
            token_views(r@) == seq![start_view()] + scan_from(old(self).glyphs(), old(self).cursor()),
    {
        let ghost gs = self.glyphs();
        let ghost start = self.cursor();
        let mut tokens = StatefulVector::<Token>::new();
        tokens.push(Token::start());
        let ghost mut done: Seq<(TokenType, Seq<char>)> = Seq::empty();
        let mut at_glyph = self.chars.current().is_some();
        proof {
            self.chars.lemma_pos_nonnegative();
        }
        assert(token_views(tokens@) =~= seq![start_view()] + done);
        while at_glyph
            invariant
                self.glyphs() == gs,
                gs.len() == self.chars@.len(),
                0 <= start,
                at_glyph ==> 0 <= self.cursor() < gs.len(),
                token_views(tokens@) == seq![start_view()] + done,
                scan_from(gs, start) == done + if at_glyph {
                    scan_from(gs, self.cursor())
                } else {
                    Seq::empty()
                },
            decreases
                if at_glyph {
                    gs.len() - self.cursor() + 1
                } else {
                    0
                },
        {
            let ghost i = self.cursor();
            let token = self.scan_token();
            proof {
                lemma_scan_one_advances(gs, i);
                let next = scan_one(gs, i).1;
                assert(scan_from(gs, i) == match scan_one(gs, i).0 {
                    Some(t) => seq![t] + scan_from(gs, next),
                    None => scan_from(gs, next),
                });
            }
            match token {
                Some(t) => {
                    let ghost tv = t@;
                    let ghost before = tokens@;
                    tokens.push(t);
                    proof {
                        assert(token_views(tokens@) =~= token_views(before).push(tv));
                        done = done.push(tv);
                    }
                },
                None => {},
            }
            at_glyph = self.chars.to_next().is_some();
            assert(token_views(tokens@) =~= seq![start_view()] + done);
            assert(scan_from(gs, start) =~= done + if at_glyph {
                scan_from(gs, self.cursor())
            } else {
                Seq::empty()
            });
        }
        tokens
    }

    /// Scans the token that starts at the cursor, and leaves the cursor on
    /// its last glyph.
    fn scan_token(&mut self) -> (r: Option<Token>)
        requires
            0 <= old(self).cursor() < old(self).glyphs().len(),
        ensures
            final(self).glyphs() == old(self).glyphs(),
            final(self).cursor() == scan_one(old(self).glyphs(), old(self).cursor()).1 - 1,
            r.is_some() == scan_one(old(self).glyphs(), old(self).cursor()).0.is_some(),
            r.is_some() ==> r->0@ == scan_one(old(self).glyphs(), old(self).cursor()).0->0,
    {
        let ghost gs = self.glyphs();
        let g: &str = *self.chars.current().unwrap();
        assert(g@ == gs[self.cursor()]);
        if let Some(kind) = symbol_type_of(g) {
            Some(Token::from_str(kind, g))
        } else if let Some((single, double)) = pair_types_of(g) {
            Some(self.handle_two_chars_token(single, double))
        } else if is_string_open(g) {
            Some(self.handle_string())
        } else if is_digit_glyph(g) {
            Some(self.handle_number())
        } else if is_space_glyph(g) {
            None
        } else if is_identifier_char(g) {
            Some(self.handle_identifier())
        } else {
            Some(Token::from_str(TokenType::Illegal, g))
        }
    }

    fn handle_two_chars_token(
        &mut self,
        single_char_token_type: TokenType,
        two_chars_token_type: TokenType,
    ) -> (r: Token)
        requires
            0 <= old(self).cursor() < old(self).glyphs().len(),
            pair_types(old(self).glyphs()[old(self).cursor()]) == Some(
                (single_char_token_type, two_chars_token_type),
            ),
        ensures
            final(self).glyphs() == old(self).glyphs(),
            final(self).cursor() == scan_one(old(self).glyphs(), old(self).cursor()).1 - 1,
            Some(r@) == scan_one(old(self).glyphs(), old(self).cursor()).0,
    {
        let ghost gs = self.glyphs();
        let g: &str = *self.chars.current().unwrap();
        let mut current_char = String::from_str(g);
        let mut token_type = single_char_token_type;
        let next_is_equal = self.chars.is_next_match(
            glyph_test_equal_sign
        );
        if next_is_equal {
            token_type = two_chars_token_type;
            let next: &str = *self.chars.to_next().unwrap();
            current_char.append(next);
        }
        Token::from(token_type, current_char)
    }

    fn handle_string(&mut self) -> (r: Token)
        requires
            0 <= old(self).cursor() < old(self).glyphs().len(),
            string_open(old(self).glyphs()[old(self).cursor()]),
        ensures
            final(self).glyphs() == old(self).glyphs(),
            final(self).cursor() == scan_one(old(self).glyphs(), old(self).cursor()).1 - 1,
            Some(r@) == scan_one(old(self).glyphs(), old(self).cursor()).0,
    {
        let ghost gs = self.glyphs();
        let ghost i = self.cursor();
        let opening: &str = *self.chars.current().unwrap();
        let mut literal = String::new();
        let mut closed = false;
        assert(literal@ =~= join(gs, i + 1, i + 1));
        assert(string_len(gs, i + 1) == (self.cursor() - i) + string_len(gs, self.cursor() + 1));
        while !closed && self.chars.has_next()
            invariant
                self.glyphs() == gs,
                gs.len() == self.chars@.len(),
                i <= self.cursor() < gs.len(),
                opening@ == gs[i],
                !closed ==> literal@ == join(gs, i + 1, self.cursor() + 1),
                !closed ==> string_len(gs, i + 1) == (self.cursor() - i) + string_len(
                    gs,
                    self.cursor() + 1,
                ),
                closed ==> literal@ == join(gs, i + 1, self.cursor()) && self.cursor() == i + 1
                    + string_len(gs, i + 1) && string_close(gs[self.cursor()]),
            decreases gs.len() - self.cursor() + if closed {
                0int
            } else {
                1
            },
        {
            let g: &str = *self.chars.to_next().unwrap();
            if is_string_close(g) {
                closed = true;
            } else {
                literal.append(g);
            }
        }
        if closed {
            Token::from(TokenType::String, literal)
        } else {
            assert(string_len(gs, self.cursor() + 1) == 0);
            let mut text = String::from_str(opening);
            text.append(literal.as_str());
            proof {
                lemma_join_front(gs, i, gs.len() as int);
            }
            Token::from(TokenType::Illegal, text)
        }
    }

    fn handle_number(&mut self) -> (r: Token)
        requires
            0 <= old(self).cursor() < old(self).glyphs().len(),
            digit_glyph(old(self).glyphs()[old(self).cursor()]),
        ensures
            final(self).glyphs() == old(self).glyphs(),
            final(self).cursor() == scan_one(old(self).glyphs(), old(self).cursor()).1 - 1,
            Some(r@) == scan_one(old(self).glyphs(), old(self).cursor()).0,
    {
        let ghost gs = self.glyphs();
        let ghost i = self.cursor();
        let first: &str = *self.chars.current().unwrap();
        let mut literal = String::from_str(first.substring_char(0, 1));
        let mut token_type = TokenType::Integer;
        let mut dot = false;
        assert(number_text(gs, i, i) =~= Seq::<char>::empty());
        assert(literal@ =~= number_text(gs, i, i + 1));
        loop
            invariant
                self.glyphs() == gs,
                gs.len() == self.chars@.len(),
                i <= self.cursor() < gs.len(),
                literal@ == number_text(gs, i, self.cursor() + 1),
                number_len(gs, i + 1, false).0 == (self.cursor() - i) + number_len(
                    gs,
                    self.cursor() + 1,
                    dot,
                ).0,
                number_len(gs, i + 1, false).1 == number_len(gs, self.cursor() + 1, dot).1,
                token_type == if dot {
                    TokenType::Float
                } else {
                    TokenType::Integer
                },
            ensures
                number_len(gs, self.cursor() + 1, dot).0 == 0,
                number_len(gs, self.cursor() + 1, dot).1 == dot,
            decreases gs.len() - self.cursor(),
        {
            let is_digit = self.chars.is_next_match(
                glyph_test_digit_glyph
            );
            let is_dot = self.chars.is_next_match(
                glyph_test_dot_glyph
            );
            if is_digit {
                let next: &str = *self.chars.to_next().unwrap();
                literal.append(next.substring_char(0, 1));
                assert(literal@ =~= number_text(gs, i, self.cursor() + 1));
            } else if is_dot && !dot {
                self.chars.to_next();
                token_type = TokenType::Float;
                dot = true;
                proof {
                    reveal_strlit(".");
                }
                literal.append(".");
                assert(literal@ =~= number_text(gs, i, self.cursor() + 1));
            } else {
                break;
            }
        }
        Token::from(token_type, literal)
    }

    fn handle_identifier(&mut self) -> (r: Token)
        requires
            0 <= old(self).cursor() < old(self).glyphs().len(),
            identifier_glyph(old(self).glyphs()[old(self).cursor()]),
            symbol_type(old(self).glyphs()[old(self).cursor()]) is None,
        ensures
            final(self).glyphs() == old(self).glyphs(),
            final(self).cursor() == scan_one(old(self).glyphs(), old(self).cursor()).1 - 1,
            Some(r@) == scan_one(old(self).glyphs(), old(self).cursor()).0,
    {
        let ghost gs = self.glyphs();
        let ghost i = self.cursor();
        let first: &str = *self.chars.current().unwrap();
        let mut literal = String::from_str(first);
        assert(join(gs, i, i) =~= Seq::<char>::empty());
        assert(literal@ =~= join(gs, i, i + 1));
        loop
            invariant
                self.glyphs() == gs,
                gs.len() == self.chars@.len(),
                i <= self.cursor() < gs.len(),
                literal@ == join(gs, i, self.cursor() + 1),
                identifier_len(gs, i + 1) == (self.cursor() - i) + identifier_len(
                    gs,
                    self.cursor() + 1,
                ),
            ensures
                identifier_len(gs, self.cursor() + 1) == 0,
            decreases gs.len() - self.cursor(),
        {
            let more = self.chars.is_next_match(
                glyph_test_identifier_char
            );
            if !more {
                break;
            }
            let next: &str = *self.chars.to_next().unwrap();
            literal.append(next);
        }
        Token::from(TokenType::Identifier, literal)
    }
}

/// The glyphs `lo..hi` are the glyph `lo` followed by the glyphs `lo + 1..hi`.
proof fn lemma_join_front(gs: Seq<Seq<char>>, lo: int, hi: int)
    requires
        0 <= lo < hi <= gs.len(),
    ensures
        join(gs, lo, hi) == gs[lo] + join(gs, lo + 1, hi),
    decreases hi - lo,
{
    if hi - 1 > lo {
        lemma_join_front(gs, lo, hi - 1);
        assert(join(gs, lo, hi) =~= gs[lo] + join(gs, lo + 1, hi));
    } else {
        assert(join(gs, lo, lo) =~= Seq::<char>::empty());
        assert(join(gs, lo + 1, hi) =~= Seq::<char>::empty());
        assert(join(gs, lo, hi) =~= gs[lo] + join(gs, lo + 1, hi));
    }
}

fn glyph_test_equal_sign(c: &Glyph) -> (b: bool)
    ensures
        b == equal_sign(c@),
{
    is_equal_sign(*c)
}

fn glyph_test_digit_glyph(c: &Glyph) -> (b: bool)
    ensures
        b == digit_glyph(c@),
{
    is_digit_glyph(*c)
}

fn glyph_test_dot_glyph(c: &Glyph) -> (b: bool)
    ensures
        b == dot_glyph(c@),
{
    is_dot_glyph(*c)
}

fn glyph_test_identifier_char(c: &Glyph) -> (b: bool)
    ensures
        b == identifier_glyph(c@),
{
    is_identifier_char(*c)
}

/// Whether a glyph may stand in a name.
pub fn is_identifier_char(g: &str) -> (r: bool)
    ensures
        r == identifier_glyph(g@),
{
    !is_reserved_glyph(g) && !is_digit_glyph(g) && !is_dot_glyph(g) && !is_space_glyph(g)
}

} // verus!
