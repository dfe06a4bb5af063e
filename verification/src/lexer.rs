use vstd::prelude::*;
use crate::error::{AsmError, AsmErrorView};
use crate::text::{chars_of, same_text, string_of};
use crate::token::{Token, TokenView};

verus! {

/// The kinds of character that the tokenizer reads in runs.
#[derive(Debug, PartialEq, Eq, Structural, Clone, Copy)]
pub enum CharClass {
    /// Unicode white space: it parts tokens and is none itself.
    Space,
    /// The ASCII digits `0` to `9`.
    Digit,
    /// ASCII letters, ASCII digits and `_`: what names and keywords are made of.
    Word,
}

impl CharClass {
    /// The characters of each class.
    pub open spec fn spec_holds(self, c: char) -> bool {
        match self {
            CharClass::Space => {
                ||| '\u{9}' <= c <= '\u{d}'
                ||| c == ' '
                ||| c == '\u{85}'
                ||| c == '\u{a0}'
                ||| c == '\u{1680}'
                ||| '\u{2000}' <= c <= '\u{200a}'
                ||| c == '\u{2028}'
                ||| c == '\u{2029}'
                ||| c == '\u{202f}'
                ||| c == '\u{205f}'
                ||| c == '\u{3000}'
            },
            CharClass::Digit => '0' <= c <= '9',
            CharClass::Word => {
                ||| '0' <= c <= '9'
                ||| 'a' <= c <= 'z'
                ||| 'A' <= c <= 'Z'
                ||| c == '_'
            },
        }
    }

    /// Whether `c` belongs to the class.
    #[verifier::when_used_as_spec(spec_holds)]
    pub fn holds(self, c: char) -> (b: bool)
        ensures
            b == self.spec_holds(c),
    {
        match self {
            CharClass::Space => {
                ('\u{9}' <= c && c <= '\u{d}') || c == ' ' || c == '\u{85}' || c == '\u{a0}' || c
                    == '\u{1680}' || ('\u{2000}' <= c && c <= '\u{200a}') || c == '\u{2028}' || c
                    == '\u{2029}' || c == '\u{202f}' || c == '\u{205f}' || c == '\u{3000}'
            },
            CharClass::Digit => '0' <= c && c <= '9',
            CharClass::Word => {
                ('0' <= c && c <= '9') || ('a' <= c && c <= 'z') || ('A' <= c && c <= 'Z') || c
                    == '_'
            },
        }
    }
}

/// Where the run of `class` characters that starts at `from` ends: the first
/// position at or behind `from` whose character is not of the class, or the
/// length of `s` if there is none.
pub open spec fn run_end(s: Seq<char>, from: int, class: CharClass) -> int
    decreases s.len() - from,
{
    if 0 <= from < s.len() && class.holds(s[from]) {
        run_end(s, from + 1, class)
    } else {
        from
    }
}

/// The token that a punctuation character is, if it is one.
pub open spec fn punctuation(c: char) -> Option<TokenView> {
    if c == '#' {
        Some(TokenView::Sharp)
    } else if c == '-' {
        Some(TokenView::Minus)
    } else if c == ',' {
        Some(TokenView::Comma)
    } else if c == ':' {
        Some(TokenView::Colon)
    } else if c == '(' {
        Some(TokenView::OpenParen)
    } else if c == ')' {
        Some(TokenView::CloseParen)
    } else {
        None
    }
}

/// The keyword table: the token of each mnemonic and register name.
pub open spec fn spec_keyword(word: Seq<char>) -> Option<TokenView> {
    if word == "NOP"@ {
        Some(TokenView::NOP)
    } else if word == "MV"@ {
        Some(TokenView::MV)
    } else if word == "AND"@ {
        Some(TokenView::AND)
    } else if word == "OR"@ {
        Some(TokenView::OR)
    } else if word == "SL"@ {
        Some(TokenView::SL)
    } else if word == "SR"@ {
        Some(TokenView::SR)
    } else if word == "ADD"@ {
        Some(TokenView::ADD)
    } else if word == "SUB"@ {
        Some(TokenView::SUB)
    } else if word == "ST"@ {
        Some(TokenView::ST)
    } else if word == "LD"@ {
        Some(TokenView::LD)
    } else if word == "LDI"@ {
        Some(TokenView::LDI)
    } else if word == "LDIU"@ {
        Some(TokenView::LDIU)
    } else if word == "ADDI"@ {
        Some(TokenView::ADDI)
    } else if word == "ADDIU"@ {
        Some(TokenView::ADDIU)
    } else if word == "LDHI"@ {
        Some(TokenView::LDHI)
    } else if word == "BEZ"@ {
        Some(TokenView::BEZ)
    } else if word == "BNZ"@ {
        Some(TokenView::BNZ)
    } else if word == "BPL"@ {
        Some(TokenView::BPL)
    } else if word == "BMI"@ {
        Some(TokenView::BMI)
    } else if word == "JMP"@ {
        Some(TokenView::JMP)
    } else if word == "JAL"@ {
        Some(TokenView::JAL)
    } else if word == "JR"@ {
        Some(TokenView::JR)
    } else if word == "JALR"@ {
        Some(TokenView::JALR)
    } else if word == "r0"@ {
        Some(TokenView::R0)
    } else if word == "r1"@ {
        Some(TokenView::R1)
    } else if word == "r2"@ {
        Some(TokenView::R2)
    } else if word == "r3"@ {
        Some(TokenView::R3)
    } else if word == "r4"@ {
        Some(TokenView::R4)
    } else if word == "r5"@ {
        Some(TokenView::R5)
    } else if word == "r6"@ {
        Some(TokenView::R6)
    } else if word == "r7"@ {
        Some(TokenView::R7)
    } else {
        None
    }
}

/// The token that a run of word characters is: its keyword, or else a name.
pub open spec fn word_token(word: Seq<char>) -> TokenView {
    match spec_keyword(word) {
        Some(t) => t,
        None => TokenView::Ident(word),
    }
}

/// What the tokenizer finds when it reads on from a position.
pub enum LexStep {
    /// Nothing but white space is left.
    End,
    /// A token, and the position behind its last character.
    Token(TokenView, int),
    /// A character that starts no token.
    Unknown(char),
}

/// One step of the tokenizer on the text `s`, read from position `pos`: white
/// space is passed over; a punctuation character is a token by itself; a
/// digit starts a number, which runs as far as digits go; any other word
/// character starts a word, which runs as far as word characters go.
pub open spec fn lex_at(s: Seq<char>, pos: int) -> LexStep {
    let start = run_end(s, pos, CharClass::Space);
    if !(0 <= start < s.len()) {
        LexStep::End
    } else if punctuation(s[start]) is Some {
        LexStep::Token(punctuation(s[start])->0, start + 1)
    } else if CharClass::Digit.holds(s[start]) {
        let end = run_end(s, start, CharClass::Digit);
        LexStep::Token(TokenView::Num(s.subrange(start, end)), end)
    } else if CharClass::Word.holds(s[start]) {
        let end = run_end(s, start, CharClass::Word);
        LexStep::Token(word_token(s.subrange(start, end)), end)
    } else {
        LexStep::Unknown(s[start])
    }
}

/// A run that starts inside the text ends inside it or at its end, and not
/// before its start; it is longer than nothing if its first character is of
/// the class.
pub proof fn lemma_run_end_bounds(s: Seq<char>, from: int, class: CharClass)
    requires
        0 <= from <= s.len(),
    ensures
        from <= run_end(s, from, class) <= s.len(),
        from < s.len() && class.holds(s[from]) ==> from < run_end(s, from, class),
        forall|i: int| from <= i < run_end(s, from, class) ==> class.holds(#[trigger] s[i]),
        run_end(s, from, class) < s.len() ==> !class.holds(s[run_end(s, from, class)]),
    decreases s.len() - from,
{
    if from < s.len() && class.holds(s[from]) {
        lemma_run_end_bounds(s, from + 1, class);
    }
}

/// A run of `class` characters that reaches to the end of the text ends
/// there.
pub proof fn lemma_run_end_of_all(s: Seq<char>, from: int, class: CharClass)
    requires
        0 <= from <= s.len(),
        forall|i: int| from <= i < s.len() ==> class.holds(#[trigger] s[i]),
    ensures
        run_end(s, from, class) == s.len(),
    decreases s.len() - from,
{
    if from < s.len() {
        lemma_run_end_of_all(s, from + 1, class);
    }
}

/// A token is never empty: the position behind it lies behind the position
/// the step began at, and inside the text or at its end.
pub proof fn lemma_lex_at_advances(s: Seq<char>, pos: int)
    ensures
        lex_at(s, pos) matches LexStep::Token(_, next) ==> 0 <= pos < next <= s.len(),
{
    let start = run_end(s, pos, CharClass::Space);
    if 0 <= pos <= s.len() {
        lemma_run_end_bounds(s, pos, CharClass::Space);
        if start < s.len() {
            lemma_run_end_bounds(s, start, CharClass::Digit);
            lemma_run_end_bounds(s, start, CharClass::Word);
        }
    }
}

/// All the tokens of `s` from position `pos` on, in order, or the first error.
pub open spec fn tokens_from(s: Seq<char>, pos: int) -> Result<Seq<TokenView>, AsmErrorView>
    decreases s.len() - pos,
{
    match lex_at(s, pos) {
        LexStep::End => Ok(Seq::empty()),
        LexStep::Unknown(c) => Err(AsmErrorView::Lex(Some(c))),
        LexStep::Token(t, next) => {
            proof {
                lemma_lex_at_advances(s, pos);
            }
            match tokens_from(s, next) {
                Ok(rest) => Ok(seq![t] + rest),
                Err(e) => Err(e),
            }
        },
    }
}

/// All the tokens of a source text.
pub open spec fn tokens_of(s: Seq<char>) -> Result<Seq<TokenView>, AsmErrorView> {
    tokens_from(s, 0)
}

/// The views of a sequence of tokens.
pub open spec fn token_views(tokens: Seq<Token>) -> Seq<TokenView> {
    tokens.map_values(|t: Token| t@)
}

/// The tokens of two texts, one behind the other: the error of the first
/// text, or else that of the second, or else the tokens of both.
pub open spec fn joined(
    first: Result<Seq<TokenView>, AsmErrorView>,
    second: Result<Seq<TokenView>, AsmErrorView>,
) -> Result<Seq<TokenView>, AsmErrorView> {
    match first {
        Err(e) => Err(e),
        Ok(x) => match second {
            Err(e) => Err(e),
            Ok(y) => Ok(x + y),
        },
    }
}

/// A run in the text `b` ends at the same character when other text stands
/// before `b`.
proof fn lemma_run_end_shift(x: Seq<char>, b: Seq<char>, p: int, class: CharClass)
    requires
        0 <= p <= b.len(),
    ensures
        run_end(x + b, x.len() + p, class) == x.len() + run_end(b, p, class),
    decreases b.len() - p,
{
    if p < b.len() {
        assert((x + b)[x.len() + p] == b[p]);
        if class.holds(b[p]) {
            lemma_run_end_shift(x, b, p + 1, class);
        }
    }
}

/// A run in the text `a` ends at the same character when a character that
/// is not of its class, and other text, stand behind `a`.
proof fn lemma_run_end_before(a: Seq<char>, c: char, b: Seq<char>, from: int, class: CharClass)
    requires
        !class.holds(c),
        0 <= from <= a.len(),
    ensures
        run_end(a + seq![c] + b, from, class) == run_end(a, from, class),
    decreases a.len() - from,
{
    let s = a + seq![c] + b;
    if from < a.len() {
        assert(s[from] == a[from]);
        if class.holds(a[from]) {
            lemma_run_end_before(a, c, b, from + 1, class);
        }
    } else {
        assert(s[from] == c);
    }
}

/// White space in the text `a` ends at the same character when white space
/// and other text stand behind `a`, unless it runs to the end of `a`: then it
/// runs on to where the white space at the start of `b` ends.
proof fn lemma_space_end_before_space(a: Seq<char>, w: char, b: Seq<char>, from: int)
    requires
        CharClass::Space.holds(w),
        0 <= from <= a.len(),
    ensures
        run_end(a + seq![w] + b, from, CharClass::Space) == if run_end(a, from, CharClass::Space)
            < a.len() {
            run_end(a, from, CharClass::Space)
        } else {
            a.len() + 1 + run_end(b, 0, CharClass::Space)
        },
    decreases a.len() - from,
{
    let s = a + seq![w] + b;
    lemma_run_end_bounds(a, from, CharClass::Space);
    if from < a.len() {
        assert(s[from] == a[from]);
        if CharClass::Space.holds(a[from]) {
            lemma_space_end_before_space(a, w, b, from + 1);
        }
    } else {
        assert(s[from] == w);
        lemma_run_end_shift(a + seq![w], b, 0, CharClass::Space);
    }
}

/// The tokenizer finds the same when it begins in white space as when it
/// begins where the white space ends.
proof fn lemma_lex_at_after_space(s: Seq<char>, pos: int)
    requires
        0 <= pos <= s.len(),
    ensures
        lex_at(s, pos) == lex_at(s, run_end(s, pos, CharClass::Space)),
        tokens_from(s, pos) == tokens_from(s, run_end(s, pos, CharClass::Space)),
{
    lemma_run_end_bounds(s, pos, CharClass::Space);
    let start = run_end(s, pos, CharClass::Space);
    assert(run_end(s, start, CharClass::Space) == start);
}

/// The tokens that are read from a position on are those of the text from
/// that position on: what stands before it has no part in them.
pub proof fn lemma_tokens_from_suffix(x: Seq<char>, b: Seq<char>, p: int)
    requires
        0 <= p <= b.len(),
    ensures
        tokens_from(x + b, x.len() + p) == tokens_from(b, p),
    decreases b.len() - p,
{
    let s = x + b;
    let off = x.len() as int;
    let start = run_end(b, p, CharClass::Space);
    lemma_run_end_shift(x, b, p, CharClass::Space);
    lemma_run_end_bounds(b, p, CharClass::Space);
    if start < b.len() {
        assert(s[off + start] == b[start]);
        lemma_run_end_shift(x, b, start, CharClass::Digit);
        lemma_run_end_shift(x, b, start, CharClass::Word);
        lemma_run_end_bounds(b, start, CharClass::Digit);
        lemma_run_end_bounds(b, start, CharClass::Word);
        let digits = run_end(b, start, CharClass::Digit);
        let word = run_end(b, start, CharClass::Word);
        assert(s.subrange(off + start, off + digits) =~= b.subrange(start, digits));
        assert(s.subrange(off + start, off + word) =~= b.subrange(start, word));
        lemma_lex_at_advances(b, p);
        match lex_at(b, p) {
            LexStep::Token(t, next) => {
                assert(lex_at(s, off + p) == LexStep::Token(t, off + next));
                lemma_tokens_from_suffix(x, b, next);
            },
            _ => {},
        }
    }
}

/// The tokens of a text that holds white space are the tokens of what
/// stands before the white space and the tokens of what stands behind it:
/// white space ends a token and is part of none.
pub proof fn lemma_tokens_around_space(a: Seq<char>, w: char, b: Seq<char>, pos: int)
    requires
        CharClass::Space.holds(w),
        0 <= pos <= a.len(),
    ensures
        tokens_from(a + seq![w] + b, pos) == joined(tokens_from(a, pos), tokens_of(b)),
    decreases a.len() - pos,
{
    let s = a + seq![w] + b;
    let start = run_end(a, pos, CharClass::Space);
    lemma_run_end_bounds(a, pos, CharClass::Space);
    lemma_space_end_before_space(a, w, b, pos);
    if start < a.len() {
        assert(s[start] == a[start]);
        lemma_run_end_before(a, w, b, start, CharClass::Digit);
        lemma_run_end_before(a, w, b, start, CharClass::Word);
        lemma_run_end_bounds(a, start, CharClass::Digit);
        lemma_run_end_bounds(a, start, CharClass::Word);
        let digits = run_end(a, start, CharClass::Digit);
        let word = run_end(a, start, CharClass::Word);
        assert(s.subrange(start, digits) =~= a.subrange(start, digits));
        assert(s.subrange(start, word) =~= a.subrange(start, word));
        lemma_lex_at_advances(a, pos);
        assert(lex_at(s, pos) == lex_at(a, pos));
        match lex_at(a, pos) {
            LexStep::Token(t, next) => {
                lemma_tokens_around_space(a, w, b, next);
                let before = tokens_from(a, next);
                let behind = tokens_of(b);
                if before is Ok && behind is Ok {
                    assert(seq![t] + (before->Ok_0 + behind->Ok_0) =~= (seq![t] + before->Ok_0)
                        + behind->Ok_0);
                }
            },
            _ => {},
        }
    } else {
        lemma_tokens_from_suffix(a + seq![w], b, 0);
        lemma_run_end_bounds(b, 0, CharClass::Space);
        lemma_lex_at_after_space(b, 0);
        lemma_tokens_from_suffix(a + seq![w], b, run_end(b, 0, CharClass::Space));
        let skipped = a.len() + 1 + run_end(b, 0, CharClass::Space);
        assert(run_end(s, skipped, CharClass::Space) == skipped) by {
            lemma_run_end_shift(
                a + seq![w],
                b,
                run_end(b, 0, CharClass::Space),
                CharClass::Space,
            );
        }
        assert(lex_at(s, pos) == lex_at(s, skipped));
        assert(tokens_from(s, pos) == tokens_from(s, skipped)) by {
            lemma_lex_at_advances(s, pos);
            lemma_lex_at_advances(s, skipped);
        }
        if tokens_of(b) is Ok {
            assert(Seq::<TokenView>::empty() + tokens_of(b)->Ok_0 =~= tokens_of(b)->Ok_0);
        }
    }
}

/// The tokens of a text that holds a punctuation mark are the tokens of what
/// stands before the mark, the mark, and the tokens of what stands behind
/// it: a mark ends a token and is one by itself.
pub proof fn lemma_tokens_around_mark(a: Seq<char>, mark: char, b: Seq<char>, pos: int)
    requires
        punctuation(mark) is Some,
        0 <= pos <= a.len(),
    ensures
        tokens_from(a + seq![mark] + b, pos) == joined(
            tokens_from(a, pos),
            joined(Ok(seq![punctuation(mark)->0]), tokens_of(b)),
        ),
    decreases a.len() - pos,
{
    let s = a + seq![mark] + b;
    let start = run_end(a, pos, CharClass::Space);
    let behind = joined(Ok(seq![punctuation(mark)->0]), tokens_of(b));
    lemma_run_end_bounds(a, pos, CharClass::Space);
    lemma_run_end_before(a, mark, b, pos, CharClass::Space);
    if start < a.len() {
        assert(s[start] == a[start]);
        lemma_run_end_before(a, mark, b, start, CharClass::Digit);
        lemma_run_end_before(a, mark, b, start, CharClass::Word);
        lemma_run_end_bounds(a, start, CharClass::Digit);
        lemma_run_end_bounds(a, start, CharClass::Word);
        let digits = run_end(a, start, CharClass::Digit);
        let word = run_end(a, start, CharClass::Word);
        assert(s.subrange(start, digits) =~= a.subrange(start, digits));
        assert(s.subrange(start, word) =~= a.subrange(start, word));
        lemma_lex_at_advances(a, pos);
        assert(lex_at(s, pos) == lex_at(a, pos));
        match lex_at(a, pos) {
            LexStep::Token(t, next) => {
                lemma_tokens_around_mark(a, mark, b, next);
                let before = tokens_from(a, next);
                if before is Ok && behind is Ok {
                    assert(seq![t] + (before->Ok_0 + behind->Ok_0) =~= (seq![t] + before->Ok_0)
                        + behind->Ok_0);
                }
            },
            _ => {},
        }
    } else {
        assert(s[start] == mark);
        assert(lex_at(s, pos) == LexStep::Token(punctuation(mark)->0, start + 1));
        lemma_tokens_from_suffix(a + seq![mark], b, 0);
        if behind is Ok {
            assert(Seq::<TokenView>::empty() + behind->Ok_0 =~= behind->Ok_0);
        }
    }
}

/// A text of word characters, the first of them no digit, is one token: its
/// keyword, or else a name.
pub proof fn lemma_tokens_of_word(word: Seq<char>)
    requires
        word.len() > 0,
        forall|i: int| 0 <= i < word.len() ==> CharClass::Word.holds(#[trigger] word[i]),
        !CharClass::Digit.holds(word[0]),
    ensures
        tokens_of(word) == Ok::<Seq<TokenView>, AsmErrorView>(seq![word_token(word)]),
{
    lemma_run_end_of_all(word, 0, CharClass::Word);
    assert(word.subrange(0, word.len() as int) =~= word);
    assert(lex_at(word, 0) == LexStep::Token(word_token(word), word.len() as int));
    assert(tokens_from(word, word.len() as int) == Ok::<Seq<TokenView>, AsmErrorView>(
        Seq::empty(),
    ));
    assert(seq![word_token(word)] + Seq::<TokenView>::empty() =~= seq![word_token(word)]);
}

/// A text of digits is one token: a number.
pub proof fn lemma_tokens_of_digits(digits: Seq<char>)
    requires
        digits.len() > 0,
        forall|i: int| 0 <= i < digits.len() ==> CharClass::Digit.holds(#[trigger] digits[i]),
    ensures
        tokens_of(digits) == Ok::<Seq<TokenView>, AsmErrorView>(seq![TokenView::Num(digits)]),
{
    lemma_run_end_of_all(digits, 0, CharClass::Digit);
    assert(digits.subrange(0, digits.len() as int) =~= digits);
    assert(lex_at(digits, 0) == LexStep::Token(TokenView::Num(digits), digits.len() as int));
    assert(tokens_from(digits, digits.len() as int) == Ok::<Seq<TokenView>, AsmErrorView>(
        Seq::empty(),
    ));
    assert(seq![TokenView::Num(digits)] + Seq::<TokenView>::empty() =~= seq![
        TokenView::Num(digits),
    ]);
}

/// The tokens of a text do not depend on which white space stands between
/// them, nor on how much of it: one white space character may stand for
/// another, and two of them for one.
pub proof fn lemma_layout(a: Seq<char>, w1: char, w2: char, b: Seq<char>)
    requires
        CharClass::Space.holds(w1),
        CharClass::Space.holds(w2),
    ensures
        tokens_of(a + seq![w1] + b) == joined(tokens_of(a), tokens_of(b)),
        tokens_of(a + seq![w1] + b) == tokens_of(a + seq![w2] + b),
        tokens_of(a + seq![w1] + seq![w2] + b) == tokens_of(a + seq![w1] + b),
        tokens_of(seq![w1] + b) == tokens_of(b),
        tokens_of(a + seq![w1]) == tokens_of(a),
{
    let none = Seq::<char>::empty();
    lemma_tokens_around_space(a, w1, b, 0);
    lemma_tokens_around_space(a, w2, b, 0);
    // a blank before `b` adds nothing to the tokens of `b`
    lemma_tokens_around_space(none, w2, b, 0);
    lemma_tokens_around_space(none, w1, b, 0);
    assert(none + seq![w2] + b =~= seq![w2] + b);
    assert(none + seq![w1] + b =~= seq![w1] + b);
    if tokens_of(b) is Ok {
        assert(Seq::<TokenView>::empty() + tokens_of(b)->Ok_0 =~= tokens_of(b)->Ok_0);
    }
    lemma_tokens_around_space(a, w1, seq![w2] + b, 0);
    assert(a + seq![w1] + (seq![w2] + b) =~= a + seq![w1] + seq![w2] + b);
    // a blank behind `a` adds nothing to the tokens of `a`
    lemma_tokens_around_space(a, w1, none, 0);
    assert(a + seq![w1] + none =~= a + seq![w1]);
    if tokens_of(a) is Ok {
        assert(tokens_of(a)->Ok_0 + Seq::<TokenView>::empty() =~= tokens_of(a)->Ok_0);
    }
}

/// Looks a word up in the keyword table.
pub fn keyword(word: &str) -> (t: Option<Token>)
    ensures
        match t {
            Some(tok) => spec_keyword(word@) == Some(tok@),
            None => spec_keyword(word@) is None,
        },
{
    if same_text(word, "NOP") {
        Some(Token::NOP)
    } else if same_text(word, "MV") {
        Some(Token::MV)
    } else if same_text(word, "AND") {
        Some(Token::AND)
    } else if same_text(word, "OR") {
        Some(Token::OR)
    } else if same_text(word, "SL") {
        Some(Token::SL)
    } else if same_text(word, "SR") {
        Some(Token::SR)
    } else if same_text(word, "ADD") {
        Some(Token::ADD)
    } else if same_text(word, "SUB") {
        Some(Token::SUB)
    } else if same_text(word, "ST") {
        Some(Token::ST)
    } else if same_text(word, "LD") {
        Some(Token::LD)
    } else if same_text(word, "LDI") {
        Some(Token::LDI)
    } else if same_text(word, "LDIU") {
        Some(Token::LDIU)
    } else if same_text(word, "ADDI") {
        Some(Token::ADDI)
    } else if same_text(word, "ADDIU") {
        Some(Token::ADDIU)
    } else if same_text(word, "LDHI") {
        Some(Token::LDHI)
    } else if same_text(word, "BEZ") {
        Some(Token::BEZ)
    } else if same_text(word, "BNZ") {
        Some(Token::BNZ)
    } else if same_text(word, "BPL") {
        Some(Token::BPL)
    } else if same_text(word, "BMI") {
        Some(Token::BMI)
    } else if same_text(word, "JMP") {
        Some(Token::JMP)
    } else if same_text(word, "JAL") {
        Some(Token::JAL)
    } else if same_text(word, "JR") {
        Some(Token::JR)
    } else if same_text(word, "JALR") {
        Some(Token::JALR)
    } else if same_text(word, "r0") {
        Some(Token::R0)
    } else if same_text(word, "r1") {
        Some(Token::R1)
    } else if same_text(word, "r2") {
        Some(Token::R2)
    } else if same_text(word, "r3") {
        Some(Token::R3)
    } else if same_text(word, "r4") {
        Some(Token::R4)
    } else if same_text(word, "r5") {
        Some(Token::R5)
    } else if same_text(word, "r6") {
        Some(Token::R6)
    } else if same_text(word, "r7") {
        Some(Token::R7)
    } else {
        None
    }
}

/// A tokenizer over one source text. It hands out the tokens one by one,
/// from the front, and never goes back.
#[derive(Debug)]
pub struct Lexer {
    chars: Vec<char>,
    pos: usize,
}

impl Lexer {
    #[verifier::type_invariant]
    spec fn in_bounds(self) -> bool {
        self.pos <= self.chars.len()
    }

    /// The whole text that the tokenizer was made for.
    pub closed spec fn input(&self) -> Seq<char> {
        self.chars@
    }

    /// How many characters of the text have been read.
    pub closed spec fn position(&self) -> int {
        self.pos as int
    }

    /// A tokenizer at the start of `input`.
    pub fn new(input: &str) -> (lexer: Self)
        ensures
            lexer.input() == input@,
            lexer.position() == 0,
    {
        Lexer { chars: chars_of(input), pos: 0 }
    }

    /// Steps over one character, if one is left.
    fn read_char(&mut self)
        ensures
            final(self).input() == old(self).input(),
            final(self).position() == if old(self).position() < old(self).input().len() {
                old(self).position() + 1
            } else {
                old(self).position()
            },
    {
        proof {
            use_type_invariant(&*self);
        }
        if self.pos < self.chars.len() {
            self.pos = self.pos + 1;
        }
    }

    /// Steps over the run of `class` characters at the current position.
    fn skip_run(&mut self, class: CharClass)
        ensures
            final(self).input() == old(self).input(),
            final(self).position() == run_end(old(self).input(), old(self).position(), class),
            old(self).position() <= final(self).position() <= old(self).input().len(),
    {
        proof {
            use_type_invariant(&*self);
        }
        while self.pos < self.chars.len() && class.holds(self.chars[self.pos])
            invariant
                self.chars == old(self).chars,
                old(self).pos <= self.pos <= self.chars.len(),
                run_end(self.chars@, self.pos as int, class) == run_end(
                    old(self).chars@,
                    old(self).pos as int,
                    class,
                ),
            decreases self.chars.len() - self.pos,
        {
            self.pos = self.pos + 1;
        }
    }

    /// Steps over white space.
    fn skip_whitespace(&mut self)
        ensures
            final(self).input() == old(self).input(),
            final(self).position() == run_end(
                old(self).input(),
                old(self).position(),
                CharClass::Space,
            ),
            old(self).position() <= final(self).position() <= old(self).input().len(),
    {
        self.skip_run(CharClass::Space);
    }

    /// Reads the number that starts at the current position.
    fn read_number(&mut self) -> (token: Token)
        ensures
            final(self).input() == old(self).input(),
            final(self).position() == run_end(
                old(self).input(),
                old(self).position(),
                CharClass::Digit,
            ),
            token@ == TokenView::Num(
                old(self).input().subrange(old(self).position(), final(self).position()),
            ),
    {
        let start: usize = self.pos;
        self.skip_run(CharClass::Digit);
        Token::Num(string_of(&self.chars, start, self.pos))
    }

    /// Reads the word that starts at the current position.
    fn read_str(&mut self) -> (word: String)
        ensures
            final(self).input() == old(self).input(),
            final(self).position() == run_end(
                old(self).input(),
                old(self).position(),
                CharClass::Word,
            ),
            word@ == old(self).input().subrange(old(self).position(), final(self).position()),
    {
        let start: usize = self.pos;
        self.skip_run(CharClass::Word);
        string_of(&self.chars, start, self.pos)
    }

    /// Reads the next token. `Ok(None)` says that the text is at its end.
    /// After an error the tokenizer stays at the character it could not read.
    pub fn next_token(&mut self) -> (r: Result<Option<Token>, AsmError>)
        ensures
            final(self).input() == old(self).input(),
            old(self).position() <= final(self).position() <= old(self).input().len(),
            match lex_at(old(self).input(), old(self).position()) {
                LexStep::End => {
                    &&& r matches Ok(None)
                    &&& final(self).position() == old(self).input().len()
                },
                LexStep::Token(t, next) => {
                    &&& r matches Ok(Some(token))
                    &&& token@ == t
                    &&& final(self).position() == next
                },
                LexStep::Unknown(c) => {
                    &&& r matches Err(e)
                    &&& e@ == AsmErrorView::Lex(Some(c))
                    &&& final(self).position() == run_end(
                        old(self).input(),
                        old(self).position(),
                        CharClass::Space,
                    )
                },
            },
    {
        self.skip_whitespace();
        proof {
            use_type_invariant(&*self);
            lemma_run_end_bounds(self.chars@, self.pos as int, CharClass::Digit);
            lemma_run_end_bounds(self.chars@, self.pos as int, CharClass::Word);
        }
        if self.pos >= self.chars.len() {
            return Ok(None);
        }
        let ch: char = self.chars[self.pos];
        let token = if ch == '#' {
            Token::Sharp
        } else if ch == '-' {
            Token::Minus
        } else if ch == ',' {
            Token::Comma
        } else if ch == ':' {
            Token::Colon
        } else if ch == '(' {
            Token::OpenParen
        } else if ch == ')' {
            Token::CloseParen
        } else if CharClass::Digit.holds(ch) {
            return Ok(Some(self.read_number()));
        } else if CharClass::Word.holds(ch) {
            let word = self.read_str();
            return Ok(
                Some(
                    match keyword(word.as_str()) {
                        Some(t) => t,
                        None => Token::Ident(word),
                    },
                ),
            );
        } else {
            return Err(AsmError::Lex(Some(ch)));
        };
        self.read_char();
        Ok(Some(token))
    }
}

/// Reads all the tokens of a source text.
pub fn tokenize(input: &str) -> (r: Result<Vec<Token>, AsmError>)
    ensures
        match tokens_of(input@) {
            Ok(expected) => r matches Ok(tokens) && token_views(tokens@) == expected,
            Err(error) => r matches Err(e) && e@ == error,
        },
{
    let mut lexer = Lexer::new(input);
    let mut tokens: Vec<Token> = Vec::new();
    loop
        invariant
            lexer.input() == input@,
            0 <= lexer.position() <= input@.len(),
            tokens_of(input@) == match tokens_from(input@, lexer.position()) {
                Ok(rest) => Ok::<Seq<TokenView>, AsmErrorView>(token_views(tokens@) + rest),
                Err(e) => Err(e),
            },
        decreases input@.len() - lexer.position(),
    {
        let ghost seen = token_views(tokens@);
        proof {
            lemma_lex_at_advances(input@, lexer.position());
        }
        match lexer.next_token() {
            Err(e) => {
                return Err(e);
            },
            Ok(None) => {
                assert(seen + Seq::<TokenView>::empty() =~= seen);
                return Ok(tokens);
            },
            Ok(Some(token)) => {
                proof {
                    let rest = tokens_from(input@, lexer.position());
                    if rest is Ok {
                        assert(seen + (seq![token@] + rest->Ok_0) =~= seen.push(token@)
                            + rest->Ok_0);
                    }
                    assert(token_views(tokens@.push(token)) =~= seen.push(token@));
                }
                tokens.push(token);
            },
        }
    }
}

} // verus!
