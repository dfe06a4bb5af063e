use vstd::prelude::*;
use vstd::string::StringExecFns;
use crate::error::{AsmError, AsmErrorView};
use crate::lexer::{lemma_run_end_of_all, run_end, CharClass};
use crate::text::{chars_of, integer_text, natural_text, push_integer, string_of};

verus! {

/// The number that the decimal digit `c` writes.
pub open spec fn digit_value(c: char) -> nat {
    (c as int - '0' as int) as nat
}

/// The number that a run of decimal digits writes.
pub open spec fn decimal_value(digits: Seq<char>) -> nat
    decreases digits.len(),
{
    if digits.len() == 0 {
        0
    } else {
        decimal_value(digits.drop_last()) * 10 + digit_value(digits.last())
    }
}

/// The number that `digits` writes, if it is a run of decimal digits and not
/// empty. Else the error names the first character that is no digit, or none
/// where no character is there at all.
pub open spec fn magnitude_of(digits: Seq<char>) -> Result<nat, AsmErrorView> {
    let end = run_end(digits, 0, CharClass::Digit);
    if digits.len() == 0 {
        Err(AsmErrorView::Lex(None))
    } else if end < digits.len() {
        Err(AsmErrorView::Lex(Some(digits[end])))
    } else {
        Ok(decimal_value(digits))
    }
}

/// A literal as it is written: a `-` before the digits if it is negative.
pub open spec fn signed_text(negative: bool, digits: Seq<char>) -> Seq<char> {
    if negative {
        seq!['-'] + digits
    } else {
        digits
    }
}

/// The immediate that a literal writes: the number of its digits, negated
/// where a `-` stands before them, if that lies in `-128..=127`.
pub open spec fn immediate_of(negative: bool, digits: Seq<char>) -> Result<i8, AsmErrorView> {
    match magnitude_of(digits) {
        Err(e) => Err(e),
        Ok(magnitude) => {
            let value = if negative {
                -(magnitude as int)
            } else {
                magnitude as int
            };
            if -128 <= value <= 127 {
                Ok(value as i8)
            } else {
                Err(AsmErrorView::ImmediateOutOfRange(signed_text(negative, digits)))
            }
        },
    }
}

/// The immediate that the text of a literal writes, where the text may begin
/// with a sign, `+` or `-`.
pub open spec fn literal_value(text: Seq<char>) -> Result<i8, AsmErrorView> {
    if text.len() > 0 && text[0] == '-' {
        immediate_of(true, text.skip(1))
    } else if text.len() > 0 && text[0] == '+' {
        immediate_of(false, text.skip(1))
    } else {
        immediate_of(false, text)
    }
}

/// A literal is accepted where the number it writes lies in `-128..=127`,
/// and nowhere else: both ends of the range are immediates, and a number one
/// past either end is none.
pub proof fn lemma_immediate_range(negative: bool, digits: Seq<char>)
    requires
        magnitude_of(digits) is Ok,
    ensures
        ({
            let magnitude = magnitude_of(digits)->Ok_0 as int;
            let value = if negative {
                -magnitude
            } else {
                magnitude
            };
            if -128 <= value <= 127 {
                immediate_of(negative, digits) matches Ok(v) && v == value
            } else {
                immediate_of(negative, digits) == Err::<i8, AsmErrorView>(
                    AsmErrorView::ImmediateOutOfRange(signed_text(negative, digits)),
                )
            }
        }),
{
}

/// The decimal digits of a number are digits, at least one, and write that
/// number.
pub proof fn lemma_natural_text_reads_back(n: nat)
    ensures
        natural_text(n).len() > 0,
        forall|i: int|
            0 <= i < natural_text(n).len() ==> CharClass::Digit.holds(
                #[trigger] natural_text(n)[i],
            ),
        decimal_value(natural_text(n)) == n,
        magnitude_of(natural_text(n)) == Ok::<nat, AsmErrorView>(n),
    decreases n,
{
    let text = natural_text(n);
    if n < 10 {
        assert(text.drop_last() =~= Seq::<char>::empty());
        assert(decimal_value(text.drop_last()) == 0);
    } else {
        lemma_natural_text_reads_back(n / 10);
        assert(text.drop_last() =~= natural_text(n / 10));
    }
    lemma_run_end_of_all(text, 0, CharClass::Digit);
}

/// The literal that writes a number in decimal reads back as that number.
pub proof fn lemma_integer_text_reads_back(n: i8)
    ensures
        literal_value(integer_text(n as int)) == Ok::<i8, AsmErrorView>(n),
{
    let text = integer_text(n as int);
    if n < 0 {
        let digits = natural_text((-n) as nat);
        lemma_natural_text_reads_back((-n) as nat);
        assert(text.skip(1) =~= digits);
    } else {
        lemma_natural_text_reads_back(n as nat);
        assert(CharClass::Digit.holds(text[0]));
    }
}

/// A longer run of digits writes no smaller number.
proof fn lemma_decimal_value_grows(digits: Seq<char>, c: char)
    requires
        CharClass::Digit.holds(c),
    ensures
        decimal_value(digits.push(c)) == decimal_value(digits) * 10 + digit_value(c),
        decimal_value(digits.push(c)) >= decimal_value(digits),
{
    assert(digits.push(c).drop_last() =~= digits);
    assert(digits.push(c).last() == c);
}

/// Reads the number that `digits` writes. A number above 128 is given as 129.
fn read_magnitude(digits: &Vec<char>) -> (r: Result<u16, AsmError>)
    ensures
        match r {
            Ok(m) => magnitude_of(digits@) matches Ok(v) && m == if v > 128 {
                129
            } else {
                v
            },
            Err(e) => magnitude_of(digits@) == Err::<nat, AsmErrorView>(e@),
        },
{
    if digits.len() == 0 {
        return Err(AsmError::Lex(None));
    }
    let mut value: u16 = 0;
    let mut i: usize = 0;
    while i < digits.len()
        invariant
            i <= digits.len(),
            run_end(digits@, 0, CharClass::Digit) == run_end(digits@, i as int, CharClass::Digit),
            value == if decimal_value(digits@.take(i as int)) > 128 {
                129
            } else {
                decimal_value(digits@.take(i as int))
            },
        decreases digits.len() - i,
    {
        let c: char = digits[i];
        if !CharClass::Digit.holds(c) {
            return Err(AsmError::Lex(Some(c)));
        }
        proof {
            lemma_decimal_value_grows(digits@.take(i as int), c);
            assert(digits@.take(i + 1) =~= digits@.take(i as int).push(c));
        }
        let d: u16 = (c as u32 - '0' as u32) as u16;
        value = value * 10 + d;
        if value > 128 {
            value = 129;
        }
        i = i + 1;
    }
    assert(digits@.take(digits.len() as int) =~= digits@);
    Ok(value)
}

/// Converts a literal to the immediate it writes. `digits` is the run of
/// decimal digits; `negative` says that a `-` stands before it.
pub fn immediate(negative: bool, digits: &str) -> (r: Result<i8, AsmError>)
    ensures
        match immediate_of(negative, digits@) {
            Ok(expected) => r matches Ok(v) && v == expected,
            Err(error) => r matches Err(e) && e@ == error,
        },
{
    let chars = chars_of(digits);
    let magnitude: u16 = match read_magnitude(&chars) {
        Ok(m) => m,
        Err(e) => {
            return Err(e);
        },
    };
    if negative && magnitude <= 128 {
        Ok((-(magnitude as i16)) as i8)
    } else if !negative && magnitude <= 127 {
        Ok(magnitude as i8)
    } else {
        let mut literal = String::new();
        if negative {
            literal.push('-');
        }
        literal.append(digits);
        assert(literal@ =~= signed_text(negative, digits@));
        Err(AsmError::ImmediateOutOfRange(literal))
    }
}

/// An integer literal: its text, kept as it was written.
#[derive(Debug, PartialEq, Eq)]
pub struct LitInt {
    pub digits: String,
}

impl View for LitInt {
    type V = Seq<char>;

    open spec fn view(&self) -> Seq<char> {
        self.digits@
    }
}

impl Clone for LitInt {
    fn clone(&self) -> (r: Self)
        ensures
            r@ == self@,
    {
        LitInt { digits: self.digits.clone() }
    }
}

impl LitInt {
    /// The immediate that the literal writes. The text may begin with a sign.
    pub fn to_immediate(&self) -> (r: Result<i8, AsmError>)
        ensures
            match literal_value(self@) {
                Ok(expected) => r matches Ok(v) && v == expected,
                Err(error) => r matches Err(e) && e@ == error,
            },
    {
        let chars = chars_of(self.digits.as_str());
        if chars.len() > 0 && (chars[0] == '-' || chars[0] == '+') {
            let rest = string_of(&chars, 1, chars.len());
            assert(chars@.subrange(1, chars.len() as int) =~= chars@.skip(1));
            immediate(chars[0] == '-', rest.as_str())
        } else {
            immediate(false, self.digits.as_str())
        }
    }

    /// The literal as it was written.
    pub fn to_text(&self) -> (s: String)
        ensures
            s@ == self@,
    {
        self.digits.clone()
    }
}

/// A literal operand.
#[derive(Debug, PartialEq, Eq)]
pub enum Lit {
    Int(LitInt),
}

impl View for Lit {
    type V = Seq<char>;

    open spec fn view(&self) -> Seq<char> {
        match self {
            Lit::Int(l) => l@,
        }
    }
}

impl Clone for Lit {
    fn clone(&self) -> (r: Self)
        ensures
            r@ == self@,
    {
        match self {
            Lit::Int(l) => Lit::Int(l.clone()),
        }
    }
}

impl From<i8> for Lit {
    /// The literal that writes `n` in decimal.
    fn from(n: i8) -> (lit: Self)
        ensures
            lit@ == integer_text(n as int),
    {
        let mut digits = String::new();
        push_integer(&mut digits, n);
        assert(digits@ =~= integer_text(n as int));
        Lit::Int(LitInt { digits })
    }
}

impl vstd::std_specs::convert::FromSpecImpl<i8> for Lit {
    /// No spec function can build the `String` inside a `Lit`: what `from`
    /// returns is stated by its own `ensures`, over the view.
    open spec fn obeys_from_spec() -> bool {
        false
    }

    open spec fn from_spec(n: i8) -> Self {
        arbitrary()
    }
}

impl Lit {
    /// The literal as it was written.
    pub fn to_text(&self) -> (s: String)
        ensures
            s@ == self@,
    {
        match self {
            Lit::Int(l) => l.to_text(),
        }
    }
}

} // verus!
