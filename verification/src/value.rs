//! Runtime values: a closed set of variants, matched exhaustively wherever a
//! value is consumed.
//!
//! A number is held as the bit pattern of a double. What can be said of a
//! pattern in a few lines is decided here: equality, the sign, whether it is
//! a NaN. The four arithmetic operations and the text of a number are
//! functions that the caller hands in; the contracts speak of them through
//! the relation between what such a function is given and what it may
//! return.
//!
//! A value has two renderings: its text, and its debug form, which names
//! the variant and shows text quoted and escaped. The quoting is that of
//! the standard library; it is called, and its result goes by a name.

use crate::opcodes::OpCode;
use vstd::prelude::*;
use vstd::std_specs::cmp::PartialEqSpecImpl;

verus! {

/// The sign bit of an IEEE-754 double precision bit pattern.
pub const SIGN_BIT: u64 = 0x8000_0000_0000_0000;

/// The exponent bits of an IEEE-754 double precision bit pattern; with all
/// of them set and nothing below, the pattern is an infinity.
pub const EXPONENT_BITS: u64 = 0x7ff0_0000_0000_0000;

/// A runtime value.
///
/// A number is an IEEE-754 double precision value, held as its bit pattern
/// (what `to_bits` gives, and `from_bits` takes back).
#[derive(Debug)]
pub enum Value {
    /// A piece of text.
    String_(String),
    /// A truth value.
    Bool(bool),
    /// A double precision number, by its bit pattern.
    Number(u64),
    /// The absent value.
    Nil,
}

/// What a value is: the same variants, with text as a sequence of
/// characters.
pub enum ValueView {
    String_(Seq<char>),
    Bool(bool),
    Number(u64),
    Nil,
}

impl View for Value {
    type V = ValueView;

    open spec fn view(&self) -> ValueView {
        match self {
            Value::String_(s) => ValueView::String_(s@),
            Value::Bool(b) => ValueView::Bool(*b),
            Value::Number(bits) => ValueView::Number(*bits),
            Value::Nil => ValueView::Nil,
        }
    }
}

/// The views of a sequence of values, in the same order.
pub open spec fn views(values: Seq<Value>) -> Seq<ValueView> {
    values.map_values(|v: Value| v@)
}

/// The bit pattern of a number without its sign.
pub open spec fn magnitude(bits: u64) -> u64 {
    if bits >= SIGN_BIT {
        (bits - SIGN_BIT) as u64
    } else {
        bits
    }
}

/// Whether a bit pattern is a NaN: all exponent bits set and a fraction
/// that is not zero.
pub open spec fn is_nan(bits: u64) -> bool {
    magnitude(bits) > EXPONENT_BITS
}

/// Whether two bit patterns are equal as numbers. A NaN equals nothing, not
/// even itself; the two zeros are equal; otherwise the patterns must agree.
pub open spec fn number_eq(a: u64, b: u64) -> bool {
    &&& !is_nan(a)
    &&& !is_nan(b)
    &&& (a == b || (magnitude(a) == 0 && magnitude(b) == 0))
}

/// The bit pattern of the negation of a number: the same pattern with the
/// sign bit flipped.
pub open spec fn negated(bits: u64) -> u64 {
    bits ^ SIGN_BIT
}

impl ValueView {
    /// Whether two values are equal: of the same variant, with equal
    /// contents, numbers compared as numbers.
    pub open spec fn equals(self, other: ValueView) -> bool {
        match (self, other) {
            (ValueView::String_(a), ValueView::String_(b)) => a == b,
            (ValueView::Bool(a), ValueView::Bool(b)) => a == b,
            (ValueView::Number(a), ValueView::Number(b)) => number_eq(a, b),
            (ValueView::Nil, ValueView::Nil) => true,
            _ => false,
        }
    }
}

/// What `alu` computes, as a relation: it holds of an operation, a left and
/// a right operand and an outcome where `alu` may return that outcome for
/// that operation on those operands.
pub open spec fn outcomes_of<F: Fn(OpCode, u64, u64) -> u64>(alu: F) -> spec_fn(
    OpCode,
    u64,
    u64,
    u64,
) -> bool {
    |op: OpCode, left: u64, right: u64, outcome: u64| call_ensures(
        alu,
        (op, left, right),
        outcome,
    )
}

/// Whether each operation has one outcome only: any two outcomes that
/// `outcomes` relates to the same operation on the same operands are the
/// same.
pub open spec fn computes_one_way(outcomes: spec_fn(OpCode, u64, u64, u64) -> bool) -> bool {
    forall|op: OpCode, left: u64, right: u64, a: u64, b: u64|
        #![trigger outcomes(op, left, right, a), outcomes(op, left, right, b)]
        outcomes(op, left, right, a) && outcomes(op, left, right, b) ==> a == b
}

/// How `number_text` renders numbers, as a relation: it holds of a bit
/// pattern and a text where `number_text` may return that text for that
/// pattern.
pub open spec fn renderings<F: Fn(u64) -> String>(number_text: F) -> spec_fn(
    u64,
    Seq<char>,
) -> bool {
    |bits: u64, text: Seq<char>|
        exists|s: String| #[trigger] call_ensures(number_text, (bits,), s) && s@ == text
}

/// Whether `text` is a rendering of `value`, where `number_texts` relates
/// each number to its texts: `true` or `false` for a truth value, the text
/// itself for text, `nil` for the absent value, and for a number a text that
/// `number_texts` relates to its bit pattern.
pub open spec fn is_text_of(
    number_texts: spec_fn(u64, Seq<char>) -> bool,
    value: ValueView,
    text: Seq<char>,
) -> bool {
    match value {
        ValueView::String_(s) => text == s,
        ValueView::Bool(b) => text == if b {
            "true"@
        } else {
            "false"@
        },
        ValueView::Number(bits) => number_texts(bits, text),
        ValueView::Nil => text == "nil"@,
    }
}

/// What the debug form of a piece of text is: the text between double
/// quotes, with the characters that cannot stand there as they are written
/// as escapes.
pub uninterp spec fn debug_quoted(text: Seq<char>) -> Seq<char>;

/// The name of a variant, followed by what the variant holds between round
/// brackets.
pub open spec fn in_variant(name: Seq<char>, contents: Seq<char>) -> Seq<char> {
    name + "("@ + contents + ")"@
}

/// Whether `text` is the debug form of the number with the given bit
/// pattern: the variant's name around a text that `number_texts` relates to
/// the pattern.
pub open spec fn is_number_debug_text(
    number_texts: spec_fn(u64, Seq<char>) -> bool,
    bits: u64,
    text: Seq<char>,
) -> bool {
    exists|shown: Seq<char>| #[trigger]
        number_texts(bits, shown) && text == in_variant("Number"@, shown)
}

/// Whether `text` is the debug form of `value`, where `number_texts`
/// relates each number to its texts: the name of the variant, and between
/// round brackets what it holds. Text is quoted and escaped, a truth value
/// is `true` or `false`, a number is a text that `number_texts` relates to
/// its bit pattern, and the absent value is the name `Nil` alone.
pub open spec fn is_debug_text_of(
    number_texts: spec_fn(u64, Seq<char>) -> bool,
    value: ValueView,
    text: Seq<char>,
) -> bool {
    match value {
        ValueView::String_(s) => text == in_variant("String_"@, debug_quoted(s)),
        ValueView::Bool(b) => text == in_variant(
            "Bool"@,
            if b {
                "true"@
            } else {
                "false"@
            },
        ),
        ValueView::Number(bits) => is_number_debug_text(number_texts, bits, text),
        ValueView::Nil => text == "Nil"@,
    }
}

/// Whether the number with the given bit pattern has one text only: any two
/// texts that `number_texts` relates to the pattern are the same.
pub open spec fn has_one_text(number_texts: spec_fn(u64, Seq<char>) -> bool, bits: u64) -> bool {
    forall|a: Seq<char>, b: Seq<char>|
        #![trigger number_texts(bits, a), number_texts(bits, b)]
        number_texts(bits, a) && number_texts(bits, b) ==> a == b
}

/// Whether `value` is rendered in one way only: it is no number, or it is a
/// number that has one text only.
pub open spec fn renders_one_way(
    number_texts: spec_fn(u64, Seq<char>) -> bool,
    value: ValueView,
) -> bool {
    match value {
        ValueView::Number(bits) => has_one_text(number_texts, bits),
        _ => true,
    }
}

/// A value that is rendered in one way only has one text only.
pub proof fn lemma_text_unique(
    number_texts: spec_fn(u64, Seq<char>) -> bool,
    value: ValueView,
    a: Seq<char>,
    b: Seq<char>,
)
    requires
        renders_one_way(number_texts, value),
        is_text_of(number_texts, value, a),
        is_text_of(number_texts, value, b),
    ensures
        a == b,
{
}

/// A value that is rendered in one way only has one debug form only.
pub proof fn lemma_debug_text_unique(
    number_texts: spec_fn(u64, Seq<char>) -> bool,
    value: ValueView,
    a: Seq<char>,
    b: Seq<char>,
)
    requires
        renders_one_way(number_texts, value),
        is_debug_text_of(number_texts, value, a),
        is_debug_text_of(number_texts, value, b),
    ensures
        a == b,
{
    if let ValueView::Number(bits) = value {
        let shown_a = choose|shown: Seq<char>| #[trigger]
            number_texts(bits, shown) && a == in_variant("Number"@, shown);
        let shown_b = choose|shown: Seq<char>| #[trigger]
            number_texts(bits, shown) && b == in_variant("Number"@, shown);
        assert(shown_a == shown_b);
    }
}

/// The debug form of a piece of text, as `{:?}` formats a `str`. This is
/// `<str as core::fmt::Debug>::fmt` of the standard library, reached through
/// `format!`. Nothing is proved of it: the contract only gives its result
/// the name `debug_quoted`, which says that the result depends on the
/// characters of the text and on nothing else.
#[verifier::external_body]
fn quoted(text: &str) -> (shown: String)
    ensures
        shown@ == debug_quoted(text@),
{
    format!("{:?}", text)
}

/// The text of a variant: its name, and between round brackets what it
/// holds.
pub fn variant_text(name: &str, contents: &str) -> (text: String)
    ensures
        text@ == in_variant(name@, contents@),
{
    let mut text = String::from_str(name);
    text.append("(");
    text.append(contents);
    text.append(")");
    assert(text@ =~= in_variant(name@, contents@));
    text
}

fn magnitude_of(bits: u64) -> (m: u64)
    ensures
        m == magnitude(bits),
{
    if bits >= SIGN_BIT {
        bits - SIGN_BIT
    } else {
        bits
    }
}

/// Compares two bit patterns as numbers.
pub fn numbers_equal(a: u64, b: u64) -> (equal: bool)
    ensures
        equal == number_eq(a, b),
{
    let ma = magnitude_of(a);
    let mb = magnitude_of(b);
    ma <= EXPONENT_BITS && mb <= EXPONENT_BITS && (a == b || (ma == 0 && mb == 0))
}

/// Negates a number, by flipping the sign bit of its pattern.
pub fn negate_bits(bits: u64) -> (flipped: u64)
    ensures
        flipped == negated(bits),
{
    bits ^ SIGN_BIT
}

/// Negation changes the sign and nothing else: the negation of a number has
/// the other sign and the same magnitude, so that a NaN stays a NaN, and
/// negating twice gives the number back.
pub proof fn lemma_negated_flips_sign(bits: u64)
    ensures
        (negated(bits) >= SIGN_BIT) != (bits >= SIGN_BIT),
        magnitude(negated(bits)) == magnitude(bits),
        is_nan(negated(bits)) == is_nan(bits),
        negated(negated(bits)) == bits,
{
    let flipped = bits ^ 0x8000_0000_0000_0000;
    assert(flipped == if bits >= 0x8000_0000_0000_0000 {
        (bits - 0x8000_0000_0000_0000) as u64
    } else {
        (bits + 0x8000_0000_0000_0000) as u64
    }) by (bit_vector)
        requires
            flipped == bits ^ 0x8000_0000_0000_0000,
    ;
    assert(flipped ^ 0x8000_0000_0000_0000 == bits) by (bit_vector)
        requires
            flipped == bits ^ 0x8000_0000_0000_0000,
    ;
}

impl Value {
    /// The bit pattern of the number, if the value is one.
    pub fn number_bits(&self) -> (bits: Option<u64>)
        ensures
            bits == match self@ {
                ValueView::Number(b) => Some(b),
                _ => None,
            },
    {
        match self {
            Value::Number(b) => Some(*b),
            _ => None,
        }
    }

    /// Applies the arithmetic operation `op` to `left` and `right`, with
    /// `alu` doing the arithmetic on the bit patterns. Where both operands
    /// are numbers, the result is the number that `alu` returned for them;
    /// where one of them is not, there is no result.
    pub fn combine<F: Fn(OpCode, u64, u64) -> u64>(
        op: OpCode,
        left: &Value,
        right: &Value,
        alu: &F,
    ) -> (combined: Option<Value>)
        requires
            forall|a: u64, b: u64| call_requires(*alu, (op, a, b)),
        ensures
            match (left@, right@) {
                (ValueView::Number(a), ValueView::Number(b)) => combined matches Some(v) && v@
                    matches ValueView::Number(outcome) && outcomes_of(*alu)(op, a, b, outcome),
                _ => combined is None,
            },
    {
        match (left.number_bits(), right.number_bits()) {
            (Some(a), Some(b)) => Some(Value::Number(alu(op, a, b))),
            _ => None,
        }
    }

    /// The negation of the value, if it is a number.
    pub fn negate(&self) -> (negation: Option<Value>)
        ensures
            match self@ {
                ValueView::Number(bits) => negation matches Some(v) && v@ == ValueView::Number(
                    negated(bits),
                ),
                _ => negation is None,
            },
    {
        match self.number_bits() {
            Some(bits) => Some(Value::Number(negate_bits(bits))),
            None => None,
        }
    }

    /// Renders the value in its debug form, with `number_text` rendering
    /// numbers: the name of the variant, and between round brackets what it
    /// holds.
    pub fn debug_text<F: Fn(u64) -> String>(&self, number_text: &F) -> (text: String)
        requires
            forall|bits: u64| call_requires(*number_text, (bits,)),
        ensures
            is_debug_text_of(renderings(*number_text), self@, text@),
    {
        match self {
            Value::String_(s) => {
                let shown = quoted(s.as_str());
                variant_text("String_", shown.as_str())
            },
            Value::Bool(b) => {
                if *b {
                    variant_text("Bool", "true")
                } else {
                    variant_text("Bool", "false")
                }
            },
            Value::Number(bits) => {
                let shown = number_text(*bits);
                assert(renderings(*number_text)(*bits, shown@));
                variant_text("Number", shown.as_str())
            },
            Value::Nil => String::from_str("Nil"),
        }
    }

    /// Renders the value as text, with `number_text` rendering numbers.
    pub fn text<F: Fn(u64) -> String>(&self, number_text: &F) -> (text: String)
        requires
            forall|bits: u64| call_requires(*number_text, (bits,)),
        ensures
            is_text_of(renderings(*number_text), self@, text@),
    {
        match self {
            Value::String_(s) => s.clone(),
            Value::Bool(b) => {
                if *b {
                    String::from_str("true")
                } else {
                    String::from_str("false")
                }
            },
            Value::Number(bits) => {
                let rendered = number_text(*bits);
                assert(renderings(*number_text)(*bits, rendered@));
                rendered
            },
            Value::Nil => String::from_str("nil"),
        }
    }
}

impl Clone for Value {
    fn clone(&self) -> (copy: Self)
        ensures
            copy@ == self@,
    {
        match self {
            Value::String_(s) => Value::String_(s.clone()),
            Value::Bool(b) => Value::Bool(*b),
            Value::Number(bits) => Value::Number(*bits),
            Value::Nil => Value::Nil,
        }
    }
}

impl PartialEq for Value {
    /// Two values are equal if they are of the same variant and hold equal
    /// contents; numbers are compared as numbers, not as bit patterns.
    fn eq(&self, other: &Value) -> (equal: bool) {
        match (self, other) {
            (Value::String_(a), Value::String_(b)) => *a == *b,
            (Value::Bool(a), Value::Bool(b)) => *a == *b,
            (Value::Number(a), Value::Number(b)) => numbers_equal(*a, *b),
            (Value::Nil, Value::Nil) => true,
            _ => false,
        }
    }
}

impl PartialEqSpecImpl for Value {
    open spec fn obeys_eq_spec() -> bool {
        true
    }

    open spec fn eq_spec(&self, other: &Value) -> bool {
        self@.equals(other@)
    }
}

} // verus!
