use bytecode_vm::opcodes::OpCode;
use bytecode_vm::text::append_decimal;
use bytecode_vm::value::{
    negate_bits, numbers_equal, variant_text, Value, EXPONENT_BITS, SIGN_BIT,
};

fn number(x: f64) -> Value {
    Value::Number(x.to_bits())
}

fn number_text(bits: u64) -> String {
    format!("{}", f64::from_bits(bits))
}

fn number_debug_text(bits: u64) -> String {
    format!("{:?}", f64::from_bits(bits))
}

fn alu(op: OpCode, left: u64, right: u64) -> u64 {
    let (a, b) = (f64::from_bits(left), f64::from_bits(right));
    let outcome = match op {
        OpCode::OP_ADD => a + b,
        OpCode::OP_SUBTRACT => a - b,
        OpCode::OP_MULTIPLY => a * b,
        OpCode::OP_DIVIDE => a / b,
        _ => unreachable!(),
    };
    outcome.to_bits()
}

const SAMPLES: [f64; 14] = [
    0.0,
    -0.0,
    1.0,
    -1.0,
    1.2,
    -4.5,
    9.0,
    f64::MIN_POSITIVE,
    5e-324,
    f64::MAX,
    f64::MIN,
    f64::INFINITY,
    f64::NEG_INFINITY,
    f64::NAN,
];

#[test]
fn numbers_compare_as_doubles_do() {
    for a in SAMPLES {
        for b in SAMPLES {
            assert_eq!(numbers_equal(a.to_bits(), b.to_bits()), a == b, "{a} == {b}");
            assert_eq!(number(a) == number(b), a == b, "{a} == {b}");
        }
    }
}

#[test]
fn a_nan_equals_nothing() {
    let nan = f64::NAN.to_bits();
    assert!(!numbers_equal(nan, nan));
    assert!(number(f64::NAN) != number(f64::NAN));
    assert!(!numbers_equal(EXPONENT_BITS + 1, EXPONENT_BITS + 1));
    assert!(numbers_equal(EXPONENT_BITS, EXPONENT_BITS));
}

#[test]
fn the_two_zeros_are_equal() {
    assert!(numbers_equal(0, SIGN_BIT));
    assert_eq!(number(0.0), number(-0.0));
}

#[test]
fn negation_flips_the_sign_as_doubles_do() {
    for a in SAMPLES {
        assert_eq!(negate_bits(a.to_bits()), (-a).to_bits(), "-({a})");
        assert_eq!(negate_bits(negate_bits(a.to_bits())), a.to_bits());
    }
    assert_eq!(negate_bits(0), SIGN_BIT);
    assert_eq!(negate_bits(4.5f64.to_bits()), (-4.5f64).to_bits());
}

#[test]
fn negate_is_for_numbers_only() {
    assert_eq!(number(4.5).negate(), Some(number(-4.5)));
    assert_eq!(Value::Nil.negate(), None);
    assert_eq!(Value::Bool(true).negate(), None);
    assert_eq!(Value::String_("x".to_string()).negate(), None);
}

#[test]
fn values_of_different_variants_differ() {
    let values = [
        Value::String_("true".to_string()),
        Value::Bool(true),
        number(1.0),
        Value::Nil,
    ];
    for (i, a) in values.iter().enumerate() {
        for (j, b) in values.iter().enumerate() {
            assert_eq!(a == b, i == j);
        }
    }
    assert_eq!(Value::String_("ab".to_string()), Value::String_("ab".to_string()));
    assert_ne!(Value::String_("ab".to_string()), Value::String_("ba".to_string()));
    assert_ne!(Value::Bool(true), Value::Bool(false));
}

#[test]
fn clone_keeps_the_value() {
    let values = [
        Value::String_("text".to_string()),
        Value::Bool(false),
        number(1.2),
        Value::Nil,
    ];
    for v in values.iter() {
        assert_eq!(&v.clone(), v);
    }
    let nan = number(f64::NAN);
    assert_eq!(nan.clone().number_bits(), nan.number_bits());
}

#[test]
fn number_bits_is_for_numbers_only() {
    assert_eq!(number(1.2).number_bits(), Some(1.2f64.to_bits()));
    assert_eq!(Value::Nil.number_bits(), None);
    assert_eq!(Value::Bool(false).number_bits(), None);
    assert_eq!(Value::String_("1.2".to_string()).number_bits(), None);
}

#[test]
fn text_of_each_variant() {
    assert_eq!(Value::Bool(true).text(&number_text), "true");
    assert_eq!(Value::Bool(false).text(&number_text), "false");
    assert_eq!(Value::Nil.text(&number_text), "nil");
    assert_eq!(Value::String_("hello".to_string()).text(&number_text), "hello");
    assert_eq!(number(1.2).text(&number_text), "1.2");
    assert_eq!(number(-4.5).text(&number_text), "-4.5");
    assert_eq!(number(9.0).text(&number_text), "9");
}

#[test]
fn debug_text_of_each_variant() {
    assert_eq!(Value::Bool(true).debug_text(&number_debug_text), "Bool(true)");
    assert_eq!(Value::Bool(false).debug_text(&number_debug_text), "Bool(false)");
    assert_eq!(Value::Nil.debug_text(&number_debug_text), "Nil");
    assert_eq!(number(1.2).debug_text(&number_debug_text), "Number(1.2)");
    assert_eq!(number(-4.5).debug_text(&number_debug_text), "Number(-4.5)");
    assert_eq!(number(9.0).debug_text(&number_debug_text), "Number(9.0)");
    assert_eq!(number(f64::NAN).debug_text(&number_debug_text), "Number(NaN)");
    assert_eq!(number(f64::INFINITY).debug_text(&number_debug_text), "Number(inf)");
}

#[test]
fn debug_text_quotes_and_escapes_text() {
    let shown = |text: &str| Value::String_(text.to_string()).debug_text(&number_debug_text);
    assert_eq!(shown("hello"), "String_(\"hello\")");
    assert_eq!(shown(""), "String_(\"\")");
    assert_eq!(shown("x y"), "String_(\"x y\")");
    assert_eq!(shown("a\"b"), "String_(\"a\\\"b\")");
    assert_eq!(shown("a\\b"), "String_(\"a\\\\b\")");
    assert_eq!(shown("line\nbreak\ttab\r"), "String_(\"line\\nbreak\\ttab\\r\")");
    assert_eq!(shown("it's"), "String_(\"it's\")");
    assert_eq!(shown("\u{0}\u{7f}"), "String_(\"\\0\\u{7f}\")");
    assert_eq!(shown("h\u{e9}llo \u{4e16}"), "String_(\"h\u{e9}llo \u{4e16}\")");
    for text in ["", "plain", "q\"q", "\\", "\n", "\u{301}", "\u{1f600}", "\u{200b}"] {
        assert_eq!(shown(text), format!("String_({:?})", text));
    }
}

#[test]
fn variant_text_puts_the_contents_in_brackets() {
    assert_eq!(variant_text("Number", "1.2"), "Number(1.2)");
    assert_eq!(variant_text("Bool", "true"), "Bool(true)");
    assert_eq!(variant_text("", ""), "()");
    assert_eq!(variant_text("String_", "\"(\""), "String_(\"(\")");
}

#[test]
fn combine_asks_the_arithmetic_for_numbers() {
    let (l, r) = (number(7.0), number(2.0));
    assert_eq!(Value::combine(OpCode::OP_ADD, &l, &r, &alu), Some(number(9.0)));
    assert_eq!(Value::combine(OpCode::OP_SUBTRACT, &l, &r, &alu), Some(number(5.0)));
    assert_eq!(Value::combine(OpCode::OP_MULTIPLY, &l, &r, &alu), Some(number(14.0)));
    assert_eq!(Value::combine(OpCode::OP_DIVIDE, &l, &r, &alu), Some(number(3.5)));
}

#[test]
fn combine_refuses_what_is_no_number() {
    let never = |_: OpCode, _: u64, _: u64| -> u64 { panic!("no arithmetic on these") };
    let n = number(1.0);
    assert_eq!(Value::combine(OpCode::OP_ADD, &Value::Nil, &n, &never), None);
    assert_eq!(Value::combine(OpCode::OP_ADD, &n, &Value::Bool(true), &never), None);
    assert_eq!(
        Value::combine(OpCode::OP_MULTIPLY, &Value::String_("x".to_string()), &Value::Nil, &never),
        None
    );
}

#[test]
fn decimal_text_is_what_formatting_gives() {
    let samples = [
        0usize, 1, 9, 10, 11, 99, 100, 101, 123, 255, 256, 1000, 65535, 4294967295, usize::MAX,
    ];
    for n in samples {
        let mut out = String::from("x");
        append_decimal(&mut out, n);
        assert_eq!(out, format!("x{}", n));
    }
}
