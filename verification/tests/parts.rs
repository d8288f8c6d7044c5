use pumpkin_core::ast::{line_of, Expression, Identifier, SourceLocation};
use pumpkin_core::env::{Bindings, Environment};
use pumpkin_core::errors::PumpkinError;
use pumpkin_core::heap::Heap;
use pumpkin_core::host::{ask, Arithmetic, Host, InterpreterConfig, NumberRequest};
use pumpkin_core::number;
use pumpkin_core::text::{decimal, last_segment, padded_decimal, reads_as};
use pumpkin_core::value::PumpkinValue;
use pumpkin_core::vm::{index_for, repeat_count_of};

struct Ieee;

impl Host for Ieee {
    fn show(&self, _msg: &str) {}

    fn add(&self, a: u64, b: u64) -> u64 {
        (f64::from_bits(a) + f64::from_bits(b)).to_bits()
    }

    fn subtract(&self, a: u64, b: u64) -> u64 {
        (f64::from_bits(a) - f64::from_bits(b)).to_bits()
    }

    fn multiply(&self, a: u64, b: u64) -> u64 {
        (f64::from_bits(a) * f64::from_bits(b)).to_bits()
    }

    fn divide(&self, a: u64, b: u64) -> u64 {
        (f64::from_bits(a) / f64::from_bits(b)).to_bits()
    }

    fn format_number(&self, bits: u64) -> String {
        format!("{}", f64::from_bits(bits))
    }
}

fn n(x: f64) -> PumpkinValue {
    PumpkinValue::Number(x.to_bits())
}

fn s(x: &str) -> PumpkinValue {
    PumpkinValue::String(x.to_string())
}

fn samples() -> Vec<f64> {
    vec![
        0.0,
        -0.0,
        1.0,
        -1.0,
        0.5,
        -0.5,
        1.5,
        2.0,
        3.999,
        255.0,
        1e9,
        -1e9,
        4503599627370496.0,
        9007199254740993.0,
        1e19,
        1.8446744073709552e19,
        1e300,
        -1e300,
        5e-324,
        -5e-324,
        f64::MIN_POSITIVE,
        f64::MAX,
        f64::MIN,
        f64::INFINITY,
        f64::NEG_INFINITY,
        f64::NAN,
        -f64::NAN,
    ]
}

#[test]
fn bit_patterns_order_as_doubles() {
    for a in samples() {
        for b in samples() {
            assert_eq!(number::less(a.to_bits(), b.to_bits()), a < b, "{} < {}", a, b);
            assert_eq!(number::equal(a.to_bits(), b.to_bits()), a == b, "{} == {}", a, b);
        }
    }
}

#[test]
fn bit_patterns_show_sign_zero_and_nan() {
    for a in samples() {
        assert_eq!(number::nan(a.to_bits()), a.is_nan(), "{}", a);
        assert_eq!(number::zero(a.to_bits()), a == 0.0, "{}", a);
        assert_eq!(number::negative(a.to_bits()), a < 0.0, "{}", a);
        assert_eq!(number::magnitude_of(a.to_bits()), a.abs().to_bits(), "{}", a);
    }
}

#[test]
fn integer_part_is_the_truncation() {
    for a in samples() {
        let expected = if a.is_nan() { 0 } else { a.abs() as usize };
        assert_eq!(number::truncate_to_index(a.to_bits()), expected, "{}", a);
    }
    assert_eq!(number::truncate_to_index(7.9f64.to_bits()), 7);
    assert_eq!(number::truncate_to_index(0.99f64.to_bits()), 0);
}

#[test]
fn repeat_counts_and_indices() {
    assert_eq!(repeat_count_of(3.7f64.to_bits()), 3);
    assert_eq!(repeat_count_of((-3.7f64).to_bits()), 0);
    assert_eq!(repeat_count_of(f64::NAN.to_bits()), 0);
    assert_eq!(repeat_count_of(f64::INFINITY.to_bits()), usize::MAX);
    assert_eq!(index_for(0.0f64.to_bits(), 1), Some(0));
    assert_eq!(index_for((-0.0f64).to_bits(), 1), Some(0));
    assert_eq!(index_for(f64::NAN.to_bits(), 1), Some(0));
    assert_eq!(index_for(2.5f64.to_bits(), 3), Some(2));
    assert_eq!(index_for(3.0f64.to_bits(), 3), None);
    assert_eq!(index_for((-1.0f64).to_bits(), 3), None);
    assert_eq!(index_for(0.0f64.to_bits(), 0), None);
    assert_eq!(index_for(f64::INFINITY.to_bits(), usize::MAX), None);
}

#[test]
fn decimal_numerals() {
    assert_eq!(decimal(0), "0");
    assert_eq!(decimal(7), "7");
    assert_eq!(decimal(10), "10");
    assert_eq!(decimal(1234567890), "1234567890");
    assert_eq!(decimal(usize::MAX), usize::MAX.to_string());
    assert_eq!(padded_decimal(0, 4), "0000");
    assert_eq!(padded_decimal(42, 4), "0042");
    assert_eq!(padded_decimal(12345, 4), "12345");
    assert_eq!(padded_decimal(7, 0), "7");
}

#[test]
fn last_segment_of_a_path() {
    assert_eq!(last_segment("math"), "math");
    assert_eq!(last_segment("./utils"), "utils");
    assert_eq!(last_segment("a/b/c"), "c");
    assert_eq!(last_segment("a/"), "");
    assert_eq!(last_segment(""), "");
    assert_eq!(last_segment("/é/ü"), "ü");
    assert!(reads_as(&"==".to_string(), "=="));
    assert!(!reads_as(&"=".to_string(), "=="));
}

#[test]
fn errors_are_built_and_placed() {
    let loc = Some(SourceLocation { start: 1, end: 2, line: 3, col: 4 });
    let other = Some(SourceLocation { start: 0, end: 0, line: 9, col: 0 });
    assert_eq!(
        PumpkinError::runtime("boom", loc),
        PumpkinError::RuntimeError { message: "boom".to_string(), location: loc, hint: None }
    );
    assert_eq!(
        PumpkinError::type_mismatch("number", "string", None),
        PumpkinError::TypeError {
            expected: "number".to_string(),
            actual: "string".to_string(),
            location: None
        }
    );
    assert_eq!(PumpkinError::runtime("x", loc).at(other), PumpkinError::runtime("x", other));
    assert_eq!(
        PumpkinError::DivisionByZeroError { location: loc }.at(None),
        PumpkinError::DivisionByZeroError { location: None }
    );
}

#[test]
fn errors_are_reported_for_a_reader() {
    let loc = Some(SourceLocation { start: 0, end: 5, line: 12, col: 7 });
    assert_eq!(
        PumpkinError::runtime("Stack underflow", loc).pretty_print("source"),
        "🚨 Runtime Error: Stack underflow\n   at line 12, column 7"
    );
    assert_eq!(
        PumpkinError::type_mismatch("number", "string", None).pretty_print(""),
        "🚨 Type Error: Expected number, but got string.\n   (Unknown location)"
    );
    let undefined = PumpkinError::UndefinedVariableError {
        name: "x".to_string(),
        location: None,
        hint: Some("Did you declare it with 'let'?".to_string()),
    };
    assert_eq!(
        undefined.pretty_print(""),
        "🚨 Undefined Variable: 'x'.\n   (Unknown location)\n   💡 Hint: Did you declare it with 'let'?"
    );
    assert_eq!(
        PumpkinError::DivisionByZeroError { location: loc }.pretty_print(""),
        "🚨 Math Error: Division by zero is not allowed.\n   at line 12, column 7"
    );
    let exhausted =
        PumpkinError::ResourceExhausted { message: "too long".to_string(), location: None };
    assert_eq!(exhausted.pretty_print(""), "🛑 Resource Limits: too long\n   (Unknown location)");
    assert_eq!(
        exhausted.format_loc(&loc, &Some("try less".to_string())),
        "   at line 12, column 7\n   💡 Hint: try less"
    );
    assert_eq!(exhausted.message(), "too long");
    assert_eq!(undefined.message(), "Undefined variable 'x'");
    assert_eq!(PumpkinError::DivisionByZeroError { location: None }.message(), "Division by zero");
    assert_eq!(
        PumpkinError::type_mismatch("list", "null", None).message(),
        "Expected list, but got null"
    );
}

#[test]
fn environment_looks_outward_and_assigns_where_bound() {
    let mut globals = Environment::new();
    assert_eq!(globals.get("x"), None);
    globals.define("x", n(1.0));
    globals.define("y", n(2.0));
    globals.define("x", n(3.0));
    assert_eq!(globals.get("x"), Some(n(3.0)));
    assert_eq!(globals.vars.entries.len(), 2);
    let mut inner = Environment::new_enclosed(globals);
    inner.define("y", n(20.0));
    assert_eq!(inner.get("x"), Some(n(3.0)));
    assert_eq!(inner.get("y"), Some(n(20.0)));
    assert_eq!(inner.assign("x", n(4.0)), Ok(()));
    assert_eq!(inner.assign("y", n(21.0)), Ok(()));
    assert_eq!(inner.vars.get("x"), None);
    assert_eq!(inner.get("x"), Some(n(4.0)));
    assert_eq!(inner.get("y"), Some(n(21.0)));
    assert_eq!(inner.parent.as_ref().unwrap().get("y"), Some(n(2.0)));
    assert_eq!(
        inner.assign("z", n(0.0)),
        Err(PumpkinError::UndefinedVariableError {
            name: "z".to_string(),
            location: None,
            hint: Some("Did you declare it with 'let'?".to_string()),
        })
    );
    assert_eq!(inner.get("z"), None);
    inner.store("z", n(5.0));
    assert_eq!(inner.vars.get("z"), Some(n(5.0)));
    inner.store("x", n(6.0));
    assert_eq!(inner.vars.get("x"), None);
    assert_eq!(inner.get("x"), Some(n(6.0)));
}

#[test]
fn bindings_keep_one_entry_per_name() {
    let mut table = Bindings::new();
    assert!(!table.contains("a"));
    table.set("a", n(1.0));
    table.set("b", n(2.0));
    table.set("a", n(3.0));
    assert_eq!(table.entries.len(), 2);
    assert_eq!(table.position(&"a".to_string()), 0);
    assert_eq!(table.position(&"b".to_string()), 1);
    assert_eq!(table.position(&"c".to_string()), 2);
    assert_eq!(table.get("a"), Some(n(3.0)));
    assert_eq!(table.get("c"), None);
    assert!(table.contains("b"));
}

#[test]
fn heap_hands_out_handles_in_order() {
    let mut heap = Heap::new();
    let first = heap.alloc_list(vec![n(1.0), n(2.0)]);
    let second = heap.alloc_list(vec![]);
    assert_eq!(first, PumpkinValue::List(0));
    assert_eq!(second, PumpkinValue::List(1));
    assert_eq!(heap.list_len(0), Some(2));
    assert_eq!(heap.list_len(1), Some(0));
    assert_eq!(heap.list_len(2), None);
    assert_eq!(heap.list_item(0, 1), Some(n(2.0)));
    assert!(heap.list_store(0, 1, s("two")));
    assert!(!heap.list_store(0, 2, s("three")));
    assert!(!heap.list_store(5, 0, s("three")));
    assert_eq!(heap.list_item(0, 1), Some(s("two")));
    assert_eq!(heap.list_item(0, 0), Some(n(1.0)));
    assert_eq!(heap.list_item(0, 2), None);
    assert_eq!(heap.list_item(5, 0), None);
    assert_eq!(heap.field(0, "a"), None);
    assert!(!heap.holds_object(0));
    assert_eq!(heap.numbers_to_format(&first), vec![1.0f64.to_bits()]);
    let nested = heap.alloc_list(vec![n(7.0), PumpkinValue::List(0), n(8.0)]);
    assert_eq!(
        heap.numbers_to_format(&nested),
        vec![7.0f64.to_bits(), 1.0f64.to_bits(), 8.0f64.to_bits()]
    );
    let texts = vec!["a".to_string(), "b".to_string(), "c".to_string()];
    assert_eq!(heap.display_with(&nested, &texts), "[a, [b, \"two\"], c]");
    assert_eq!(heap.display_with(&nested, &vec![]), "[, [, \"two\"], ]");
    assert_eq!(heap.render_from(&nested, 32, &texts, 2), ("[c, [, \"two\"], ]".to_string(), 3));
    assert_eq!(heap.render_from(&nested, 1, &texts, 0), ("[a, [...], b]".to_string(), 2));
    assert_eq!(heap.render_from(&nested, 0, &texts, 0), ("[...]".to_string(), 0));
    assert_eq!(heap.render_from(&nested, 32, &texts, 7), ("[, [, \"two\"], ]".to_string(), 7));
}

#[test]
fn values_name_their_kinds_and_truth() {
    let heap = Heap::new();
    let values = vec![
        (n(0.0), "number", true),
        (s(""), "string", true),
        (PumpkinValue::Boolean(false), "boolean", false),
        (PumpkinValue::Boolean(true), "boolean", true),
        (PumpkinValue::Null, "null", false),
        (PumpkinValue::List(0), "list", true),
        (PumpkinValue::Object(0), "object", true),
    ];
    for (value, kind, truthy) in values {
        assert_eq!(value.kind_name(), kind);
        assert_eq!(value.is_truthy(), truthy);
        assert_eq!(value.clone(), value);
        assert!(value.identical(&value));
    }
    assert_eq!(n(1.0).add(&n(2.0), &heap, &Ieee), Ok(n(3.0)));
    assert_eq!(n(1.0).sub(&n(2.0), &heap, &Ieee), Ok(n(-1.0)));
    assert_eq!(n(3.0).mul(&n(2.0), &heap, &Ieee), Ok(n(6.0)));
    assert_eq!(n(3.0).div(&n(2.0), &heap, &Ieee), Ok(n(1.5)));
    assert_eq!(
        n(3.0).div(&n(0.0), &heap, &Ieee),
        Err(PumpkinError::DivisionByZeroError { location: None })
    );
    assert_eq!(s("a").add(&n(2.0), &heap, &Ieee), Ok(s("a2")));
    assert_eq!(PumpkinValue::Null.add(&s("!"), &heap, &Ieee), Ok(s("null!")));
    assert_eq!(
        s("a").sub(&n(2.0), &heap, &Ieee),
        Err(PumpkinError::type_mismatch("number", "string", None))
    );
    assert_eq!(
        n(2.0).mul(&PumpkinValue::Null, &heap, &Ieee),
        Err(PumpkinError::type_mismatch("number", "null", None))
    );
    assert_eq!(
        PumpkinValue::arithmetic_request(Arithmetic::Div, &n(1.0), &n(-0.0), &heap),
        NumberRequest::Nothing
    );
    assert_eq!(
        PumpkinValue::arithmetic_request(Arithmetic::Add, &s("a"), &n(1.0), &heap),
        NumberRequest::Format { numbers: vec![1.0f64.to_bits()] }
    );
    assert_eq!(
        PumpkinValue::arithmetic_request(Arithmetic::Sub, &s("a"), &n(1.0), &heap),
        NumberRequest::Nothing
    );
    assert!(n(0.0).equals(&n(-0.0)));
    assert!(!n(0.0).identical(&n(-0.0)));
    assert!(!n(f64::NAN).equals(&n(f64::NAN)));
    assert!(n(f64::NAN).identical(&n(f64::NAN)));
    assert_eq!(n(2.5).display(&heap, &Ieee), "2.5");
    assert_eq!(n(-0.0).display(&heap, &Ieee), "-0");
    assert_eq!(s("q").display(&heap, &Ieee), "\"q\"");
}

#[test]
fn the_host_answers_requests() {
    let sum = ask(
        &Ieee,
        &NumberRequest::Arithmetic {
            op: Arithmetic::Add,
            left: 1.0f64.to_bits(),
            right: 2.0f64.to_bits(),
        },
    );
    assert_eq!(sum.number, 3.0f64.to_bits());
    assert!(sum.texts.is_empty());
    let quotient = ask(
        &Ieee,
        &NumberRequest::Arithmetic {
            op: Arithmetic::Div,
            left: 1.0f64.to_bits(),
            right: 4.0f64.to_bits(),
        },
    );
    assert_eq!(quotient.number, 0.25f64.to_bits());
    let texts =
        ask(&Ieee, &NumberRequest::Format { numbers: vec![1.0f64.to_bits(), 0.5f64.to_bits()] });
    assert_eq!(texts.texts, vec!["1", "0.5"]);
    assert!(ask(&Ieee, &NumberRequest::Nothing).texts.is_empty());
    let standard = InterpreterConfig::standard();
    assert_eq!(standard.max_instructions, 1_000_000);
    assert_eq!(standard.max_call_depth, 64);
}

#[test]
fn expressions_know_their_locations() {
    let loc = Some(SourceLocation { start: 1, end: 2, line: 3, col: 4 });
    let e = Expression::Identifier(Identifier { name: "x".to_string(), loc });
    assert_eq!(e.loc(), loc);
    assert_eq!(line_of(&loc), 3);
    assert_eq!(line_of(&None), 0);
}
