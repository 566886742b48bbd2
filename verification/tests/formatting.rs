use simpleos::float::{Decimal, Float};
use simpleos::format::{render, render_line, Arg, FormatError, Number, Style, Value};

fn float_of(x: f64) -> Float {
    if x.is_nan() {
        return Float::Nan;
    }
    if x.is_infinite() {
        return Float::Infinite { negative: x < 0.0 };
    }
    if x == 0.0 {
        return Float::Zero { negative: x.is_sign_negative() };
    }
    let text = format!("{:e}", x.abs());
    let (mantissa, exponent) = text.split_once('e').unwrap();
    let digits: Vec<u8> = mantissa.bytes().filter(|b| *b != b'.').map(|b| b - b'0').collect();
    let exponent: i32 = exponent.parse().unwrap();
    Float::Finite(Decimal::new(x < 0.0, digits, exponent + 1).unwrap())
}

fn floats(xs: &[f64]) -> Value {
    Value::List(xs.iter().map(|x| Number::Float(float_of(*x))).collect())
}

fn integer(n: i64) -> Value {
    Value::Number(Number::Int(n))
}

fn text(s: &str) -> Value {
    Value::Text(s.to_string())
}

fn ok(s: &str) -> Result<Vec<u8>, FormatError> {
    Ok(s.as_bytes().to_vec())
}

#[test]
fn println_without_arguments_is_one_newline() {
    assert_eq!(render_line("", &vec![]), Ok(vec![b'\n']));
}

#[test]
fn println_of_a_string_is_the_string_and_one_newline() {
    let args = vec![Arg::positional(text("x"))];
    assert_eq!(render_line("{}", &args), Ok(vec![b'x', b'\n']));
}

#[test]
fn print_adds_no_newline() {
    let args = vec![Arg::positional(text("x"))];
    assert_eq!(render("{}", &args), Ok(vec![b'x']));
    assert_eq!(render("", &vec![]), Ok(vec![]));
}

#[test]
fn list_of_floats_in_debug_form() {
    let args = vec![Arg::positional(floats(&[2.6, f64::NAN, -10.3]))];
    assert_eq!(render("{:?}", &args), ok("[2.6, NaN, -10.3]"));
}

#[test]
fn integer_and_floats_without_newline() {
    let template = "Printing integer '{n}' and array of floats {:?} with no newline. ";
    let expected = "Printing integer '1234' and array of floats [2.6, NaN, -10.3] with no newline. ";
    let args = vec![
        Arg::positional(floats(&[2.6, f64::NAN, -10.3])),
        Arg::named("n".to_string(), integer(1234)),
    ];
    assert_eq!(render(template, &args), ok(expected));
    let args = vec![
        Arg::named("n".to_string(), integer(1234)),
        Arg::positional(floats(&[2.6, f64::NAN, -10.3])),
    ];
    assert_eq!(render(template, &args), ok(expected));
}

#[test]
fn slice_by_name_and_by_position() {
    let args = vec![
        Arg::positional(text("a slice")),
        Arg::named("S".to_string(), text("a slice")),
    ];
    assert_eq!(
        render_line("Test printing slice '{S}' with a newline.", &args),
        ok("Test printing slice 'a slice' with a newline.\n")
    );
    assert_eq!(
        render_line("Test printing slice '{}' with a newline.", &args),
        ok("Test printing slice 'a slice' with a newline.\n")
    );
}

#[test]
fn text_without_holes_is_copied() {
    assert_eq!(render("Hello world!\n", &vec![]), ok("Hello world!\n"));
    assert_eq!(render("g\u{e9}n\u{e9}ral \u{2603}", &vec![]), ok("g\u{e9}n\u{e9}ral \u{2603}"));
}

#[test]
fn text_argument_is_copied_byte_for_byte() {
    let args = vec![Arg::positional(text("\t\"q\" \\ \u{2603}\n"))];
    assert_eq!(render("<{}>", &args), ok("<\t\"q\" \\ \u{2603}\n>"));
}

#[test]
fn doubled_braces_are_single_braces() {
    assert_eq!(render("{{}}", &vec![]), ok("{}"));
    assert_eq!(render("a{{b}}c", &vec![]), ok("a{b}c"));
    let args = vec![Arg::positional(integer(5))];
    assert_eq!(render("{{{}}}", &args), ok("{5}"));
    assert_eq!(render("}}{{", &vec![]), ok("}{"));
}

#[test]
fn holes_take_unnamed_arguments_in_order() {
    let args = vec![
        Arg::positional(integer(1)),
        Arg::named("skip".to_string(), integer(0)),
        Arg::positional(integer(2)),
        Arg::positional(integer(3)),
    ];
    assert_eq!(render("{} {} {}", &args), ok("1 2 3"));
    assert_eq!(render("{}{skip}{}{skip}{}", &args), ok("10203"));
}

#[test]
fn named_hole_finds_the_first_of_its_name() {
    let args = vec![
        Arg::named("a".to_string(), integer(1)),
        Arg::named("b".to_string(), integer(2)),
        Arg::named("a".to_string(), integer(3)),
    ];
    assert_eq!(render("{a}{b}{a}", &args), ok("121"));
    assert_eq!(render("{b:?}", &args), ok("2"));
}

#[test]
fn unused_arguments_are_ignored() {
    let args = vec![Arg::positional(integer(1)), Arg::positional(integer(2))];
    assert_eq!(render("{}", &args), ok("1"));
    assert_eq!(render("none", &args), ok("none"));
}

#[test]
fn integers_read_the_same_in_both_styles() {
    let args = vec![Arg::positional(integer(-17)), Arg::positional(integer(i64::MIN))];
    assert_eq!(render("{} {:?}", &args), ok("-17 -9223372036854775808"));
}

#[test]
fn floats_differ_between_the_styles() {
    let args = vec![
        Arg::positional(Value::Number(Number::Float(float_of(1.0)))),
        Arg::positional(Value::Number(Number::Float(float_of(1.0)))),
        Arg::positional(Value::Number(Number::Float(float_of(1e16)))),
        Arg::positional(Value::Number(Number::Float(float_of(1e16)))),
    ];
    assert_eq!(render("{} {:?} {} {:?}", &args), ok("1 1.0 10000000000000000 1e16"));
}

#[test]
fn empty_spec_is_display() {
    let args = vec![Arg::positional(text("x")), Arg::named("n".to_string(), integer(3))];
    assert_eq!(render("{:}{n:}", &args), ok("x3"));
}

#[test]
fn lists_are_bracketed_and_comma_separated() {
    assert_eq!(render("{:?}", &vec![Arg::positional(Value::List(vec![]))]), ok("[]"));
    assert_eq!(render("{:?}", &vec![Arg::positional(floats(&[1.5]))]), ok("[1.5]"));
    let mixed = Value::List(vec![
        Number::Int(1),
        Number::Float(float_of(f64::INFINITY)),
        Number::Int(-3),
        Number::Float(float_of(f64::NEG_INFINITY)),
        Number::Float(float_of(0.0)),
    ]);
    assert_eq!(render("{:?}", &vec![Arg::positional(mixed)]), ok("[1, inf, -3, -inf, 0.0]"));
}

#[test]
fn list_reads_as_std_writes_it() {
    let xs = [2.6, f64::NAN, -10.3, 1e16, 1e-7, 0.0, 42.0];
    let args = vec![Arg::positional(floats(&xs))];
    assert_eq!(render("{:?}", &args), Ok(format!("{:?}", xs).into_bytes()));
}

#[test]
fn unclosed_hole_is_an_error() {
    assert_eq!(render("{", &vec![]), Err(FormatError::UnclosedHole));
    assert_eq!(render("abc {name", &vec![]), Err(FormatError::UnclosedHole));
    assert_eq!(render("{{{", &vec![]), Err(FormatError::UnclosedHole));
}

#[test]
fn stray_close_is_an_error() {
    assert_eq!(render("}", &vec![]), Err(FormatError::StrayClose));
    assert_eq!(render("a } b", &vec![]), Err(FormatError::StrayClose));
    assert_eq!(render("}}}", &vec![]), Err(FormatError::StrayClose));
}

#[test]
fn unknown_spec_is_an_error() {
    let args = vec![Arg::positional(integer(1))];
    assert_eq!(render("{:x}", &args), Err(FormatError::UnknownSpec));
    assert_eq!(render("{:#?}", &args), Err(FormatError::UnknownSpec));
    assert_eq!(render("{:??}", &args), Err(FormatError::UnknownSpec));
    assert_eq!(render("{::}", &args), Err(FormatError::UnknownSpec));
}

#[test]
fn missing_argument_is_an_error() {
    assert_eq!(render("{}", &vec![]), Err(FormatError::MissingArgument));
    let args = vec![Arg::positional(integer(1)), Arg::named("n".to_string(), integer(2))];
    assert_eq!(render("{} {}", &args), Err(FormatError::MissingArgument));
}

#[test]
fn unknown_name_is_an_error() {
    let args = vec![Arg::positional(integer(1)), Arg::named("n".to_string(), integer(2))];
    assert_eq!(render("{m}", &args), Err(FormatError::UnknownName));
    assert_eq!(render("{N}", &args), Err(FormatError::UnknownName));
    assert_eq!(render("{0}", &args), Err(FormatError::UnknownName));
    assert_eq!(render("{ }", &args), Err(FormatError::UnknownName));
    assert_eq!(render("{n }", &args), Err(FormatError::UnknownName));
}

#[test]
fn missing_form_is_an_error() {
    let args = vec![Arg::positional(text("x"))];
    assert_eq!(render("{:?}", &args), Err(FormatError::NoSuchForm));
    let args = vec![Arg::positional(floats(&[1.0]))];
    assert_eq!(render("{}", &args), Err(FormatError::NoSuchForm));
}

#[test]
fn first_error_from_the_left_wins() {
    let args = vec![Arg::positional(text("x"))];
    assert_eq!(render("{:?} }", &args), Err(FormatError::NoSuchForm));
    assert_eq!(render("} {:?}", &args), Err(FormatError::StrayClose));
    assert_eq!(render("{m} {", &args), Err(FormatError::UnknownName));
    assert_eq!(render("{} {} {:x}", &args), Err(FormatError::MissingArgument));
    assert_eq!(render("{:x} {} {}", &args), Err(FormatError::UnknownSpec));
    assert_eq!(render("{m:x}", &args), Err(FormatError::UnknownSpec));
}

#[test]
fn line_has_the_error_of_its_template() {
    assert_eq!(render_line("{}", &vec![]), Err(FormatError::MissingArgument));
    assert_eq!(render_line("}", &vec![]), Err(FormatError::StrayClose));
}

#[test]
fn every_error_describes_itself() {
    let all = [
        FormatError::UnclosedHole,
        FormatError::StrayClose,
        FormatError::UnknownSpec,
        FormatError::MissingArgument,
        FormatError::UnknownName,
        FormatError::NoSuchForm,
    ];
    for (i, a) in all.iter().enumerate() {
        assert!(!a.describe().is_empty());
        for b in &all[i + 1..] {
            assert_ne!(a.describe(), b.describe());
        }
    }
    assert_eq!(FormatError::UnclosedHole.describe(), "template has a `{` without a `}`");
}

#[test]
fn values_push_their_text() {
    let mut out = b">".to_vec();
    assert!(integer(12).push_text(&mut out, Style::Display));
    assert!(text("ab").push_text(&mut out, Style::Display));
    assert!(!text("ab").push_text(&mut out, Style::Debug));
    assert!(!floats(&[1.0]).push_text(&mut out, Style::Display));
    assert!(floats(&[1.0, 2.5]).push_text(&mut out, Style::Debug));
    assert_eq!(out, b">12ab[1.0, 2.5]".to_vec());
}
