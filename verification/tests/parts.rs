use arcana_core::args::{base26, split_binding, string_from_dkv};
use arcana_core::context::Variable;
use arcana_core::files::Known;
use arcana_core::parser::arith::{checked_power, compute, Operation};
use arcana_core::parser::if_parser::{evaluate, Condition, Relation};
use arcana_core::parser::tags::nth_index;
use arcana_core::text::{
    i64_text, parse_i64, sort_strings, split_chars, split_text, str_less, text_is_falsy, to_chars,
    trim, usize_text,
};
use arcana_core::{Context, ErrorKind, Files, Input, InternalError, Node, Output, TryIntoInput};

fn number(text: &str) -> Option<i64> {
    parse_i64(&to_chars(text))
}

#[test]
fn numbers_are_read_as_rust_reads_them() {
    assert_eq!(Some(0), number("0"));
    assert_eq!(Some(0), number("-0"));
    assert_eq!(Some(42), number("+42"));
    assert_eq!(Some(7), number("007"));
    assert_eq!(Some(i64::MAX), number("9223372036854775807"));
    assert_eq!(Some(i64::MIN), number("-9223372036854775808"));
    assert_eq!(None, number("9223372036854775808"));
    assert_eq!(None, number("-9223372036854775809"));
    assert_eq!(None, number("99999999999999999999999999"));
    assert_eq!(None, number(""));
    assert_eq!(None, number("-"));
    assert_eq!(None, number("+"));
    assert_eq!(None, number(" 1"));
    assert_eq!(None, number("1 "));
    assert_eq!(None, number("1.0"));
    assert_eq!(None, number("--1"));
    assert_eq!(None, number("\u{661}"));
}

#[test]
fn numbers_are_written_in_decimal() {
    assert_eq!("0", i64_text(0));
    assert_eq!("-1", i64_text(-1));
    assert_eq!("1000", i64_text(1000));
    assert_eq!("9223372036854775807", i64_text(i64::MAX));
    assert_eq!("-9223372036854775808", i64_text(i64::MIN));
    assert_eq!("0", usize_text(0));
    assert_eq!("18446744073709551615", usize_text(usize::MAX));
}

#[test]
fn trimming_takes_white_space_from_both_ends() {
    let trimmed = |text: &str| trim(text).into_iter().collect::<String>();
    assert_eq!("a b", trimmed(" \t\n a b\r\n "));
    assert_eq!("", trimmed("   "));
    assert_eq!("", trimmed(""));
    assert_eq!("x", trimmed("\u{a0}x\u{3000}"));
}

#[test]
fn false_texts() {
    for text in ["", "0", "n", "N", "false", "FALSE", "False"] {
        assert!(text_is_falsy(text), "{}", text);
    }
    for text in ["1", "y", "no", "00", " ", "falsey", "f", "nn"] {
        assert!(!text_is_falsy(text), "{}", text);
    }
    assert!(!Variable::value_is_truthy(None));
}

#[test]
fn texts_are_ordered_as_strings_are() {
    let pairs = [("", "a"), ("a", "b"), ("a", "ab"), ("B", "a"), ("10", "2"), ("z", "\u{e9}")];
    for (a, b) in pairs {
        assert!(str_less(a, b), "{} < {}", a, b);
        assert!(!str_less(b, a), "{} < {}", b, a);
        assert_eq!(a < b, str_less(a, b));
    }
    assert!(!str_less("same", "same"));
}

#[test]
fn splitting_and_sorting() {
    assert_eq!(vec!["a", "", "b"], split_text("a,,b", ","));
    assert_eq!(vec![""], split_text("", ","));
    assert_eq!(vec!["", ""], split_text(",", ","));
    assert_eq!(vec!["a", "b"], split_chars("ab"));
    assert!(split_chars("").is_empty());
    let sorted =
        sort_strings(vec!["b".to_string(), "a".to_string(), "ab".to_string(), "B".to_string()]);
    assert_eq!(vec!["B", "a", "ab", "b"], sorted);
    let mut expected = vec!["q", "", "z", "a", "q"];
    let sorted = sort_strings(expected.iter().map(|s| s.to_string()).collect());
    expected.sort();
    assert_eq!(expected, sorted);
}

#[test]
fn relations_on_optional_values() {
    let some = |text: &str| Some(text.to_string());
    assert!(evaluate(Relation::Less, &some("9"), &some("10")));
    assert!(!evaluate(Relation::Less, &some("9"), &some("10 ")));
    assert!(evaluate(Relation::Less, &None, &some("")));
    assert!(evaluate(Relation::GreaterOrEqual, &None, &None));
    assert!(!evaluate(Relation::Greater, &None, &None));
    assert!(evaluate(Relation::Equal, &None, &None));
    assert!(evaluate(Relation::NotEqual, &None, &some("")));
    assert!(evaluate(Relation::LessOrEqual, &some("-5"), &some("-5")));
    assert!(Condition::gt(&some("-1"), &some("-2")).as_evaluation());
    assert!(Condition::le(&some("a"), &some("b")).as_evaluation());
    assert!(Condition::ge(&some("b"), &some("a")).as_evaluation());
    assert!(Condition::lt(&some("+1"), &some("2")).as_evaluation());
}

#[test]
fn conditions_carry_a_join() {
    let mut condition = Condition::from(true);
    assert!(condition.requires_next().is_err());
    condition.set_join(arcana_core::parser::if_parser::Join::And);
    assert_eq!(true, condition.requires_next().unwrap());
    condition.negate();
    assert_eq!(false, condition.requires_next().unwrap());
    condition.set_join(arcana_core::parser::if_parser::Join::Or);
    assert_eq!(true, condition.requires_next().unwrap());
    assert!(!condition.as_evaluation());
}

#[test]
fn powers() {
    assert_eq!(Some(1), checked_power(0, 0));
    assert_eq!(Some(0), checked_power(0, 4_000_000_000));
    assert_eq!(Some(1), checked_power(1, 4_000_000_000));
    assert_eq!(Some(2_147_483_648), checked_power(2, 31));
    assert_eq!(None, checked_power(2, 32));
    assert_eq!(Some(4_294_836_225), checked_power(65_535, 2));
    assert_eq!(None, checked_power(65_536, 2));
    assert_eq!(Ok(125), compute(Operation::Pow, 5, 3));
    assert_eq!(Err(ErrorKind::OverflowInPow), compute(Operation::Pow, 10, 10));
}

#[test]
fn the_index_that_nth_picks() {
    assert_eq!(None, nth_index(0, 0, false));
    assert_eq!(None, nth_index(0, 0, true));
    assert_eq!(Some(4), nth_index(5, 0, true));
    assert_eq!(Some(4), nth_index(5, -1, false));
    assert_eq!(Some(0), nth_index(5, -5, false));
    assert_eq!(Some(3), nth_index(5, -7, false));
    assert_eq!(Some(2), nth_index(5, 2, false));
    assert_eq!(None, nth_index(5, 5, false));
    assert_eq!(Some(3), nth_index(5, i64::MIN, false).map(|_| 3));
    assert_eq!(None, nth_index(5, i64::MAX, false));
}

#[test]
fn the_context_keeps_stacks() {
    let mut ctx = Context::default();
    assert_eq!(None, ctx.value("k"));
    assert!(ctx.values("k").is_none());
    assert!(ctx.pop_variable("k").is_none());
    ctx.add_variable("k", "/p/a", "1");
    ctx.add_variable("k", "/p/b", "2");
    ctx.add_variable("other", "/p/c", "x");
    assert_eq!(vec!["1", "2"], ctx.values("k").unwrap());
    assert_eq!("2", ctx.pop_variable("k").unwrap().value());
    assert_eq!("1", ctx.value("k").unwrap());
    assert_eq!("/p/a", ctx.pop_variable("k").unwrap().path());
    assert_eq!(None, ctx.value("k"));
    assert!(ctx.values("k").is_none());
    assert_eq!(0, ctx.count("k"));
    assert_eq!("x", ctx.value("other").unwrap());
    ctx.add_variable("k", "", "again");
    ctx.add_variable("k", "", "more");
    assert_eq!(2, ctx.remove_variable("k").unwrap().len());
    assert!(ctx.remove_variable("k").is_none());
    let copy = ctx.duplicate();
    ctx.add_variable("other", "", "y");
    assert_eq!("x", copy.value("other").unwrap());
    assert_eq!("y", ctx.value("other").unwrap());
}

#[test]
fn the_context_keeps_functions() {
    let mut ctx = Context::default();
    assert!(ctx.function("f").is_none());
    ctx.add_function("f".to_string(), vec!["a".to_string()], "one".to_string());
    ctx.add_function("f".to_string(), Vec::new(), "two".to_string());
    let function = ctx.function("f").unwrap();
    assert_eq!("two", function.content());
    assert!(function.args().is_empty());
    let copy = ctx.duplicate();
    assert_eq!("two", copy.function("f").unwrap().content());
}

#[test]
fn the_input_knows_its_line_and_index() {
    let files = Files::new();
    let mut input = "ab\n\u{e9}\nz".try_into_input(&files).unwrap();
    assert_eq!((1, 0, Some(&'a')), (input.line_no(), input.index(), input.current()));
    assert_eq!("ab\n", input.line());
    input.step().unwrap();
    input.step().unwrap();
    assert_eq!((1, 2, Some(&'\n')), (input.line_no(), input.index(), input.current()));
    input.step().unwrap();
    assert_eq!((2, 0, Some(&'\u{e9}')), (input.line_no(), input.index(), input.current()));
    assert_eq!("\u{e9}\n", input.line());
    input.step().unwrap();
    input.step().unwrap();
    assert_eq!((3, 0, Some(&'z')), (input.line_no(), input.index(), input.current()));
    assert!(!input.is_end());
    input.step().unwrap();
    assert_eq!((3, 1, None), (input.line_no(), input.index(), input.current()));
    assert!(input.is_end());
    assert_eq!("", input.line());
    input.step().unwrap();
    assert_eq!((3, 1, None), (input.line_no(), input.index(), input.current()));

    let empty = "".try_into_input(&files).unwrap();
    assert_eq!((0, 0, None), (empty.line_no(), empty.index(), empty.current()));
    assert_eq!("", empty.path());
}

#[test]
fn the_input_joins_paths() {
    let mut files = Files::new();
    files.add_text("/t/page.arct", "x");
    files.add_directory("/t/dir", Vec::new());
    let input = Input::open("/t/page.arct", &files).unwrap();
    assert_eq!("/t/other.arct", input.join_path("other.arct", &files).unwrap());
    assert_eq!("/abs.arct", input.join_path("/abs.arct", &files).unwrap());
    let mut moved = Input::new("", "x");
    moved.set_path("/t/dir");
    assert_eq!("/t/dir/inside", moved.join_path("inside", &files).unwrap());
    moved.set_path("/t/unknown");
    let error: InternalError = moved.join_path("inside", &files).unwrap_err();
    assert_eq!(ErrorKind::UnresolvedPath, error.kind());
    assert_eq!("/t/unknown", error.message());
    assert_eq!(ErrorKind::UnresolvedPath, Input::open("/nowhere", &files).unwrap_err().kind());
    assert_eq!(ErrorKind::IoFailure, Input::open("/t/dir", &files).unwrap_err().kind());
}

#[test]
fn the_output_has_three_tiers() {
    let mut output = Output::new(b">".to_vec());
    output.write_char('a');
    output.write_str("b\u{e9}");
    assert_eq!(b">".to_vec(), *output.destination());
    output.flush_buffer_to_content();
    output.write_char('x');
    output.clear_buffer();
    output.write_str("c");
    assert_eq!("c", output.take_buffer());
    assert_eq!("", output.take_buffer());
    output.write_content_to_destination().unwrap();
    assert_eq!(">ab\u{e9}".as_bytes().to_vec(), *output.destination());
    output.write_str("d");
    output.flush_buffer_and_file(&b"one\r\ntwo\n".to_vec()).unwrap();
    assert_eq!("done\ntwo", output.take_content());
    assert_eq!("", output.take_content());
    let error = output.flush_buffer_and_file(&vec![0xc3]).unwrap_err();
    assert_eq!(ErrorKind::BadUtf8, error.kind());
    assert_eq!(">ab\u{e9}".as_bytes().to_vec(), output.into_destination());
}

#[test]
fn the_snapshot_answers_what_it_knows() {
    let mut files = Files::new();
    assert!(matches!(files.node("/a"), Known::Unknown));
    assert!(matches!(files.node(""), Known::Known(Node::Missing)));
    assert!(matches!(files.is_directory(""), Known::Known(false)));
    assert!(matches!(files.canonical_of("/a"), Known::Unknown));
    files.add_text("/a", "text");
    files.add_missing("/b");
    files.add_directory("/c", Vec::new());
    files.add_canonical("/a", Some("/real/a".to_string()));
    files.add_canonical("/b", None);
    assert!(matches!(files.node("/a"), Known::Known(Node::File(bytes)) if bytes == b"text"));
    assert!(matches!(files.node("/b"), Known::Known(Node::Missing)));
    assert!(matches!(files.is_directory("/a"), Known::Known(false)));
    assert!(matches!(files.is_directory("/c"), Known::Known(true)));
    assert!(matches!(files.canonical_of("/a"), Known::Known(Some(p)) if p == "/real/a"));
    assert!(matches!(files.canonical_of("/b"), Known::Known(None)));
    files.add_missing("/a");
    assert!(matches!(files.node("/a"), Known::Known(Node::Missing)));
}

#[test]
fn bindings_on_the_command_line() {
    let pair = |key: &str, value: &str| Some((key.to_string(), value.to_string()));
    assert_eq!(pair("key", "value"), split_binding("=key=value"));
    assert_eq!(pair("a=b", "c"), split_binding(":a=b:c"));
    assert_eq!(pair("", "v"), split_binding("==v"));
    assert_eq!(pair("k", ""), split_binding("=k="));
    assert_eq!(None, split_binding(""));
    assert_eq!(None, split_binding("="));
    assert_eq!(None, split_binding("=key"));
    assert_eq!(None, split_binding("=a=b=c"));
    assert_eq!(
        ("/route".to_string(), "/a=b".to_string()),
        string_from_dkv("=/route=/a=b")
    );
    assert_eq!(("all".to_string(), String::new()), string_from_dkv(",all"));
    assert_eq!((String::new(), String::new()), string_from_dkv(","));
}

#[test]
fn numbers_in_letters() {
    assert_eq!("a", base26(0));
    assert_eq!("z", base26(25));
    assert_eq!("aa", base26(26));
    assert_eq!("az", base26(51));
    assert_eq!("ba", base26(52));
    assert_eq!("zz", base26(701));
    assert_eq!("aaa", base26(702));
}
