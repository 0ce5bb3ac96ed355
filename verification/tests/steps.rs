use arcana_core::parser::MAX_DEPTH;
use arcana_core::{Context, Files, TemplateParser};

fn fixtures() -> Files {
    let mut files = Files::new();
    files.add_text("./resources/template.txt", "**{{ CONTENT }}**\n");
    files
}

fn str_parser<'f>(input: &str, files: &'f Files) -> TemplateParser<'f> {
    TemplateParser::new(Context::default(), input, Vec::new(), files).unwrap()
}

#[test]
fn buffer_all_while() {
    let files = fixtures();
    let mut parser = str_parser("abc$", &files);
    parser.buffer_all_while(|c| matches!(c, 'a'|'b'|'c')).unwrap();
    assert_eq!(Some(&'$'), parser.input().current());
}

#[test]
fn buffer_rest_of_tagname() {
    let files = fixtures();
    let mut parser = str_parser("compile^", &files);
    parser.buffer_rest_of_tagname().unwrap();
    assert_eq!(Some(&'^'), parser.input().current());
}

#[test]
fn bypass_whitespace() {
    let files = fixtures();
    let mut parser = str_parser("        x", &files);
    parser.bypass_whitespace().unwrap();
    assert_eq!(Some(&'x'), parser.input().current());
}

#[test]
fn buffer_whitespace() {
    let files = fixtures();
    let mut parser = str_parser("        \n x", &files);
    parser.buffer_whitespace().unwrap();
    assert_eq!(Some(&'x'), parser.input().current());
}

#[test]
fn buffer_whitespace_enforce_one_1() {
    let files = fixtures();
    let mut parser = str_parser("        \n x", &files);
    assert!(parser.buffer_whitespace_enforce_one().unwrap());
    assert_eq!(Some(&'x'), parser.input().current());
}

#[test]
fn buffer_whitespace_enforce_one_2() {
    let files = fixtures();
    let mut parser = str_parser("x", &files);
    assert!(!parser.buffer_whitespace_enforce_one().unwrap());
    assert_eq!(Some(&'x'), parser.input().current());
}

#[test]
fn bypass_whitespace_enforce_one_1() {
    let files = fixtures();
    let mut parser = str_parser("        \n x", &files);
    assert!(parser.bypass_whitespace_enforce_one().unwrap());
    assert_eq!(Some(&'x'), parser.input().current());
}

#[test]
fn bypass_whitespace_enforce_one_2() {
    let files = fixtures();
    let mut parser = str_parser("x", &files);
    assert!(!parser.bypass_whitespace_enforce_one().unwrap());
    assert_eq!(Some(&'x'), parser.input().current());
}

#[test]
fn buffer_all_until() {
    let files = fixtures();
    let mut parser = str_parser("abcdef_x\n\t$", &files);
    parser.buffer_all_until(|c| matches!(c, '$')).unwrap();
    assert_eq!(Some(&'$'), parser.input().current());
}

#[test]
fn buffer_all_until_sequence_1() {
    let files = fixtures();
    let mut parser = str_parser("this that the other \\/%}/%}", &files);
    parser.buffer_all_until_sequence("test", &['/', '%', '}']).unwrap();
    // should buffer until end
    assert_eq!(None, parser.input().current());
}

#[test]
fn buffer_all_until_sequence_2() {
    let files = fixtures();
    let mut parser = str_parser("this that the other /%}/%}", &files);
    parser.buffer_all_until_sequence("test", &['/', '%', '}']).unwrap();
    assert_eq!(Some(&'/'), parser.input().current());
}

#[test]
fn bypass_all_until() {
    let files = fixtures();
    let mut parser = str_parser("abcdef_x\n\t$", &files);
    parser.bypass_all_until(|c| matches!(c, '$')).unwrap();
    assert_eq!(Some(&'$'), parser.input().current());
}

#[test]
fn tag_expect_char_1() {
    let files = fixtures();
    let mut parser = str_parser("a", &files);
    parser.tag_expect_char("test", |c| matches!(c, 'a')).unwrap();
    assert_eq!(None, parser.input().current());
}

#[test]
fn tag_expect_char_2() {
    let files = fixtures();
    let mut parser = str_parser("$", &files);
    match parser.tag_expect_char("test", |c| matches!(c, 'a')) {
        Ok(_) => panic!("Expected err (ok)"),
        Err(e) => match e {
            Ok(_) => panic!("Expected err (flow)"),
            Err(e) => assert_eq!("Unexpected character in tag 'test'", e.message()),
        },
    }
    assert_eq!(Some(&'$'), parser.input().current());
}

#[test]
fn tag_expect_char_3() {
    let files = fixtures();
    let mut parser = str_parser("", &files);
    match parser.tag_expect_char("test", |c| matches!(c, 'a')) {
        Ok(_) => panic!("Expected err (ok)"),
        Err(e) => match e {
            Ok(_) => panic!("Expected err (flow)"),
            Err(e) => assert_eq!(e.message(), "Unexpected EOF in tag 'test'"),
        },
    }
    assert_eq!(None, parser.input().current());
}

#[test]
fn end_tag_expect_char_1() {
    let files = fixtures();
    let mut parser = str_parser("a", &files);
    parser.end_tag_expect_char("test", |c| matches!(c, 'a')).unwrap();
    assert_eq!(None, parser.input().current());
}

#[test]
fn end_tag_expect_char_2() {
    let files = fixtures();
    let mut parser = str_parser("$", &files);
    match parser.end_tag_expect_char("test", |c| matches!(c, 'a')) {
        Ok(_) => panic!("Expected err (ok)"),
        Err(e) => match e {
            Ok(_) => panic!("Expected err (flow)"),
            Err(e) => assert_eq!("Unexpected character in end-tag 'test'", e.message()),
        },
    }
    assert_eq!(Some(&'$'), parser.input().current());
}

#[test]
fn end_tag_expect_char_3() {
    let files = fixtures();
    let mut parser = str_parser("", &files);
    match parser.end_tag_expect_char("test", |c| matches!(c, 'a')) {
        Ok(_) => panic!("Expected err (ok)"),
        Err(e) => match e {
            Ok(_) => panic!("Expected err (flow)"),
            Err(e) => assert_eq!(e.message(), "Unexpected EOF in end-tag 'test'"),
        },
    }
    assert_eq!(None, parser.input().current());
}

#[test]
fn expect_end_of_self_close_tag_1() {
    let files = fixtures();
    let mut parser = str_parser(" /%}", &files);
    parser.expect_end_of_self_close_tag("test").unwrap();
    assert_eq!(None, parser.input().current());
}

#[test]
fn expect_end_of_self_close_tag_2() {
    let files = fixtures();
    let mut parser = str_parser("$", &files);
    match parser.expect_end_of_self_close_tag("test") {
        Ok(_) => panic!("Expected err (ok)"),
        Err(e) => match e {
            Ok(_) => panic!("Expected err (flow)"),
            Err(e) => assert_eq!("Unexpected character in tag 'test'", e.message()),
        },
    }
    assert_eq!(Some(&'$'), parser.input().current());
}

#[test]
fn expect_end_of_self_close_tag_3() {
    let files = fixtures();
    let mut parser = str_parser("", &files);
    match parser.expect_end_of_self_close_tag("test") {
        Ok(_) => panic!("Expected err (ok)"),
        Err(e) => match e {
            Ok(_) => panic!("Expected err (flow)"),
            Err(e) => assert_eq!(e.message(), "Unexpected EOF in tag 'test'"),
        },
    }
    assert_eq!(None, parser.input().current());
}

#[test]
fn expect_end_of_tag_1() {
    let files = fixtures();
    let mut parser = str_parser(" %}", &files);
    parser.expect_end_of_tag("test").unwrap();
    assert_eq!(None, parser.input().current());
}

#[test]
fn expect_end_of_tag_2() {
    let files = fixtures();
    let mut parser = str_parser("$", &files);
    match parser.expect_end_of_tag("test") {
        Ok(_) => panic!("Expected err (ok)"),
        Err(e) => match e {
            Ok(_) => panic!("Expected err (flow)"),
            Err(e) => assert_eq!("Unexpected character in tag 'test'", e.message()),
        },
    }
    assert_eq!(Some(&'$'), parser.input().current());
}

#[test]
fn expect_end_of_tag_3() {
    let files = fixtures();
    let mut parser = str_parser("", &files);
    match parser.expect_end_of_tag("test") {
        Ok(_) => panic!("Expected err (ok)"),
        Err(e) => match e {
            Ok(_) => panic!("Expected err (flow)"),
            Err(e) => assert_eq!(e.message(), "Unexpected EOF in tag 'test'"),
        },
    }
    assert_eq!(None, parser.input().current());
}

#[test]
fn parse_variable_name() {
    let files = fixtures();
    let mut parser = str_parser("thename $^#*", &files);
    let variable = parser.parse_variable_name("test").unwrap();
    assert_eq!("thename", variable);
    assert_eq!(Some(&' '), parser.input().current());
}

#[test]
fn parse_text_1() {
    let files = fixtures();
    let mut parser = str_parser("\"this is a string\" ", &files);
    let string = parser.parse_text("test").unwrap();
    assert_eq!("this is a string", string);
    assert_eq!(Some(&' '), parser.input().current());
}

#[test]
fn parse_text_2() {
    let files = fixtures();
    let mut parser = str_parser("\"this is a string\" ", &files);
    let string = parser.parse_text_string("test").unwrap();
    assert_eq!(String::from("this is a string"), string);
    assert_eq!(Some(&' '), parser.input().current());
}

#[test]
fn parse_text_3() {
    let files = fixtures();
    let mut parser = str_parser(" \"this is a string\" ", &files);
    match parser.parse_text_string("test") {
        Ok(_) => panic!("Expected err (ok)"),
        Err(e) => match e {
            Ok(_) => panic!("Expected err (flow)"),
            Err(e) => assert_eq!("Unexpected character in tag 'test'", e.message()),
        },
    }

    assert_eq!(Some(&' '), parser.input().current());
}

#[test]
fn parse_text_as_path() {
    let files = fixtures();
    let mut parser = str_parser("\"../file.txt\" ", &files);
    let path = parser.parse_text_as_path("test").unwrap();
    assert_eq!("../file.txt", path);
    assert_eq!(Some(&' '), parser.input().current());
}

#[test]
fn parse_call() {
    let files = fixtures();
    // "call" would already be parsed out
    let mut parser = str_parser(" \"./resources/template.txt\" /%}", &files);
    parser.parse_call(MAX_DEPTH).unwrap();
}

#[test]
fn parse_compile() {
    let files = fixtures();
    // "call" would already be parsed out
    let mut parser = str_parser(" \"./resources/template.txt\" /%}", &files);
    parser.parse_compile(MAX_DEPTH).unwrap();
}

#[test]
fn current_or_continue_flushes_at_the_end() {
    let files = fixtures();
    let mut parser = str_parser("a", &files);
    assert_eq!('a', parser.current_or_continue().unwrap());
    assert_eq!('a', parser.current_or_break().unwrap());
    parser.push_step().unwrap();
    assert!(matches!(parser.current_or_break(), Err(Ok(_))));
    assert!(matches!(parser.current_or_continue(), Err(Ok(_))));
    assert!(parser.output().destination().is_empty());
    let error = parser.push_step_internal().unwrap_err();
    assert_eq!("Unexpected EOF", error.message());
    assert_eq!("Unexpected EOF", parser.unexpected_eof().message());
}

#[test]
fn values_are_texts_numbers_or_variables() {
    let files = fixtures();
    let mut ctx = Context::default();
    ctx.add_variable("name", "", "bound");
    let mut parser =
        TemplateParser::new(ctx, "\"a \\\"b\\\" \\n\" -12 +7 name other 3x", Vec::new(), &files)
            .unwrap();
    assert_eq!(Some("a \"b\" \\n".to_string()), parser.parse_value("t").unwrap());
    parser.bypass_whitespace().unwrap();
    assert_eq!(Some("-12".to_string()), parser.parse_value("t").unwrap());
    parser.bypass_whitespace().unwrap();
    assert_eq!(7, parser.parse_value_as_number("t").unwrap());
    parser.bypass_whitespace().unwrap();
    assert_eq!(Some("bound".to_string()), parser.parse_variable("t").unwrap());
    assert_eq!(None, parser.parse_value("t").unwrap());
    parser.bypass_whitespace().unwrap();
    assert_eq!("3", parser.parse_number("t").unwrap());
    assert_eq!(Some(&'x'), parser.input().current());
}

#[test]
fn a_number_needs_a_digit() {
    let files = fixtures();
    let mut parser = str_parser("-x", &files);
    match parser.parse_number("t") {
        Err(Err(e)) => assert_eq!("Unexpected character in tag 't'", e.message()),
        _ => panic!("expected a failure"),
    }
    let mut parser = str_parser("+", &files);
    match parser.parse_number("t") {
        Err(Err(e)) => assert_eq!("Unexpected EOF in tag 't'", e.message()),
        _ => panic!("expected a failure"),
    }
    let mut parser = str_parser("\"open", &files);
    match parser.parse_text("t") {
        Err(Err(e)) => assert_eq!("Unexpected EOF in tag 't', expected \"", e.message()),
        _ => panic!("expected a failure"),
    }
}

#[test]
fn lists_in_round_brackets() {
    let files = fixtures();
    let mut parser = str_parser(" ( a , b.c,d )()(\"x\", 1 , unbound)", &files);
    assert_eq!(vec!["a", "b.c", "d"], parser.parse_function_args("t").unwrap());
    assert!(parser.parse_function_args("t").unwrap().is_empty());
    assert_eq!(
        vec![Some("x".to_string()), Some("1".to_string()), None],
        parser.parse_function_arg_values("t").unwrap()
    );
    let mut parser = str_parser("(a b)", &files);
    assert!(parser.parse_function_args("t").is_err());
    let mut parser = str_parser("(a,", &files);
    assert!(parser.parse_function_args("t").is_err());
}

#[test]
fn paths_of_values() {
    let mut files = Files::new();
    files.add_text("/t/page.arct", "\"rel.txt\" bound /abs");
    let mut ctx = Context::default();
    ctx.add_variable("bound", "/other/owner.arct", "file.txt");
    let mut parser = TemplateParser::new(
        ctx,
        arcana_core::FilePath::new("/t/page.arct"),
        Vec::new(),
        &files,
    )
    .unwrap();
    assert_eq!(Some("/t/rel.txt".to_string()), parser.parse_value_as_path("t").unwrap());
    parser.bypass_whitespace().unwrap();
    assert_eq!(Some("/other/file.txt".to_string()), parser.parse_value_as_path("t").unwrap());
    parser.bypass_whitespace().unwrap();
    assert!(parser.parse_variable_as_path("t").is_err());
    assert_eq!("/t/x", parser.join_path("x").unwrap());
}

#[test]
fn names_of_tags_are_read_as_far_as_they_go() {
    let files = fixtures();
    let names = arcana_core::parser::tags::tag_table();
    let blocks = arcana_core::parser::tags::block_table();
    assert_eq!(26, names.len());
    assert_eq!(14, blocks.len());
    let mut parser = str_parser("forsplit x", &files);
    assert_eq!(6, parser.match_name(&names, false).unwrap());
    assert_eq!(Some(&' '), parser.input().current());
    let mut parser = str_parser("nthx", &files);
    assert_eq!(10, parser.match_name(&names, false).unwrap());
    assert_eq!(Some(&'x'), parser.input().current());
    let mut parser = str_parser("/", &files);
    assert_eq!(25, parser.match_name(&names, false).unwrap());
    let mut parser = str_parser("else", &files);
    assert!(parser.match_name(&blocks, true).is_err());
    let mut parser = str_parser("fo", &files);
    match parser.match_name(&names, false) {
        Err(Err(e)) => assert_eq!(arcana_core::ErrorKind::UnexpectedEof, e.kind()),
        _ => panic!("expected a failure"),
    }
}

#[test]
fn a_depth_of_zero_follows_no_block() {
    let files = fixtures();
    let mut parser = str_parser(" a %}x{% /set %}", &files);
    match parser.parse_set(0) {
        Err(Err(e)) => assert_eq!(arcana_core::ErrorKind::TooDeep, e.kind()),
        _ => panic!("expected a failure"),
    }
    let mut parser = str_parser(" a %}x{% /set %}rest", &files);
    parser.parse_set(1).unwrap();
    assert_eq!("x", parser.context().unwrap().value("a").unwrap());
    assert_eq!(Some(&'r'), parser.input().current());
    assert!(MAX_DEPTH > 1);
}
