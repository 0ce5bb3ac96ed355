use arcana_core::parser::MAX_DEPTH;
use arcana_core::{Arcana, Context, Entry, ErrorKind, Files, InternalError, TemplateParser};

fn render_with(input: &str, ctx: Context, files: &Files) -> Result<String, InternalError> {
    let mut output = Vec::new();
    Arcana::compile_with_ctx(input, &mut output, ctx, files)?;
    Ok(String::from_utf8(output).unwrap())
}

fn render(input: &str) -> Result<String, InternalError> {
    render_with(input, Context::default(), &Files::new())
}

fn kind_of(input: &str) -> ErrorKind {
    render(input).unwrap_err().kind()
}

#[test]
fn plain_text_is_copied_byte_for_byte() {
    let input = "caf\u{e9} \u{4e16}\u{754c} { not a tag } 100% #1";
    assert_eq!(input, render(input).unwrap());
    assert_eq!(input.as_bytes(), render(input).unwrap().as_bytes());
}

#[test]
fn a_bracket_at_the_end_is_a_character() {
    assert_eq!("a{", render("a{").unwrap());
    assert_eq!("{", render("{").unwrap());
}

#[test]
fn comments_are_removed() {
    assert_eq!("ab", render("a{# one #}b{# two #}").unwrap());
    assert_eq!("ab", render("a{##}b").unwrap());
}

#[test]
fn a_backslash_hides_the_end_of_a_comment() {
    assert_eq!("ab", render("a{# x \\#} y #}b").unwrap());
}

#[test]
fn an_unclosed_comment_fails() {
    assert_eq!(ErrorKind::UnexpectedEof, kind_of("a{# never closed"));
    assert_eq!("Unclosed comment", render("{# x").unwrap_err().message());
}

#[test]
fn set_binds_what_its_body_renders() {
    let files = Files::new();
    let mut parser = TemplateParser::new(
        Context::default(),
        "{% set name %}a{# gone #}b{% /set %}",
        Vec::new(),
        &files,
    )
    .unwrap();
    parser.parse().unwrap();
    let ctx = parser.take_context().unwrap();
    assert_eq!(1, ctx.count("name"));
    assert_eq!("ab", ctx.value("name").unwrap());
    assert_eq!(render("a{# gone #}b").unwrap(), *ctx.value("name").unwrap());
}

#[test]
fn set_shadows_and_stacks() {
    let out = render("{% set v %}1{% /set %}{% set v %}2{% /set %}{{ v }}{% count v /%}");
    assert_eq!("22", out.unwrap());
}

#[test]
fn a_loop_takes_its_bindings_away() {
    let files = Files::new();
    let mut ctx = Context::default();
    ctx.add_variable("items", "", "a");
    ctx.add_variable("items", "", "b");
    ctx.add_variable("item", "", "outer");
    ctx.add_variable("other", "", "kept");
    let mut parser = TemplateParser::new(
        ctx,
        "{% foreach item in items as loop %}{{ item }}{{ loop.index }}{% /foreach %}",
        Vec::new(),
        &files,
    )
    .unwrap();
    parser.parse().unwrap();
    let ctx = parser.take_context().unwrap();
    assert_eq!(2, ctx.count("items"));
    assert_eq!(1, ctx.count("item"));
    assert_eq!("outer", ctx.value("item").unwrap());
    assert_eq!(1, ctx.count("other"));
    assert_eq!(0, ctx.count("loop.index"));
    assert_eq!(0, ctx.count("loop.size"));
    assert_eq!(0, ctx.count("loop.isfirst"));
    assert_eq!(0, ctx.count("loop.islast"));
    assert_eq!("a0b1", String::from_utf8(parser.into_destination()).unwrap());
}

#[test]
fn reversed_turns_the_items_round_but_not_the_index() {
    let mut ctx = Context::default();
    for item in ["a", "b", "c"] {
        ctx.add_variable("items", "", item);
    }
    let out = render_with(
        "{% foreach i in items as l reversed %}{{ i }}{{ l.index }}/{{ l.size }} {% /foreach %}",
        ctx,
        &Files::new(),
    );
    assert_eq!("c0/3 b1/3 a2/3 ", out.unwrap());
}

#[test]
fn from_and_to_slice_before_the_loop_is_reversed() {
    let mut ctx = Context::default();
    for item in ["0", "1", "2", "3", "4"] {
        ctx.add_variable("items", "", item);
    }
    let files = Files::new();
    let loop_over = |options: &str| {
        let input =
            format!("{{% foreach i in items {} %}}{{{{ i }}}}{{% /foreach %}}", options);
        let mut copy = Context::default();
        for item in ["0", "1", "2", "3", "4"] {
            copy.add_variable("items", "", item);
        }
        render_with(&input, copy, &files).unwrap()
    };
    assert_eq!("123", loop_over("from 1 to 4"));
    assert_eq!("321", loop_over("from 1 to 4 reversed"));
    assert_eq!("01", loop_over("to 2"));
    assert_eq!("34", loop_over("from 3"));
    assert_eq!("01234", loop_over("from -3 to 99"));
    assert_eq!("", loop_over("from 4 to 2"));
    let _ = ctx;
}

#[test]
fn an_empty_loop_renders_its_else() {
    assert_eq!("none", render("{% foreach i in items %}x{% else %}none{% /foreach %}").unwrap());
    assert_eq!("", render("{% foreach i in items %}x{% /foreach %}").unwrap());
}

#[test]
fn nth_counts_from_either_end() {
    let pick = |index: &str| {
        let mut ctx = Context::default();
        for item in ["a", "b", "c"] {
            ctx.add_variable("items", "", item);
        }
        let input = format!("[{{% nth items %}}{}{{% /nth %}}]", index);
        render_with(&input, ctx, &Files::new()).unwrap()
    };
    assert_eq!("[a]", pick("0"));
    assert_eq!("[c]", pick("2"));
    assert_eq!("[]", pick("3"));
    assert_eq!("[]", pick("300"));
    assert_eq!("[c]", pick("-0"));
    assert_eq!("[c]", pick(" -1 "));
    assert_eq!("[b]", pick("-2"));
    assert_eq!("[a]", pick("-3"));
    assert_eq!("[c]", pick("-4"));
    assert_eq!("[]", render("[{% nth nothing %}0{% /nth %}]").unwrap());
    assert_eq!("[]", render("[{% nth nothing %}-0{% /nth %}]").unwrap());
}

#[test]
fn nth_needs_an_integer() {
    assert_eq!(ErrorKind::BadNumber, kind_of("{% nth items %}x{% /nth %}"));
}

#[test]
fn arithmetic_gives_exact_values() {
    assert_eq!("7", render("{% add 3 %}4{% /add %}").unwrap());
    assert_eq!("-1", render("{% sub 3 %}4{% /sub %}").unwrap());
    assert_eq!("-12", render("{% mul -3 %}4{% /mul %}").unwrap());
    assert_eq!("-3", render("{% div -7 %}2{% /div %}").unwrap());
    assert_eq!("3", render("{% div -7 %}-2{% /div %}").unwrap());
    assert_eq!("-1", render("{% mod -7 %}2{% /mod %}").unwrap());
    assert_eq!("1", render("{% mod 7 %}-2{% /mod %}").unwrap());
    assert_eq!("1024", render("{% pow 2 %}10{% /pow %}").unwrap());
    assert_eq!("1", render("{% pow 0 %}0{% /pow %}").unwrap());
    assert_eq!("0", render("{% pow 0 %}5{% /pow %}").unwrap());
    assert_eq!("4294967295", render("{% pow 4294967295 %}1{% /pow %}").unwrap());
    assert_eq!(
        "-9223372036854775808",
        render("{% sub -9223372036854775807 %}1{% /sub %}").unwrap()
    );
}

#[test]
fn division_by_zero_is_zero() {
    assert_eq!("0", render("{% div 7 %}0{% /div %}").unwrap());
    assert_eq!("0", render("{% div -9223372036854775808 %}-1{% /div %}").unwrap());
    assert_eq!("0", render("{% mod -9223372036854775808 %}-1{% /mod %}").unwrap());
}

#[test]
fn arithmetic_that_does_not_fit_fails() {
    assert_eq!(ErrorKind::BadNumber, kind_of("{% add 9223372036854775807 %}1{% /add %}"));
    assert_eq!(ErrorKind::BadNumber, kind_of("{% sub -9223372036854775808 %}1{% /sub %}"));
    assert_eq!(ErrorKind::BadNumber, kind_of("{% mul 4611686018427387904 %}2{% /mul %}"));
    assert_eq!(ErrorKind::BadNumber, kind_of("{% mod 7 %}0{% /mod %}"));
    assert_eq!(ErrorKind::OverflowInPow, kind_of("{% pow 2 %}32{% /pow %}"));
    assert_eq!(ErrorKind::BadNumber, kind_of("{% pow -2 %}2{% /pow %}"));
    assert_eq!(ErrorKind::BadNumber, kind_of("{% pow 2 %}-2{% /pow %}"));
    assert_eq!(ErrorKind::BadNumber, kind_of("{% pow 4294967296 %}1{% /pow %}"));
}

#[test]
fn operands_must_be_numbers() {
    assert_eq!(ErrorKind::BadNumber, kind_of("{% add 1 %}x{% /add %}"));
    assert_eq!(ErrorKind::BadNumber, kind_of("{% add \"x\" %}1{% /add %}"));
    assert_eq!(ErrorKind::MissingValue, kind_of("{% add unbound %}1{% /add %}"));
    assert_eq!(ErrorKind::UnexpectedCharacter, kind_of("{% add - %}1{% /add %}"));
}

#[test]
fn a_backslash_outside_a_tag() {
    assert_eq!("{% set x %}", render("\\{% set x %}").unwrap());
    assert_eq!("a{{ b }}", render("a\\{{ b }}").unwrap());
    assert_eq!("ab", render("a\\\n   \t b").unwrap());
    assert_eq!("a\\b", render("a\\\\b").unwrap());
    assert_eq!("a", render("a\\").unwrap());
}

#[test]
fn a_backslash_in_a_captured_body_is_kept_for_later() {
    let mut ctx = Context::default();
    ctx.add_variable("yes", "", "1");
    let out = render_with("{% if yes %}\\{% /if %}\\\n  !{% /if %}", ctx, &Files::new());
    assert_eq!("{% /if %}!", out.unwrap());
}

#[test]
fn conditions_compare_numbers_and_texts() {
    let truth = |condition: &str| {
        let mut ctx = Context::default();
        ctx.add_variable("two", "", "2");
        ctx.add_variable("ten", "", "10");
        ctx.add_variable("word", "", "abc");
        ctx.add_variable("empty", "", "");
        ctx.add_variable("no", "", "FaLsE");
        let input = format!("{{% if {} %}}T{{% else %}}F{{% /if %}}", condition);
        render_with(&input, ctx, &Files::new()).unwrap()
    };
    assert_eq!("T", truth("two < ten"));
    assert_eq!("F", truth("\"2.0\" < ten"));
    assert_eq!("T", truth("two <= 2"));
    assert_eq!("T", truth("ten >= 10"));
    assert_eq!("F", truth("ten > 10"));
    assert_eq!("T", truth("word > \"abb\""));
    assert_eq!("T", truth("word < \"abcd\""));
    assert_eq!("T", truth("unbound < word"));
    assert_eq!("F", truth("unbound > word"));
    assert_eq!("T", truth("unbound == other"));
    assert_eq!("F", truth("two == \"2 \""));
    assert_eq!("T", truth("two != ten"));
    assert_eq!("F", truth("empty"));
    assert_eq!("F", truth("no"));
    assert_eq!("F", truth("\"N\""));
    assert_eq!("F", truth("\"0\""));
    assert_eq!("T", truth("\"00\""));
    assert_eq!("T", truth("!empty"));
    assert_eq!("F", truth("!!empty"));
    assert_eq!("T", truth("!(two > ten)"));
    assert_eq!("T", truth("two > ten || word"));
    assert_eq!("F", truth("two > ten && word"));
    assert_eq!("F", truth("(two < ten || word) && empty"));
    assert_eq!("T", truth("two < ten || (word && empty)"));
}

#[test]
fn a_decided_condition_is_read_and_not_evaluated() {
    let mut ctx = Context::default();
    ctx.add_variable("yes", "", "1");
    let out = render_with(
        "{% if yes || !(unbound > 3 && (a == b)) %}T{% else %}F{% /if %}",
        ctx,
        &Files::new(),
    );
    assert_eq!("T", out.unwrap());
    assert_eq!(ErrorKind::UnexpectedCharacter, kind_of("{% if a || (b %}x{% /if %}"));
    assert_eq!(ErrorKind::UnexpectedCharacter, kind_of("{% if a =! b %}x{% /if %}"));
    assert_eq!(ErrorKind::UnexpectedCharacter, kind_of("{% if a & b %}x{% /if %}"));
    assert_eq!(ErrorKind::UnexpectedCharacter, kind_of("{% if a) %}x{% /if %}"));
}

#[test]
fn assert_fails_with_its_own_kind() {
    let error = render("{% assert \"1\" == \"2\" /%}never").unwrap_err();
    assert_eq!(ErrorKind::AssertionFailed, error.kind());
    assert_eq!("assertion failed", error.message());
    assert_eq!("ok", render("{% assert 1 == 1 /%}ok").unwrap());
}

#[test]
fn tags_must_be_known_and_closed() {
    assert_eq!(ErrorKind::UnknownTag, kind_of("{% zebra %}"));
    assert_eq!(ErrorKind::UnknownTag, kind_of("{% setup %}"));
    assert_eq!(ErrorKind::UnexpectedTag, kind_of("{% sez %}"));
    assert_eq!(ErrorKind::UnexpectedEof, kind_of("{% se"));
    assert_eq!(ErrorKind::UnexpectedEndTag, kind_of("{% /set %}"));
    assert_eq!(ErrorKind::UnknownEndTag, kind_of("{% set a %}{% /zebra %}"));
    assert_eq!(ErrorKind::UnexpectedEndTag, kind_of("{% set a %}{% /if %}"));
    assert_eq!(ErrorKind::UnexpectedTag, kind_of("{% set a %}{% else %}{% /set %}"));
    assert_eq!(ErrorKind::UnexpectedTag, kind_of("{% else %}"));
    assert_eq!(ErrorKind::UnexpectedEof, kind_of("{% if a %}never closed"));
    assert_eq!(ErrorKind::UnexpectedEof, kind_of("{% if a %}{{ b }} not closed"));
    assert_eq!(ErrorKind::UnexpectedEof, kind_of("{{ a"));
    assert_eq!(ErrorKind::UnexpectedCharacter, kind_of("{{ a b }}"));
    assert_eq!(ErrorKind::UnexpectedCharacter, kind_of("{% set 1a %}{% /set %}"));
}

#[test]
fn the_message_names_the_tag() {
    assert_eq!("Unknown tag ' zebra'", render("{% zebra %}").unwrap_err().message());
    assert_eq!("Unknown tag 'zebra'", render("{%zebra %}").unwrap_err().message());
    assert_eq!(
        "Unexpected EOF in tag 'set'",
        render("{% set a").unwrap_err().message()
    );
    assert_eq!(
        "Unexpected character in end-tag 'set'",
        render("{% set a %}{% /set x %}").unwrap_err().message()
    );
}

#[test]
fn an_error_carries_its_place() {
    let error = render("line one\nline {% zebra %} two\n").unwrap_err();
    let position = error.position().unwrap();
    assert_eq!("", position.file());
    assert_eq!(2, position.line());
    assert_eq!(13, position.index());
    assert_eq!("line {% zebra %} two\n", position.hint());
    assert_eq!(
        "Error 'Unknown tag ' zebra''\nIn ''\nOccured on line 2:13\nNear 'line {% zebra %} two\n'",
        error.to_string()
    );
    let unplaced = InternalError::new(ErrorKind::BadState, "lost");
    assert!(unplaced.position().is_none());
    assert_eq!("Error 'lost'\nPosition unknown (internal failure)", unplaced.to_string());
}

#[test]
fn functions_render_in_a_context_of_their_own() {
    let out = render(
        "{% set v %}outer{% /set %}\\
         {% fn show(v, w) %}[{{ v }}|{{ w }}]{% set leak %}1{% /set %}{% /fn %}\\
         {{ show(\"inner\") }}{{ show(v, \"x\") }}{{ show(unbound, 7) }}{{ v }}{% count leak /%}",
    );
    assert_eq!("[inner|][outer|x][|7]outer0", out.unwrap());
}

#[test]
fn the_newest_function_of_a_name_is_called() {
    let out = render("{% fn f() %}1{% /fn %}{% fn f() %}2{% /fn %}{{ f() }}");
    assert_eq!("2", out.unwrap());
    assert_eq!(ErrorKind::UnknownFunction, kind_of("{{ nothing() }}"));
}

#[test]
fn a_function_body_is_not_evaluated_when_it_is_defined() {
    let out = render("{% fn f() %}{% assert \"1\" == \"2\" /%}{% /fn %}fine");
    assert_eq!("fine", out.unwrap());
}

#[test]
fn nesting_has_a_limit() {
    let out = render("{% fn again() %}{{ again() }}{% /fn %}{{ again() }}");
    assert_eq!(ErrorKind::TooDeep, out.unwrap_err().kind());
    assert!(MAX_DEPTH >= 64);
    let mut deep = String::new();
    for _ in 0..30 {
        deep.push_str("{% if \"1\" %}");
    }
    deep.push('x');
    for _ in 0..30 {
        deep.push_str("{% /if %}");
    }
    assert_eq!("x", render(&deep).unwrap());
}

#[test]
fn forsplit_splits_at_a_delimiter_or_into_characters() {
    let split = |header: &str| {
        let input = format!("{{% forsplit p in {} %}}[{{{{ p }}}}]{{% /forsplit %}}", header);
        render(&input).unwrap()
    };
    assert_eq!("[a][b][][c]", split("\"a, b, , c\" on \", \""));
    assert_eq!("[][a][]", split("\",a,\" on \",\""));
    assert_eq!("[abc]", split("\"abc\" on \"x\""));
    assert_eq!("[]", split("\"\" on \"x\""));
    assert_eq!("[a][\u{e9}][c]", split("\"a\u{e9}c\" on \"\""));
    assert_eq!("[a][b]", split("\"ab\" on unbound"));
    assert_eq!("", split("unbound on \",\""));
    assert_eq!("[a][b]", split("\"aXXb\" on \"XX\""));
    assert_eq!("[][X]", split("\"XXX\" on \"XX\""));
}

#[test]
fn length_counts_bytes_and_count_counts_values() {
    assert_eq!("0", render("{% length unbound /%}").unwrap());
    assert_eq!("0", render("{% length \"\" /%}").unwrap());
    assert_eq!("3", render("{% length \"\u{20ac}\" /%}").unwrap());
    assert_eq!("0", render("{% count unbound /%}").unwrap());
}

#[test]
fn texts_keep_their_backslashes_but_for_the_quote() {
    assert_eq!("5", render("{% length \"a\\\"b\\n\" /%}").unwrap());
    let mut ctx = Context::default();
    ctx.add_variable("q", "", "say \"hi\"\\n");
    let out = render_with(
        "{% if q == \"say \\\"hi\\\"\\n\" %}same{% else %}other{% /if %}",
        ctx,
        &Files::new(),
    );
    assert_eq!("same", out.unwrap());
}

#[test]
fn files_are_asked_of_the_snapshot() {
    let files = Files::new();
    let error = render_with("{% include \"./a.txt\" /%}", Context::default(), &files);
    let error = error.unwrap_err();
    assert_eq!(ErrorKind::UnresolvedPath, error.kind());
    assert_eq!("./a.txt", error.message());

    let mut files = Files::new();
    files.add_missing("./a.txt");
    let error = render_with("{% include \"./a.txt\" /%}", Context::default(), &files);
    assert_eq!(ErrorKind::IoFailure, error.unwrap_err().kind());

    let mut files = Files::new();
    files.add_directory("./a.txt", Vec::new());
    let error = render_with("{% call \"./a.txt\" /%}", Context::default(), &files);
    assert_eq!(ErrorKind::IoFailure, error.unwrap_err().kind());

    let mut files = Files::new();
    files.add_file("./a.txt", vec![b'a', 0xff, b'b']);
    let error = render_with("{% include \"./a.txt\" /%}", Context::default(), &files);
    assert_eq!(ErrorKind::BadUtf8, error.unwrap_err().kind());
    let error = render_with("{% compile \"./a.txt\" /%}", Context::default(), &files);
    assert_eq!(ErrorKind::BadUtf8, error.unwrap_err().kind());
}

#[test]
fn canonical_paths_are_asked_of_the_snapshot() {
    let files = Files::new();
    let error = render_with("{% path \"a\" in \"/dir\" /%}", Context::default(), &files);
    let error = error.unwrap_err();
    assert_eq!(ErrorKind::UnresolvedCanonical, error.kind());
    assert_eq!("/dir/a", error.message());

    let mut files = Files::new();
    files.add_canonical("/dir/a", None);
    let error = render_with("{% path \"a\" in \"/dir\" /%}", Context::default(), &files);
    assert_eq!(ErrorKind::IoFailure, error.unwrap_err().kind());

    let mut files = Files::new();
    files.add_canonical("/dir/a", Some("/real/place/a.txt".to_string()));
    let all = "{% path \"a\" in \"/dir\" /%}|{% dirname \"a\" in \"/dir\" /%}|{% basename \"a\" in \"/dir\" /%}";
    let out = render_with(all, Context::default(), &files);
    assert_eq!("/real/place/a.txt|/real/place|a.txt", out.unwrap());
}

#[test]
fn include_joins_lines_and_drops_the_last_line_end() {
    let mut files = Files::new();
    files.add_text("/f/crlf.txt", "one\r\ntwo\n\nfour\r\n");
    files.add_text("/f/bare.txt", "one\ntwo");
    files.add_text("/f/empty.txt", "");
    files.add_text("/f/tag.txt", "{{ not }} {% evaluated %}\n");
    let out = render_with(
        "[{% include \"/f/crlf.txt\" /%}][{% include \"/f/bare.txt\" /%}][{% include \"/f/empty.txt\" /%}][{% include \"/f/tag.txt\" /%}]",
        Context::default(),
        &files,
    );
    assert_eq!("[one\ntwo\n\nfour][one\ntwo][][{{ not }} {% evaluated %}]", out.unwrap());
}

#[test]
fn call_shares_the_context_and_compile_does_not() {
    let mut files = Files::new();
    files.add_text("/t/binds.arct", "{% set bound %}yes{% /set %}in:{{ seen }};");
    let mut ctx = Context::default();
    ctx.add_variable("seen", "", "s");
    let out = render_with("{% call \"/t/binds.arct\" /%}{{ bound }}", ctx, &files);
    assert_eq!("in:s;yes", out.unwrap());
    let mut ctx = Context::default();
    ctx.add_variable("seen", "", "s");
    let out = render_with("{% compile \"/t/binds.arct\" /%}{{ bound }}", ctx, &files);
    assert_eq!("in:s;", out.unwrap());
}

#[test]
fn extend_wraps_all_that_was_rendered() {
    let mut files = Files::new();
    files.add_text("/t/layout.arct", "<{{ CONTENT }}>{{ title }}");
    let files_again = {
        let mut f = Files::new();
        f.add_text("/t/layout.arct", "<{{ CONTENT }}>{{ title }}");
        f
    };
    let mut parser = TemplateParser::new(
        Context::default(),
        "a{% extend \"/t/layout.arct\" /%}b{% set title %}T{% /set %}",
        Vec::new(),
        &files_again,
    )
    .unwrap();
    parser.parse().unwrap();
    assert_eq!(0, parser.context().unwrap().count("CONTENT"));
    assert_eq!("<ab>T", String::from_utf8(parser.into_destination()).unwrap());
    let _ = files;
}

#[test]
fn directories_are_listed_in_the_order_of_their_names() {
    let mut files = Files::new();
    let entry = |name: &str, is_dir: bool| Entry {
        name: name.to_string(),
        is_dir,
        is_file: !is_dir,
    };
    files.add_directory(
        "/d",
        vec![
            entry("b", true),
            entry("z.txt", false),
            entry("a", true),
            entry("B", true),
            entry("a.txt", false),
            entry("ab", true),
        ],
    );
    let dirs = render_with(
        "{% fordir d in \"/d\" %}{{ d }} {% /fordir %}",
        Context::default(),
        &files,
    );
    assert_eq!("/d/B /d/a /d/ab /d/b ", dirs.unwrap());
    let plain = render_with(
        "{% forfile f in \"/d\" from 1 %}{{ f }} {% else %}none{% /forfile %}",
        Context::default(),
        &files,
    );
    assert_eq!("/d/z.txt ", plain.unwrap());
    let error = render_with("{% fordir d in \"/e\" %}{% /fordir %}", Context::default(), &files);
    assert_eq!(ErrorKind::UnresolvedPath, error.unwrap_err().kind());
    files.add_text("/e", "a file");
    let error = render_with("{% fordir d in \"/e\" %}{% /fordir %}", Context::default(), &files);
    assert_eq!(ErrorKind::IoFailure, error.unwrap_err().kind());
}

#[test]
fn a_variable_resolves_against_the_file_that_bound_it() {
    let mut files = Files::new();
    files.add_text("/a/page.arct", "{% set target %}other.txt{% /set %}{% include target /%}");
    files.add_text("/a/other.txt", "found\n");
    let mut output = Vec::new();
    Arcana::compile_file("/a/page.arct", &mut output, &files).unwrap();
    assert_eq!("found", String::from_utf8(output).unwrap());

    let mut ctx = Context::default();
    ctx.add_variable("target", "/b/owner.cfg", "other.txt");
    assert_eq!("/b/other.txt", ctx.path("target").unwrap());
    ctx.add_variable("target", "/b/owner.cfg", "/abs/other.txt");
    assert_eq!("/abs/other.txt", ctx.path("target").unwrap());
}

#[test]
fn compile_appends_and_leaves_the_output_alone_on_failure() {
    let files = Files::new();
    let mut output = b"before ".to_vec();
    Arcana::compile("after", &mut output, &files).unwrap();
    assert_eq!(b"before after".to_vec(), output);
    let failed = Arcana::compile("x{% zebra %}", &mut output, &files);
    assert!(failed.is_err());
    assert_eq!(b"before after".to_vec(), output);
    let missing = Arcana::compile_file("/nowhere.arct", &mut output, &files);
    assert_eq!(ErrorKind::UnresolvedPath, missing.unwrap_err().kind());
}

#[test]
fn a_list_of_users_with_separators() {
    let mut ctx = Context::default();
    ctx.add_variable("users", "", "test.user");
    ctx.add_variable("users", "", "second.user");
    let input = "{% foreach u in users as loop %}{% if loop.isfirst %}{% else %}, {% /if %}{{ u }}{% if loop.islast %}.{% /if %}{% else %}No users.{% /foreach %}";
    assert_eq!("test.user, second.user.", render_with(input, ctx, &Files::new()).unwrap());
    assert_eq!("No users.", render(input).unwrap());
}

#[test]
fn an_assertion_on_a_variable() {
    let input = "{% assert id == \"1\" /%}True";
    let mut ctx = Context::default();
    ctx.add_variable("id", "", "1");
    assert_eq!("True", render_with(input, ctx, &Files::new()).unwrap());
    let mut ctx = Context::default();
    ctx.add_variable("id", "", "2");
    let error = render_with(input, ctx, &Files::new()).unwrap_err();
    assert_eq!(ErrorKind::AssertionFailed, error.kind());
}

#[test]
fn a_condition_with_an_alternative() {
    let input = "{% if id == \"1\" || id2 > \"4\" %}True{% else %}False{% /if %}";
    let mut ctx = Context::default();
    ctx.add_variable("id", "", "2");
    ctx.add_variable("id2", "", "5");
    assert_eq!("True", render_with(input, ctx, &Files::new()).unwrap());
}

#[test]
fn the_operand_in_the_tag_is_the_base_of_a_power() {
    assert_eq!("25", render("{% pow 5 %}2{% /pow %}").unwrap());
    assert_eq!("32", render("{% pow 2 %}5{% /pow %}").unwrap());
    assert_eq!("27", render("{% pow 3 %}3{% /pow %}").unwrap());
}

#[test]
fn the_characters_of_a_text_with_a_comma_behind_each() {
    let input = "{% forsplit c in \"012345\" on \"\" %}{{ c }}, {% /forsplit %}";
    assert_eq!("0, 1, 2, 3, 4, 5, ", render(input).unwrap());
}

#[test]
fn a_block_must_be_closed() {
    assert_eq!(ErrorKind::UnexpectedEof, kind_of("a{% set rest %}b"));
    assert_eq!(ErrorKind::UnexpectedEof, kind_of("{% set rest %}"));
    assert_eq!(ErrorKind::UnexpectedEof, kind_of("{% add 1 %}2"));
    assert_eq!(ErrorKind::UnexpectedEof, kind_of("{% nth items %}0"));
    assert_eq!(ErrorKind::UnexpectedEof, kind_of("{% if \"1\" %}x"));
    assert_eq!(ErrorKind::UnexpectedEof, kind_of("{% fn f() %}x"));
    assert_eq!(ErrorKind::UnexpectedEof, kind_of("{% forsplit c in \"01\" on \"\" %}x"));
    assert_eq!(ErrorKind::UnexpectedEof, kind_of("{% set a %}{% set b %}x{% /set %}"));
    assert_eq!(
        "Unexpected EOF in a block that is never closed",
        render("{% set rest %}b").unwrap_err().message()
    );
    assert_eq!("3", render("{% add 1 %}2{% /add %}").unwrap());
    assert_eq!("", render("{% set a %}{% set b %}x{% /set %}{% /set %}").unwrap());
}

#[test]
fn joins_are_taken_from_the_left() {
    let truth = |condition: &str| {
        let mut ctx = Context::default();
        ctx.add_variable("a", "", "0");
        ctx.add_variable("b", "", "1");
        ctx.add_variable("c", "", "1");
        let input = format!("{{% if {} %}}T{{% else %}}F{{% /if %}}", condition);
        render_with(&input, ctx, &Files::new()).unwrap()
    };
    assert_eq!("T", truth("a && b || c"));
    assert_eq!("F", truth("a && b || a"));
    assert_eq!("F", truth("1 || 0 && 0"));
    assert_eq!("T", truth("1 || 0 && 1"));
    assert_eq!("F", truth("b || a && a"));
    assert_eq!("T", truth("a || b && c"));
    assert_eq!("F", truth("a && b && c"));
    assert_eq!("T", truth("a || a || c"));
    assert_eq!("T", truth("a && (b || c) || c"));
    assert_eq!("F", truth("a && (b || c) || a"));
    assert_eq!("T", truth("(a && b) || (a || c)"));
    assert_eq!("T", truth("a && !b || !a"));
    assert_eq!("F", truth("b || !a && a"));
    assert_eq!("T", truth("b && (a && b || c)"));
}

#[test]
fn a_term_that_is_not_evaluated_is_not_negated() {
    let mut ctx = Context::default();
    ctx.add_variable("a", "", "0");
    ctx.add_variable("b", "", "1");
    let out = render_with("{% if a && !b %}T{% else %}F{% /if %}", ctx, &Files::new());
    assert_eq!("F", out.unwrap());
    let mut ctx = Context::default();
    ctx.add_variable("b", "", "1");
    let out = render_with("{% if b || !b %}T{% else %}F{% /if %}", ctx, &Files::new());
    assert_eq!("T", out.unwrap());
    let mut ctx = Context::default();
    ctx.add_variable("b", "", "1");
    let out = render_with("{% if b || !(b && !b) && b %}T{% else %}F{% /if %}", ctx, &Files::new());
    assert_eq!("T", out.unwrap());
}

#[test]
fn a_failed_parse_leaves_the_destination_as_it_was() {
    let files = Files::new();
    let failing = [
        "abc{% assert x /%}def",
        "{% execut `something` %}",
        "{% set a %}x{% /if %}",
        "{% if a %}x",
        "{# never closed",
        "x{% /if %}",
        "abc{% if 1 %}in{% assert x /%}{% /if %}",
        "abc{% fn f() %}in{% assert x /%}{% /fn %}{{ f() }}",
        "abc{% foreach i in \"1\" %}in{% nth x %}{% /nth %}{% /foreach %}",
    ];
    for template in failing {
        let mut parser =
            TemplateParser::new(Context::default(), template, b"kept".to_vec(), &files).unwrap();
        assert!(parser.parse().is_err(), "{}", template);
        assert_eq!(b"kept".to_vec(), parser.into_destination(), "{}", template);
    }
    let mut parser = TemplateParser::new(Context::default(), "abc", b"kept".to_vec(), &files).unwrap();
    parser.parse().unwrap();
    assert_eq!(b"keptabc".to_vec(), parser.into_destination());
}

#[test]
fn a_failure_in_a_file_leaves_the_destination_as_it_was() {
    let mut files = Files::new();
    files.add_text("/t/fails.arct", "in{% assert x /%}");
    for tag in ["call", "compile"] {
        let template = format!("abc{{% {} \"/t/fails.arct\" /%}}def", tag);
        let mut parser =
            TemplateParser::new(Context::default(), template.as_str(), b"kept".to_vec(), &files)
                .unwrap();
        let error = parser.parse().unwrap_err();
        assert_eq!(ErrorKind::AssertionFailed, error.kind());
        assert_eq!(b"kept".to_vec(), parser.into_destination());
    }
    files.add_text("/t/base.arct", "[{{ CONTENT }}]{% assert x /%}");
    let mut parser = TemplateParser::new(
        Context::default(),
        "{% extend \"/t/base.arct\" /%}abc",
        b"kept".to_vec(),
        &files,
    )
    .unwrap();
    assert!(parser.parse().is_err());
    assert_eq!(b"kept".to_vec(), parser.into_destination());
}

#[test]
fn the_limit_on_nesting_can_be_chosen() {
    let files = Files::new();
    let nested = "{% if \"1\" %}{% if \"1\" %}x{% /if %}{% /if %}";
    let mut parser =
        TemplateParser::new(Context::default(), nested, b"kept".to_vec(), &files).unwrap();
    let error = parser.parse_within(1).unwrap_err();
    assert_eq!(ErrorKind::TooDeep, error.kind());
    assert_eq!(b"kept".to_vec(), parser.into_destination());
    let mut parser =
        TemplateParser::new(Context::default(), nested, b"kept".to_vec(), &files).unwrap();
    parser.parse_within(2).unwrap();
    assert_eq!(b"keptx".to_vec(), parser.into_destination());
    let mut parser = TemplateParser::new(Context::default(), "x", Vec::new(), &files).unwrap();
    parser.parse_within(0).unwrap();
    assert_eq!(b"x".to_vec(), parser.into_destination());
    let mut parser =
        TemplateParser::new(Context::default(), "{% if \"1\" %}x{% /if %}", Vec::new(), &files)
            .unwrap();
    assert_eq!(ErrorKind::TooDeep, parser.parse_within(0).unwrap_err().kind());
}

#[test]
fn a_child_that_fails_hands_back_what_it_took() {
    let files = Files::new();
    let mut parser = TemplateParser::new(
        Context::default(),
        "{% set a %}1{% /set %}{% if a %}{% set b %}2{% /set %}{% assert x /%}{% /if %}rest",
        b"kept".to_vec(),
        &files,
    )
    .unwrap();
    let error = parser.parse().unwrap_err();
    assert_eq!(ErrorKind::AssertionFailed, error.kind());
    let ctx = parser.take_context().unwrap();
    assert_eq!(1, ctx.count("a"));
    assert_eq!(1, ctx.count("b"));
    assert_eq!(b"kept".to_vec(), parser.into_destination());
}
