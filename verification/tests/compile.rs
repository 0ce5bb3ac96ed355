use arcana_core::{Arcana, Context, Files};

fn fixtures() -> Files {
    let mut files = Files::new();
    files.add_text("./resources/parse_file_1/page.arct", "The number: {% add 2 %}2{% /add %}");
    files
}

#[test]
fn lib_parse_file_1() {
    let files = fixtures();
    let mut output = Vec::<u8>::new();
    Arcana::compile_file("./resources/parse_file_1/page.arct", &mut output, &files).unwrap();
    let output = String::from_utf8(output).unwrap();
    assert_eq!("The number: 4", output);
}

#[test]
fn compile_with_ctx_adds_numbers() {
    let mut ctx = Context::default();
    ctx.add_variable("x", "./", "5");
    let input = "{% set i %}{% add x %}0{% /add %}{% /set %}{{ i }}";
    let mut output = Vec::<u8>::new();
    let files = Files::new();
    Arcana::compile_with_ctx(input, &mut output, ctx, &files).unwrap();
    let output_str = String::from_utf8(output).unwrap();
    assert_eq!("5", output_str);
}

#[test]
fn compile_sets_and_shows() {
    let input = "{% set i %}0{% /set %}{{ i }}";
    let mut output = Vec::<u8>::new();
    let files = Files::new();
    Arcana::compile(input, &mut output, &files).unwrap();
    let output_str = String::from_utf8(output).unwrap();
    assert_eq!("0", output_str);
}
