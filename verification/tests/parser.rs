use arcana_core::{Context, Entry, FilePath, Files, TemplateParser};
use std::path::Path;

fn at(owner: &str, path: &str) -> String {
    Path::new(owner).parent().unwrap().join(path).to_string_lossy().into_owned()
}

fn entries(dirs: &[&str], plain: &[&str]) -> Vec<Entry> {
    let mut all = Vec::new();
    for name in plain {
        all.push(Entry { name: name.to_string(), is_dir: false, is_file: true });
    }
    for name in dirs {
        all.push(Entry { name: name.to_string(), is_dir: true, is_file: false });
    }
    all
}

fn arithmetic(files: &mut Files, name: &str, bodies: [&str; 3]) {
    for (i, body) in bodies.iter().enumerate() {
        files.add_text(&format!("./resources/parse_{}_{}/file.arct", name, i + 1), body);
    }
}

fn against(path: &str) -> String {
    match path {
        "./resources/parse_complex_6/against.txt" => {
            "Siblings of Fred: Mark, Karissa.\nSiblings of Mark: Fred, Karissa.\n".to_string()
        },
        "./resources/assert_not_eq_1/against.txt" => "Not equal.\n".to_string(),
        _ => panic!("no such fixture"),
    }
}

fn fixtures() -> Files {
    let mut files = Files::new();

    let siblings = "./resources/parse_complex_6/allsiblings.arct";
    files.add_text(
        siblings,
        [
            "{% set people %}Fred{% /set %}{% set people %}Mark{% /set %}",
            "{% set people %}Karissa{% /set %}\\\n",
            "{% fn siblings(of) %}",
            "Siblings of {{ of }}: ",
            "{% set first %}1{% /set %}",
            "{% foreach person in people %}",
            "{% if person != of %}",
            "{% if first %}{% set first %}0{% /set %}{% else %}, {% /if %}{{ person }}",
            "{% /if %}",
            "{% /foreach %}.\n",
            "{% /fn %}",
            "{{ siblings(\"Fred\") }}{{ siblings(\"Mark\") }}",
        ].concat().as_str(),
    );
    files.add_text(
        "./resources/assert_not_eq_1/test.arct",
        "{% set left %}1{% /set %}{% assert left != \"2\" /%}Not equal.\n",
    );

    files.add_text("./resources/template.txt", "**{{ CONTENT }}**\n");
    files.add_text(
        "./resources/parse_set_2/test.arct",
        "{% set greeting %}Hello, World!{% /set %}{{ greeting }}",
    );
    files.add_text("./resources/parse_escape_3/test.arct", "\\{Title}");
    files.add_text(
        "./resources/parse_escape_4/test.arct",
        "{% set zero %}0{% /set %}\\\n    {% if zero %}True{% else %}False{% /if %} was {{ zero }}.",
    );
    files.add_text(
        "./resources/parse-include-1.txt",
        "{% execute `this should just be included` %}\n",
    );

    let item = "./resources/parse_include_2/item.arct";
    files.add_text(item, "The name of the item is \"{% include \"./name.txt\" /%}\"");
    files.add_text(&at(item, "./name.txt"), "Item.\n");

    let extended = "./resources/extended.txt";
    files.add_text(
        extended,
        [
            "{% extend \"./template.txt\" /%}\\\n",
            "{% set users %}test.user{% /set %}\\\n",
            "{% set users %}second.user{% /set %}\\\n",
            "{% foreach user in users as loop %}",
            "{% if loop.isfirst %}{% else %}, {% /if %}",
            "User({% add 1 %}{{ loop.index }}{% /add %}): {{ user }}",
            "{% /foreach %}",
        ].concat().as_str(),
    );
    files.add_text(&at(extended, "./template.txt"), "**{{ CONTENT }}**\n");

    files.add_text("./resources/parse_file_1/page.arct", "The number: {% add 2 %}2{% /add %}");

    let compile_page = "./resources/compile-page.arct";
    files.add_text(compile_page, "Compile this: {% compile \"./paragraphs.arct\" /%}");
    files.add_text(
        &at(compile_page, "./paragraphs.arct"),
        [
            "Below are the paragraphs.\n",
            "{% set end %}Blah.{% /set %}\\\n",
            "This is some text here.\n",
            "And some more text.\n",
            "Here is another paragraph. {{ end }}",
        ].concat().as_str(),
    );

    let complex_1 = "./resources/parse_complex_1/page.arct";
    files.add_text(
        complex_1,
        [
            "{% extend \"./template.arct\" /%}\\\n",
            "{% set names %}Mark{% /set %}{% set ages %}33{% /set %}\\\n",
            "{% set names %}Fred{% /set %}{% set ages %}31{% /set %}\\\n",
            "{% set names %}Karissa{% /set %}{% set ages %}27{% /set %}\\\n",
            "{% foreach name in names as person %}",
            "{{ name }} is {% nth ages %}{{ person.index }}{% /nth %} year(s) old.\n",
            "{% /foreach %}",
        ].concat().as_str(),
    );
    files.add_text(
        &at(complex_1, "./template.arct"),
        "TEMPLATE START\n{{ CONTENT }}TEMPLATE END\n",
    );

    files.add_text(
        "./resources/parse_complex_2/page.arct",
        [
            "<h1>{% forsplit split in \"The H|eader\" on \"|\" %}",
            "<span>{{ split }}</span>",
            "{% /forsplit %}</h1>",
        ].concat().as_str(),
    );

    let call_1 = "./resources/parse_call_1/page.arct";
    files.add_text(call_1, "{% call \"./values.arct\" /%}{{ one }}\n");
    files.add_text(&at(call_1, "./values.arct"), "{% set one %}1{% /set %}");

    let complex_3 = "./resources/parse_complex_3/page.arct";
    files.add_text(
        complex_3,
        [
            "{% call \"./fred.arct\" /%}\\\n",
            "name: {{ name }}\nage: {{ age }}\nchildren: ",
            "{% foreach child in children %}{{ child }}{% /foreach %}",
        ].concat().as_str(),
    );
    files.add_text(
        &at(complex_3, "./fred.arct"),
        "{% set name %}Fred{% /set %}{% set age %}31{% /set %}",
    );

    files.add_text(
        "./resources/parse_complex_4/page.arct",
        "{% set red %}ff{% /set %}{% set rest %}b4a1{% /set %}#{{ red }}{{ rest }}",
    );

    let chain = "./resources/call_compile_chain_1/page.arct";
    files.add_text(chain, "{% call \"./called.arct\" /%}{{ value }}");
    files.add_text(
        &at(chain, "./called.arct"),
        "{% set value %}1{% /set %}{% compile \"./compiled.arct\" /%}",
    );
    files.add_text(
        &at(&at(chain, "./called.arct"), "./compiled.arct"),
        "{% set value %}2{% /set %}",
    );

    let fred = "./resources/parse_complex_5/person/fred.arct";
    files.add_text(
        fred,
        [
            "{% set name %}Fred{% /set %}\\\n",
            "{% set children %}Fred Jr{% /set %}\\\n",
            "{% set children %}Fred II{% /set %}\\\n",
            "{% compile \"../person.arct\" /%}",
        ].concat().as_str(),
    );
    files.add_text(
        &at(fred, "../person.arct"),
        [
            "<h1 class=\"lead split\"><span>{{ name }}</span></h1>\n",
            "{% foreach child in children %}",
            "<div class=\"child\">\n",
            "\t<table class=\"lr\">\n",
            "\t<tbody>\n",
            "\t\t<tr>\n",
            "\t\t\t<td>Child</td>\n",
            "\t\t\t<td><strong>{{ child }}</strong></td>\n",
            "\t\t</tr>\n",
            "\t</tbody>\n",
            "</table>\n",
            "\t</div>\n",
            "{% /foreach %}",
        ].concat().as_str(),
    );

    files.add_text(
        "./resources/parse_function_1/page.arct",
        [
            "{% fn list(a, b, c) %}{{ a }}, {{ b }}, {{ c }}{% /fn %}",
            "{{ list(\"one\", \"two\", \"three\") }}",
        ].concat().as_str(),
    );
    files.add_text(
        "./resources/parse_function_2/page.arct",
        [
            "{% fn line(a, b, c) %}",
            "{{ a }}, {{ b }}{% if c %}, {{ c }}{% /if %}\n",
            "{% /fn %}",
            "{% set third %}Third{% /set %}",
            "{{ line(\"One\", \"Two\", third) }}{{ line(\"Fourth\", \"Fifth\") }}",
        ].concat().as_str(),
    );
    files.add_text(
        "./resources/parse_function_3/test.arct",
        "{% fn show(path) %}{{ path }}{% /fn %}{{ show(\"../test.txt\") }}",
    );

    let ordinals: String = [
        "{% set items %}First{% /set %}{% set items %}Second{% /set %}",
        "{% set items %}Third{% /set %}{% set items %}Fourth{% /set %}",
        "{% set items %}Fifth{% /set %}",
    ].concat();
    let picks = [
        (1, "{% nth items %}1{% /nth %}"),
        (2, "{% set one %}1{% /set %}{% nth items %} {{ one }} {% /nth %}"),
        (4, "{% nth items %}0{% /nth %}"),
        (5, "{% nth items %}-0{% /nth %}"),
        (6, "{% nth items %}-2{% /nth %}"),
        (7, "{% nth items %}3{% /nth %}"),
        (8, "{% nth items %}{% sub 5 %}3{% /sub %}{% /nth %}"),
    ];
    for (i, pick) in picks {
        files.add_text(
            &format!("./resources/parse_nth_{}/file.arct", i),
            &format!("{}{}", ordinals, pick),
        );
    }

    let path_1 = "./resources/parse_path_1/page.arct";
    files.add_text(
        path_1,
        "{% set person %}{% path \"./fred.arct\" /%}{% /set %}{% call person /%}{{ name }}",
    );
    files.add_canonical(
        &at(path_1, "./fred.arct"),
        Some("/srv/resources/parse_path_1/fred.arct".to_string()),
    );
    files.add_text("/srv/resources/parse_path_1/fred.arct", "{% set name %}Fred{% /set %}");

    let path_2 = "./resources/parse_path_2/item.arct";
    files.add_text(
        path_2,
        [
            "{% set person %}{% path \"fred.arct\" in \"./people\" /%}{% /set %}",
            "{% call person /%}{{ name }} is {{ age }} year(s) old.",
        ].concat().as_str(),
    );
    files.add_canonical(
        &Path::new(&at(path_2, "./people")).join("fred.arct").to_string_lossy(),
        Some("/srv/resources/parse_path_2/people/fred.arct".to_string()),
    );
    files.add_text(
        "/srv/resources/parse_path_2/people/fred.arct",
        "{% set name %}Fred{% /set %}{% set age %}31{% /set %}",
    );

    let path_3 = "./resources/parse_path_3/page.arct";
    files.add_text(
        path_3,
        "{% set file %}{% path \"./file.txt\" /%}{% /set %}{% include file /%}",
    );
    files.add_canonical(
        &at(path_3, "./file.txt"),
        Some("/srv/resources/parse_path_3/file.txt".to_string()),
    );
    files.add_text("/srv/resources/parse_path_3/file.txt", "File\n");

    let path_4 = "./resources/parse_path_4/page.arct";
    files.add_text(
        path_4,
        [
            "{% set folder %}./folder{% /set %}",
            "{% set file %}{% path \"file.txt\" in folder /%}{% /set %}{% include file /%}",
        ].concat().as_str(),
    );
    files.add_canonical(
        &Path::new(&at(path_4, "./folder")).join("file.txt").to_string_lossy(),
        Some("/srv/resources/parse_path_4/folder/file.txt".to_string()),
    );
    files.add_text("/srv/resources/parse_path_4/folder/file.txt", "File\n");

    let path_5 = "./resources/parse_path_5/page.arct";
    files.add_text(
        path_5,
        [
            "{% set folder %}{% dirname \"./folder/other.txt\" /%}{% /set %}",
            "{% set file %}{% path \"file.txt\" in folder /%}{% /set %}{% include file /%}",
        ].concat().as_str(),
    );
    files.add_canonical(
        &at(path_5, "./folder/other.txt"),
        Some("/srv/resources/parse_path_5/folder/other.txt".to_string()),
    );
    files.add_canonical(
        "/srv/resources/parse_path_5/folder/file.txt",
        Some("/srv/resources/parse_path_5/folder/file.txt".to_string()),
    );
    files.add_text("/srv/resources/parse_path_5/folder/file.txt", "File");

    arithmetic(
        &mut files,
        "add",
        [
            "{% add 2 %}3{% /add %}",
            "{% set two %}2{% /set %}{% add two %}{{ two }}{% /add %}",
            "{% add \"1\" %} {% add 1 %}2{% /add %} {% /add %}",
        ],
    );
    arithmetic(
        &mut files,
        "sub",
        [
            "{% sub 0 %}5{% /sub %}",
            "{% set two %}2{% /set %}{% sub 3 %}{{ two }}{% /sub %}",
            "{% sub 4 %}{% sub 5 %}2{% /sub %}{% /sub %}",
        ],
    );
    arithmetic(
        &mut files,
        "mul",
        [
            "{% mul 7 %}0{% /mul %}",
            "{% set n %}19{% /set %}{% mul 2 %}{{ n }}{% /mul %}",
            "{% mul -2 %}-19{% /mul %}",
        ],
    );
    arithmetic(
        &mut files,
        "div",
        [
            "{% div 5 %}5{% /div %}",
            "{% set n %}2{% /set %}{% div 7 %}{{ n }}{% /div %}",
            "{% div -9 %}-3{% /div %}",
        ],
    );
    arithmetic(
        &mut files,
        "mod",
        [
            "{% mod 5 %}7{% /mod %}",
            "{% set n %}2{% /set %}{% mod 8 %}{{ n }}{% /mod %}",
            "{% mod -9 %}3{% /mod %}",
        ],
    );
    arithmetic(
        &mut files,
        "pow",
        [
            "{% pow 5 %}2{% /pow %}",
            "{% pow 3 %}3{% /pow %}",
            "{% set n %}3{% /set %}{% pow n %}{{ n }}{% /pow %}",
        ],
    );
    files.add_text(
        "./resources/parse_math_1/file.arct",
        "{% add 90 %}{% mul 3 %}3{% /mul %}{% /add %}",
    );
    files.add_text(
        "./resources/parse_math_2/file.arct",
        "{% sub 100 %}{% div 7 %}{% pow 2 %}2{% /pow %}{% /div %}{% /sub %}",
    );

    let numbers = |count: usize| -> String {
        let mut text = String::new();
        for i in 0..count {
            text.push_str(&format!("{{% set items %}}{}{{% /set %}}", i));
        }
        text
    };
    let listed: String = [
        "{% if loop.isfirst %}{% else %}, {% /if %}{{ entry }}",
    ].concat();
    let fordir_1 = "./resources/parse_fordir_1/loop.arct";
    files.add_text(
        fordir_1,
        &format!("{{% fordir entry in \"./\" as loop reversed %}}{}{{% /fordir %}}", listed),
    );
    files.add_directory(
        &at(fordir_1, "./"),
        entries(&["3", "0", "4", "1", "2"], &["loop.arct"]),
    );

    let fordir_2 = "./resources/parse_fordir_2/test.arct";
    files.add_text(
        fordir_2,
        &format!(
            "{{% fordir entry in \"./items\" from 1 as loop reversed %}}{}{{% /fordir %}}",
            listed
        ),
    );
    files.add_directory(&at(fordir_2, "./items"), entries(&["2", "0", "1"], &[]));

    files.add_text(
        "./resources/parse_foreach_1/loop.arct",
        &format!(
            "{}{{% foreach entry in items as loop reversed %}}{}{{% /foreach %}}",
            numbers(5),
            listed
        ),
    );

    let forfile_1 = "./resources/parse_forfile_1/loop.arct";
    files.add_text(
        forfile_1,
        &format!(
            "{{% forfile entry in \"./files\" as loop reversed %}}{}{{% /forfile %}}",
            listed
        ),
    );
    files.add_directory(
        &at(forfile_1, "./files"),
        entries(&["folder"], &["2", "4", "0", "3", "1"]),
    );

    let if_1 = "./resources/parse_if_1/test.arct";
    files.add_text(
        if_1,
        [
            "{% fordir entry in \"./testdir\" as loop %}",
            "{% if loop.islast %}{{ entry }}{% /if %}",
            "{% /fordir %}",
        ].concat().as_str(),
    );
    files.add_directory(&at(if_1, "./testdir"), entries(&["1", "2", "3", "4", "5"], &[]));

    files.add_text(
        "./resources/parse_if_2/if.arct",
        "{% set zero %}0{% /set %}{% if zero == \"0\" %}{{ zero }}{% else %}1{% /if %}",
    );
    files.add_text(
        "./resources/parse_if_3/test.arct",
        "{% if \"a\" != \"b\" %}true{% else %}false{% /if %}",
    );
    files.add_text(
        "./resources/parse_if_4/test.arct",
        "{% if !(\"a\" != \"b\") %}true{% else %}false{% /if %}",
    );
    files.add_text(
        "./resources/parse_if_5/test.arct",
        "{% set n %}10{% /set %}{% if n > 9 && n <= 10 %}true{% else %}false{% /if %}",
    );
    files.add_text(
        "./resources/parse_if_6/test.arct",
        [
            "{% set names %}Mark{% /set %}{% set names %}Fred{% /set %}",
            "{% set names %}Karissa{% /set %}",
            "{% foreach name in names as loop %}",
            "{% if loop.isfirst %}{% else %}, {% /if %}",
            "{% if loop.islast %}and {% /if %}{{ name }}",
            "{% /foreach %}.",
        ].concat().as_str(),
    );
    files.add_text(
        "./resources/parse_if_7/test.arct",
        "{% set answer %}y{% /set %}{% if answer == \"y\" || missing %}Y{% else %}N{% /if %}",
    );
    files.add_text(
        "./resources/parse_if_8/test.arct",
        "{% if missing %}false{% else %}true{% /if %}",
    );

    files.add_canonical(
        "./resources/parse_fn_call_1/functions/testobj.arct",
        Some("/srv/resources/parse_fn_call_1/functions/testobj.arct".to_string()),
    );
    files.add_text(
        "/srv/resources/parse_fn_call_1/functions/testobj.arct",
        "{% fn test.pagesize() %}10{% /fn %}",
    );
    files.add_text(
        "./resources/parse_fn_call_2/test.arct",
        [
            "{% fn h4(id, text) %}<h4 id=\"{{ id }}\">{{ text }}</h4>{% /fn %}",
            "{{ h4(\"the_id\", \"Some text\") }}",
        ].concat().as_str(),
    );

    let splits = [
        "{% forsplit entry in \"012345\" on \"\" as loop %}{% if loop.isfirst %}{% else %}, {% /if %}{{ entry }}{% /forsplit %}",
        "{% forsplit entry in \"012345\" on \"\" as loop reversed %}{% if loop.isfirst %}{% else %}+{% /if %}{{ entry }}{% /forsplit %}",
        "{% forsplit entry in \"xixixi\" on \"x\" from 1 %}{{ entry }}{% /forsplit %}",
        "{% forsplit entry in missing on \",\" %}{{ entry }}{% else %}No items.{% /forsplit %}",
        "{% forsplit entry in \"a,b\" on \",\" from 5 %}{{ entry }}{% else %}No items.{% /forsplit %}",
        "{% forsplit entry in \"0, 1, 2, 3\" on \", \" from 1 to 3 as loop %}{% if loop.isfirst %}{% else %}, {% /if %}{{ entry }}{% /forsplit %}",
    ];
    for (i, body) in splits.iter().enumerate() {
        files.add_text(&format!("./resources/parse_forsplit_{}/test.arct", i + 1), body);
    }

    files.add_text("./resources/parse_assert_4/test.arct", "{% assert \"1\" == \"1\" /%}Passed");
    files.add_text(
        "./resources/parse_assert_5/test.arct",
        "{% set five %}5{% /set %}{% assert five > 4 && five < \"6\" /%}Passed",
    );
    files.add_text("./resources/parse_assert_6/test.arct", "{% assert !missing /%}true");

    files.add_text(
        "./resources/parse_foreach_2/test.arct",
        &format!(
            "{}{{% foreach entry in items from 1 as loop reversed %}}{}{{% /foreach %}}",
            numbers(4),
            listed
        ),
    );
    files.add_text(
        "./resources/parse_foreach_3/test.arct",
        &format!(
            "{}{{% foreach entry in items to 4 as loop reversed %}}{}{{% /foreach %}}",
            numbers(6),
            listed
        ),
    );
    files.add_text(
        "./resources/parse_foreach_4/test.arct",
        &format!(
            "{}{{% foreach entry in items from 1 to 7 as loop reversed %}}{}{{% /foreach %}}",
            numbers(10),
            listed
        ),
    );

    files.add_text(
        "./resources/parse_number_literal_1/test.arct",
        "{% if 2 > 1 %}{% add 1 %}+1{% /add %}{% /if %}",
    );
    files.add_text(
        "./resources/parse_length_1/test.arct",
        "{% length \"sixteen letters!\" /%}",
    );
    files.add_text(
        "./resources/parse_length_2/test.arct",
        "{% set text %}sixteen letters!{% /set %}{% length text /%}",
    );
    files.add_text("./resources/parse_length_3/test.arct", "{% length \"h\u{e9}llo\" /%}");
    files.add_text(
        "./resources/parse_count_1/test.arct",
        "{% set items %}a{% /set %}{% count items /%}",
    );
    files.add_text(
        "./resources/parse_count_2/test.arct",
        "{% set items %}a{% /set %}{% set items %}b{% /set %}{% set items %}c{% /set %}{% count items /%}",
    );

    let dirname_1 = "./resources/parse_dirname_1/page.arct";
    files.add_text(
        dirname_1,
        "{% set folder %}{% dirname \"./page.arct\" /%}{% /set %}{% basename folder /%}",
    );
    files.add_canonical(
        &at(dirname_1, "./page.arct"),
        Some("/srv/resources/parse_dirname_1/page.arct".to_string()),
    );
    files.add_canonical(
        "/srv/resources/parse_dirname_1",
        Some("/srv/resources/parse_dirname_1".to_string()),
    );

    files.add_text("./resources/parse_escape_2/test.arct", "{% set \\title %}Title{% /set %}");
    files.add_text(
        "./resources/parse_nth_3/file.arct",
        "{% set items %}First{% /set %}{% nth items %}first{% /nth %}",
    );
    files.add_text(
        "./resources/parse_assert_3/test.arct",
        "{% set five %}5{% /set %}{% assert five > 5 /%}Passed",
    );
    files.add_text("./resources/parse_number_literal_2/test.arct", "{% add 1x %}1{% /add %}");

    let basename_1 = "./resources/parse_basename_1/page.arct";
    files.add_text(basename_1, "{% basename \"./page.arct\" /%}");
    files.add_canonical(
        &at(basename_1, "./page.arct"),
        Some("/srv/resources/parse_basename_1/page.arct".to_string()),
    );

    files
}

#[test]
fn parse_chars_1() {
    let files = fixtures();
    let output = Vec::<u8>::new();
    let input = "this is just some input";
    let mut parser = TemplateParser::new(Context::default(), input, output, &files).unwrap();
    parser.parse().unwrap();
    let output = parser.into_destination();

    let output_str = String::from_utf8(output).unwrap();
    assert_eq!(input, &output_str);
}

#[test]
fn parse_chars_2() {
    let files = fixtures();
    let output = Vec::<u8>::new();
    let input = "this is some input with a < sign";
    let mut parser = TemplateParser::new(Context::default(), input, output, &files).unwrap();
    parser.parse().unwrap();
    let output = parser.into_destination();

    let output_str = String::from_utf8(output).unwrap();
    assert_eq!(input, &output_str);
}

#[test]
fn parse_extend() {
    let files = fixtures();
    let output = Vec::<u8>::new();
    let input = "Some text, and a tag: {% extend \"./resources/template.txt\" /%}";
    let mut parser = TemplateParser::new(Context::default(), input, output, &files).unwrap();
    parser.parse().unwrap();
    let output = parser.into_destination();

    let output_str = String::from_utf8(output).unwrap();
    assert_eq!("**Some text, and a tag: **\n", &output_str);
}

#[test]
fn parse_set_text() {
    let files = fixtures();
    let output = Vec::<u8>::new();
    let input = r#"Some text, and a tag: {% set hello %}Hello, World!{% /set %}"#;
    let mut parser = TemplateParser::new(Context::default(), input, output, &files).unwrap();
    parser.parse().unwrap();
    let ctx = parser.take_context().unwrap();
    let output = parser.into_destination();

    let output_str = String::from_utf8(output).unwrap();
    assert_eq!("Some text, and a tag: ", &output_str);

    let hello = ctx.value("hello").unwrap();
    let against_hello = "Hello, World!";
    assert_eq!(&against_hello, hello);
}

#[test]
fn parse_set_2() {
    let files = fixtures();
    let output = Vec::<u8>::new();
    let mut parser = TemplateParser::new(
        Context::default(),
        FilePath::new("./resources/parse_set_2/test.arct"),
        output, &files
    ).unwrap();
    parser.parse().unwrap();
    let output = parser.into_destination();
    let output_str = String::from_utf8(output).unwrap();
    assert_eq!("Hello, World!", output_str);
}

#[test]
fn parse_escape_3() {
    let files = fixtures();
    let output = Vec::<u8>::new();
    let mut parser = TemplateParser::new(
        Context::default(),
        FilePath::new("./resources/parse_escape_3/test.arct"),
        output, &files
    ).unwrap();
    parser.parse().unwrap();
    let output = parser.into_destination();
    let output_str = String::from_utf8(output).unwrap();
    assert_eq!(
        "{Title}",
        output_str
    );
}

#[test]
fn parse_escape_4() {
    let files = fixtures();
    let output = Vec::<u8>::new();
    let mut parser = TemplateParser::new(
        Context::default(),
        FilePath::new("./resources/parse_escape_4/test.arct"),
        output, &files
    ).unwrap();
    parser.parse().unwrap();
    let output = parser.into_destination();
    let output_str = String::from_utf8(output).unwrap();
    assert_eq!(
        "False was 0.",
        output_str
    );
}

#[test]
#[should_panic]
fn parse_unknown_tag() {
    let input = "{% execut `something` %}";
    let files = fixtures();
    let output = Vec::<u8>::new();
    let mut parser = TemplateParser::new(Context::default(), input, output, &files).unwrap();
    parser.parse().unwrap();
    let _ = parser.into_destination();
}

#[test]
#[should_panic]
fn parse_unexpected_eof_in_tag_name() {
    let input = "{% execut";
    let files = fixtures();
    let output = Vec::<u8>::new();
    let mut parser = TemplateParser::new(Context::default(), input, output, &files).unwrap();
    parser.parse().unwrap();
    let _ = parser.into_destination();
}

#[test]
fn parse_include_1() {
    let input = "File: {% include \"./resources/parse-include-1.txt\" /%}";
    let files = fixtures();
    let output = Vec::<u8>::new();
    let mut parser = TemplateParser::new(Context::default(), input, output, &files).unwrap();
    parser.parse().unwrap();
    let output = parser.into_destination();

    let output = String::from_utf8(output).unwrap();

    assert_eq!(
        "File: {% execute `this should just be included` %}",
        output
    );
}

#[test]
fn parse_include_2() {
    let files = fixtures();
    let output = Vec::<u8>::new();
    let mut parser = TemplateParser::new(
        Context::default(),
        FilePath::new("./resources/parse_include_2/item.arct"),
        output, &files
    ).unwrap();
    parser.parse().unwrap();
    let output = parser.into_destination();
    let output_str = String::from_utf8(output).unwrap();

    assert_eq!("The name of the item is \"Item.\"", output_str);
}

#[test]
fn parse_comment_1() {
    let input = "Here is some text{# and a comment #} and some more text.";
    let files = fixtures();
    let output = Vec::<u8>::new();
    let mut parser = TemplateParser::new(Context::default(), input, output, &files).unwrap();
    parser.parse().unwrap();
    let output = parser.into_destination();

    let output = String::from_utf8(output).unwrap();

    assert_eq!(
        "Here is some text and some more text.",
        output,
    );
}

#[test]
fn mod_parse_file_1() {
    let input_file = FilePath::new("./resources/extended.txt");
    let files = fixtures();
    let output = Vec::<u8>::new();
    let mut parser = TemplateParser::new(Context::default(), input_file, output, &files).unwrap();
    parser.parse().unwrap();
    let output = parser.into_destination();

    let output = String::from_utf8(output).unwrap();

    assert_eq!(
        "**User(1): test.user, User(2): second.user**\n",
        output
    );
}

#[test]
fn parse_compile_1() {
    let input_file = FilePath::new("./resources/compile-page.arct");
    let files = fixtures();
    let output = Vec::<u8>::new();
    let mut parser = TemplateParser::new(Context::default(), input_file, output, &files).unwrap();
    parser.parse().unwrap();
    let output = parser.into_destination();

    let output = String::from_utf8(output).unwrap();

    assert_eq!(
        [
            "Compile this: Below are the paragraphs.\n",
            "This is some text here.\n",
            "And some more text.\n",
            "Here is another paragraph. Blah."
        ].concat().as_str(),
        &output
    );
}

#[test]
fn parse_for_multiple() {
    let files = fixtures();
    let output = Vec::<u8>::new();
    let mut input = String::new();
    input.push_str(r#"Some text, and a tag: \
        {% set users %}test.user{% /set %}\
        {% set users %}second.user{% /set %}\
        {% foreach user in users %}|{{ user }}{% /foreach %}"#);
    let mut parser = TemplateParser::new(Context::default(), input.as_str(), output, &files).unwrap();
    parser.parse().unwrap();
    let output = parser.into_destination();

    let output_str = String::from_utf8(output).unwrap();
    assert_eq!(
        "Some text, and a tag: |test.user|second.user",
        output_str,
    );
}

#[test]
fn parse_for_none_else() {
    let files = fixtures();
    let output = Vec::<u8>::new();
    let mut input = String::new();
    input.push_str(r#"Some text, and a tag: \
        {% foreach user in users %}|{{ user }}{% else %}No users.{%/ foreach %}\
    "#);
    let mut parser = TemplateParser::new(Context::default(), input.as_str(), output, &files).unwrap();
    parser.parse().unwrap();
    let output = parser.into_destination();

    let output_str = String::from_utf8(output).unwrap();
    assert_eq!(
        "Some text, and a tag: No users.",
        output_str,
    );
}

#[test]
fn parse_for_none_no_else() {
    let files = fixtures();
    let output = Vec::<u8>::new();
    let mut input = String::new();
    input.push_str(r#"Some text, and a tag: \
        {% foreach user in users %}|{{ user.username }}{%/ foreach %}\
    "#);
    let mut parser = TemplateParser::new(Context::default(), input.as_str(), output, &files).unwrap();
    parser.parse().unwrap();
    let output = parser.into_destination();

    let output_str = String::from_utf8(output).unwrap();
    assert_eq!(
        "Some text, and a tag: ",
        output_str,
    );
}

#[test]
#[should_panic]
fn parse_assert_1() {
    let files = fixtures();
    let output = Vec::<u8>::new();
    let mut context = Context::default();
    context.add_variable("id", "./", "1");
    let input = r#"{% assert id == "0" /%}"#;
    let mut parser = TemplateParser::new(context, input, output, &files).unwrap();
    parser.parse().unwrap();
    let _ = parser.into_destination();
}

#[test]
fn parse_assert_2() {
    let files = fixtures();
    let output = Vec::<u8>::new();
    let mut context = Context::default();
    context.add_variable("id", "./", "1");
    let input = r#"{% assert id == "1" /%}True"#;
    let mut parser = TemplateParser::new(context, input, output, &files).unwrap();
    parser.parse().unwrap();
    let output = parser.into_destination();
    let output_str = String::from_utf8(output).unwrap();
    assert_eq!("True", output_str);
}

#[test]
fn parse_if_inline_1() {
    let files = fixtures();
    let output = Vec::<u8>::new();
    let mut context = Context::default();
    context.add_variable("id", "./", "1");
    let input = r#"{% if id == "0" %}True{% else %}False{% /if %}"#;
    let mut parser = TemplateParser::new(context, input, output, &files).unwrap();
    parser.parse().unwrap();
    let output = parser.into_destination();
    let output_str = String::from_utf8(output).unwrap();
    assert_eq!("False", output_str);
}

#[test]
fn parse_if_inline_2() {
    let files = fixtures();
    let output = Vec::<u8>::new();
    let mut context = Context::default();
    context.add_variable("id", "./", "2");
    context.add_variable("id2", "./", "5");
    let input = r#"{% if id == "1" || id2 > "4" %}True{% else %}False{% /if %}"#;
    let mut parser = TemplateParser::new(context, input, output, &files).unwrap();
    parser.parse().unwrap();
    let output = parser.into_destination();
    let output_str = String::from_utf8(output).unwrap();
    assert_eq!("True", output_str);
}

#[test]
fn parse_if_inline_3() {
    let files = fixtures();
    let output = Vec::<u8>::new();
    let mut context = Context::default();
    context.add_variable("id1", "./", "2");
    context.add_variable("id2", "./", "5");
    context.add_variable("id3", "./", "10");
    // str(10) < str(2.5)
    let input = r#"{% if (id1 == "0" || id2 > "4") && "2.5" < id3 %}True{% else %}False{% /if %}"#;
    let mut parser = TemplateParser::new(context, input, output, &files).unwrap();
    parser.parse().unwrap();
    let output = parser.into_destination();
    let output_str = String::from_utf8(output).unwrap();
    assert_eq!("False", output_str);
}

#[test]
fn parse_if_inline_4() {
    let files = fixtures();
    let output = Vec::<u8>::new();
    let mut context = Context::default();
    context.add_variable("id1", "./", "2");
    context.add_variable("id2", "./", "5");
    context.add_variable("id3", "./", "10");
    let input = r#"{% if id1 == "2" || id2 < "4" || id3 < "2.5" %}True{% else %}False{% /if %}"#;
    let mut parser = TemplateParser::new(context, input, output, &files).unwrap();
    parser.parse().unwrap();
    let output = parser.into_destination();
    let output_str = String::from_utf8(output).unwrap();
    assert_eq!("True", output_str);
}

// should evaluate identically to 4

#[test]
fn parse_if_inline_5() {
    let files = fixtures();
    let output = Vec::<u8>::new();
    let mut context = Context::default();
    context.add_variable("id1", "./", "2");
    context.add_variable("id2", "./", "5");
    context.add_variable("id3", "./", "10");
    let input = r#"{% if (id1 == "2" || id2 < "4") || id3 < "2.5" %}True{% else %}False{% /if %}"#;
    let mut parser = TemplateParser::new(context, input, output, &files).unwrap();
    parser.parse().unwrap();
    let output = parser.into_destination();
    let output_str = String::from_utf8(output).unwrap();
    assert_eq!("True", output_str);
}

#[test]
fn parse_if_truthy_1() {
    let files = fixtures();
    let output = Vec::<u8>::new();
    let mut context = Context::default();
    context.add_variable("id", "./", "2");
    let input = r#"{% if id %}True{% else %}False{% /if %}"#;
    let mut parser = TemplateParser::new(context, input, output, &files).unwrap();
    parser.parse().unwrap();
    let output = parser.into_destination();
    let output_str = String::from_utf8(output).unwrap();
    assert_eq!("True", output_str);
}

#[test]
fn parse_if_truthy_2() {
    let files = fixtures();
    let output = Vec::<u8>::new();
    let mut context = Context::default();
    context.add_variable("id", "./", "0");
    let input = r#"{% if id %}True{% else %}False{% /if %}"#;
    let mut parser = TemplateParser::new(context, input, output, &files).unwrap();
    parser.parse().unwrap();
    let output = parser.into_destination();
    let output_str = String::from_utf8(output).unwrap();
    assert_eq!("False", output_str);
}

#[test]
fn parse_if_truthy_3() {
    let files = fixtures();
    let output = Vec::<u8>::new();
    let mut context = Context::default();
    context.add_variable("a", "./", "1");
    context.add_variable("b", "./", "0");
    let input = r#"{% if b || a %}True{% else %}False{% /if %}"#;
    let mut parser = TemplateParser::new(context, input, output, &files).unwrap();
    parser.parse().unwrap();
    let output = parser.into_destination();
    let output_str = String::from_utf8(output).unwrap();
    assert_eq!("True", output_str);
}

// should evaluate to the same as 3

#[test]
fn parse_if_truthy_4() {
    let files = fixtures();
    let output = Vec::<u8>::new();
    let mut context = Context::default();
    context.add_variable("a", "./", "1");
    context.add_variable("b", "./", "0");
    let input = r#"{% if (b || a) %}True{% else %}False{% /if %}"#;
    let mut parser = TemplateParser::new(context, input, output, &files).unwrap();
    parser.parse().unwrap();
    let output = parser.into_destination();
    let output_str = String::from_utf8(output).unwrap();
    assert_eq!("True", output_str);
}

#[test]
fn parse_if_mixed_1() {
    let files = fixtures();
    let output = Vec::<u8>::new();
    let mut context = Context::default();
    context.add_variable("a", "./", "1");
    context.add_variable("b", "./", "0");
    let input = r#"{% if (b || (b == "0" && a)) %}True{% else %}False{% /if %}"#;
    let mut parser = TemplateParser::new(context, input, output, &files).unwrap();
    parser.parse().unwrap();
    let output = parser.into_destination();
    let output_str = String::from_utf8(output).unwrap();
    assert_eq!("True", output_str);
}

#[test]
fn nested_parse_if_and_for() {
    let files = fixtures();
    let output = Vec::<u8>::new();
    let mut input = String::new();
    input.push_str(r#"Some text, and a tag: \
    {% set users %}test.user{% /set %}\
    {% set users %}second.user{% /set %}\
    {% foreach user in users as loop %}\
        {% if loop.isfirst %}{% else %}, {% /if %}\
        {{ user }}\
        {% if loop.islast %}.{% /if %}\
    {% else %}\
        No users.\
    {%/ foreach %}"#);
    let mut parser = TemplateParser::new(Context::default(), input.as_str(), output, &files).unwrap();
    parser.parse().unwrap();
    let output = parser.into_destination();

    let output_str = String::from_utf8(output).unwrap();
    assert_eq!(
        "Some text, and a tag: test.user, second.user.",
        output_str,
    );
}

#[test]
fn parse_complex_1() {
    let files = fixtures();
    let output = Vec::<u8>::new();
    let mut parser = TemplateParser::new(
        Context::default(),
        FilePath::new("./resources/parse_complex_1/page.arct"),
        output, &files
    ).unwrap();
    parser.parse().unwrap();
    let output = parser.into_destination();

    let output_str = String::from_utf8(output).unwrap();
    assert_eq!(
        [
            "TEMPLATE START\n",
            "Mark is 33 year(s) old.\n",
            "Fred is 31 year(s) old.\n",
            "Karissa is 27 year(s) old.\n",
            "TEMPLATE END\n",
        ].concat().as_str(),
        output_str
    );
}

#[test]
fn parse_complex_2() {
    let files = fixtures();
    let output = Vec::<u8>::new();
    let mut parser = TemplateParser::new(
        Context::default(),
        FilePath::new("./resources/parse_complex_2/page.arct"),
        output, &files
    ).unwrap();
    parser.parse().unwrap();
    let split = parser.context().unwrap().value(&"split");
    assert_eq!(None, split);
    let output = parser.into_destination();

    let output_str = String::from_utf8(output).unwrap();
    assert_eq!("<h1><span>The H</span><span>eader</span></h1>", output_str);
}

#[test]
#[should_panic]
fn unexpected_eof() {
    let files = fixtures();
    let output = Vec::<u8>::new();
    let input = r#"{% let str1 = "First section"#;
    let mut parser = TemplateParser::new(Context::default(), input, output, &files).unwrap();
    parser.parse().unwrap();
    let _ = parser.into_destination();
}

#[test]
fn parse_call_1() {
    let files = fixtures();
    let output = Vec::<u8>::new();
    let mut parser = TemplateParser::new(
        Context::default(),
        FilePath::new("./resources/parse_call_1/page.arct"),
        output, &files
    ).unwrap();
    parser.parse().unwrap();
    let output = parser.into_destination();
    let output = String::from_utf8(output).unwrap();
    assert_eq!(
        "1\n", output
    );
}

#[test]
fn parse_complex_3() {
    let files = fixtures();
    let output = Vec::<u8>::new();
    let mut parser = TemplateParser::new(
        Context::default(),
        FilePath::new("./resources/parse_complex_3/page.arct"),
        output, &files
    ).unwrap();
    parser.parse().unwrap();
    let output = parser.into_destination();

    let output_str = String::from_utf8(output).unwrap();
    assert_eq!("name: Fred\nage: 31\nchildren: ", output_str);
}

#[test]
fn parse_complex_4() {
    let files = fixtures();
    let output = Vec::<u8>::new();
    let mut parser = TemplateParser::new(
        Context::default(),
        FilePath::new("./resources/parse_complex_4/page.arct"),
        output, &files
    ).unwrap();
    parser.parse().unwrap();
    let output = parser.into_destination();

    let output_str = String::from_utf8(output).unwrap();
    assert_eq!("#ffb4a1", output_str);
}

#[test]
fn call_compile_chain_1() {
    let files = fixtures();
    let output = Vec::<u8>::new();
    let mut parser = TemplateParser::new(
        Context::default(),
        FilePath::new("./resources/call_compile_chain_1/page.arct"),
        output, &files
    ).unwrap();
    parser.parse().unwrap();
    let output = parser.into_destination();

    let output_str = String::from_utf8(output).unwrap();
    assert_eq!("1", output_str);
}

#[test]
fn parse_complex_5() {
    let files = fixtures();
    let output = Vec::<u8>::new();
    let mut parser = TemplateParser::new(
        Context::default(),
        FilePath::new("./resources/parse_complex_5/person/fred.arct"),
        output, &files
    ).unwrap();
    parser.parse().unwrap();
    let output = parser.into_destination();
    let output_str = String::from_utf8(output).unwrap();
    assert_eq!(
        [
            "<h1 class=\"lead split\"><span>Fred</span></h1>\n",
            "<div class=\"child\">\n",
            "\t<table class=\"lr\">\n",
            "\t<tbody>\n",
            "\t\t<tr>\n",
            "\t\t\t<td>Child</td>\n",
            "\t\t\t<td><strong>Fred Jr</strong></td>\n",
            "\t\t</tr>\n",
            "\t</tbody>\n",
            "</table>\n",
            "\t</div>\n",
            "<div class=\"child\">\n",
            "\t<table class=\"lr\">\n",
            "\t<tbody>\n",
            "\t\t<tr>\n",
            "\t\t\t<td>Child</td>\n",
            "\t\t\t<td><strong>Fred II</strong></td>\n",
            "\t\t</tr>\n",
            "\t</tbody>\n",
            "</table>\n",
            "\t</div>\n",
        ].concat().as_str(),
        output_str
    );
}

#[test]
fn parse_function_1() {
    let files = fixtures();
    let output = Vec::<u8>::new();
    let mut parser = TemplateParser::new(
        Context::default(),
        FilePath::new("./resources/parse_function_1/page.arct"),
        output, &files
    ).unwrap();
    parser.parse().unwrap();
    let output = parser.into_destination();
    let output_str = String::from_utf8(output).unwrap();
    assert_eq!("one, two, three", output_str);
}

#[test]
fn parse_function_2() {
    let files = fixtures();
    let output = Vec::<u8>::new();
    let mut parser = TemplateParser::new(
        Context::default(),
        FilePath::new("./resources/parse_function_2/page.arct"),
        output, &files
    ).unwrap();
    parser.parse().unwrap();
    let output = parser.into_destination();
    let output_str = String::from_utf8(output).unwrap();
    assert_eq!("One, Two, Third\nFourth, Fifth\n", output_str);
}

#[test]
fn parse_function_3() {
    let files = fixtures();
    let output = Vec::<u8>::new();
    let mut parser = TemplateParser::new(
        Context::default(),
        FilePath::new("./resources/parse_function_3/test.arct"),
        output, &files
    ).unwrap();
    parser.parse().unwrap();
    let output = parser.into_destination();
    let output_str = String::from_utf8(output).unwrap();
    assert_eq!("../test.txt", output_str);
}

#[test]
fn parse_nth_1() {
    let files = fixtures();
    let output = Vec::<u8>::new();
    let mut parser = TemplateParser::new(
        Context::default(),
        FilePath::new("./resources/parse_nth_1/file.arct"),
        output, &files
    ).unwrap();
    parser.parse().unwrap();
    let output = parser.into_destination();
    let output_str = String::from_utf8(output).unwrap();

    assert_eq!("Second", output_str);
}

#[test]
fn parse_nth_2() {
    let files = fixtures();
    let output = Vec::<u8>::new();
    let mut parser = TemplateParser::new(
        Context::default(),
        FilePath::new("./resources/parse_nth_2/file.arct"),
        output, &files
    ).unwrap();
    parser.parse().unwrap();
    let output = parser.into_destination();
    let output_str = String::from_utf8(output).unwrap();

    assert_eq!("Second", output_str);
}

#[test]
fn parse_nth_4() {
    let files = fixtures();
    let output = Vec::<u8>::new();
    let mut parser = TemplateParser::new(
        Context::default(),
        FilePath::new("./resources/parse_nth_4/file.arct"),
        output, &files
    ).unwrap();
    parser.parse().unwrap();
    let output = parser.into_destination();
    let output_str = String::from_utf8(output).unwrap();

    assert_eq!("First", output_str);
}

#[test]
fn parse_nth_5() {
    let files = fixtures();
    let output = Vec::<u8>::new();
    let mut parser = TemplateParser::new(
        Context::default(),
        FilePath::new("./resources/parse_nth_5/file.arct"),
        output, &files
    ).unwrap();
    parser.parse().unwrap();
    let output = parser.into_destination();
    let output_str = String::from_utf8(output).unwrap();

    assert_eq!("Fifth", output_str);
}

#[test]
fn parse_nth_6() {
    let files = fixtures();
    let output = Vec::<u8>::new();
    let mut parser = TemplateParser::new(
        Context::default(),
        FilePath::new("./resources/parse_nth_6/file.arct"),
        output, &files
    ).unwrap();
    parser.parse().unwrap();
    let output = parser.into_destination();
    let output_str = String::from_utf8(output).unwrap();

    assert_eq!("Fourth", output_str);
}

#[test]
fn parse_nth_7() {
    let files = fixtures();
    let output = Vec::<u8>::new();
    let mut parser = TemplateParser::new(
        Context::default(),
        FilePath::new("./resources/parse_nth_7/file.arct"),
        output, &files
    ).unwrap();
    parser.parse().unwrap();
    let output = parser.into_destination();
    let output_str = String::from_utf8(output).unwrap();

    assert_eq!("Fourth", output_str);
}

#[test]
fn parse_nth_8() {
    let files = fixtures();
    let output = Vec::<u8>::new();
    let mut parser = TemplateParser::new(
        Context::default(),
        FilePath::new("./resources/parse_nth_8/file.arct"),
        output, &files
    ).unwrap();
    parser.parse().unwrap();
    let output = parser.into_destination();
    let output_str = String::from_utf8(output).unwrap();

    assert_eq!("Third", output_str);
}

#[test]
fn parse_path_1() {
    let files = fixtures();
    let output = Vec::<u8>::new();
    let mut parser = TemplateParser::new(
        Context::default(),
        FilePath::new("./resources/parse_path_1/page.arct"),
        output, &files
    ).unwrap();
    parser.parse().unwrap();
    let output = parser.into_destination();
    let output_str = String::from_utf8(output).unwrap();

    assert_eq!("Fred", output_str);
}

#[test]
fn parse_path_2() {
    let files = fixtures();
    let output = Vec::<u8>::new();
    let mut parser = TemplateParser::new(
        Context::default(),
        FilePath::new("./resources/parse_path_2/item.arct"),
        output, &files
    ).unwrap();
    parser.parse().unwrap();
    let output = parser.into_destination();
    let output_str = String::from_utf8(output).unwrap();

    assert_eq!("Fred is 31 year(s) old.", output_str);
}

#[test]
fn parse_path_3() {
    let files = fixtures();
    let output = Vec::<u8>::new();
    let mut parser = TemplateParser::new(
        Context::default(),
        FilePath::new("./resources/parse_path_3/page.arct"),
        output, &files
    ).unwrap();
    parser.parse().unwrap();
    let output = parser.into_destination();
    let output_str = String::from_utf8(output).unwrap();

    assert_eq!("File", output_str);
}

#[test]
fn parse_path_4() {
    let files = fixtures();
    let output = Vec::<u8>::new();
    let mut parser = TemplateParser::new(
        Context::default(),
        FilePath::new("./resources/parse_path_4/page.arct"),
        output, &files
    ).unwrap();
    parser.parse().unwrap();
    let output = parser.into_destination();
    let output_str = String::from_utf8(output).unwrap();

    assert_eq!("File", output_str);
}

#[test]
fn parse_path_5() {
    let files = fixtures();
    let output = Vec::<u8>::new();
    let mut parser = TemplateParser::new(
        Context::default(),
        FilePath::new("./resources/parse_path_5/page.arct"),
        output, &files
    ).unwrap();
    parser.parse().unwrap();
    let output = parser.into_destination();
    let output_str = String::from_utf8(output).unwrap();

    assert_eq!("File", output_str);
}

#[test]
fn parse_add_1() {
    let files = fixtures();
    let output = Vec::<u8>::new();
    let mut parser = TemplateParser::new(
        Context::default(),
        FilePath::new("./resources/parse_add_1/file.arct"),
        output, &files
    ).unwrap();
    parser.parse().unwrap();
    let output = parser.into_destination();
    let output_str = String::from_utf8(output).unwrap();
    assert_eq!("5", output_str);
}

#[test]
fn parse_add_2() {
    let files = fixtures();
    let output = Vec::<u8>::new();
    let mut parser = TemplateParser::new(
        Context::default(),
        FilePath::new("./resources/parse_add_2/file.arct"),
        output, &files
    ).unwrap();
    parser.parse().unwrap();
    let output = parser.into_destination();
    let output_str = String::from_utf8(output).unwrap();
    assert_eq!("4", output_str);
}

#[test]
fn parse_add_3() {
    let files = fixtures();
    let output = Vec::<u8>::new();
    let mut parser = TemplateParser::new(
        Context::default(),
        FilePath::new("./resources/parse_add_3/file.arct"),
        output, &files
    ).unwrap();
    parser.parse().unwrap();
    let output = parser.into_destination();
    let output_str = String::from_utf8(output).unwrap();
    assert_eq!("4", output_str);
}

#[test]
fn parse_sub_1() {
    let files = fixtures();
    let output = Vec::<u8>::new();
    let mut parser = TemplateParser::new(
        Context::default(),
        FilePath::new("./resources/parse_sub_1/file.arct"),
        output, &files
    ).unwrap();
    parser.parse().unwrap();
    let output = parser.into_destination();
    let output_str = String::from_utf8(output).unwrap();
    assert_eq!("-5", output_str);
}

#[test]
fn parse_sub_2() {
    let files = fixtures();
    let output = Vec::<u8>::new();
    let mut parser = TemplateParser::new(
        Context::default(),
        FilePath::new("./resources/parse_sub_2/file.arct"),
        output, &files
    ).unwrap();
    parser.parse().unwrap();
    let output = parser.into_destination();
    let output_str = String::from_utf8(output).unwrap();
    assert_eq!("1", output_str);
}

#[test]
fn parse_sub_3() {
    let files = fixtures();
    let output = Vec::<u8>::new();
    let mut parser = TemplateParser::new(
        Context::default(),
        FilePath::new("./resources/parse_sub_3/file.arct"),
        output, &files
    ).unwrap();
    parser.parse().unwrap();
    let output = parser.into_destination();
    let output_str = String::from_utf8(output).unwrap();
    assert_eq!("1", output_str);
}

#[test]
fn parse_mul_1() {
    let files = fixtures();
    let output = Vec::<u8>::new();
    let mut parser = TemplateParser::new(
        Context::default(),
        FilePath::new("./resources/parse_mul_1/file.arct"),
        output, &files
    ).unwrap();
    parser.parse().unwrap();
    let output = parser.into_destination();
    let output_str = String::from_utf8(output).unwrap();
    assert_eq!("0", output_str);
}

#[test]
fn parse_mul_2() {
    let files = fixtures();
    let output = Vec::<u8>::new();
    let mut parser = TemplateParser::new(
        Context::default(),
        FilePath::new("./resources/parse_mul_2/file.arct"),
        output, &files
    ).unwrap();
    parser.parse().unwrap();
    let output = parser.into_destination();
    let output_str = String::from_utf8(output).unwrap();
    assert_eq!("38", output_str);
}

#[test]
fn parse_mul_3() {
    let files = fixtures();
    let output = Vec::<u8>::new();
    let mut parser = TemplateParser::new(
        Context::default(),
        FilePath::new("./resources/parse_mul_3/file.arct"),
        output, &files
    ).unwrap();
    parser.parse().unwrap();
    let output = parser.into_destination();
    let output_str = String::from_utf8(output).unwrap();
    assert_eq!("38", output_str);
}

#[test]
fn parse_div_1() {
    let files = fixtures();
    let output = Vec::<u8>::new();
    let mut parser = TemplateParser::new(
        Context::default(),
        FilePath::new("./resources/parse_div_1/file.arct"),
        output, &files
    ).unwrap();
    parser.parse().unwrap();
    let output = parser.into_destination();
    let output_str = String::from_utf8(output).unwrap();
    assert_eq!("1", output_str);
}

#[test]
fn parse_div_2() {
    let files = fixtures();
    let output = Vec::<u8>::new();
    let mut parser = TemplateParser::new(
        Context::default(),
        FilePath::new("./resources/parse_div_2/file.arct"),
        output, &files
    ).unwrap();
    parser.parse().unwrap();
    let output = parser.into_destination();
    let output_str = String::from_utf8(output).unwrap();
    assert_eq!("3", output_str);
}

#[test]
fn parse_div_3() {
    let files = fixtures();
    let output = Vec::<u8>::new();
    let mut parser = TemplateParser::new(
        Context::default(),
        FilePath::new("./resources/parse_div_3/file.arct"),
        output, &files
    ).unwrap();
    parser.parse().unwrap();
    let output = parser.into_destination();
    let output_str = String::from_utf8(output).unwrap();
    assert_eq!("3", output_str);
}

#[test]
fn parse_mod_1() {
    let files = fixtures();
    let output = Vec::<u8>::new();
    let mut parser = TemplateParser::new(
        Context::default(),
        FilePath::new("./resources/parse_mod_1/file.arct"),
        output, &files
    ).unwrap();
    parser.parse().unwrap();
    let output = parser.into_destination();
    let output_str = String::from_utf8(output).unwrap();
    assert_eq!("5", output_str);
}

#[test]
fn parse_mod_2() {
    let files = fixtures();
    let output = Vec::<u8>::new();
    let mut parser = TemplateParser::new(
        Context::default(),
        FilePath::new("./resources/parse_mod_2/file.arct"),
        output, &files
    ).unwrap();
    parser.parse().unwrap();
    let output = parser.into_destination();
    let output_str = String::from_utf8(output).unwrap();
    assert_eq!("0", output_str);
}

#[test]
fn parse_mod_3() {
    let files = fixtures();
    let output = Vec::<u8>::new();
    let mut parser = TemplateParser::new(
        Context::default(),
        FilePath::new("./resources/parse_mod_3/file.arct"),
        output, &files
    ).unwrap();
    parser.parse().unwrap();
    let output = parser.into_destination();
    let output_str = String::from_utf8(output).unwrap();
    assert_eq!("0", output_str);
}

#[test]
fn parse_pow_1() {
    let files = fixtures();
    let output = Vec::<u8>::new();
    let mut parser = TemplateParser::new(
        Context::default(),
        FilePath::new("./resources/parse_pow_1/file.arct"),
        output, &files
    ).unwrap();
    parser.parse().unwrap();
    let output = parser.into_destination();
    let output_str = String::from_utf8(output).unwrap();
    assert_eq!("25", output_str);
}

#[test]
fn parse_pow_2() {
    let files = fixtures();
    let output = Vec::<u8>::new();
    let mut parser = TemplateParser::new(
        Context::default(),
        FilePath::new("./resources/parse_pow_2/file.arct"),
        output, &files
    ).unwrap();
    parser.parse().unwrap();
    let output = parser.into_destination();
    let output_str = String::from_utf8(output).unwrap();
    assert_eq!("27", output_str);
}

#[test]
fn parse_pow_3() {
    let files = fixtures();
    let output = Vec::<u8>::new();
    let mut parser = TemplateParser::new(
        Context::default(),
        FilePath::new("./resources/parse_pow_3/file.arct"),
        output, &files
    ).unwrap();
    parser.parse().unwrap();
    let output = parser.into_destination();
    let output_str = String::from_utf8(output).unwrap();
    assert_eq!("27", output_str);
}

#[test]
fn parse_math_1() {
    let files = fixtures();
    let output = Vec::<u8>::new();
    let mut parser = TemplateParser::new(
        Context::default(),
        FilePath::new("./resources/parse_math_1/file.arct"),
        output, &files
    ).unwrap();
    parser.parse().unwrap();
    let output = parser.into_destination();
    let output_str = String::from_utf8(output).unwrap();
    assert_eq!("99", output_str);
}

#[test]
fn parse_math_2() {
    let files = fixtures();
    let output = Vec::<u8>::new();
    let mut parser = TemplateParser::new(
        Context::default(),
        FilePath::new("./resources/parse_math_2/file.arct"),
        output, &files
    ).unwrap();
    parser.parse().unwrap();
    let output = parser.into_destination();
    let output_str = String::from_utf8(output).unwrap();
    assert_eq!("99", output_str);
}

#[test]
fn parse_fordir_1() {
    let files = fixtures();
    let output = Vec::<u8>::new();
    let mut parser = TemplateParser::new(
        Context::default(),
        FilePath::new("./resources/parse_fordir_1/loop.arct"),
        output, &files
    ).unwrap();
    parser.parse().unwrap();
    let output = parser.into_destination();
    let output_str = String::from_utf8(output).unwrap();
    assert_eq!(
        [
            "./resources/parse_fordir_1/./4, ",
            "./resources/parse_fordir_1/./3, ",
            "./resources/parse_fordir_1/./2, ",
            "./resources/parse_fordir_1/./1, ",
            "./resources/parse_fordir_1/./0",
        ].concat().as_str(),
        output_str
    );
}

#[test]
fn parse_fordir_2() {
    let files = fixtures();
    let output = Vec::<u8>::new();
    let mut parser = TemplateParser::new(
        Context::default(),
        FilePath::new("./resources/parse_fordir_2/test.arct"),
        output, &files
    ).unwrap();
    parser.parse().unwrap();
    let output = parser.into_destination();
    let output_str = String::from_utf8(output).unwrap();
    assert_eq!(
        [
            "./resources/parse_fordir_2/./items/2, ",
            "./resources/parse_fordir_2/./items/1",
        ].concat().as_str(),
        output_str
    );
}

#[test]
fn parse_foreach_1() {
    let files = fixtures();
    let output = Vec::<u8>::new();
    let mut parser = TemplateParser::new(
        Context::default(),
        FilePath::new("./resources/parse_foreach_1/loop.arct"),
        output, &files
    ).unwrap();
    parser.parse().unwrap();
    let output = parser.into_destination();
    let output_str = String::from_utf8(output).unwrap();
    assert_eq!("4, 3, 2, 1, 0", output_str);
}

#[test]
fn parse_forfile_1() {
    let files = fixtures();
    let output = Vec::<u8>::new();
    let mut parser = TemplateParser::new(
        Context::default(),
        FilePath::new("./resources/parse_forfile_1/loop.arct"),
        output, &files
    ).unwrap();
    parser.parse().unwrap();
    let output = parser.into_destination();
    let output_str = String::from_utf8(output).unwrap();
    assert_eq!(
        [
            "./resources/parse_forfile_1/./files/4, ",
            "./resources/parse_forfile_1/./files/3, ",
            "./resources/parse_forfile_1/./files/2, ",
            "./resources/parse_forfile_1/./files/1, ",
            "./resources/parse_forfile_1/./files/0",
        ].concat().as_str(),
        output_str
    );
}

#[test]
fn parse_if_1() {
    let files = fixtures();
    let output = Vec::<u8>::new();
    let mut parser = TemplateParser::new(
        Context::default(),
        FilePath::new("./resources/parse_if_1/test.arct"),
        output, &files
    ).unwrap();
    parser.parse().unwrap();
    let output = parser.into_destination();
    let output_str = String::from_utf8(output).unwrap();
    assert_eq!(
        "./resources/parse_if_1/./testdir/5",
        output_str
    );
}

#[test]
fn parse_if_2() {
    let files = fixtures();
    let output = Vec::<u8>::new();
    let mut parser = TemplateParser::new(
        Context::default(),
        FilePath::new("./resources/parse_if_2/if.arct"),
        output, &files
    ).unwrap();
    parser.parse().unwrap();
    let output = parser.into_destination();
    let output_str = String::from_utf8(output).unwrap();
    assert_eq!(
        "0",
        output_str
    );
}

#[test]
fn parse_if_3() {
    let files = fixtures();
    let output = Vec::<u8>::new();
    let mut parser = TemplateParser::new(
        Context::default(),
        FilePath::new("./resources/parse_if_3/test.arct"),
        output, &files
    ).unwrap();
    parser.parse().unwrap();
    let output = parser.into_destination();
    let output_str = String::from_utf8(output).unwrap();
    assert_eq!(
        "true",
        output_str
    );
}

#[test]
fn parse_if_4() {
    let files = fixtures();
    let output = Vec::<u8>::new();
    let mut parser = TemplateParser::new(
        Context::default(),
        FilePath::new("./resources/parse_if_4/test.arct"),
        output, &files
    ).unwrap();
    parser.parse().unwrap();
    let output = parser.into_destination();
    let output_str = String::from_utf8(output).unwrap();
    assert_eq!(
        "false",
        output_str
    );
}

#[test]
fn parse_if_5() {
    let files = fixtures();
    let output = Vec::<u8>::new();
    let mut parser = TemplateParser::new(
        Context::default(),
        FilePath::new("./resources/parse_if_5/test.arct"),
        output, &files
    ).unwrap();
    parser.parse().unwrap();
    let output = parser.into_destination();
    let output_str = String::from_utf8(output).unwrap();
    assert_eq!(
        "true",
        output_str
    );
}

#[test]
fn parse_if_6() {
    let files = fixtures();
    let output = Vec::<u8>::new();
    let mut parser = TemplateParser::new(
        Context::default(),
        FilePath::new("./resources/parse_if_6/test.arct"),
        output, &files
    ).unwrap();
    parser.parse().unwrap();
    let output = parser.into_destination();
    let output_str = String::from_utf8(output).unwrap();
    assert_eq!(
        "Mark, Fred, and Karissa.",
        output_str
    );
}

#[test]
fn parse_if_7() {
    let files = fixtures();
    let output = Vec::<u8>::new();
    let mut parser = TemplateParser::new(
        Context::default(),
        FilePath::new("./resources/parse_if_7/test.arct"),
        output, &files
    ).unwrap();
    parser.parse().unwrap();
    let output = parser.into_destination();
    let output_str = String::from_utf8(output).unwrap();
    assert_eq!("Y", output_str);
}

#[test]
fn parse_if_8() {
    let files = fixtures();
    let output = Vec::<u8>::new();
    let mut parser = TemplateParser::new(
        Context::default(),
        FilePath::new("./resources/parse_if_8/test.arct"),
        output, &files
    ).unwrap();
    parser.parse().unwrap();
    let output = parser.into_destination();
    let output_str = String::from_utf8(output).unwrap();
    assert_eq!("true", output_str);
}

#[test]
fn parse_fn_call_1() {
    let files = fixtures();
    let output = Vec::<u8>::new();
    let mut parser = TemplateParser::new(
        Context::default(),
        [
            "{% set fnpath %}{% path \"./resources/parse_fn_call_1/functions/testobj.arct\" /%}{% /set %}",
            "{% call fnpath /%}",
            "{{ test.pagesize() }}\\",
        ].concat().as_str(),
        output, &files
    ).unwrap();
    parser.parse().unwrap();
    let output = parser.into_destination();
    let output_str = String::from_utf8(output).unwrap();
    assert_eq!(
        "10",
        output_str
    );
}

#[test]
fn parse_fn_call_2() {
    let files = fixtures();
    let output = Vec::<u8>::new();
    let mut parser = TemplateParser::new(
        Context::default(),
        FilePath::new("./resources/parse_fn_call_2/test.arct"),
        output, &files
    ).unwrap();
    parser.parse().unwrap();
    let output = parser.into_destination();
    let output_str = String::from_utf8(output).unwrap();
    assert_eq!(
        "<h4 id=\"the_id\">Some text</h4>",
        output_str
    );
}

#[test]
fn parse_forsplit_1() {
    let files = fixtures();
    let output = Vec::<u8>::new();
    let mut parser = TemplateParser::new(
        Context::default(),
        FilePath::new("./resources/parse_forsplit_1/test.arct"),
        output, &files
    ).unwrap();
    parser.parse().unwrap();
    let output = parser.into_destination();
    let output_str = String::from_utf8(output).unwrap();
    assert_eq!(
        "0, 1, 2, 3, 4, 5",
        output_str
    );
}

#[test]
fn parse_forsplit_2() {
    let files = fixtures();
    let output = Vec::<u8>::new();
    let mut parser = TemplateParser::new(
        Context::default(),
        FilePath::new("./resources/parse_forsplit_2/test.arct"),
        output, &files
    ).unwrap();
    parser.parse().unwrap();
    let output = parser.into_destination();
    let output_str = String::from_utf8(output).unwrap();
    assert_eq!(
        "5+4+3+2+1+0",
        output_str
    );
}

#[test]
fn parse_forsplit_3() {
    let files = fixtures();
    let output = Vec::<u8>::new();
    let mut parser = TemplateParser::new(
        Context::default(),
        FilePath::new("./resources/parse_forsplit_3/test.arct"),
        output, &files
    ).unwrap();
    parser.parse().unwrap();
    let output = parser.into_destination();
    let output_str = String::from_utf8(output).unwrap();
    assert_eq!(
        "iii",
        output_str
    );
}

#[test]
fn parse_forsplit_4() {
    let files = fixtures();
    let output = Vec::<u8>::new();
    let mut parser = TemplateParser::new(
        Context::default(),
        FilePath::new("./resources/parse_forsplit_4/test.arct"),
        output, &files
    ).unwrap();
    parser.parse().unwrap();
    let output = parser.into_destination();
    let output_str = String::from_utf8(output).unwrap();
    assert_eq!(
        "No items.",
        output_str
    );
}

#[test]
fn parse_forsplit_5() {
    let files = fixtures();
    let output = Vec::<u8>::new();
    let mut parser = TemplateParser::new(
        Context::default(),
        FilePath::new("./resources/parse_forsplit_5/test.arct"),
        output, &files
    ).unwrap();
    parser.parse().unwrap();
    let output = parser.into_destination();
    let output_str = String::from_utf8(output).unwrap();
    assert_eq!(
        "No items.",
        output_str
    );
}

#[test]
fn parse_forsplit_6() {
    let files = fixtures();
    let output = Vec::<u8>::new();
    let mut parser = TemplateParser::new(
        Context::default(),
        FilePath::new("./resources/parse_forsplit_6/test.arct"),
        output, &files
    ).unwrap();
    parser.parse().unwrap();
    let output = parser.into_destination();
    let output_str = String::from_utf8(output).unwrap();
    assert_eq!("1, 2", output_str);
}

#[test]
fn parse_assert_4() {
    let files = fixtures();
    let output = Vec::<u8>::new();
    let mut parser = TemplateParser::new(
        Context::default(),
        FilePath::new("./resources/parse_assert_4/test.arct"),
        output, &files
    ).unwrap();
    parser.parse().unwrap();
    let output = parser.into_destination();
    let output_str = String::from_utf8(output).unwrap();
    assert_eq!(
        "Passed",
        output_str
    );
}

#[test]
fn parse_assert_5() {
    let files = fixtures();
    let output = Vec::<u8>::new();
    let mut parser = TemplateParser::new(
        Context::default(),
        FilePath::new("./resources/parse_assert_5/test.arct"),
        output, &files
    ).unwrap();
    parser.parse().unwrap();
    let output = parser.into_destination();
    let output_str = String::from_utf8(output).unwrap();
    assert_eq!(
        "Passed",
        output_str
    );
}

#[test]
fn parse_assert_6() {
    let files = fixtures();
    let output = Vec::<u8>::new();
    let mut parser = TemplateParser::new(
        Context::default(),
        FilePath::new("./resources/parse_assert_6/test.arct"),
        output, &files
    ).unwrap();
    parser.parse().unwrap();
    let output = parser.into_destination();
    let output_str = String::from_utf8(output).unwrap();
    assert_eq!("true", output_str);
}

#[test]
fn parse_foreach_2() {
    let files = fixtures();
    let output = Vec::<u8>::new();
    let mut parser = TemplateParser::new(
        Context::default(),
        FilePath::new("./resources/parse_foreach_2/test.arct"),
        output, &files
    ).unwrap();
    parser.parse().unwrap();
    let output = parser.into_destination();
    let output_str = String::from_utf8(output).unwrap();
    assert_eq!(
        "3, 2, 1",
        output_str
    );
}

#[test]
fn parse_foreach_3() {
    let files = fixtures();
    let output = Vec::<u8>::new();
    let mut parser = TemplateParser::new(
        Context::default(),
        FilePath::new("./resources/parse_foreach_3/test.arct"),
        output, &files
    ).unwrap();
    parser.parse().unwrap();
    let output = parser.into_destination();
    let output_str = String::from_utf8(output).unwrap();
    assert_eq!(
        "3, 2, 1, 0",
        output_str
    );
}

#[test]
fn parse_foreach_4() {
    let files = fixtures();
    let output = Vec::<u8>::new();
    let mut parser = TemplateParser::new(
        Context::default(),
        FilePath::new("./resources/parse_foreach_4/test.arct"),
        output, &files
    ).unwrap();
    parser.parse().unwrap();
    let output = parser.into_destination();
    let output_str = String::from_utf8(output).unwrap();
    assert_eq!(
        "6, 5, 4, 3, 2, 1",
        output_str
    );
}

#[test]
fn parse_number_literal_1() {
    let files = fixtures();
    let output = Vec::<u8>::new();
    let mut parser = TemplateParser::new(
        Context::default(),
        FilePath::new("./resources/parse_number_literal_1/test.arct"),
        output, &files
    ).unwrap();
    parser.parse().unwrap();
    let output = parser.into_destination();
    let output_str = String::from_utf8(output).unwrap();
    assert_eq!(
        "2",
        output_str
    );
}

#[test]
fn parse_length_1() {
    let files = fixtures();
    let output = Vec::<u8>::new();
    let mut parser = TemplateParser::new(
        Context::default(),
        FilePath::new("./resources/parse_length_1/test.arct"),
        output, &files
    ).unwrap();
    parser.parse().unwrap();
    let output = parser.into_destination();
    let output_str = String::from_utf8(output).unwrap();
    assert_eq!("16", output_str);
}

#[test]
fn parse_length_2() {
    let files = fixtures();
    let output = Vec::<u8>::new();
    let mut parser = TemplateParser::new(
        Context::default(),
        FilePath::new("./resources/parse_length_2/test.arct"),
        output, &files
    ).unwrap();
    parser.parse().unwrap();
    let output = parser.into_destination();
    let output_str = String::from_utf8(output).unwrap();
    assert_eq!("16", output_str);
}

#[test]
fn parse_length_3() {
    let files = fixtures();
    let output = Vec::<u8>::new();
    let mut parser = TemplateParser::new(
        Context::default(),
        FilePath::new("./resources/parse_length_3/test.arct"),
        output, &files
    ).unwrap();
    parser.parse().unwrap();
    let output = parser.into_destination();
    let output_str = String::from_utf8(output).unwrap();
    assert_eq!("6", output_str);
}

#[test]
fn parse_count_1() {
    let files = fixtures();
    let output = Vec::<u8>::new();
    let mut parser = TemplateParser::new(
        Context::default(),
        FilePath::new("./resources/parse_count_1/test.arct"),
        output, &files
    ).unwrap();
    parser.parse().unwrap();
    let output = parser.into_destination();
    let output_str = String::from_utf8(output).unwrap();
    assert_eq!("1", output_str);
}

#[test]
fn parse_count_2() {
    let files = fixtures();
    let output = Vec::<u8>::new();
    let mut parser = TemplateParser::new(
        Context::default(),
        FilePath::new("./resources/parse_count_2/test.arct"),
        output, &files
    ).unwrap();
    parser.parse().unwrap();
    let output = parser.into_destination();
    let output_str = String::from_utf8(output).unwrap();
    assert_eq!("3", output_str);
}

#[test]
fn parse_dirname_1() {
    let files = fixtures();
    let output = Vec::<u8>::new();
    let mut parser = TemplateParser::new(
        Context::default(),
        FilePath::new("./resources/parse_dirname_1/page.arct"),
        output, &files
    ).unwrap();
    parser.parse().unwrap();
    let output = parser.into_destination();
    let output_str = String::from_utf8(output).unwrap();
    assert_eq!("parse_dirname_1", output_str);
}

#[test]
fn parse_basename_1() {
    let files = fixtures();
    let output = Vec::<u8>::new();
    let mut parser = TemplateParser::new(
        Context::default(),
        FilePath::new("./resources/parse_basename_1/page.arct"),
        output, &files
    ).unwrap();
    parser.parse().unwrap();
    let output = parser.into_destination();
    let output_str = String::from_utf8(output).unwrap();
    assert_eq!("page.arct", output_str);
}

#[test]
fn parse_complex_6() {
    let files = fixtures();
    let output = Vec::<u8>::new();
    let mut parser = TemplateParser::new(
        Context::default(),
        FilePath::new("./resources/parse_complex_6/allsiblings.arct"),
        output, &files
    ).unwrap();
    parser.parse().unwrap();
    let output = parser.into_destination();

    let output_str = String::from_utf8(output).unwrap();
    assert_eq!(
        against("./resources/parse_complex_6/against.txt"),
        output_str
    );
}

#[test]
fn parse_assert_eq_1() {
    let files = fixtures();
    let output = Vec::<u8>::new();
    let mut parser = TemplateParser::new(
        Context::default(),
        FilePath::new("./resources/assert_not_eq_1/test.arct"),
        output, &files
    ).unwrap();
    parser.parse().unwrap();
    let output = parser.into_destination();
    let output_str = String::from_utf8(output).unwrap();

    assert_eq!(
        against("./resources/assert_not_eq_1/against.txt"),
        output_str
    );
}

#[test]
#[should_panic]
fn parse_escape_2() {
    let files = fixtures();
    let output = Vec::<u8>::new();
    let mut parser = TemplateParser::new(
        Context::default(),
        FilePath::new("./resources/parse_escape_2/test.arct"),
        output, &files
    ).unwrap();
    parser.parse().unwrap();
}

#[test]
#[should_panic]
fn parse_nth_3() {
    let files = fixtures();
    let output = Vec::<u8>::new();
    let mut parser = TemplateParser::new(
        Context::default(),
        FilePath::new("./resources/parse_nth_3/file.arct"),
        output, &files
    ).unwrap();
    parser.parse().unwrap();
}

#[test]
#[should_panic]
fn parse_assert_3() {
    let files = fixtures();
    let output = Vec::<u8>::new();
    let mut parser = TemplateParser::new(
        Context::default(),
        FilePath::new("./resources/parse_assert_3/test.arct"),
        output, &files
    ).unwrap();
    parser.parse().unwrap();
}

#[test]
#[should_panic]
fn parse_number_literal_2() {
    let files = fixtures();
    let output = Vec::<u8>::new();
    let mut parser = TemplateParser::new(
        Context::default(),
        FilePath::new("./resources/parse_number_literal_2/test.arct"),
        output, &files
    ).unwrap();
    parser.parse().unwrap();
}
