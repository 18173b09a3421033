//! What templates compile to: the two patterns and the table of fields.

use parse_rust::text::{decimal_string, flatten, same_text, to_chars};
use parse_rust::{parse_format, ParseError, Parser, Registry};

#[test]
fn compile_gives_both_patterns_and_the_fields() {
    let pattern = parse_format("Name: {name:w}, Age: {age:d}", &Registry::builtin()).unwrap();
    assert_eq!(pattern.search, r"Name: (\w+)\s*,\s* Age: (-?\d+)");
    assert_eq!(pattern.exact, r"^Name: (\w+)\s*,\s* Age: (-?\d+)$");
    assert_eq!(pattern.fields.len(), 2);
    assert_eq!(pattern.fields[0].identifier, "name");
    assert_eq!(pattern.fields[0].type_tag, Some("w".to_string()));
    assert_eq!(pattern.fields[0].group_index, 1);
    assert_eq!(pattern.fields[1].identifier, "age");
    assert_eq!(pattern.fields[1].type_tag, Some("d".to_string()));
    assert_eq!(pattern.fields[1].group_index, 2);
}

#[test]
fn compile_exact_is_search_between_the_anchors() {
    for template in [
        "",
        "hello",
        "{}",
        "{} {}",
        "Hello {:w}!",
        "{{x}} {a.b:d}, {:tg}\n",
        "a,b=c+d-e {:f}",
    ] {
        let pattern = parse_format(template, &Registry::builtin()).unwrap();
        assert_eq!(pattern.exact, format!("^{}$", pattern.search), "{:?}", template);
    }
    let pattern = parse_format("Hello {:w}!", &Registry::builtin()).unwrap();
    assert_eq!(pattern.exact, r"^Hello (\w+)!$");
    assert_eq!(pattern.search, r"Hello (\w+)!");
}

#[test]
fn compile_of_the_empty_template() {
    let pattern = parse_format("", &Registry::builtin()).unwrap();
    assert_eq!(pattern.search, "");
    assert_eq!(pattern.exact, "^$");
    assert!(pattern.fields.is_empty());
}

#[test]
fn compile_untyped_field_takes_as_little_as_it_can() {
    let pattern = parse_format("{} {}", &Registry::builtin()).unwrap();
    assert_eq!(pattern.search, "(.+?) (.+?)");
    assert_eq!(pattern.fields[0].type_tag, None);
    assert_eq!(pattern.fields[1].type_tag, None);
}

#[test]
fn compile_doubled_braces_are_literal() {
    let pattern = parse_format("{{hello}} {}", &Registry::builtin()).unwrap();
    assert_eq!(pattern.search, r"\{hello\} (.+?)");
    assert_eq!(pattern.fields.len(), 1);
    assert_eq!(pattern.fields[0].identifier, "0");
}

#[test]
fn compile_doubled_brace_inside_a_field_is_literal_too() {
    let pattern = parse_format("{a}}b}", &Registry::builtin()).unwrap();
    assert_eq!(pattern.search, r"\}(.+?)");
    assert_eq!(pattern.fields[0].identifier, "ab");
}

#[test]
fn compile_escapes_every_meta_character() {
    let pattern = parse_format(r"\.*?()|[]^$#&~", &Registry::builtin()).unwrap();
    assert_eq!(pattern.search, r"\\\.\*\?\(\)\|\[\]\^\$\#\&\~");
    let pattern = parse_format("a/b%c!d\"e:f;g<h>i@j_k'l m\tn", &Registry::builtin()).unwrap();
    assert_eq!(pattern.search, "a/b%c!d\"e:f;g<h>i@j_k'l m\tn");
}

#[test]
fn compile_lets_blanks_stand_around_delimiters() {
    let pattern = parse_format("a,b=c+d-e", &Registry::builtin()).unwrap();
    assert_eq!(pattern.search, r"a\s*,\s*b\s*=\s*c\s*\+\s*d\s*\-\s*e");
}

#[test]
fn compile_counts_anonymous_fields_among_all_fields() {
    let pattern = parse_format("{:w} {name:w} {:w}", &Registry::builtin()).unwrap();
    let identifiers: Vec<&str> = pattern.fields.iter().map(|f| f.identifier.as_str()).collect();
    assert_eq!(identifiers, vec!["0", "name", "2"]);
    let groups: Vec<usize> = pattern.fields.iter().map(|f| f.group_index).collect();
    assert_eq!(groups, vec![1, 2, 3]);
}

#[test]
fn compile_flattens_names() {
    let pattern = parse_format("{user.name} {item[0]} {a[1][2].b}", &Registry::builtin()).unwrap();
    let identifiers: Vec<&str> = pattern.fields.iter().map(|f| f.identifier.as_str()).collect();
    assert_eq!(identifiers, vec!["user__name", "item__0", "a__1__2__b"]);
}

#[test]
fn compile_empty_type_tag_is_no_type() {
    let pattern = parse_format("{x:}", &Registry::builtin()).unwrap();
    assert_eq!(pattern.search, "(.+?)");
    assert_eq!(pattern.fields[0].identifier, "x");
    assert_eq!(pattern.fields[0].type_tag, None);
}

#[test]
fn compile_later_colon_belongs_to_the_type_tag() {
    assert_eq!(parse_format("{a:d:x}", &Registry::builtin()), Err(ParseError::InvalidFormat));
    assert_eq!(parse_format("{a::d}", &Registry::builtin()), Err(ParseError::InvalidFormat));
}

#[test]
fn compile_colon_outside_a_field_is_literal() {
    let pattern = parse_format("a:b {:d}", &Registry::builtin()).unwrap();
    assert_eq!(pattern.search, r"a:b (-?\d+)");
}

#[test]
fn compile_uses_each_builtin_fragment() {
    let pattern = parse_format("{:d}|{:f}|{:w}", &Registry::builtin()).unwrap();
    assert_eq!(pattern.search, r"(-?\d+)\|(-?\d*\.?\d+)\|(\w+)");
    let pattern = parse_format("{:th}", &Registry::builtin()).unwrap();
    assert_eq!(pattern.search, r"(\d{2}/[A-Za-z]{3}/\d{4}:\d{2}:\d{2}:\d{2}\s+[-+]\d{4})");
    let pattern = parse_format("{:ts}", &Registry::builtin()).unwrap();
    assert_eq!(pattern.search, r"([A-Za-z]{3}\s+\d{1,2}\s+\d{4}\s+\d{2}:\d{2}:\d{2})");
}

#[test]
fn compile_refuses_an_unknown_type_tag() {
    assert_eq!(parse_format("{:zz}", &Registry::builtin()), Err(ParseError::InvalidFormat));
    assert_eq!(parse_format("{:d}", &Registry::new()), Err(ParseError::InvalidFormat));
    assert!(Parser::new("{x:date}", true).is_err());
}

#[test]
fn compile_refuses_braces_out_of_place() {
    for template in ["a{b", "a}b", "a{b}}", "a{{b}", "{a{b}}", "{", "}", "{}{", "x{y:d"] {
        assert_eq!(
            parse_format(template, &Registry::builtin()),
            Err(ParseError::InvalidFormat),
            "{}",
            template
        );
        assert!(Parser::new(template, true).is_err(), "{}", template);
        assert!(Parser::new(template, false).is_err(), "{}", template);
    }
}

#[test]
fn compile_error_is_invalid_format() {
    match Parser::new("a{b", true) {
        Err(e) => assert_eq!(e, ParseError::InvalidFormat),
        Ok(_) => panic!("a template that ends inside a field compiled"),
    }
    match Parser::new("a}b", true) {
        Err(e) => assert_eq!(e, ParseError::InvalidFormat),
        Ok(_) => panic!("a template with a closing brace outside a field compiled"),
    }
}

#[test]
fn compile_refuses_a_fragment_that_is_no_regular_expression() {
    struct Broken;
    impl parse_rust::TypeConverter for Broken {
        fn model(&self) -> parse_rust::converter::ConverterModel {
            unreachable!()
        }
        fn convert(&self, s: &str) -> Result<parse_rust::Value, ParseError> {
            Ok(parse_rust::Value::Text(s.to_string()))
        }
        fn get_pattern(&self) -> Option<&str> {
            Some("[a-")
        }
    }
    let mut extra = Registry::new();
    extra.insert("broken", Box::new(Broken));
    let pattern = parse_format("{:broken}", &extra).unwrap();
    assert_eq!(pattern.search, "([a-)");
    let mut extra = Registry::new();
    extra.insert("broken", Box::new(Broken));
    match Parser::new_with_types("{:broken}", true, extra) {
        Err(e) => assert_eq!(e, ParseError::InvalidFormat),
        Ok(_) => panic!("a broken fragment compiled"),
    }
}

#[test]
fn compile_twice_gives_the_same() {
    let template = "User {user.name:w} ({user.id:d}) - {:tg} {}";
    let first = parse_format(template, &Registry::builtin()).unwrap();
    let second = parse_format(template, &Registry::builtin()).unwrap();
    assert_eq!(first, second);
    let p = Parser::new(template, true).unwrap();
    let q = Parser::new(template, true).unwrap();
    assert_eq!(p.fields(), q.fields());
    for text in [
        "User admin (123) - 27/12/2024 19:57:55 x",
        "User admin (abc) - 27/12/2024 19:57:55 x",
        "user admin (1) - 1/1/2024 y",
        "",
        "User a (1) - 99/99/2024 z",
    ] {
        assert_eq!(p.parse(text), q.parse(text), "{}", text);
        assert_eq!(p.search(text), q.search(text), "{}", text);
        assert_eq!(p.findall(text), q.findall(text), "{}", text);
    }
}

#[test]
fn pattern_group_of_finds_the_group_by_name() {
    let pattern = parse_format("{:w} {user.name:w} {x:d} {x:w}", &Registry::builtin()).unwrap();
    assert_eq!(pattern.group_of("0"), Some(1));
    assert_eq!(pattern.group_of("user.name"), Some(2));
    assert_eq!(pattern.group_of("user__name"), Some(2));
    assert_eq!(pattern.group_of("x"), Some(4));
    assert_eq!(pattern.group_of("user"), None);
    assert_eq!(pattern.group_of("1"), None);
}

#[test]
fn parser_fields_are_in_the_order_of_their_groups() {
    let p = Parser::new("{a} {:d} {b:w} {}", false).unwrap();
    let fields = p.fields();
    assert_eq!(fields.len(), 4);
    for (i, field) in fields.iter().enumerate() {
        assert_eq!(field.group_index, i + 1);
    }
    assert_eq!(fields[3].identifier, "3");
}

#[test]
fn text_decimal_string_writes_numbers() {
    for n in [0usize, 1, 9, 10, 11, 99, 100, 101, 12345, 1_000_000, usize::MAX] {
        assert_eq!(decimal_string(n), n.to_string());
    }
}

#[test]
fn text_flatten_replaces_dots_and_brackets() {
    assert_eq!(flatten("user.name"), "user__name");
    assert_eq!(flatten("array[0]"), "array__0");
    assert_eq!(flatten("a.b[1].c"), "a__b__1__c");
    assert_eq!(flatten("plain_name"), "plain_name");
    assert_eq!(flatten(""), "");
    assert_eq!(flatten("]"), "");
    for name in ["user.name", "array[0]", "a__b", "x", "", "..", "é.ü"] {
        assert_eq!(flatten(&flatten(name)), flatten(name));
    }
}

#[test]
fn text_to_chars_and_same_text() {
    assert_eq!(to_chars("héllo"), vec!['h', 'é', 'l', 'l', 'o']);
    assert_eq!(to_chars(""), Vec::<char>::new());
    assert!(same_text("", ""));
    assert!(same_text("abc", "abc"));
    assert!(same_text("héllo", "héllo"));
    assert!(!same_text("abc", "abd"));
    assert!(!same_text("abc", "ab"));
    assert!(!same_text("ab", "abc"));
    assert!(!same_text("", "a"));
}

#[test]
fn error_messages() {
    assert_eq!(ParseError::InvalidFormat.message(), "invalid format string");
    assert_eq!(ParseError::NoMatch.message(), "no match found");
    assert_eq!(ParseError::TypeConversionFailed.message(), "type conversion failed");
}
