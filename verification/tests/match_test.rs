//! Reading, searching and collecting; results by position and by name;
//! converters of the caller's own.

use chrono::NaiveDateTime;
use parse_rust::converter::ConverterModel;
use parse_rust::{
    findall, findall_with_types, parse, parse_with_types, search, search_with_types, Capture,
    Custom, DateConverter, Float, IntConverter, ParseError, ParseResult, Parser, Registry,
    TimeConverter, TypeConverter, Value, WordConverter,
};

/// Reads a number written in base sixteen.
struct Hex;

impl TypeConverter for Hex {
    fn model(&self) -> ConverterModel {
        unreachable!()
    }

    fn convert(&self, s: &str) -> Result<Value, ParseError> {
        i64::from_str_radix(s, 16).map(Value::Integer).map_err(|_| ParseError::TypeConversionFailed)
    }

    fn get_pattern(&self) -> Option<&str> {
        Some("[0-9a-fA-F]+")
    }
}

/// Accepts only even numbers, and has no pattern of its own.
struct Even;

impl TypeConverter for Even {
    fn model(&self) -> ConverterModel {
        unreachable!()
    }

    fn convert(&self, s: &str) -> Result<Value, ParseError> {
        match s.parse::<i64>() {
            Ok(n) if n % 2 == 0 => Ok(Value::Integer(n)),
            Ok(_) => Err(ParseError::NoMatch),
            Err(_) => Err(ParseError::TypeConversionFailed),
        }
    }

    fn get_pattern(&self) -> Option<&str> {
        None
    }
}

fn group(start: usize, text: &str) -> Option<Capture> {
    Some(Capture { start, end: start + text.len(), text: text.to_string() })
}

#[test]
fn parse_two_anonymous_fields() {
    let result = parse("{} {}", "hello world").unwrap();
    assert_eq!(result.fixed, vec!["hello".to_string(), "world".to_string()]);
    assert_eq!(*result.get::<String>(0).unwrap(), "hello");
    assert_eq!(*result.get::<String>(1).unwrap(), "world");
    assert_eq!(*result.named::<String>("0").unwrap(), "hello");
    assert_eq!(*result.named::<String>("1").unwrap(), "world");
    assert_eq!(result.spans, vec![(0, 5), (6, 11)]);
}

#[test]
fn parse_doubled_braces() {
    let result = parse("{{hello}} {}", "{hello} world").unwrap();
    assert_eq!(result.fixed, vec!["world".to_string()]);
    assert_eq!(result.converted, vec![Value::Text("world".to_string())]);
    assert!(parse("{{hello}} {}", "hello world").is_none());
}

#[test]
fn parse_named_and_typed_fields() {
    let result = parse("Name: {name:w}, Age: {age:d}", "Name: Alice, Age: 25").unwrap();
    assert_eq!(*result.named::<String>("name").unwrap(), "Alice");
    assert_eq!(*result.named::<i64>("age").unwrap(), 25);
    assert_eq!(*result.get::<String>(0).unwrap(), "Alice");
    assert_eq!(*result.get::<i64>(1).unwrap(), 25);
    assert_eq!(
        result.named,
        vec![
            ("name".to_string(), "Alice".to_string()),
            ("age".to_string(), "25".to_string())
        ]
    );
    assert_eq!(
        result.converted,
        vec![Value::Text("Alice".to_string()), Value::Integer(25)]
    );
}

#[test]
fn result_has_one_entry_for_each_field() {
    let result = parse("{} {x:d} {:w} {y}", "a 1 b c").unwrap();
    assert_eq!(result.fixed.len(), 4);
    assert_eq!(result.named.len(), 4);
    assert_eq!(result.spans.len(), 4);
    assert_eq!(result.converted.len(), 4);
}

#[test]
fn result_guards_the_type_and_the_index() {
    let result = parse("{:d} {:w} {}", "1 two three").unwrap();
    assert!(result.get::<i64>(0).is_some());
    assert!(result.get::<String>(0).is_none());
    assert!(result.get::<Float>(0).is_none());
    assert!(result.get::<NaiveDateTime>(0).is_none());
    assert!(result.get::<String>(1).is_some());
    assert!(result.get::<i64>(1).is_none());
    assert!(result.get::<String>(2).is_some());
    assert!(result.get::<String>(3).is_none());
    assert!(result.get::<i64>(usize::MAX).is_none());
    assert!(result.named::<i64>("0").is_some());
    assert!(result.named::<String>("0").is_none());
    assert!(result.named::<String>("3").is_none());
    assert!(result.named::<String>("").is_none());
}

#[test]
fn result_by_name_takes_the_name_as_written_or_flattened() {
    let result = parse("{user.name:w} {item[0]:d}", "admin 7").unwrap();
    assert_eq!(*result.named::<String>("user.name").unwrap(), "admin");
    assert_eq!(*result.named::<String>("user__name").unwrap(), "admin");
    assert_eq!(*result.named::<i64>("item[0]").unwrap(), 7);
    assert_eq!(*result.named::<i64>("item__0").unwrap(), 7);
    assert!(result.named::<String>("user").is_none());
    assert!(result.named::<i64>("item").is_none());
    assert_eq!(result.named[0].0, "user__name");
    assert_eq!(result.named[1].0, "item__0");
}

#[test]
fn result_of_two_fields_with_one_name_answers_with_the_later() {
    let result = parse("{x:d} {x:d}", "1 2").unwrap();
    assert_eq!(result.fixed, vec!["1".to_string(), "2".to_string()]);
    assert_eq!(*result.named::<i64>("x").unwrap(), 2);
    assert_eq!(*result.get::<i64>(0).unwrap(), 1);
    let result = parse("{} {0}", "a b").unwrap();
    assert_eq!(*result.named::<String>("0").unwrap(), "b");
}

#[test]
fn result_built_by_hand_is_read_safely() {
    let result = ParseResult {
        fixed: vec!["1".to_string()],
        named: vec![
            ("a".to_string(), "1".to_string()),
            ("b".to_string(), "2".to_string()),
        ],
        spans: Vec::new(),
        converted: vec![Value::Integer(1)],
    };
    assert_eq!(result.named::<i64>("a"), Some(&1));
    assert_eq!(result.named::<i64>("b"), None);
    assert_eq!(result.get::<i64>(1), None);
}

#[test]
fn spans_say_where_the_fields_stand() {
    let text = "prix: 42 € pour Zoë, très bien";
    let result = search("{:d} € pour {name:w},", text).unwrap();
    assert_eq!(result.fixed.len(), result.spans.len());
    for (raw, span) in result.fixed.iter().zip(result.spans.iter()) {
        assert_eq!(&text[span.0..span.1], raw);
    }
    assert_eq!(result.fixed, vec!["42".to_string(), "Zoë".to_string()]);
    assert_eq!(result.spans[0], (6, 8));
}

#[test]
fn fields_put_back_into_the_template_give_the_text() {
    let template = ["The ", " is ", " and costs ", " coins"];
    for text in ["The sky is blue and costs 12 coins", "The old sea is deep and costs -3 coins"] {
        let result = Parser::new("The {} is {:w} and costs {:d} coins", true)
            .unwrap()
            .parse(text)
            .unwrap();
        let mut rebuilt = String::new();
        for (i, literal) in template.iter().enumerate() {
            rebuilt.push_str(literal);
            if i < result.fixed.len() {
                rebuilt.push_str(&result.fixed[i]);
            }
        }
        assert_eq!(rebuilt, text);
    }
}

#[test]
fn exact_match_takes_the_whole_text() {
    let p = Parser::new("hello {:w}", true).unwrap();
    assert!(p.parse("hello world").is_some());
    assert!(p.parse("hello world!").is_none());
    assert!(p.parse("say hello world").is_none());
    assert!(p.parse(" hello world").is_none());
    assert!(p.parse("hello world ").is_none());
    assert!(p.parse("").is_none());
    assert!(p.search("say hello world!").is_some());
}

#[test]
fn exact_match_takes_no_line_break_that_the_template_lacks() {
    let p = Parser::new("hello", true).unwrap();
    assert!(p.parse("hello").is_some());
    assert!(p.parse("hello\n").is_none());
    assert!(p.parse("hello\n\n").is_none());
    assert!(p.parse("hello\nx").is_none());
    assert!(p.parse("\nhello").is_none());
    assert!(p.parse("hello\r\n").is_none());
    assert!(parse("{}", "word\n").is_none());
    assert!(parse("{:w}", "word\n").is_none());
    let result = parse("{:w}\n", "word\n").unwrap();
    assert_eq!(result.fixed, vec!["word".to_string()]);
    let result = parse("{}", "word").unwrap();
    assert_eq!(result.fixed, vec!["word".to_string()]);
}

#[test]
fn case_is_fixed_when_the_parser_is_made() {
    let sensitive = Parser::new("HELLO {}", true).unwrap();
    assert!(sensitive.parse("hello world").is_none());
    assert!(sensitive.parse("HELLO world").is_some());
    assert!(sensitive.search("say hello world").is_none());
    assert!(sensitive.findall("hello a hello b").is_empty());
    let insensitive = Parser::new("HELLO {}", false).unwrap();
    let result = insensitive.parse("hello world").unwrap();
    assert_eq!(result.fixed, vec!["world".to_string()]);
    assert!(insensitive.parse("HeLLo world").is_some());
    assert_eq!(insensitive.findall("hello a HELLO b").len(), 2);
    // The flag reaches the fields' patterns too.
    let mut extra = Registry::new();
    extra.insert("hex", Box::new(Hex));
    let p = Parser::new_with_types("{:ts}", false, Registry::new()).unwrap();
    assert!(p.parse("DEC 27 2024 19:57:55").is_some());
    let p = Parser::new_with_types("x{:hex}", true, extra).unwrap();
    assert!(p.parse("xFF").is_some());
    assert!(p.parse("XFF").is_none());
}

#[test]
fn free_functions_do_not_regard_case() {
    assert!(parse("HELLO {}", "hello world").is_some());
    assert!(search("HELLO {}", "oh hello world").is_some());
    assert_eq!(findall("x{:d}", "X1 x2").len(), 2);
}

#[test]
fn free_functions_give_nothing_for_a_bad_template() {
    assert!(parse("a{b", "a{b").is_none());
    assert!(search("a}b", "a}b").is_none());
    assert!(findall("{:zz}", "zz").is_empty());
    assert!(parse_with_types("a{b", "ab", Registry::new()).is_none());
    assert!(search_with_types("a}b", "ab", Registry::new()).is_none());
    assert!(findall_with_types("{:zz}", "zz", Registry::new()).is_empty());
}

#[test]
fn search_finds_the_first_match() {
    let result = search("{:d}", "a 1 b 2 c 3").unwrap();
    assert_eq!(*result.get::<i64>(0).unwrap(), 1);
    assert_eq!(result.spans, vec![(2, 3)]);
    assert!(search("{:d}", "no digits").is_none());
    let result = search("age={:d}", "name=John  age = 42").unwrap();
    assert_eq!(*result.get::<i64>(0).unwrap(), 42);
}

#[test]
fn search_fails_when_the_first_match_does_not_convert() {
    assert!(search("{:d}", "99999999999999999999 then 5").is_none());
    let found = findall("{:d}", "99999999999999999999 then 5");
    assert_eq!(found.len(), 1);
    assert_eq!(*found[0].get::<i64>(0).unwrap(), 5);
}

#[test]
fn findall_goes_from_left_to_right_without_overlap() {
    let results = findall("{:d}", "1 2 3");
    let numbers: Vec<i64> = results.iter().map(|r| *r.get::<i64>(0).unwrap()).collect();
    assert_eq!(numbers, vec![1, 2, 3]);
    let spans: Vec<(usize, usize)> = results.iter().map(|r| r.spans[0]).collect();
    assert_eq!(spans, vec![(0, 1), (2, 3), (4, 5)]);
    let results = findall("{:w}{:w}", "abcd efg h");
    let pairs: Vec<(String, String)> =
        results.iter().map(|r| (r.fixed[0].clone(), r.fixed[1].clone())).collect();
    assert_eq!(
        pairs,
        vec![("abc".to_string(), "d".to_string()), ("ef".to_string(), "g".to_string())]
    );
    let results = findall("aa", "aaaaa");
    assert_eq!(results.len(), 2);
    let text = "k1=1, k2 = 22 ,k3=333 and k4=x k5=5";
    let results = findall("{key:w}={value:d}", text);
    assert_eq!(results.len(), 4);
    for pair in results.windows(2) {
        let end_of_earlier = pair[0].spans.iter().map(|span| span.1).max().unwrap();
        let start_of_later = pair[1].spans.iter().map(|span| span.0).min().unwrap();
        assert!(end_of_earlier <= start_of_later);
    }
    assert!(findall("{:d}", "").is_empty());
}

#[test]
fn findall_leaves_out_what_does_not_convert() {
    let results = findall("{:d}", "1 99999999999999999999 3");
    let numbers: Vec<i64> = results.iter().map(|r| *r.get::<i64>(0).unwrap()).collect();
    assert_eq!(numbers, vec![1, 3]);
    let results = findall("{:tg}", "27/12/2024 and 99/99/2024 and 28/12/2024");
    assert_eq!(results.len(), 2);
    let mut extra = Registry::new();
    extra.insert("even", Box::new(Even));
    let results = findall_with_types("<{:even}>", "<1><2><x><4><5>", extra);
    let numbers: Vec<i64> = results.iter().map(|r| *r.get::<i64>(0).unwrap()).collect();
    assert_eq!(numbers, vec![2, 4]);
}

#[test]
fn conversion_is_all_or_nothing_for_one_match() {
    let p = Parser::new("{a:d} {b:d}", true).unwrap();
    assert!(p.parse("1 2").is_some());
    assert!(p.parse("1 99999999999999999999").is_none());
    assert!(p.parse("99999999999999999999 2").is_none());
    assert!(p.search("x 1 99999999999999999999 y").is_none());
}

#[test]
fn process_captures_reads_the_groups() {
    let p = Parser::new("{name:w} is {age:d}", true).unwrap();
    let groups = vec![group(0, "Alice is 25"), group(0, "Alice"), group(9, "25")];
    let result = p.process_captures(&groups).unwrap();
    assert_eq!(result.fixed, vec!["Alice".to_string(), "25".to_string()]);
    assert_eq!(
        result.named,
        vec![
            ("name".to_string(), "Alice".to_string()),
            ("age".to_string(), "25".to_string())
        ]
    );
    assert_eq!(result.spans, vec![(0, 5), (9, 11)]);
    assert_eq!(result.converted, vec![Value::Text("Alice".to_string()), Value::Integer(25)]);
}

#[test]
fn process_captures_reports_the_first_field_that_fails() {
    let mut extra = Registry::new();
    extra.insert("even", Box::new(Even));
    let p = Parser::new_with_types("{:even} {:d} {:even}", true, extra).unwrap();
    let groups = vec![group(0, "2 3 4"), group(0, "2"), group(2, "3"), group(4, "4")];
    assert!(p.process_captures(&groups).is_ok());
    let groups = vec![group(0, "1 x 4"), group(0, "1"), group(2, "x"), group(4, "4")];
    assert_eq!(p.process_captures(&groups), Err(ParseError::NoMatch));
    let groups = vec![group(0, "2 x 3"), group(0, "2"), group(2, "x"), group(4, "3")];
    assert_eq!(p.process_captures(&groups), Err(ParseError::TypeConversionFailed));
    let groups = vec![group(0, "2 3 x"), group(0, "2"), group(2, "3"), group(4, "x")];
    assert_eq!(p.process_captures(&groups), Err(ParseError::TypeConversionFailed));
}

#[test]
fn process_captures_gives_no_text_to_a_group_that_is_not_there() {
    let p = Parser::new("{a} {b:w}", true).unwrap();
    let groups = vec![group(0, "x"), None];
    let result = p.process_captures(&groups).unwrap();
    assert_eq!(result.fixed, vec![String::new(), String::new()]);
    assert_eq!(result.spans, vec![(0, 0), (0, 0)]);
    assert_eq!(
        result.converted,
        vec![Value::Text(String::new()), Value::Text(String::new())]
    );
    assert_eq!(
        result.named,
        vec![("a".to_string(), String::new()), ("b".to_string(), String::new())]
    );
    let result = p.process_captures(&Vec::new()).unwrap();
    assert_eq!(result.fixed.len(), 2);
    let p = Parser::new("{a:d}", true).unwrap();
    assert_eq!(
        p.process_captures(&vec![group(0, "")]),
        Err(ParseError::TypeConversionFailed)
    );
}

#[test]
fn registry_builtin_answers_to_the_builtin_tags() {
    let registry = Registry::builtin();
    for tag in ["d", "f", "w", "tg", "ta", "te", "th", "ts", "ti"] {
        assert!(registry.contains(tag), "{}", tag);
        assert!(registry.get(tag).is_some(), "{}", tag);
    }
    for tag in ["", "D", "date", "time", "datetime", "x", "tz", "dd"] {
        assert!(!registry.contains(tag), "{}", tag);
        assert!(registry.get(tag).is_none(), "{}", tag);
    }
    assert_eq!(registry.get("d").unwrap().get_pattern(), Some(r"-?\d+"));
    assert_eq!(registry.get("w").unwrap().convert("a"), Ok(Value::Text("a".to_string())));
    assert!(Registry::new().get("d").is_none());
}

#[test]
fn registry_later_entry_replaces_the_earlier() {
    let mut registry = Registry::new();
    registry.insert("n", Box::new(IntConverter));
    assert_eq!(registry.get("n").unwrap().convert("10"), Ok(Value::Integer(10)));
    registry.insert("n", Box::new(Hex));
    assert_eq!(registry.get("n").unwrap().convert("10"), Ok(Value::Integer(16)));
    registry.insert("m", Box::new(WordConverter));
    assert_eq!(registry.get("n").unwrap().convert("10"), Ok(Value::Integer(16)));
    assert_eq!(registry.get("m").unwrap().convert("10"), Ok(Value::Text("10".to_string())));
}

#[test]
fn registry_merge_prefers_the_second() {
    let mut first = Registry::new();
    first.insert("a", Box::new(IntConverter));
    first.insert("b", Box::new(IntConverter));
    let mut second = Registry::new();
    second.insert("b", Box::new(Hex));
    second.insert("c", Box::new(WordConverter));
    let merged = first.merge(second);
    assert_eq!(merged.get("a").unwrap().convert("11"), Ok(Value::Integer(11)));
    assert_eq!(merged.get("b").unwrap().convert("11"), Ok(Value::Integer(17)));
    assert_eq!(merged.get("c").unwrap().convert("11"), Ok(Value::Text("11".to_string())));
    assert!(merged.get("d").is_none());
}

#[test]
fn registry_of_the_caller_lies_over_the_builtin() {
    let mut extra = Registry::new();
    extra.insert("d", Box::new(Hex));
    extra.insert("date", Box::new(DateConverter));
    let registry = Registry::with_builtin(extra);
    assert_eq!(registry.get("d").unwrap().convert("ff"), Ok(Value::Integer(255)));
    assert_eq!(registry.get("d").unwrap().get_pattern(), Some("[0-9a-fA-F]+"));
    assert!(registry.contains("date"));
    for tag in ["f", "w", "tg", "ta", "te", "th", "ts", "ti"] {
        assert!(registry.contains(tag), "{}", tag);
    }
    assert_eq!(registry.get("w").unwrap().get_pattern(), Some(r"\w+"));
}

#[test]
fn converter_of_the_caller_replaces_a_builtin() {
    let mut extra = Registry::new();
    extra.insert("d", Box::new(Hex));
    let result = parse_with_types("{:d} {:w}", "ff word", extra).unwrap();
    assert_eq!(*result.get::<i64>(0).unwrap(), 255);
    assert_eq!(*result.get::<String>(1).unwrap(), "word");
    let result = parse("{:d}", "10").unwrap();
    assert_eq!(*result.get::<i64>(0).unwrap(), 10);
}

#[test]
fn converter_of_the_caller_under_a_new_tag() {
    let mut extra = Registry::new();
    extra.insert("x", Box::new(Hex));
    let p = Parser::new_with_types("0x{v:x}", true, extra).unwrap();
    assert_eq!(*p.parse("0xff").unwrap().named::<i64>("v").unwrap(), 255);
    assert_eq!(*p.search("at 0x10 and").unwrap().get::<i64>(0).unwrap(), 16);
    assert!(p.parse("0xzz").is_none());
    assert!(p.parse("0xfffffffffffffffff").is_none());
    let mut extra = Registry::new();
    extra.insert("x", Box::new(Hex));
    let result = search_with_types("0x{:x}", "at 0x1F.", extra).unwrap();
    assert_eq!(*result.get::<i64>(0).unwrap(), 31);
    assert!(Parser::new("0x{v:x}", true).is_err());
}

/// Reads a colour written as `#rrggbb` and keeps it in lower case.
struct Colour;

impl TypeConverter for Colour {
    fn model(&self) -> ConverterModel {
        unreachable!()
    }

    fn convert(&self, s: &str) -> Result<Value, ParseError> {
        if s.len() == 7 && s.starts_with('#') && s[1..].chars().all(|c| c.is_ascii_hexdigit()) {
            Ok(Value::Custom(Custom(s.to_ascii_lowercase())))
        } else {
            Err(ParseError::TypeConversionFailed)
        }
    }

    fn get_pattern(&self) -> Option<&str> {
        Some(r"#\w+")
    }
}

#[test]
fn converter_of_the_caller_gives_a_value_of_its_own_kind() {
    let mut extra = Registry::new();
    extra.insert("colour", Box::new(Colour));
    let p = Parser::new_with_types("paint it {:colour}", true, extra).unwrap();
    let result = p.parse("paint it #FFAA00").unwrap();
    assert_eq!(result.get::<Custom>(0), Some(&Custom("#ffaa00".to_string())));
    assert!(result.get::<String>(0).is_none());
    assert_eq!(result.fixed, vec!["#FFAA00".to_string()]);
    assert!(p.parse("paint it #black").is_none());
    let result = parse("{}", "x").unwrap();
    assert!(result.get::<Custom>(0).is_none());
}

#[test]
fn converter_without_a_pattern_follows_the_default() {
    let mut extra = Registry::new();
    extra.insert("even", Box::new(Even));
    let p = Parser::new_with_types("n={:even};", true, extra).unwrap();
    assert_eq!(*p.parse("n=12;").unwrap().get::<i64>(0).unwrap(), 12);
    assert!(p.parse("n=13;").is_none());
    assert!(p.parse("n=twelve;").is_none());
    assert_eq!(p.fields()[0].type_tag, Some("even".to_string()));
}

#[test]
fn date_and_time_converters_under_tags_of_the_caller() {
    let mut extra = Registry::new();
    extra.insert("date", Box::new(DateConverter));
    extra.insert("time", Box::new(TimeConverter));
    let p = Parser::new_with_types("on {day:date} at {hour:time}", true, extra).unwrap();
    let result = p.parse("on 2024-12-27 at 19:57").unwrap();
    assert_eq!(
        result.named::<chrono::NaiveDate>("day"),
        chrono::NaiveDate::from_ymd_opt(2024, 12, 27).as_ref()
    );
    assert_eq!(
        result.named::<chrono::NaiveTime>("hour"),
        chrono::NaiveTime::from_hms_opt(19, 57, 0).as_ref()
    );
    assert!(result.named::<NaiveDateTime>("day").is_none());
    assert!(p.parse("on 2024-02-30 at 19:57").is_none());
}

#[test]
fn parser_can_be_shared_between_threads() {
    fn shared<T: Send + Sync>(_: &T) {}
    let p = Parser::new("{:d}", true).unwrap();
    shared(&p);
    shared(&Registry::builtin());
    let both = (&p, &p);
    assert_eq!(both.0.findall("1 2 3").len() + both.1.findall("4 5").len(), 5);
}

#[test]
fn parser_reads_many_texts() {
    let p = Parser::new("{key:w}={value:d}", false).unwrap();
    for n in 0..50i64 {
        let text = format!("k{}={}", n, n * n);
        let result = p.parse(&text).unwrap();
        assert_eq!(*result.named::<i64>("value").unwrap(), n * n);
        assert_eq!(*result.named::<String>("key").unwrap(), format!("k{}", n));
    }
}
