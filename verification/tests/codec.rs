use system_properties::parsers_formatters::format_bool;
use system_properties::parsers_formatters::format_bool_as_int;
use system_properties::parsers_formatters::format_bool_list;
use system_properties::parsers_formatters::format_bool_list_as_int;
use system_properties::parsers_formatters::format_list;
use system_properties::parsers_formatters::format_list_with;
use system_properties::parsers_formatters::parse;
use system_properties::parsers_formatters::parse_bool;
use system_properties::parsers_formatters::parse_bool_list;
use system_properties::parsers_formatters::parse_list;
use system_properties::parsers_formatters::parse_list_with;
use system_properties::parsers_formatters::parse_outcome;

fn keep(s: &str) -> Result<String, String> {
    Ok(s.to_string())
}

#[test]
fn parse_integer() {
    assert_eq!(parse::<i32>("12", "i32"), Ok(12));
    assert_eq!(parse::<i32>("-7", "i32"), Ok(-7));
    assert_eq!(parse::<u8>("255", "u8"), Ok(255));
}

#[test]
fn parse_error_names_text_and_type() {
    assert_eq!(parse::<i32>("1x", "i32"), Err("Can't convert '1x' to 'i32'.".to_string()));
    assert_eq!(parse::<u8>("256", "u8"), Err("Can't convert '256' to 'u8'.".to_string()));
    assert_eq!(parse::<i32>("", "i32"), Err("Can't convert '' to 'i32'.".to_string()));
}

#[test]
fn parse_outcome_of_each_kind() {
    assert_eq!(parse_outcome("5", Some(5i64), "i64"), Ok(5));
    assert_eq!(
        parse_outcome::<i64>("five", None, "i64"),
        Err("Can't convert 'five' to 'i64'.".to_string())
    );
}

#[test]
fn parse_strict_bool() {
    assert_eq!(parse_bool("1"), Ok(true));
    assert_eq!(parse_bool("true"), Ok(true));
    assert_eq!(parse_bool("0"), Ok(false));
    assert_eq!(parse_bool("false"), Ok(false));
    for s in ["yes", "on", "y", "no", "off", "n", "TRUE", "00", "", " 1"] {
        assert_eq!(parse_bool(s), Err(format!("Can't convert '{}' to 'bool'.", s)));
    }
}

#[test]
fn parse_list_escaping() {
    assert_eq!(
        parse_list::<String>("a\\,b,c", "String"),
        Ok(vec!["a,b".to_string(), "c".to_string()])
    );
    assert_eq!(parse_list::<String>("", "String"), Ok(Vec::<String>::new()));
}

#[test]
fn parse_list_backslash_keeps_the_next_character() {
    assert_eq!(parse_list_with("a\\\\b", keep), Ok(vec!["a\\b".to_string()]));
    assert_eq!(parse_list_with("\\a\\b", keep), Ok(vec!["ab".to_string()]));
    assert_eq!(parse_list_with("\\,", keep), Ok(vec![",".to_string()]));
    assert_eq!(parse_list_with("x\\", keep), Ok(vec!["x".to_string()]));
    assert_eq!(parse_list_with("\\", keep), Ok(vec!["".to_string()]));
    assert_eq!(parse_list_with("a\\,,b", keep), Ok(vec!["a,".to_string(), "b".to_string()]));
}

#[test]
fn parse_list_empty_elements() {
    assert_eq!(parse_list_with(",", keep), Ok(vec!["".to_string()]));
    assert_eq!(parse_list_with(",,", keep), Ok(vec!["".to_string(), "".to_string()]));
    assert_eq!(parse_list_with("a,", keep), Ok(vec!["a".to_string()]));
    assert_eq!(parse_list_with(",a", keep), Ok(vec!["".to_string(), "a".to_string()]));
    assert_eq!(
        parse_list_with("a,,b", keep),
        Ok(vec!["a".to_string(), "".to_string(), "b".to_string()])
    );
}

#[test]
fn parse_list_beyond_ascii() {
    assert_eq!(
        parse_list_with("\u{e9}t\u{e9},\u{20ac}\\,\u{1F600}", keep),
        Ok(vec!["\u{e9}t\u{e9}".to_string(), "\u{20ac},\u{1F600}".to_string()])
    );
}

#[test]
fn parse_list_of_integers() {
    assert_eq!(parse_list::<i32>("1,-2,30", "i32"), Ok(vec![1, -2, 30]));
    assert_eq!(parse_list::<i32>("7", "i32"), Ok(vec![7]));
}

#[test]
fn parse_list_stops_at_the_first_bad_element() {
    assert_eq!(
        parse_list::<i32>("1,x,y", "i32"),
        Err("Can't convert 'x' to 'i32'.".to_string())
    );
    assert_eq!(parse_list::<i32>("1,,3", "i32"), Err("Can't convert '' to 'i32'.".to_string()));
    assert_eq!(
        parse_list::<i32>("1\\,2", "i32"),
        Err("Can't convert '1,2' to 'i32'.".to_string())
    );
}

#[test]
fn parse_list_with_calls_the_parser_in_order() {
    let seen = std::cell::RefCell::new(Vec::new());
    let r = parse_list_with("a,b,stop,c", |t: &str| {
        seen.borrow_mut().push(t.to_string());
        if t == "stop" {
            Err("stopped".to_string())
        } else {
            Ok(t.len())
        }
    });
    assert_eq!(r, Err("stopped".to_string()));
    assert_eq!(*seen.borrow(), vec!["a".to_string(), "b".to_string(), "stop".to_string()]);
}

#[test]
fn parse_bool_lists() {
    assert_eq!(parse_bool_list("true,false,1,0"), Ok(vec![true, false, true, false]));
    assert_eq!(parse_bool_list(""), Ok(Vec::new()));
    assert_eq!(parse_bool_list("1,"), Ok(vec![true]));
    assert_eq!(
        parse_bool_list("1,yes,nope"),
        Err("Can't convert 'yes' to 'bool'.".to_string())
    );
    assert_eq!(parse_bool_list(","), Err("Can't convert '' to 'bool'.".to_string()));
}

#[test]
fn format_values() {
    assert_eq!(system_properties::parsers_formatters::format(&42), "42");
    assert_eq!(system_properties::parsers_formatters::format(&-3i64), "-3");
    assert_eq!(system_properties::parsers_formatters::format(&"text"), "text");
    assert_eq!(system_properties::parsers_formatters::format(&"a,b".to_string()), "a,b");
    assert_eq!(format_bool(&true), "true");
    assert_eq!(format_bool(&false), "false");
    assert_eq!(format_bool_as_int(&true), "1");
    assert_eq!(format_bool_as_int(&false), "0");
}

#[test]
fn format_lists() {
    assert_eq!(format_list(&[1, 2, 3]), "1,2,3");
    assert_eq!(format_list(&[-5]), "-5");
    assert_eq!(format_list::<i32>(&[]), "");
    assert_eq!(format_bool_list(&[true, false, true]), "true,false,true");
    assert_eq!(format_bool_list(&[]), "");
    assert_eq!(format_bool_list_as_int(&[true, false, false]), "1,0,0");
    assert_eq!(format_bool_list_as_int(&[false]), "0");
    assert_eq!(format_list_with(&[1u8, 2u8], |v: &u8| format!("<{}>", v)), "<1>,<2>");
}

#[test]
fn format_list_does_not_escape() {
    let v = vec!["a,b".to_string(), "c".to_string()];
    let text = format_list(&v);
    assert_eq!(text, "a,b,c");
    assert_eq!(
        parse_list::<String>(&text, "String"),
        Ok(vec!["a".to_string(), "b".to_string(), "c".to_string()])
    );
}

#[test]
fn format_list_of_empty_texts() {
    assert_eq!(format_list(&["", ""]), ",");
    assert_eq!(format_list(&[""]), "");
    assert_eq!(format_list(&["a", ""]), "a,");
}

#[test]
fn round_trip_integers() {
    let lists: Vec<Vec<i32>> = vec![
        vec![],
        vec![0],
        vec![1, 2, 3],
        vec![i32::MIN, -1, 0, 1, i32::MAX],
        vec![7, 7, 7, 7],
    ];
    for v in lists {
        assert_eq!(parse_list::<i32>(&format_list(&v), "i32"), Ok(v));
    }
}

#[test]
fn round_trip_booleans() {
    let lists: Vec<Vec<bool>> =
        vec![vec![], vec![true], vec![false], vec![true, false, false, true]];
    for v in lists {
        assert_eq!(parse_bool_list(&format_bool_list(&v)), Ok(v.clone()));
        assert_eq!(parse_bool_list(&format_bool_list_as_int(&v)), Ok(v));
    }
}

#[test]
fn round_trip_plain_texts() {
    let v = vec!["".to_string(), "a b".to_string(), "x".to_string()];
    assert_eq!(parse_list::<String>(&format_list(&v), "String"), Ok(v));
}
