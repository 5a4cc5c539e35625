use todo_list::numfmt::i16_to_string;
use todo_list::numparse::parse_i16;
use todo_list::tokenize::tokenize;

#[test]
fn parse_accepts_what_rust_accepts() {
    assert_eq!(parse_i16("0"), Some(0));
    assert_eq!(parse_i16("123"), Some(123));
    assert_eq!(parse_i16("+123"), Some(123));
    assert_eq!(parse_i16("-123"), Some(-123));
    assert_eq!(parse_i16("32767"), Some(32767));
    assert_eq!(parse_i16("-32768"), Some(-32768));
    assert_eq!(parse_i16("007"), Some(7));
    assert_eq!(parse_i16("-007"), Some(-7));
    assert_eq!(parse_i16("0000000000032767"), Some(32767));
}

#[test]
fn parse_rejects_what_rust_rejects() {
    assert_eq!(parse_i16(""), None);
    assert_eq!(parse_i16("+"), None);
    assert_eq!(parse_i16("-"), None);
    assert_eq!(parse_i16("abc"), None);
    assert_eq!(parse_i16("12a"), None);
    assert_eq!(parse_i16("a12"), None);
    assert_eq!(parse_i16(" 1"), None);
    assert_eq!(parse_i16("1 "), None);
    assert_eq!(parse_i16("32768"), None);
    assert_eq!(parse_i16("-32769"), None);
    assert_eq!(parse_i16("100000"), None);
    assert_eq!(parse_i16("--1"), None);
    assert_eq!(parse_i16("+-1"), None);
    assert_eq!(parse_i16("1.5"), None);
}

#[test]
fn parse_agrees_with_std_on_a_sweep() {
    let samples = [
        "", "0", "-0", "+0", "1", "-1", "32766", "32767", "32768", "-32767", "-32768", "-32769",
        "65536", "99999999999999999999", "007", "x", "4 2", "½", "٣",
    ];
    for s in samples {
        assert_eq!(parse_i16(s), s.parse::<i16>().ok(), "input {:?}", s);
    }
}

#[test]
fn formatting_matches_std() {
    assert_eq!(i16_to_string(0), "0");
    assert_eq!(i16_to_string(7), "7");
    assert_eq!(i16_to_string(-5), "-5");
    assert_eq!(i16_to_string(12345), "12345");
    assert_eq!(i16_to_string(32767), "32767");
    assert_eq!(i16_to_string(-32768), "-32768");
    for n in [0i16, 1, -1, 9, 10, 99, 100, -100, 32767, -32768] {
        assert_eq!(i16_to_string(n), n.to_string());
    }
}

#[test]
fn tokenize_splits_on_whitespace_runs() {
    assert_eq!(tokenize(""), Vec::<String>::new());
    assert_eq!(tokenize("   \t\n  "), Vec::<String>::new());
    assert_eq!(tokenize("one"), vec!["one"]);
    assert_eq!(tokenize("  a  bb\tccc\n"), vec!["a", "bb", "ccc"]);
    assert_eq!(tokenize("add Buy milk"), vec!["add", "Buy", "milk"]);
}

#[test]
fn tokenize_agrees_with_split_whitespace() {
    let samples = [
        "",
        "  ",
        "a b  c",
        "\tadd   Walk the dog \r\n",
        "done\u{a0}1",
        "héllo wörld",
        "list\u{2003}now",
    ];
    for s in samples {
        let expected: Vec<String> = s.split_whitespace().map(|t| t.to_string()).collect();
        assert_eq!(tokenize(s), expected, "input {:?}", s);
    }
}
