use intl_pluralrules::{PluralCategory as Category, PluralRuleType, PluralRules};
use unic_langid::LanguageIdentifier;
use yharnam::utils::{
    consume_whitespace, expand_format_functions, expect_character, expect_id, expect_string,
    get_plural_case_str, parse_format_functions, FormatError, FormatFunctionKind, PluralCategory,
    PluralRuleKind,
};

fn category(rules: &PluralRules, value: &str) -> PluralCategory {
    let number: f64 = value.parse().unwrap();
    match rules.select(number).unwrap() {
        Category::ZERO => PluralCategory::Zero,
        Category::ONE => PluralCategory::One,
        Category::TWO => PluralCategory::Two,
        Category::FEW => PluralCategory::Few,
        Category::MANY => PluralCategory::Many,
        Category::OTHER => PluralCategory::Other,
    }
}

fn expand(input: &str, locale_code: &str) -> String {
    let (_, functions) = parse_format_functions(input).unwrap();
    let langid: LanguageIdentifier = locale_code.parse().unwrap();
    let ordinal_rules = PluralRules::create(langid.clone(), PluralRuleType::ORDINAL).unwrap();
    let cardinal_rules = PluralRules::create(langid, PluralRuleType::CARDINAL).unwrap();
    let categories: Vec<PluralCategory> = functions
        .iter()
        .map(|function| match function.kind.rules() {
            None => PluralCategory::Other,
            Some(PluralRuleKind::Cardinal) => category(&cardinal_rules, &function.value),
            Some(PluralRuleKind::Ordinal) => category(&ordinal_rules, &function.value),
        })
        .collect();
    expand_format_functions(input, &categories).unwrap()
}

fn chars(text: &str) -> Vec<char> {
    text.chars().collect()
}

#[test]
fn plural_picks_the_text_of_the_category() {
    let line = "there {are} [plural \"1\" one=\"is %\" other=\"are %\"] apple".replacen("{are}", "", 1);
    assert_eq!(expand(&line, "en"), "there  is 1 apple");
    assert_eq!(
        expand("there [plural \"1\" one=\"is %\" other=\"are %\"] apple", "en"),
        "there is 1 apple"
    );
    assert_eq!(
        expand("there [plural \"3\" one=\"is % apple\" other=\"are % apples\"]", "en"),
        "there are 3 apples"
    );
}

#[test]
fn select_picks_the_text_of_the_value() {
    assert_eq!(expand("[select \"blue\" red=\"R\" blue=\"B\"]", "en"), "B");
}

#[test]
fn ordinal_picks_the_text_of_the_category() {
    let line = "[ordinal \"2\" one=\"%st\" two=\"%nd\" few=\"%rd\" other=\"%th\"] place";
    assert_eq!(expand(line, "en"), "2nd place");
    let line = "[ordinal \"11\" one=\"%st\" two=\"%nd\" few=\"%rd\" other=\"%th\"]";
    assert_eq!(expand(line, "en"), "11th");
}

#[test]
fn missing_key_leaves_a_note() {
    assert_eq!(expand("[select \"green\" red=\"R\"]", "en"), "<no replacement for green>");
    assert_eq!(expand("[plural \"5\" one=\"x\"]", "en"), "<no replacement for other>");
}

#[test]
fn parse_leaves_placeholders_in_the_line() {
    let (line, functions) =
        parse_format_functions("a [select \"1\" x=\"y\"] b [plural \"2\" one = \"z\" ] c").unwrap();
    assert_eq!(line, "a {0} b {1} c");
    assert_eq!(functions.len(), 2);
    assert_eq!(functions[0].kind, FormatFunctionKind::Select);
    assert_eq!(functions[0].value, "1");
    assert_eq!(functions[0].data.get("x").unwrap(), "y");
    assert_eq!(functions[1].kind, FormatFunctionKind::Plural);
    assert_eq!(functions[1].data.get("one").unwrap(), "z");
    assert_eq!(functions[1].data.len(), 1);
}

#[test]
fn strings_take_escapes_and_placeholders() {
    let (line, functions) =
        parse_format_functions("[select \"a\" a=\"\\\"q\\\" \\\\ \\% % \\n\"]").unwrap();
    assert_eq!(line, "{0}");
    assert_eq!(functions[0].data.get("a").unwrap(), "\"q\" \\ % <VALUE PLACEHOLDER> ");
    assert_eq!(
        functions[0].replacement(PluralCategory::Other),
        "\"q\" \\ % a "
    );
    assert_eq!(expand("[select \"v\" v=\"%-%\"]", "en"), "v-v");
}

#[test]
fn placeholders_of_a_replacement_are_filled_in_turn() {
    let categories = vec![PluralCategory::Other, PluralCategory::One];
    assert_eq!(
        expand_format_functions("[select \"a\" a=\"{1}\"][plural \"1\" one=\"x\"]", &categories)
            .unwrap(),
        "x{1}"
    );
}

#[test]
fn eleven_functions_have_two_digit_placeholders() {
    let mut input = String::new();
    for i in 0..11 {
        input.push_str(&format!("[select \"k\" k=\"{}\"]", i));
    }
    let (line, _) = parse_format_functions(&input).unwrap();
    assert_eq!(line, "{0}{1}{2}{3}{4}{5}{6}{7}{8}{9}{10}");
    assert_eq!(expand(&input, "en"), "012345678910");
}

#[test]
fn format_errors_name_what_is_wrong() {
    assert!(matches!(
        parse_format_functions("[bogus \"1\"]"),
        Err(FormatError::InvalidFunction(name)) if name == "bogus"
    ));
    assert!(matches!(parse_format_functions("[select"), Err(FormatError::UnexpectedEnd)));
    assert!(matches!(parse_format_functions("["), Err(FormatError::UnexpectedEnd)));
    assert!(matches!(parse_format_functions("[1]"), Err(FormatError::ExpectedIdentifier)));
    assert!(matches!(parse_format_functions("[select x]"), Err(FormatError::ExpectedString)));
    assert!(matches!(
        parse_format_functions("[select \"a\" k \"v\"]"),
        Err(FormatError::ExpectedCharacter('='))
    ));
    assert!(matches!(
        parse_format_functions("[select \"a\" k=\"v\" k=\"w\"]"),
        Err(FormatError::DuplicateKey(key)) if key == "k"
    ));
    assert!(matches!(
        parse_format_functions("[select \"a\" k=\"v"),
        Err(FormatError::UnexpectedEnd)
    ));
    assert!(matches!(
        parse_format_functions("[select \"a\" k=\"v\\"),
        Err(FormatError::UnexpectedEnd)
    ));
    assert!(matches!(
        expand_format_functions("[select \"a\" a=\"b\"]", &Vec::new()),
        Err(FormatError::MissingCategory)
    ));
    assert_eq!(expand_format_functions("plain ] text", &Vec::new()).unwrap(), "plain ] text");
}

#[test]
fn readers_return_what_they_read_and_where_they_stopped() {
    let text = chars("  name_1 = \"va\\\\lue\" ]");
    let (id, end) = expect_id(&text, 0).unwrap();
    assert_eq!((id.as_str(), end), ("name_1", 8));
    let end = expect_character(&text, end, '=').unwrap();
    assert_eq!(end, 10);
    let (string, end) = expect_string(&text, end).unwrap();
    assert_eq!((string.as_str(), end), ("va\\lue", 20));
    assert_eq!(consume_whitespace(&text, end, false).unwrap(), 21);
    assert!(matches!(consume_whitespace(&text, 22, false), Err(FormatError::UnexpectedEnd)));
    assert_eq!(consume_whitespace(&text, 22, true).unwrap(), 22);
    assert!(matches!(expect_character(&text, 21, ')'), Err(FormatError::ExpectedCharacter(')'))));
    assert!(matches!(expect_id(&chars(" \u{e9}"), 0), Err(FormatError::ExpectedIdentifier)));
}

#[test]
fn plural_case_names() {
    assert_eq!(get_plural_case_str(PluralCategory::Zero), "zero");
    assert_eq!(get_plural_case_str(PluralCategory::One), "one");
    assert_eq!(get_plural_case_str(PluralCategory::Two), "two");
    assert_eq!(get_plural_case_str(PluralCategory::Few), "few");
    assert_eq!(get_plural_case_str(PluralCategory::Many), "many");
    assert_eq!(get_plural_case_str(PluralCategory::Other), "other");
    assert_eq!(FormatFunctionKind::default(), FormatFunctionKind::Select);
    assert_eq!(FormatFunctionKind::Select.rules(), None);
    assert_eq!(FormatFunctionKind::Plural.rules(), Some(PluralRuleKind::Cardinal));
    assert_eq!(FormatFunctionKind::Ordinal.rules(), Some(PluralRuleKind::Ordinal));
}
