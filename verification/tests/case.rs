use heck::{ToKebabCase, ToLowerCamelCase, ToShoutySnakeCase, ToSnakeCase, ToUpperCamelCase};
use usage_derive::case::{
    capitalize, lower, to_kebab, to_kebab_case, to_lower_camel_case, to_shouty_snake_case, to_snake_case,
    to_upper_camel_case, upper, words,
};

/// Every conversion of one input, so a mismatch names the input once rather than five times.
fn ours(s: &str) -> [String; 5] {
    [
        to_kebab_case(s),
        to_snake_case(s),
        to_shouty_snake_case(s),
        to_lower_camel_case(s),
        to_upper_camel_case(s),
    ]
}

fn hecks(s: &str) -> [String; 5] {
    [
        s.to_kebab_case(),
        s.to_snake_case(),
        s.to_shouty_snake_case(),
        s.to_lower_camel_case(),
        s.to_upper_camel_case(),
    ]
}

/// Exhaustive over the state machine rather than sampled: every string up to length four
/// over an alphabet that reaches each transition.
#[test]
fn matches_heck_for_every_short_string() {
    const ALPHABET: [char; 8] = ['a', 'B', 'c', 'D', '0', '_', '-', 'Σ'];
    let mut inputs = vec![String::new()];
    let mut frontier = vec![String::new()];
    for _ in 0..4 {
        let mut next = Vec::with_capacity(frontier.len() * ALPHABET.len());
        for base in &frontier {
            for c in ALPHABET {
                let mut candidate = base.clone();
                candidate.push(c);
                next.push(candidate);
            }
        }
        inputs.extend(next.iter().cloned());
        frontier = next;
    }
    for input in &inputs {
        assert_eq!(ours(input), hecks(input), "input {input:?}");
    }
}

/// The readable half of the pair: the names a declaration actually carries.
#[test]
fn matches_heck_for_realistic_names() {
    for input in [
        "",
        "a",
        "A",
        "T",
        "api_token",
        "type",
        "HTTPServer",
        "XMLHttpRequest",
        "OnePassword",
        "ApiServer",
        "onePassword",
        "ONE_PASSWORD",
        "IPv6Addr",
        "OAuth2Token",
        "PDFReader",
        "AWSConfigFile",
        "Utf8Path",
        "HTTP2Server",
        "Foo2Bar",
        "Foo2bar",
        "S3Bucket",
        "v2",
        "x509",
        "_leading",
        "trailing_",
        "__double__",
        "a__b",
        "already-kebab",
        "API_SERVER",
        "service credential",
        "foo.bar",
        "Ünïcode",
        "XΣXΣ",
        "straße",
    ] {
        assert_eq!(ours(input), hecks(input), "input {input:?}");
    }
}

/// heck's own documented vectors.
#[test]
fn matches_hecks_own_vectors() {
    for input in [
        "CamelCase",
        "This is Human case.",
        "MixedUP CamelCase, with some Spaces",
        "mixed_up snake_case with some _spaces",
        "this-contains_ ALLKinds OfWord_Boundaries",
        "XΣXΣ baﬄe",
        "XMLHttpRequest",
        "ファイルを読み込み",
    ] {
        assert_eq!(ours(input), hecks(input), "input {input:?}");
    }
}

#[test]
fn words_split_an_uppercase_run_before_its_last_letter() {
    assert_eq!(words("XMLHttpRequest"), vec!["XML", "Http", "Request"]);
    assert_eq!(words("HTTPServer"), vec!["HTTP", "Server"]);
}

#[test]
fn digits_stay_with_the_word_on_their_left() {
    assert_eq!(words("Foo2Bar"), vec!["Foo2", "Bar"]);
    assert_eq!(words("Foo2bar"), vec!["Foo2bar"]);
    assert_eq!(words("HTTP2Server"), vec!["HTTP2", "Server"]);
}

#[test]
fn separators_never_make_empty_words() {
    assert_eq!(words("__double__"), vec!["double"]);
    assert_eq!(words("a__b"), vec!["a", "b"]);
    assert!(words("").is_empty());
    assert!(words("-_.").is_empty());
    for w in words("this-contains_ ALLKinds OfWord_Boundaries") {
        assert!(!w.is_empty());
        assert!(w.chars().all(char::is_alphanumeric));
    }
}

#[test]
fn words_keep_every_alphanumeric_in_order() {
    let input = "MixedUP CamelCase, with some Spaces";
    let joined: String = words(input).concat();
    let kept: String = input.chars().filter(|c| c.is_alphanumeric()).collect();
    assert_eq!(joined, kept);
}

#[test]
fn a_word_final_sigma_lowercases_to_final_form() {
    assert_eq!(lower("XΣ"), "xς");
    assert_eq!(lower("ΣX"), "σx");
    assert_eq!(lower("Σ"), "ς");
}

#[test]
fn upper_and_capitalize_change_case_per_char() {
    assert_eq!(upper("straße"), "STRASSE");
    assert_eq!(capitalize("hELLO"), "Hello");
    assert_eq!(capitalize(""), "");
    assert_eq!(capitalize("x"), "X");
}

#[test]
fn each_case_joins_words_its_own_way() {
    assert_eq!(to_kebab_case("HTTPServer"), "http-server");
    assert_eq!(to_snake_case("OAuth2Token"), "o_auth2_token");
    assert_eq!(to_shouty_snake_case("api_token"), "API_TOKEN");
    assert_eq!(to_upper_camel_case("api_token"), "ApiToken");
    assert_eq!(to_lower_camel_case("ONE_PASSWORD"), "onePassword");
}

#[test]
fn the_default_kebab_breaks_before_every_uppercase() {
    assert_eq!(to_kebab("HTTPServer"), "h-t-t-p-server");
    assert_eq!(to_kebab("out_dir"), "out-dir");
    assert_eq!(to_kebab("TaskSettings"), "task-settings");
    assert_eq!(to_kebab_case("HTTPServer"), "http-server");
}

#[test]
fn lower_camel_is_upper_camel_with_first_char_lowered() {
    for s in ["foo_bar", "XMLHttpRequest", "already-kebab", "", "__", "a1b2_c3", "Foo2Bar"] {
        let upper = to_upper_camel_case(s);
        let lowered = match upper.chars().next() {
            Some(c) => c.to_ascii_lowercase().to_string() + &upper[c.len_utf8()..],
            None => String::new(),
        };
        assert_eq!(to_lower_camel_case(s), lowered);
    }
}

#[test]
fn kebab_case_is_idempotent_on_ascii() {
    for s in ["FooBar", "XMLHttpRequest", "foo__bar--baz", "Foo2Bar", "ONE_PASSWORD", "a", "", "--"] {
        let once = to_kebab_case(s);
        assert_eq!(to_kebab_case(&once), once, "{s:?}");
    }
}
