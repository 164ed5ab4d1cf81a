use text_to_speech::client::GoogleTranslateClient;
use text_to_speech::decimal::decimal;
use text_to_speech::request::SynthesizeTextRequest;
use text_to_speech::urlencoded::percent_encode;

const ENDPOINT: &str = "https://translate.google.fr/translate_tts";

fn query_of(text: &str, language: &str) -> String {
    let client = GoogleTranslateClient::new(language.to_owned());
    let url = client.build_url(text).unwrap();
    let (base, query) = url.split_once('?').unwrap();
    assert_eq!(base, ENDPOINT);
    query.to_owned()
}

fn read_back(query: &str) -> Vec<(String, String)> {
    serde_urlencoded::from_str::<Vec<(String, String)>>(query).unwrap()
}

fn pair(name: &str, value: &str) -> (String, String) {
    (name.to_owned(), value.to_owned())
}

#[test]
fn url_of_hello_world() {
    let client = GoogleTranslateClient::new(String::from("en-US"));
    let url = client.build_url("Hello, world!").unwrap();
    assert_eq!(
        url,
        "https://translate.google.fr/translate_tts?ie=UTF-8&q=Hello%2C%20world%21&tl=en-US&total=1&idx=0&textlen=13&client=tw-ob"
    );
    assert!(url.contains("q=Hello%2C%20world%21&tl=en-US"));
    assert!(url.contains("textlen=13"));
}

#[test]
fn new_client_points_at_the_endpoint() {
    let client = GoogleTranslateClient::new(String::from("fr-FR"));
    assert_eq!(client.base_url, ENDPOINT);
    assert_eq!(client.language, "fr-FR");
}

#[test]
fn url_begins_with_the_client_base() {
    let client = GoogleTranslateClient {
        base_url: String::from("http://127.0.0.1:8080/translate_tts"),
        language: String::from("de"),
    };
    assert_eq!(
        client.build_url("ja").unwrap(),
        "http://127.0.0.1:8080/translate_tts?ie=UTF-8&q=ja&tl=de&total=1&idx=0&textlen=2&client=tw-ob"
    );
}

#[test]
fn fields_come_in_wire_order() {
    let query = query_of("abc", "en");
    let names: Vec<String> = read_back(&query).into_iter().map(|p| p.0).collect();
    assert_eq!(names, vec!["ie", "q", "tl", "total", "idx", "textlen", "client"]);
}

#[test]
fn query_reads_back_ascii_whitespace_and_multibyte() {
    let texts = [
        "Hello, world!",
        "tabs\tand\nnew lines  and spaces",
        "h\u{e9}llo w\u{f6}rld",
        "\u{65e5}\u{672c}\u{8a9e} \u{1f600} mixed with ascii",
        "a+b=c&d%20e?f#g/h",
        "*-._~",
        "",
        " ",
    ];
    for text in texts {
        let fields = read_back(&query_of(text, "en-US"));
        assert_eq!(fields.len(), 7);
        assert_eq!(fields[1], pair("q", text));
        assert_eq!(fields[5].0, "textlen");
        assert_eq!(fields[5].1.parse::<usize>().unwrap(), text.len());
    }
}

#[test]
fn textlen_counts_bytes_not_characters() {
    let text = "h\u{e9}llo";
    assert_eq!(text.chars().count(), 5);
    let query = query_of(text, "fr");
    assert_eq!(query, "ie=UTF-8&q=h%C3%A9llo&tl=fr&total=1&idx=0&textlen=6&client=tw-ob");
    let emoji = "\u{1f600}";
    assert_eq!(
        query_of(emoji, "en"),
        "ie=UTF-8&q=%F0%9F%98%80&tl=en&total=1&idx=0&textlen=4&client=tw-ob"
    );
}

#[test]
fn fixed_fields_stand_in_every_query() {
    let inputs = [
        ("Hello, world!", "en-US"),
        ("", ""),
        ("ie=UTF-8&total=7&idx=9&client=x", "tl"),
        ("\u{65e5}\u{672c}\u{8a9e}", "ja"),
    ];
    for (text, language) in inputs {
        let query = query_of(text, language);
        assert!(query.starts_with("ie=UTF-8&q="));
        assert!(query.contains("&total=1&idx=0&textlen="));
        assert!(query.ends_with("&client=tw-ob"));
        let fields = read_back(&query);
        assert_eq!(fields[0], pair("ie", "UTF-8"));
        assert_eq!(fields[2], pair("tl", language));
        assert_eq!(fields[3], pair("total", "1"));
        assert_eq!(fields[4], pair("idx", "0"));
        assert_eq!(fields[6], pair("client", "tw-ob"));
    }
}

#[test]
fn same_inputs_give_the_same_url() {
    let first = GoogleTranslateClient::new(String::from("en-US"));
    let second = GoogleTranslateClient::new(String::from("en-US"));
    let text = "Hello, w\u{f6}rld! 1 + 1 = 2";
    let a = first.build_url(text).unwrap();
    let b = first.build_url(text).unwrap();
    let c = second.build_url(text).unwrap();
    assert_eq!(a.as_bytes(), b.as_bytes());
    assert_eq!(a.as_bytes(), c.as_bytes());
}

#[test]
fn empty_text_has_length_zero() {
    assert_eq!(query_of("", "en"), "ie=UTF-8&q=&tl=en&total=1&idx=0&textlen=0&client=tw-ob");
}

#[test]
fn space_is_escaped_and_plus_is_not_a_space() {
    assert_eq!(
        query_of("a b+c", "en"),
        "ie=UTF-8&q=a%20b%2Bc&tl=en&total=1&idx=0&textlen=5&client=tw-ob"
    );
}

#[test]
fn plain_bytes_stay_and_all_others_are_escaped_in_upper_case() {
    assert_eq!(
        query_of("AZaz09*-._~/:\u{ff}", "en"),
        "ie=UTF-8&q=AZaz09*-._%7E%2F%3A%C3%BF&tl=en&total=1&idx=0&textlen=15&client=tw-ob"
    );
}

#[test]
fn language_is_escaped_like_the_text() {
    assert_eq!(
        query_of("x", "zh CN&x"),
        "ie=UTF-8&q=x&tl=zh%20CN%26x&total=1&idx=0&textlen=1&client=tw-ob"
    );
}

/// Percent notation written by hand: a plain byte as itself, any other byte
/// as `%` and two hexadecimal digits in upper case.
fn by_hand(text: &str) -> String {
    let mut out = String::new();
    for b in text.bytes() {
        let plain = b.is_ascii_alphanumeric() || b == b'*' || b == b'-' || b == b'.' || b == b'_';
        if plain {
            out.push(char::from(b));
        } else {
            out.push_str(&format!("%{:02X}", b));
        }
    }
    out
}

#[test]
fn every_character_is_written_byte_by_byte() {
    let mut block = String::new();
    for code in 0u32..=0x10ffff {
        if let Some(c) = char::from_u32(code) {
            block.push(c);
        }
        if block.len() >= 4096 || code == 0x10ffff {
            let written = percent_encode(&vec![(block.clone(), block.clone())]).unwrap();
            let expected = by_hand(&block);
            assert_eq!(written, format!("{}={}", expected, expected));
            block.clear();
        }
    }
}

#[test]
fn every_ascii_character_reads_back() {
    for code in 0u8..128 {
        let text = String::from(char::from(code));
        let fields = read_back(&query_of(&text, &text));
        assert_eq!(fields[1], pair("q", &text));
        assert_eq!(fields[2], pair("tl", &text));
        assert_eq!(fields[5], pair("textlen", "1"));
    }
}

#[test]
fn percent_encode_joins_pairs() {
    assert_eq!(percent_encode(&vec![]).unwrap(), "");
    assert_eq!(percent_encode(&vec![pair("a", "1")]).unwrap(), "a=1");
    assert_eq!(percent_encode(&vec![pair("", "")]).unwrap(), "=");
    assert_eq!(
        percent_encode(&vec![pair("a b", "c d"), pair("e", "f&g"), pair("h=", "+")]).unwrap(),
        "a%20b=c%20d&e=f%26g&h%3D=%2B"
    );
}

#[test]
fn request_holds_its_fields() {
    let request = SynthesizeTextRequest::new("h\u{e9}llo", "fr-FR");
    assert_eq!(request.input_encoding(), "UTF-8");
    assert_eq!(request.query(), "h\u{e9}llo");
    assert_eq!(request.target_language(), "fr-FR");
    assert_eq!(request.total(), 1);
    assert_eq!(request.idx(), 0);
    assert_eq!(request.textlen(), 6);
    assert_eq!(request.client(), "tw-ob");
}

#[test]
fn request_pairs_and_query() {
    let request = SynthesizeTextRequest::new("a b", "en");
    assert_eq!(
        request.to_pairs(),
        vec![
            pair("ie", "UTF-8"),
            pair("q", "a b"),
            pair("tl", "en"),
            pair("total", "1"),
            pair("idx", "0"),
            pair("textlen", "3"),
            pair("client", "tw-ob"),
        ]
    );
    assert_eq!(
        request.to_query().unwrap(),
        "ie=UTF-8&q=a%20b&tl=en&total=1&idx=0&textlen=3&client=tw-ob"
    );
}

#[test]
fn decimal_of_numbers() {
    assert_eq!(decimal(0), "0");
    assert_eq!(decimal(7), "7");
    assert_eq!(decimal(10), "10");
    assert_eq!(decimal(13), "13");
    assert_eq!(decimal(1005), "1005");
    assert_eq!(decimal(u64::MAX), "18446744073709551615");
}
