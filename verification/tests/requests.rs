use wrappr::decimal::{parse_decimal, push_decimal};
use wrappr::query::{hex, parse_query, percent_decode, split_target};
use wrappr::text::{eq_ignore_ascii_case, rsplit_once, same_text, split_once, trim};

#[test]
fn targets_are_split() {
    assert_eq!(split_target("/a?b?c"), ("/a".to_string(), "b?c".to_string()));
    assert_eq!(split_target("/a"), ("/a".to_string(), String::new()));
    assert_eq!(split_target("?"), (String::new(), String::new()));
    assert_eq!(split_target("/é?ü"), ("/é".to_string(), "ü".to_string()));
}

#[test]
fn hex_digits_have_values() {
    assert_eq!(hex(b'0'), Some(0));
    assert_eq!(hex(b'9'), Some(9));
    assert_eq!(hex(b'a'), Some(10));
    assert_eq!(hex(b'F'), Some(15));
    assert_eq!(hex(b'g'), None);
    assert_eq!(hex(b'/'), None);
    assert_eq!(hex(b':'), None);
}

#[test]
fn escapes_are_decoded() {
    assert_eq!(percent_decode("a%20b+c"), "a b c");
    assert_eq!(percent_decode("%C3%a9"), "é");
    assert_eq!(percent_decode("%2"), "%2");
    assert_eq!(percent_decode("%41"), "A");
    assert_eq!(percent_decode("%zz%"), "%zz%");
    assert_eq!(percent_decode("%4%41"), "%4A");
}

#[test]
fn bytes_that_are_not_utf8_are_replaced() {
    assert_eq!(percent_decode("a%ffb"), "a\u{fffd}b");
}

#[test]
fn plain_text_is_kept() {
    assert_eq!(percent_decode("skd://itunes-é"), "skd://itunes-é");
}

#[test]
fn any_text_survives_its_escapes() {
    let mut escaped = String::new();
    for b in "50% & más=+?".as_bytes() {
        escaped.push_str(&format!("%{:02X}", b));
    }
    let params = parse_query(&format!("k={}", escaped));
    assert_eq!(params.get("k").map(|v| v.as_str()), Some("50% & más=+?"));
}

#[test]
fn queries_are_read() {
    let params = parse_query("a=1&&b&c=x=y&a=2&=z");
    assert_eq!(params.get("a").map(|v| v.as_str()), Some("2"));
    assert_eq!(params.get("b").map(|v| v.as_str()), Some(""));
    assert_eq!(params.get("c").map(|v| v.as_str()), Some("x=y"));
    assert_eq!(params.get("").map(|v| v.as_str()), Some("z"));
    assert!(params.get("d").is_none());
}

#[test]
fn empty_queries_have_no_parameters() {
    assert!(parse_query("").get("").is_none());
    assert!(parse_query("&&").get("").is_none());
}

#[test]
fn texts_are_split_at_a_character() {
    assert_eq!(split_once("é=ü=ö", '='), Some(("é", "ü=ö")));
    assert_eq!(rsplit_once("é=ü=ö", '='), Some(("é=ü", "ö")));
    assert_eq!(split_once("abc", '='), None);
    assert_eq!(rsplit_once("abc", '='), None);
}

#[test]
fn white_space_is_trimmed() {
    assert_eq!(trim(" \t200\r\n"), "200");
    assert_eq!(trim("\u{a0}\u{2003}é x\u{3000}"), "é x");
    assert_eq!(trim(" \n "), "");
    for code in 0..0x3100u32 {
        if let Some(c) = char::from_u32(code) {
            let text = format!("{c}x{c}");
            assert_eq!(trim(&text), text.trim());
        }
    }
}

#[test]
fn texts_are_compared() {
    assert!(same_text("é", "é"));
    assert!(!same_text("é", "e"));
    assert!(!same_text("ab", "abc"));
    assert!(eq_ignore_ascii_case("Content-Length", "content-length"));
    assert!(!eq_ignore_ascii_case("É", "é"));
    assert!(!eq_ignore_ascii_case("content-type", "content_type"));
}

#[test]
fn decimals_are_read() {
    assert_eq!(parse_decimal("65535", 65535), Some(65535));
    assert_eq!(parse_decimal("65536", 65535), None);
    assert_eq!(parse_decimal("+007", 65535), Some(7));
    assert_eq!(parse_decimal("+", 65535), None);
    assert_eq!(parse_decimal("", 65535), None);
    assert_eq!(parse_decimal("-1", 65535), None);
    assert_eq!(parse_decimal("1x", 65535), None);
    assert_eq!(parse_decimal("18446744073709551615", u64::MAX), Some(u64::MAX));
    assert_eq!(parse_decimal("18446744073709551616", u64::MAX), None);
}

#[test]
fn decimals_are_written_and_read_back() {
    for n in [0u64, 9, 10, 502, 65535, u64::MAX] {
        let mut text = String::new();
        push_decimal(&mut text, n);
        assert_eq!(text, n.to_string());
        assert_eq!(parse_decimal(&text, u64::MAX), Some(n));
    }
}

#[test]
fn small_letters_escape_as_capitals_do() {
    assert_eq!(percent_decode("%c3%A9%2f%2F"), "é//");
}

#[test]
fn plus_signs_are_spaces() {
    assert_eq!(percent_decode("+a++é&="), " a  é&=");
}

#[test]
fn text_behind_text_without_percent_signs_decodes_by_itself() {
    let backs = ["", "%41", "%", "%4", "1", "%ff%C3", "%A9", "%e2%82", "%F0%9F%98%80x", "+%2B"];
    for front in ["", "+", "ab", "é", "4", "\u{1f600}"] {
        for back in backs {
            let whole = percent_decode(&format!("{front}{back}"));
            assert_eq!(whole, percent_decode(front) + &percent_decode(back));
        }
    }
}

#[test]
fn bytes_behind_utf8_are_replaced_by_themselves() {
    let bytes = [0x00u8, 0x41, 0x7f, 0x80, 0xa0, 0xbf, 0xc1, 0xc3, 0xe0, 0xed, 0xef, 0xf0, 0xf4, 0xff];
    for front in ["", "a", "é", "€", "\u{10ffff}"] {
        for a in bytes {
            for b in bytes {
                for c in bytes {
                    let back = format!("%{a:02x}%{b:02x}%{c:02X}");
                    let whole = percent_decode(&format!("{front}{back}"));
                    assert_eq!(whole, format!("{front}{}", percent_decode(&back)));
                }
            }
        }
    }
}

#[test]
fn paths_and_queries_are_parted_again() {
    assert_eq!(split_target("/p?a=b?c"), ("/p".to_string(), "a=b?c".to_string()));
    assert_eq!(split_target("/p?"), ("/p".to_string(), String::new()));
}

#[test]
fn later_queries_overrule() {
    let params = parse_query("a=1&b=2&&b=3&c=4");
    assert_eq!(params.get("a").map(|v| v.as_str()), Some("1"));
    assert_eq!(params.get("b").map(|v| v.as_str()), Some("3"));
    assert_eq!(params.get("c").map(|v| v.as_str()), Some("4"));
}

fn escaped(bytes: &[u8]) -> String {
    bytes.iter().map(|b| format!("%{b:02X}")).collect()
}

#[test]
fn each_broken_row_of_bytes_is_replaced_once() {
    assert_eq!(percent_decode("%ff%ff"), "\u{fffd}\u{fffd}");
    assert_eq!(percent_decode("%e2%82x"), "\u{fffd}x");
    assert_eq!(percent_decode("%f0%9f%98"), "\u{fffd}");
    assert_eq!(percent_decode("%c3é"), "\u{fffd}é");
    let tricky = [0x41u8, 0x80, 0x8f, 0x9f, 0xa0, 0xbf, 0xc1, 0xc3, 0xe0, 0xe2, 0xed, 0xf0, 0xf4, 0xf5];
    for a in tricky {
        for b in tricky {
            for c in tricky {
                for d in tricky {
                    let bytes = [a, b, c, d];
                    let error = match std::str::from_utf8(&bytes) {
                        Ok(text) => {
                            assert_eq!(percent_decode(&escaped(&bytes)), text);
                            continue;
                        }
                        Err(error) => error,
                    };
                    let k = error.valid_up_to();
                    let front = std::str::from_utf8(&bytes[..k]).unwrap();
                    let text = percent_decode(&escaped(&bytes));
                    assert!((1..=3).any(|n| k + n <= bytes.len()
                        && bytes[k + 1..k + n].iter().all(|x| (0x80..=0xbf).contains(x))
                        && text == format!("{front}\u{fffd}{}", percent_decode(&escaped(&bytes[k + n..])))));
                }
            }
        }
    }
}

#[test]
fn decoded_text_is_no_longer() {
    for text in ["", "%", "%ff%fe%fd", "é%c3é", "+%2b+", "%f0%9f%98%80", "%e2%82é%ffa%"] {
        assert!(percent_decode(text).len() <= text.len());
    }
    assert_eq!(percent_decode("%ff%fe").len(), 6);
}
