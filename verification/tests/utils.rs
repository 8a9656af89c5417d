use bookmark::error::Error;
use bookmark::utils::i18n::{
    current_lang, default_lang, detect_lang, is_current_lang, parse_accept_language,
    parse_cookie_lang, parse_query_lang, pick_supported, Lang,
};
use bookmark::utils::serde::parse_de_error::format_deserialization_error;
use bookmark::utils::text::{decimal_string, join_decimals, str_eq};
use bookmark::utils::utils::format_date_time;

#[test]
fn supported_languages() {
    assert_eq!(pick_supported("en-US"), Some(Lang::EnUs));
    assert_eq!(pick_supported("zh-CN"), Some(Lang::ZhCn));
    assert_eq!(pick_supported("en-us"), Some(Lang::EnUs));
    assert_eq!(pick_supported("en"), None);
    assert_eq!(pick_supported("fr-FR"), None);
    assert_eq!(pick_supported("not a tag!"), None);
    assert_eq!(default_lang(), Lang::ZhCn);
}

#[test]
fn language_of_the_query() {
    assert_eq!(parse_query_lang("a=1&lang=en-US"), Some(Lang::EnUs));
    assert_eq!(parse_query_lang("lang=fr&lang=en-US"), None);
    assert_eq!(parse_query_lang("lang"), None);
    assert_eq!(parse_query_lang(""), None);
}

#[test]
fn language_of_the_cookie() {
    assert_eq!(parse_cookie_lang("sid=1; lang=en-US"), Some(Lang::EnUs));
    assert_eq!(parse_cookie_lang("  lang=zh-CN  ;x=y"), Some(Lang::ZhCn));
    assert_eq!(parse_cookie_lang("lang = en-US"), None);
}

#[test]
fn language_of_accept_language() {
    assert_eq!(parse_accept_language("fr-FR,en-US;q=0.8,zh-CN;q=0.9"), Some(Lang::EnUs));
    assert_eq!(parse_accept_language(" zh-CN , en-US"), Some(Lang::ZhCn));
    assert_eq!(parse_accept_language("fr, de"), None);
}

#[test]
fn language_detection_order() {
    assert_eq!(detect_lang(Some("lang=en-US"), Some("lang=zh-CN"), Some("zh-CN")), Lang::EnUs);
    assert_eq!(detect_lang(Some("lang=xx"), Some("lang=en-US"), Some("zh-CN")), Lang::EnUs);
    assert_eq!(detect_lang(None, None, Some("fr,en-US")), Lang::EnUs);
    assert_eq!(detect_lang(None, None, None), Lang::ZhCn);
}

#[test]
fn current_language() {
    assert_eq!(current_lang(None), "zh-CN");
    assert_eq!(current_lang(Some(Lang::EnUs)), "en-US");
    assert!(is_current_lang(Lang::EnUs, "en-US"));
    assert!(is_current_lang(Lang::EnUs, "EN"));
    assert!(!is_current_lang(Lang::EnUs, "zh"));
    assert!(is_current_lang(Lang::ZhCn, "zh"));
    assert_eq!(Lang::ZhCn.tag(), "zh-CN");
    assert_eq!(Lang::EnUs.language(), "en");
}

#[test]
fn deserialization_messages() {
    assert_eq!(format_deserialization_error("", "missing field `code` at line 1 column 2", "body"), "need code field");
    assert_eq!(
        format_deserialization_error("name", "invalid type: integer `123`, expected a string at line 1 column 10", "body"),
        "field 'name' must be a string"
    );
    assert_eq!(
        format_deserialization_error(".age", "invalid value: integer `-1`, expected u32", "body"),
        "field 'age' has invalid value, expected u32"
    );
    assert_eq!(
        format_deserialization_error("x", "invalid type: string \"a\", expected an integer", "body"),
        "field 'x' must be a integer"
    );
    assert_eq!(format_deserialization_error("", "duplicate field `a`", "body"), "field 'a' is duplicated");
    assert_eq!(
        format_deserialization_error("", "unknown field `x`, expected one of `a`, `b`", "body"),
        "field 'x' is not allowed"
    );
    assert_eq!(format_deserialization_error(".", "EOF while parsing a value at line 1 column 0", "body"), "invalid body format");
    assert_eq!(format_deserialization_error("", "custom error: bad thing", "query"), "bad thing");
    assert_eq!(
        format_deserialization_error("", "trailing characters at line 1 column 5", "body"),
        "invalid data at 'body': trailing characters"
    );
}

#[test]
fn dates_in_hong_kong() {
    assert_eq!(format_date_time(0), "1970-01-01 08:00:00");
    assert_eq!(format_date_time(1_700_000_000), "2023-11-15 06:13:20");
    assert_eq!(format_date_time(i64::MAX), "");
}

#[test]
fn decimals_and_equality() {
    assert_eq!(decimal_string(-120), "-120");
    assert_eq!(decimal_string(0), "0");
    assert_eq!(decimal_string(i64::MIN), i64::MIN.to_string());
    assert_eq!(join_decimals(&[1, -2, 30], ','), "1,-2,30");
    assert!(str_eq("学习", "学习"));
    assert!(!str_eq("a", "ab"));
}

#[test]
fn errors_answer_with_status_and_message() {
    assert_eq!(Error::internal("boom").status_code(), 500);
    assert_eq!(Error::not_found("x").status_code(), 404);
    assert_eq!(Error::InvalidAuth.status_code(), 401);
    assert_eq!(Error::invalid_permission("no").status_code(), 403);
    assert_eq!(Error::bad_request("b").status_code(), 400);
    assert_eq!(Error::invalid_arg("a").status_code(), 400);
    assert_eq!(Error::Validation("v".to_string()).status_code(), 400);
    assert_eq!(Error::ValidationFields(vec![]).status_code(), 400);
    assert_eq!(Error::InvalidAuth.response_message(), "InvalidAuth");
    assert_eq!(Error::ValidationFields(vec![]).response_message(), "Need more fields");
    assert_eq!(Error::internal("boom").response_message(), "boom");
    assert_eq!(Error::internal("boom").to_message(), "Internal error:boom");
    assert_eq!(Error::not_found("page").to_message(), "Not Found:page");
    assert!(matches!(Error::from_db_error(true), Error::NotFound(m) if m == "row not exists"));
    assert!(matches!(Error::from_db_error(false), Error::Internal(m) if m == "Sqlx Error"));
    assert!(matches!(Error::from_json_error("bad json".to_string()), Error::Internal(m) if m == "bad json"));
}

#[test]
fn position_suffix_is_ignored() {
    for s in ["trailing characters", "missing field `a`", "custom error: x", "expected value"] {
        let with_position = format!("{} at line 3 column 7", s);
        assert_eq!(
            format_deserialization_error("f", &with_position, "body"),
            format_deserialization_error("f", s, "body")
        );
    }
    assert_eq!(
        format_deserialization_error("", "bad at line at line 1", "body"),
        "invalid data at 'body': bad"
    );
}
