use hoyolink::cookie::{decompose, CookieError};

#[test]
fn full_cookie_decomposes() {
    let raw = "ltuid=123456; ltoken=v2token; cookie_token=ctok; account_id=123456; mi18nLang=de-de";
    let c = decompose(raw).unwrap();
    assert_eq!(c.ltuid, "123456");
    assert_eq!(c.ltoken, "v2token");
    assert_eq!(c.cookie_token, "ctok");
    assert_eq!(c.account_id, "123456");
    assert_eq!(c.lang, "de-de");
}

#[test]
fn locale_defaults_when_absent() {
    let raw = "ltuid=1; ltoken=t; cookie_token=c; account_id=1";
    let c = decompose(raw).unwrap();
    assert_eq!(c.lang, "en-us");
}

#[test]
fn surrounding_spaces_are_trimmed() {
    let raw = "  ltuid=1 ;ltoken=t;   cookie_token=c ; account_id=9  ";
    let c = decompose(raw).unwrap();
    assert_eq!(c.ltuid, "1");
    assert_eq!(c.account_id, "9");
}

#[test]
fn fragments_without_equals_are_skipped() {
    let raw = "junk; ltuid=1; ; ltoken=t; cookie_token=c; account_id=1";
    let c = decompose(raw).unwrap();
    assert_eq!(c.ltuid, "1");
}

#[test]
fn first_occurrence_of_a_key_wins() {
    let raw = "ltuid=1; ltuid=2; ltoken=t; cookie_token=c; account_id=1";
    let c = decompose(raw).unwrap();
    assert_eq!(c.ltuid, "1");
}

#[test]
fn value_keeps_later_equals_signs() {
    let raw = "ltuid=1; ltoken=a=b=c; cookie_token=c; account_id=1";
    let c = decompose(raw).unwrap();
    assert_eq!(c.ltoken, "a=b=c");
}

#[test]
fn missing_ltuid_is_reported_first() {
    let raw = "ltoken=t";
    assert_eq!(decompose(raw), Err(CookieError::MissingLtuid));
}

#[test]
fn missing_ltoken_is_reported() {
    let raw = "ltuid=1; cookie_token=c; account_id=1";
    assert_eq!(decompose(raw), Err(CookieError::MissingLtoken));
}

#[test]
fn missing_cookie_token_is_reported() {
    let raw = "ltuid=1; ltoken=t; account_id=1";
    assert_eq!(decompose(raw), Err(CookieError::MissingCookieToken));
}

#[test]
fn missing_account_id_is_reported() {
    let raw = "ltuid=1; ltoken=t; cookie_token=c";
    assert_eq!(decompose(raw), Err(CookieError::MissingAccountId));
}

#[test]
fn non_ascii_text_is_rejected() {
    let raw = "ltuid=1; ltoken=t\u{00e9}; cookie_token=c; account_id=1";
    assert_eq!(decompose(raw), Err(CookieError::NotAscii));
}

#[test]
fn empty_text_is_rejected() {
    assert_eq!(decompose(""), Err(CookieError::MissingLtuid));
}
