use calendar_transform::model::Error;
use calendar_transform::params::{decode_param, fri_export_url, get_params};

fn pairs(v: &[(&str, &str)]) -> Vec<(String, String)> {
    v.iter().map(|(a, b)| (a.to_string(), b.to_string())).collect()
}

fn message(r: Result<(String, String, String), Error>) -> String {
    match r {
        Err(Error::RustError(m)) => m,
        Ok(_) => panic!("expected an error"),
    }
}

#[test]
fn params_with_default_preset_what() {
    let r = get_params(&pairs(&[("userid", "69696"), ("authtoken", "tok")])).ok().unwrap();
    assert_eq!(r, ("69696".to_string(), "tok".to_string(), "all".to_string()));
}

#[test]
fn params_read_preset_what() {
    let r = get_params(&pairs(&[("userid", "1"), ("authtoken", "t"), ("preset_what", "upcoming")]))
        .ok()
        .unwrap();
    assert_eq!(r, ("1".to_string(), "t".to_string(), "upcoming".to_string()));
}

#[test]
fn params_first_occurrence_counts() {
    let r = get_params(&pairs(&[
        ("preset_what", "courses"),
        ("userid", "1"),
        ("authtoken", "a"),
        ("userid", "2"),
        ("preset_what", "user"),
    ]))
    .ok()
    .unwrap();
    assert_eq!(r, ("1".to_string(), "a".to_string(), "courses".to_string()));
}

#[test]
fn params_missing_user_or_token() {
    assert_eq!(message(get_params(&pairs(&[("authtoken", "a")]))), "userid missing");
    assert_eq!(message(get_params(&pairs(&[("userid", "1")]))), "authtoken missing");
    assert_eq!(message(get_params(&pairs(&[]))), "userid missing");
}

#[test]
fn fri_address() {
    assert_eq!(
        fri_export_url("69696", "longtokendata", "all", "custom"),
        "https://ucilnica.fri.uni-lj.si/calendar/export_execute.php?userid=69696&authtoken=longtokendata&preset_what=all&preset_time=custom"
    );
}

#[test]
fn decode_base64_address() {
    let encoded = "aHR0cHM6Ly9leGFtcGxlLmNvbS9jYWwuaWNz";
    assert_eq!(decode_param(encoded).ok().unwrap(), "https://example.com/cal.ics");
}

#[test]
fn decode_refuses_bad_base64_and_bad_utf8() {
    match decode_param("not base64!") {
        Err(Error::RustError(m)) => assert_eq!(m, base64::decode("not base64!").unwrap_err().to_string()),
        Ok(_) => panic!("expected an error"),
    }
    match decode_param("/w==") {
        Err(Error::RustError(m)) => assert_eq!(m, "invalid utf-8 sequence of 1 bytes from index 0"),
        Ok(_) => panic!("expected an error"),
    }
}
