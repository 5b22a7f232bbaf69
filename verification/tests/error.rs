use modrepo::error::{
    RespError, WrapRespErr, BAD_REQUEST, INTERNAL_SERVER_ERROR, UNAUTHORIZED,
};

#[test]
fn status_codes() {
    assert_eq!(BAD_REQUEST, 400);
    assert_eq!(UNAUTHORIZED, 401);
    assert_eq!(INTERNAL_SERVER_ERROR, 500);
}

#[test]
fn success_is_kept() {
    let step: Result<u32, String> = Ok(7);
    assert_eq!(step.wrap_resp_err(INTERNAL_SERVER_ERROR, "failed"), Ok(7));
}

#[test]
fn failure_gets_status_and_message() {
    let step: Result<u32, String> = Err("socket closed".to_string());
    assert_eq!(
        step.wrap_resp_err(BAD_REQUEST, "failed to authorize"),
        Err((
            RespError { status: 400, message: "failed to authorize".to_string() },
            "socket closed".to_string()
        ))
    );
    let copy = RespError::new(UNAUTHORIZED, "no").clone();
    assert_eq!(copy, RespError { status: 401, message: "no".to_string() });
}

#[test]
fn cause_of_a_failure_stays_reachable() {
    let step: Result<(), std::num::ParseIntError> = "x".parse::<u8>().map(|_| ());
    let cause = "x".parse::<u8>().unwrap_err();
    let (told, kept) = step.wrap_resp_err(INTERNAL_SERVER_ERROR, "failed to read").unwrap_err();
    assert_eq!(told, RespError { status: 500, message: "failed to read".to_string() });
    assert_eq!(kept, cause);
    assert_eq!(kept.to_string(), "invalid digit found in string");
}
