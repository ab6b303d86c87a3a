use daily_bird::auth::{CheckToken, CredentialSource, Denied, UNAUTHORIZED};

#[test]
fn the_right_header_is_let_through() {
    let check = CheckToken::new("s3cret");
    assert_eq!(check.validate(Some(&"Token s3cret".to_string())), Ok(()));
}

#[test]
fn the_right_query_token_is_let_through() {
    let check = CheckToken::new("s3cret");
    assert_eq!(check.validate_query("s3cret"), Ok(()));
}

#[test]
fn any_other_header_is_refused() {
    let check = CheckToken::new("s3cret");
    let refused = Err(Denied { status: 401 });
    assert_eq!(UNAUTHORIZED, 401);
    assert_eq!(check.validate(None), refused);
    assert_eq!(check.validate(Some(&"".to_string())), refused);
    assert_eq!(check.validate(Some(&"s3cret".to_string())), refused);
    assert_eq!(check.validate(Some(&"Token S3CRET".to_string())), refused);
    assert_eq!(check.validate(Some(&"token s3cret".to_string())), refused);
    assert_eq!(check.validate(Some(&"Token s3cret ".to_string())), refused);
    assert_eq!(check.validate(Some(&"Token s3cre".to_string())), refused);
    assert_eq!(check.validate(Some(&"Bearer s3cret".to_string())), refused);
}

#[test]
fn any_other_query_token_is_refused() {
    let check = CheckToken::new("s3cret");
    let refused = Err(Denied { status: 401 });
    assert_eq!(check.validate_query(""), refused);
    assert_eq!(check.validate_query("S3cret"), refused);
    assert_eq!(check.validate_query("s3cret "), refused);
    assert_eq!(check.validate_query("Token s3cret"), refused);
}

#[test]
fn an_empty_secret_admits_only_the_empty_token() {
    let check = CheckToken::new("");
    assert_eq!(check.validate_query(""), Ok(()));
    assert_eq!(check.validate(Some(&"Token ".to_string())), Ok(()));
    assert_eq!(check.validate(Some(&"Token".to_string())), Err(Denied { status: 401 }));
}

#[test]
fn a_cloned_check_decides_alike() {
    let check = CheckToken::new("abc");
    let copy = check.clone();
    assert_eq!(copy, check);
    assert_eq!(copy.validate_query("abc"), Ok(()));
    assert_eq!(copy.validate_query("abd"), Err(Denied { status: 401 }));
}

#[test]
fn the_credential_is_read_where_the_deployment_says() {
    let check = CheckToken::new("s3cret");
    let header = "Token s3cret".to_string();
    let token = "s3cret".to_string();
    let refused = Err(Denied { status: 401 });
    assert_eq!(check.check(CredentialSource::Header, Some(&header)), Ok(()));
    assert_eq!(check.check(CredentialSource::Query, Some(&token)), Ok(()));
    assert_eq!(check.check(CredentialSource::Header, Some(&token)), refused);
    assert_eq!(check.check(CredentialSource::Query, Some(&header)), refused);
    assert_eq!(check.check(CredentialSource::Header, None), refused);
    assert_eq!(check.check(CredentialSource::Query, None), refused);
    assert_eq!(check.check(CredentialSource::Query, Some(&"S3CRET".to_string())), refused);
    assert_eq!(check.check(CredentialSource::Query, Some(&String::new())), refused);
}
