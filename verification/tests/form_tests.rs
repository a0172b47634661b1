use service_core::accounts::{validate_role, Role, RoleGuard, UpdateUserRole};
use service_core::accounts::{authenticate_token, Token};
use service_core::directory;
use service_core::user_input::{
    validate_email_exists, validate_unique_email, validate_unique_username, validate_username_exists,
};
use service_core::user_input::{
    validate_password, ForgotPassword, LoginUser, RegisterUser, UpdateUser, WEAK_PASSWORD_MESSAGE,
};
use service_core::validation::{
    validation_errors_to_error, ApiError, DbFailure, ErrorExtension, FieldError, FieldErrors, JwtFailureKind,
};

fn entries(r: &[FieldErrors]) -> Vec<(String, Vec<(String, Option<String>)>)> {
    r.iter()
        .map(|f| {
            (
                f.field.clone(),
                f.errors.iter().map(|e| (e.code.clone(), e.message.clone())).collect(),
            )
        })
        .collect()
}

fn err(code: &str, message: Option<&str>) -> (String, Option<String>) {
    (code.to_string(), message.map(|m| m.to_string()))
}

fn good_registration() -> RegisterUser {
    RegisterUser {
        username: "mira".to_string(),
        email: "mira@example.com".to_string(),
        password: "Secret#123".to_string(),
        first_name: "Mira".to_string(),
        last_name: "Lane".to_string(),
    }
}

#[test]
fn password_strength() {
    assert!(validate_password("Abcdef1!").is_ok());
    let e = validate_password("abcdef1!").err().unwrap();
    assert_eq!(e.code, "invalid_password");
    assert!(e.message.is_none());
    assert!(validate_password("ABCDEF1!").is_err());
    assert!(validate_password("Abcdefg!").is_err());
    assert!(validate_password("Abcdefg1").is_err());
    assert!(validate_password("Äbcdef1!").is_ok());
}

#[test]
fn a_good_registration_passes() {
    assert!(good_registration().validate(false, false).is_empty());
}

#[test]
fn registration_reports_each_failed_field_in_order() {
    let form = RegisterUser {
        username: "mi".to_string(),
        email: "not-an-address".to_string(),
        password: "short".to_string(),
        first_name: "".to_string(),
        last_name: "Lane".to_string(),
    };
    let r = form.validate(true, false);
    assert_eq!(
        entries(&r),
        vec![
            (
                "username".to_string(),
                vec![
                    err("length", Some("must be at least 3 characters")),
                    err("invalid_username", Some("username already taken")),
                ]
            ),
            ("email".to_string(), vec![err("email", Some("not a valid email address"))]),
            (
                "password".to_string(),
                vec![
                    err("length", Some("must be 8-72 characters")),
                    err("invalid_password", Some(WEAK_PASSWORD_MESSAGE)),
                ]
            ),
            ("first_name".to_string(), vec![err("length", Some("cannot be empty"))]),
        ]
    );
}

#[test]
fn registration_lengths_count_characters() {
    let mut form = good_registration();
    form.username = "äöü".to_string();
    assert!(form.validate(false, false).is_empty());
    form.password = "Aa1!".repeat(18);
    assert!(form.validate(false, false).is_empty());
    form.password = format!("{}x", "Aa1!".repeat(18));
    let r = form.validate(false, true);
    assert_eq!(
        entries(&r),
        vec![
            ("email".to_string(), vec![err("invalid_email", Some("email already registered"))]),
            ("password".to_string(), vec![err("length", Some("must be 8-72 characters"))]),
        ]
    );
}

#[test]
fn login_and_reset_forms() {
    let ok = LoginUser { email: "a@b.org".to_string(), password: "x".to_string() };
    assert!(ok.validate().is_empty());
    let bad = LoginUser { email: "a.b.org".to_string(), password: "x".to_string() };
    assert_eq!(
        entries(&bad.validate()),
        vec![("email".to_string(), vec![err("email", Some("not a valid email address"))])]
    );
    let reset = ForgotPassword { email: "a@b.org".to_string() };
    assert!(reset.validate(true).is_empty());
    assert_eq!(
        entries(&reset.validate(false)),
        vec![(
            "email".to_string(),
            vec![err("invalid_email", Some("no account matches this email address"))]
        )]
    );
}

#[test]
fn update_form_checks_only_given_fields() {
    let none = UpdateUser {
        username: None,
        email: None,
        email_verified: None,
        password: None,
        first_name: None,
        last_name: None,
    };
    assert!(none.validate(true).is_empty());
    let some = UpdateUser {
        username: Some("ab".to_string()),
        email: Some("nope".to_string()),
        email_verified: Some(true),
        password: Some("1234567".to_string()),
        first_name: Some("".to_string()),
        last_name: Some("L".to_string()),
    };
    assert_eq!(
        entries(&some.validate(false)),
        vec![
            ("username".to_string(), vec![err("length", Some("must be at least 3 characters long"))]),
            ("email".to_string(), vec![err("email", None)]),
            ("password".to_string(), vec![err("length", Some("must be 8-72 characters long"))]),
            ("first_name".to_string(), vec![err("length", Some("cannot be empty"))]),
        ]
    );
}

#[test]
fn role_requests() {
    assert!(validate_role("admin").is_ok());
    assert!(validate_role("User").is_ok());
    assert!(validate_role("MASTER").is_ok());
    let e = validate_role("owner").err().unwrap();
    assert_eq!(e.code, "invalid_role");
    let form = UpdateUserRole { username: "x".to_string(), role: "admin".to_string() };
    assert!(form.validate(true).is_empty());
    assert_eq!(form.requested_role_id(), 2);
    let bad = UpdateUserRole { username: "x".to_string(), role: "root".to_string() };
    assert_eq!(
        entries(&bad.validate(false)),
        vec![
            ("username".to_string(), vec![err("invalid_username", Some("user not found"))]),
            ("role".to_string(), vec![err("invalid_role", Some("param must be 'admin' or 'user'"))]),
        ]
    );
}

#[test]
fn account_roles() {
    assert_eq!(Role::from_i32(1), Role::Master);
    assert_eq!(Role::from_i32(2), Role::Admin);
    assert_eq!(Role::from_i32(3), Role::User);
    assert_eq!(Role::from_i32(99), Role::User);
    for r in [Role::Master, Role::Admin, Role::User] {
        assert_eq!(Role::from_i32(r.to_i32()), r);
        assert_eq!(Role::from_str(&r.to_string()), Some(r));
    }
}

#[test]
fn role_guard_names_the_required_role() {
    let g = RoleGuard::new(Role::Admin);
    assert!(g.check(2).is_ok());
    assert_eq!(g.check(3), Err("user role is not: ADMIN".to_string()));
    let u = RoleGuard::new(Role::User);
    assert!(u.check(42).is_ok());
}

#[test]
fn directory_guard_and_form() {
    let g = directory::RoleGuard::new(service_core::roles::Role::Admin);
    assert_eq!(g.check(None), Err("Forbidden".to_string()));
    assert!(g.check(Some(&Ok(Some(service_core::roles::Role::Admin)))).is_ok());
    assert_eq!(g.check(Some(&Ok(Some(service_core::roles::Role::User)))), Err("Forbidden".to_string()));
    let f = directory::RegisterUser {
        username: "al".to_string(),
        email: "al@x.io".to_string(),
        password: "weakpassword".to_string(),
    };
    assert_eq!(
        entries(&f.validate()),
        vec![("username".to_string(), vec![err("length", Some("must be at least 3 characters"))])]
    );
}

#[test]
fn directory_users_from_entities() {
    let e = service_core::directory_model::UserEntity {
        id: 5,
        role_id: 2,
        username: "u".to_string(),
        first_name: "F".to_string(),
        last_name: "L".to_string(),
        email: "e@x".to_string(),
        email_verified: true,
        hash: "h".to_string(),
    };
    let u = directory::User::from_entity(&e);
    assert_eq!(u.role, Role::Admin);
    assert_eq!(u.username, "u");
    let e7 = service_core::directory_model::UserEntity { role_id: 7, ..e };
    assert_eq!(directory::User::from_entity(&e7).role, Role::User);
}

#[test]
fn validation_report_joins_messages() {
    let errors = vec![
        FieldErrors {
            field: "username".to_string(),
            errors: vec![
                FieldError { code: "length".to_string(), message: Some("too short".to_string()) },
                FieldError { code: "x".to_string(), message: None },
                FieldError { code: "taken".to_string(), message: Some("taken".to_string()) },
            ],
        },
        FieldErrors {
            field: "email".to_string(),
            errors: vec![FieldError { code: "email".to_string(), message: None }],
        },
    ];
    match validation_errors_to_error(&errors) {
        ApiError::ValidationErrors(v) => {
            assert_eq!(v.len(), 2);
            assert_eq!(v[0].message, "too short, taken");
            assert_eq!(v[0].key, "username");
            assert_eq!(v[1].message, "");
            assert_eq!(v[1].key, "email");
        }
        _ => panic!("expected a validation report"),
    }
}

#[test]
fn token_refusals_are_unauthorized() {
    assert!(matches!(ApiError::from_jwt_kind(JwtFailureKind::InvalidToken), ApiError::Unauthorized(ref m) if m == "Token is invalid"));
    assert!(matches!(ApiError::from_jwt_kind(JwtFailureKind::InvalidIssuer), ApiError::Unauthorized(ref m) if m == "Issuer is invalid"));
    assert!(matches!(ApiError::from_jwt_kind(JwtFailureKind::Other), ApiError::Unauthorized(ref m) if m == "An issue was found with the token provided"));
    let e = jsonwebtoken::decode::<serde_json::Value>(
        "abc",
        &jsonwebtoken::DecodingKey::from_secret(b"k"),
        &jsonwebtoken::Validation::default(),
    )
    .err()
    .unwrap();
    assert!(matches!(ApiError::from_jwt_error(&e), ApiError::Unauthorized(ref m) if m == "Token is invalid"));
}

#[test]
fn database_failures_are_reported() {
    let with_details = DbFailure::UniqueViolation { details: Some("dup key".to_string()), message: "m".to_string() };
    assert!(matches!(ApiError::from_db_failure(with_details), ApiError::UnprocessableEntity(ref b) if b.error == "dup key"));
    let without = DbFailure::UniqueViolation { details: None, message: "m".to_string() };
    assert!(matches!(ApiError::from_db_failure(without), ApiError::UnprocessableEntity(ref b) if b.error == "m"));
    assert!(matches!(ApiError::from_db_failure(DbFailure::NotFound), ApiError::NotFound(ref b) if b.error == "requested record was not found"));
    assert!(matches!(ApiError::from_db_failure(DbFailure::OtherDatabaseError), ApiError::InternalServerError));
    assert!(matches!(ApiError::from_db_failure(DbFailure::Other), ApiError::InternalServerError));
}

#[test]
fn error_extensions() {
    let e = ApiError::InternalServerError;
    assert!(matches!(e.extension(), ErrorExtension::Code(ref c) if c == "NOT_FOUND"));
    let v = ApiError::ValidationErrors(vec![service_core::validation::ValidationError {
        message: "m".to_string(),
        key: "k".to_string(),
    }]);
    match v.extension() {
        ErrorExtension::Errors(w) => {
            assert_eq!(w.len(), 1);
            assert_eq!(w[0].message, "m");
            assert_eq!(w[0].key, "k");
        }
        _ => panic!("expected the report entries"),
    }
}

#[test]
fn lookup_checks() {
    assert!(validate_unique_username(false).is_ok());
    assert_eq!(validate_unique_username(true).err().unwrap().code, "invalid_username");
    assert!(validate_unique_email(false).is_ok());
    assert_eq!(validate_unique_email(true).err().unwrap().code, "invalid_email");
    assert!(validate_email_exists(true).is_ok());
    assert_eq!(validate_email_exists(false).err().unwrap().code, "invalid_email");
    assert!(validate_username_exists(true).is_ok());
    assert_eq!(validate_username_exists(false).err().unwrap().code, "invalid_username");
}

#[test]
fn requests_need_a_token() {
    let t = Token("abc".to_string());
    assert_eq!(authenticate_token(Some(&t)).ok().unwrap().token, "abc");
    assert!(matches!(authenticate_token(None), Err(ApiError::Unauthorized(ref m)) if m == "no authorization was provided"));
}

#[test]
fn forms_go_on_only_without_failed_checks() {
    use_report(Vec::new(), true);
    let failed = vec![FieldErrors {
        field: "email".to_string(),
        errors: vec![FieldError { code: "email".to_string(), message: Some("bad".to_string()) }],
    }];
    use_report(failed, false);
}

fn use_report(report: Vec<FieldErrors>, passes: bool) {
    match service_core::validation::check_report(&report) {
        Ok(()) => assert!(passes),
        Err(ApiError::ValidationErrors(v)) => {
            assert!(!passes);
            assert_eq!(v[0].message, "bad");
            assert_eq!(v[0].key, "email");
        }
        Err(_) => panic!("a failed form is answered with its report"),
    }
}
