use service_core::access_token::get_jwt_secret_key;
use service_core::exchange::{add_one, OrderSide};
use service_core::handler_token;
use service_core::roles::{check_user_role_is_allowed, CustomError, Role};

#[test]
fn lib_it_works() {
    assert_eq!(3, add_one(2));
    let result = 2 + 2;
    assert_eq!(result, 4);
}

#[test]
fn auth_it_works() {
    let key = "0123".repeat(8);
    let token = handler_token::create_jwt(
        "master splinter".to_string(),
        key.as_bytes(),
        handler_token::DEFAULT_SUBJECT.to_string(),
        handler_token::DEFAULT_HOURS,
    );
    println!("{:?}", token.is_ok());
    let result = 2 + 2;
    assert_eq!(result, 4);
}

#[test]
fn add_one_counts_up() {
    assert_eq!(add_one(-1), 0);
    assert_eq!(add_one(41), 42);
}

#[test]
fn order_side_names() {
    assert_eq!(OrderSide::from_string("bid"), Some(OrderSide::Bid));
    assert_eq!(OrderSide::from_string("ask"), Some(OrderSide::Ask));
    assert_eq!(OrderSide::from_string("Bid"), None);
    assert_eq!(OrderSide::from_string(""), None);
}

#[test]
fn secret_key_is_the_configured_one() {
    assert_eq!(get_jwt_secret_key("s3cret"), "s3cret");
}

#[test]
fn role_ids_round_trip() {
    for role in [Role::Master, Role::Admin, Role::User] {
        let id = role.to_i32();
        assert_eq!(Role::from_i32(id).ok(), Some(role));
    }
    assert_eq!(Role::Master.to_i32(), 1);
    assert_eq!(Role::Admin.to_i32(), 2);
    assert_eq!(Role::User.to_i32(), 3);
}

#[test]
fn unknown_role_id_is_refused() {
    let e = Role::from_i32(7).err().unwrap();
    assert_eq!(e.message, "Invalid role id");
}

#[test]
fn role_names_round_trip() {
    for role in [Role::Master, Role::Admin, Role::User] {
        let name = role.to_string();
        assert_eq!(Role::from_str(&name).ok(), Some(role));
    }
    assert_eq!(Role::Admin.to_string(), "ADMIN");
}

#[test]
fn role_names_are_case_sensitive() {
    let e = Role::from_str("admin").err().unwrap();
    assert_eq!(e.message, "Matching variant not found");
}

#[test]
fn custom_error_display() {
    let e = CustomError::from_message("boom");
    assert_eq!(e.to_display_string(), "Custom Error: boom");
}

#[test]
fn role_check_allows_only_the_exact_role() {
    assert!(check_user_role_is_allowed(&Ok(Some(Role::Admin)), &Role::Admin).is_ok());
    let e = check_user_role_is_allowed(&Ok(Some(Role::Master)), &Role::Admin).err().unwrap();
    assert_eq!(e.message, "Forbidden");
    let e = check_user_role_is_allowed(&Ok(None), &Role::User).err().unwrap();
    assert_eq!(e.message, "Forbidden");
}

#[test]
fn role_check_reports_lookup_failures() {
    let lookup = Err(CustomError::from_message("bad header"));
    let e = check_user_role_is_allowed(&lookup, &Role::User).err().unwrap();
    assert_eq!(e.message, "Error while getting a user's role: bad header");
}
