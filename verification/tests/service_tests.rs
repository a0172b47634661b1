use service_core::access_token::TokenError;
use service_core::admission::{admit_decoded, Admission};
use service_core::login::{login_result, LoginEvidence};
use service_core::text::trimmed;
use service_core::accounts::{self, get_random_message, signin_step, NewUser, SigninStep, User, UserChange, UserResponse};
use service_core::candles::{candle_start_of, CandleBook, TradeOutcome};
use service_core::chat::{bang_list, visitors_text, ChatAction, ChatEvent, Heartbeat, WsChatSession};
use service_core::login::{
    first_password_failure, invitation_id, invitation_outcome, login_plan, password_verdict, LoginPlan, StoredCredentials,
};
use service_core::media::{download_reply, upload_reply};
use service_core::passwords::{hash_password, verify_password};
use service_core::rituals::{require_identity, Invitation, SlimUser};
use service_core::session_token::ServiceError;
use service_core::user_input::{RegisterUser, UpdateUser};
use service_core::validation::ApiError;

const REFUSALS: [&str; 5] = [
    "Invalid credentials. Please try again.",
    "Login failed. Please check your email and password.",
    "Nope, that's not it. Try again.",
    "Access Denied!",
    "Hmmm...did you mistype something?",
];

fn texts(actions: &[ChatAction]) -> Vec<String> {
    actions
        .iter()
        .map(|a| match a {
            ChatAction::Stop => "stop".to_string(),
            ChatAction::RefreshHeartbeat => "hb".to_string(),
            ChatAction::Pong(p) => format!("pong {:?}", p),
            ChatAction::BroadcastAsteroid => "asteroid".to_string(),
            ChatAction::HandleGameMessages(m) => format!("game {}", m),
            ChatAction::ListRooms => "list".to_string(),
            ChatAction::SendToRoom(m) => format!("room {}", m),
            ChatAction::JoinRoom(r) => format!("join {}", r),
            ChatAction::Reply(m) => format!("reply {}", m),
            ChatAction::Close => "close".to_string(),
        })
        .collect()
}

fn sample_user() -> User {
    let t = chrono::DateTime::from_timestamp(0, 0).unwrap().naive_utc();
    User {
        id: 9,
        role_id: 3,
        username: "kim".to_string(),
        first_name: "Kim".to_string(),
        last_name: "Lee".to_string(),
        email: "kim@x.io".to_string(),
        email_verified: true,
        hash: "h".to_string(),
        created_at: t,
        updated_at: t,
    }
}

#[test]
fn candle_starts_round_toward_zero() {
    assert_eq!(candle_start_of(0), 0);
    assert_eq!(candle_start_of(59), 0);
    assert_eq!(candle_start_of(60), 60);
    assert_eq!(candle_start_of(1_700_000_123), 1_700_000_100);
    assert_eq!(candle_start_of(-1), 0);
    assert_eq!(candle_start_of(-61), -60);
    assert_eq!(candle_start_of(i64::MIN), -9_223_372_036_854_775_800);
    assert_eq!(candle_start_of(i64::MAX), 9_223_372_036_854_775_800);
}

#[test]
fn candle_book_counts_each_trade_once() {
    let mut book = CandleBook::new();
    assert!(matches!(
        book.record_trade(125, 1, true),
        TradeOutcome::Recorded { start: 120, opened: true, finished: None }
    ));
    assert!(matches!(
        book.record_trade(130, 2, false),
        TradeOutcome::Recorded { start: 120, opened: false, finished: None }
    ));
    assert!(matches!(book.record_trade(131, 1, false), TradeOutcome::Duplicate));
    let c = book.tally(120).unwrap();
    assert_eq!(c.buy_count, 1);
    assert_eq!(c.sell_count, 1);
    assert_eq!(c.trades, vec![1, 2]);
    assert_eq!(book.len(), 1);
}

#[test]
fn a_new_candle_finishes_the_previous_one() {
    let mut book = CandleBook::new();
    book.record_trade(10, 1, true);
    assert!(matches!(
        book.record_trade(70, 1, true),
        TradeOutcome::Recorded { start: 60, opened: true, finished: Some(0) }
    ));
    assert!(matches!(
        book.record_trade(200, 2, false),
        TradeOutcome::Recorded { start: 180, opened: true, finished: Some(60) }
    ));
    assert!(matches!(
        book.record_trade(130, 3, false),
        TradeOutcome::Recorded { start: 120, opened: true, finished: Some(120) }
    ));
    assert_eq!(book.len(), 4);
}

#[test]
fn chat_commands() {
    let mut s = WsChatSession::new(4);
    assert_eq!(s.room, "Main");
    assert_eq!(texts(&s.handle(ChatEvent::Text("  hello ".to_string()))), vec!["room hello"]);
    assert!(s.handle(ChatEvent::Text("/name neo".to_string())).is_empty());
    assert_eq!(s.name.as_deref(), Some("neo"));
    assert_eq!(texts(&s.handle(ChatEvent::Text("hi".to_string()))), vec!["room neo: hi"]);
    assert_eq!(texts(&s.handle(ChatEvent::Text("/join lobby".to_string()))), vec!["join lobby", "reply joined"]);
    assert_eq!(s.room, "lobby");
    assert_eq!(texts(&s.handle(ChatEvent::Text("/join".to_string()))), vec!["reply !!! room name is required"]);
    assert_eq!(texts(&s.handle(ChatEvent::Text("/name".to_string()))), vec!["reply !!! name is required"]);
    assert_eq!(texts(&s.handle(ChatEvent::Text("/list".to_string()))), vec!["list"]);
    assert_eq!(texts(&s.handle(ChatEvent::Text("/messages [1]".to_string()))), vec!["game [1]"]);
    assert_eq!(
        texts(&s.handle(ChatEvent::Text("/dance now".to_string()))),
        vec!["reply !!! unknown command: \"/dance now\""]
    );
    assert_eq!(s.id, 4);
}

#[test]
fn chat_frames() {
    let mut s = WsChatSession::new(1);
    assert_eq!(texts(&s.handle(ChatEvent::Ping(vec![1, 2]))), vec!["hb", "pong [1, 2]"]);
    assert_eq!(texts(&s.handle(ChatEvent::Pong)), vec!["hb", "asteroid"]);
    assert!(s.handle(ChatEvent::Binary).is_empty());
    assert!(s.handle(ChatEvent::Nop).is_empty());
    assert_eq!(texts(&s.handle(ChatEvent::Close)), vec!["close"]);
    assert_eq!(texts(&s.handle(ChatEvent::Continuation)), vec!["stop"]);
    assert_eq!(texts(&s.handle(ChatEvent::ProtocolError)), vec!["stop"]);
}

#[test]
fn chat_registration_and_heartbeat() {
    let mut s = WsChatSession::new(0);
    assert!(!s.connected(Some(17)));
    assert_eq!(s.id, 17);
    assert!(s.connected(None));
    assert_eq!(s.id, 17);
    assert_eq!(s.heartbeat(3, 0), Heartbeat::Ping);
    assert_eq!(s.heartbeat(10, 0), Heartbeat::Ping);
    assert_eq!(s.heartbeat(10, 1), Heartbeat::Disconnect(17));
    assert_eq!(s.heartbeat(11, 0), Heartbeat::Disconnect(17));
}

#[test]
fn chat_texts() {
    assert_eq!(bang_list(None), "bang list World!");
    assert_eq!(bang_list(Some("moon")), "bang list moon!");
    assert_eq!(visitors_text(0), "Visitors: 0");
    assert_eq!(visitors_text(1234), "Visitors: 1234");
}

#[test]
fn media_replies() {
    assert_eq!(upload_reply(7), "upload 7");
    assert_eq!(download_reply(4294967295), "download 4294967295");
}

#[test]
fn password_hash_then_verify() {
    let h = hash_password("pa55word").unwrap();
    assert!(h.starts_with("$argon2id$"));
    assert!(verify_password(&h, "pa55word").is_ok());
    assert!(verify_password(&h, "pa55worD").is_err());
    assert!(verify_password("not a hash", "pa55word").is_err());
    let h2 = hash_password("pa55word").unwrap();
    assert_ne!(h, h2);
}

#[test]
fn sign_in_plans() {
    let master = StoredCredentials { email: "boss@x.io".to_string(), hash: "".to_string() };
    assert_eq!(login_plan(Some(&master), "boss@x.io"), LoginPlan::SetFirstPassword);
    assert_eq!(login_plan(Some(&master), "other@x.io"), LoginPlan::CheckPassword);
    let user = StoredCredentials { email: "boss@x.io".to_string(), hash: "$argon".to_string() };
    assert_eq!(login_plan(Some(&user), "boss@x.io"), LoginPlan::CheckPassword);
    assert_eq!(login_plan(None, "boss@x.io"), LoginPlan::Refuse);
    assert!(password_verdict(Ok(true)).is_ok());
    assert!(matches!(password_verdict(Ok(false)), Err(ServiceError::Unauthorized)));
    assert!(matches!(password_verdict(Err(ServiceError::InternalServerError)), Err(ServiceError::Unauthorized)));
    assert!(matches!(first_password_failure("db down".to_string()), ServiceError::BadRequest(ref m) if m == "db down"));
}

#[test]
fn invitations_expire() {
    assert!(invitation_outcome(Some((100, 0)), (99, 999)).is_ok());
    assert!(invitation_outcome(Some((100, 5)), (100, 4)).is_ok());
    assert!(matches!(invitation_outcome(Some((100, 5)), (100, 5)), Err(ServiceError::BadRequest(ref m)) if m == "Invalid Invitation"));
    assert!(matches!(invitation_outcome(None, (0, 0)), Err(ServiceError::BadRequest(ref m)) if m == "Invalid Invitation"));
}

#[test]
fn rituals_need_an_identity() {
    assert_eq!(require_identity(Some("{\"email\":\"a\"}".to_string())).ok(), Some("{\"email\":\"a\"}".to_string()));
    assert!(matches!(require_identity(None), Err(ServiceError::Unauthorized)));
    let inv = Invitation::from_email("z@x.io".to_string());
    assert_eq!(inv.email, "z@x.io");
    let later = chrono::Local::now().naive_local() + chrono::Duration::hours(23);
    assert!(inv.expires_at > later);
    let u = service_core::rituals::User::from_details("q@x.io".to_string(), "hash".to_string());
    assert_eq!(u.hash, "hash");
    assert_eq!(SlimUser::from_user(u).email, "q@x.io");
}

#[test]
fn sign_in_steps() {
    for _ in 0..20 {
        match signin_step(false, true, true, true, false) {
            SigninStep::Refuse(ApiError::Unauthorized(m)) => assert!(REFUSALS.contains(&m.as_str())),
            _ => panic!("an unknown address is refused"),
        }
        assert!(REFUSALS.contains(&get_random_message().as_str()));
    }
    assert!(matches!(signin_step(true, false, true, true, false), SigninStep::Refuse(ApiError::InternalServerError)));
    assert!(matches!(signin_step(true, true, false, true, true), SigninStep::Refuse(ApiError::Unauthorized(_))));
    assert!(matches!(signin_step(true, true, true, false, true), SigninStep::Refuse(ApiError::Unauthorized(ref m)) if m == "email not verified"));
    assert!(matches!(signin_step(true, true, true, true, true), SigninStep::Rehash));
    assert!(matches!(signin_step(true, true, true, true, false), SigninStep::Accept));
}

#[test]
fn account_answers() {
    let u = sample_user();
    let r = u.non_token_response();
    assert_eq!(r.user.email, "kim@x.io");
    assert!(r.user.token.is_none());
    let r = u.token_response("tok".to_string());
    assert_eq!(r.user.token.as_deref(), Some("tok"));
    assert_eq!(r.user.first_name, "Kim");
    let auth = accounts::Auth { user: sample_user(), token: "t2".to_string() };
    let r = UserResponse::from_auth(auth);
    assert_eq!(r.user.token.as_deref(), Some("t2"));
    assert_eq!(r.user.last_name, "Lee");
}

#[test]
fn new_accounts_are_trimmed_users() {
    let form = RegisterUser {
        username: "  neo ".to_string(),
        email: " n@x.io".to_string(),
        password: "Pw#12345".to_string(),
        first_name: "\tThomas".to_string(),
        last_name: "Anderson\n".to_string(),
    };
    let n = NewUser::from_registration(&form, "phc".to_string());
    assert_eq!(n.username, "neo");
    assert_eq!(n.first_name, "Thomas");
    assert_eq!(n.last_name, "Anderson");
    assert_eq!(n.email, " n@x.io");
    assert_eq!(n.hash, "phc");
    assert_eq!(n.role_id, 3);
}

#[test]
fn account_changes_keep_the_form() {
    let u = UpdateUser {
        username: Some("x".to_string()),
        email: None,
        email_verified: Some(false),
        password: Some("secret99".to_string()),
        first_name: None,
        last_name: Some("Y".to_string()),
    };
    let c = UserChange::from_update(u, Some("phc".to_string()));
    assert_eq!(c.username.as_deref(), Some("x"));
    assert!(c.email.is_none());
    assert_eq!(c.email_verified, Some(false));
    assert_eq!(c.hash.as_deref(), Some("phc"));
    assert_eq!(c.last_name.as_deref(), Some("Y"));
}

#[test]
fn account_changes_hash_exactly_a_given_password() {
    let with = UpdateUser {
        username: None,
        email: Some("e@x.io".to_string()),
        email_verified: None,
        password: Some("n3w-Secret".to_string()),
        first_name: None,
        last_name: None,
    };
    let c = UserChange::from_update_hashing(with).ok().unwrap();
    let h = c.hash.unwrap();
    assert!(verify_password(&h, "n3w-Secret").is_ok());
    assert_eq!(c.email.as_deref(), Some("e@x.io"));
    let without = UpdateUser {
        username: Some("zed".to_string()),
        email: None,
        email_verified: Some(true),
        password: None,
        first_name: None,
        last_name: None,
    };
    let c = UserChange::from_update_hashing(without).ok().unwrap();
    assert!(c.hash.is_none());
    assert_eq!(c.username.as_deref(), Some("zed"));
}

#[test]
fn sign_in_results() {
    assert!(matches!(login_result::<u8>(LoginEvidence::NoAccount), Err(ServiceError::Unauthorized)));
    assert!(matches!(login_result::<u8>(LoginEvidence::HashFailed(ServiceError::InternalServerError)), Err(ServiceError::InternalServerError)));
    assert_eq!(login_result(LoginEvidence::Stored(Ok(5u8))).ok(), Some(5));
    assert!(matches!(login_result::<u8>(LoginEvidence::Stored(Err("dup".to_string()))), Err(ServiceError::BadRequest(ref m)) if m == "dup"));
    assert_eq!(login_result(LoginEvidence::Checked(Ok(true), 7u8)).ok(), Some(7));
    assert!(matches!(login_result(LoginEvidence::Checked(Ok(false), 7u8)), Err(ServiceError::Unauthorized)));
    assert!(matches!(login_result(LoginEvidence::Checked(Err(ServiceError::Unauthorized), 7u8)), Err(ServiceError::Unauthorized)));
}

#[test]
fn decoded_tokens_decide_admission() {
    let t = service_core::session_token::create_jwt(3, "may".to_string(), b"key").ok().unwrap();
    let decoded = service_core::session_token::decode_token(&t, b"key");
    assert_eq!(admit_decoded(false, Some(decoded), "/secret"), Admission::Forward);
    assert_eq!(admit_decoded(false, Some(Err(TokenError::MalformedClaims)), "/secret"), Admission::RedirectToLogin);
    assert_eq!(admit_decoded(false, None, "/secret"), Admission::RedirectToLogin);
    assert_eq!(admit_decoded(false, None, "api/login"), Admission::Forward);
    assert_eq!(admit_decoded(true, None, "/secret"), Admission::Forward);
}

#[test]
fn white_space_is_the_unicode_set() {
    let t: Vec<char> = "\u{85}\u{2028} x y\u{202f}\u{205f}".chars().collect();
    assert_eq!(trimmed(&t).iter().collect::<String>(), "x y");
    let t: Vec<char> = "\u{200b}x".chars().collect();
    assert_eq!(trimmed(&t).iter().collect::<String>(), "\u{200b}x");
}

#[test]
fn invitation_ids_are_uuids() {
    assert_eq!(
        invitation_id("67e55044-10b1-426f-9247-bb680e5fe0c8").ok(),
        Some(0x67e5504410b1426f9247bb680e5fe0c8u128)
    );
    match invitation_id("nope") {
        Err(ServiceError::BadRequest(m)) => assert_eq!(m, "Invalid UUID"),
        _ => panic!("an id that is no UUID is a bad request"),
    }
    assert!(invitation_id("").is_err());
}
