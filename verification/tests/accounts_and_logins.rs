use roxy::account::{Account, AccountDatabase};
use roxy::digest::{generate_token, hash_password};
use roxy::login::{decrypt_field, finish_registration, handle_login, LoginCredentials, LoginOutcome};
use roxy::reply::{Payload, Reply};
use roxy::session::{handle_combo_login, handle_verify_stoken, ComboLoginData, ComboLoginRequest, VerifySTokenRequest};

const PATCH: &str = "Login failed. Your client patch might be unsupported.";
const RELOGIN: &str = "For account safety, please log in again.";
const NOW: u128 = 1_700_000_000_000_000_000;

fn credentials(user: &str, password: &str) -> Option<LoginCredentials> {
    Some(LoginCredentials { account: Ok(user.as_bytes().to_vec()), password: Ok(password.as_bytes().to_vec()) })
}

fn expect_error(reply: &Reply, code: i32, text: &str) {
    match reply {
        Reply::Error { retcode, message } => {
            assert_eq!(*retcode, code);
            assert_eq!(message, text);
        }
        _ => panic!("expected an error answer"),
    }
}

fn expect_login(reply: &Reply, uid: u32, username: &str, token: &str) {
    match reply {
        Reply::Success(Payload::Login(data)) => {
            assert_eq!(data.token.token_type, 1);
            assert_eq!(data.token.token, token);
            assert_eq!(data.user_info.aid, uid.to_string());
            assert_eq!(data.user_info.mid, uid.to_string());
            assert_eq!(data.user_info.email, username);
            assert_eq!(data.user_info.area_code, "**");
            assert_eq!(data.user_info.country, "RU");
            assert_eq!(data.user_info.password_time, "1337");
            assert_eq!(data.user_info.rebind_mobile_time, "228");
            assert!(data.user_info.links.is_empty());
            assert_eq!(data.ext_user_info.birth, "0");
            assert_eq!(data.reactivate_action_ticket, "");
        }
        _ => panic!("expected a login answer"),
    }
}

fn respond(outcome: LoginOutcome) -> Reply {
    match outcome {
        LoginOutcome::Respond(reply) => reply,
        _ => panic!("expected an answer"),
    }
}

fn register(db: &mut AccountDatabase, user: &str, password: &str) -> Account {
    match handle_login(db, credentials(user, password), NOW) {
        LoginOutcome::Registered(account) => account,
        _ => panic!("expected a registration"),
    }
}

#[test]
fn default_database_is_empty_and_starts_uids_at_10000001() {
    let db = AccountDatabase::default();
    assert_eq!(db.len(), 0);
    assert_eq!(db.next_uid(), 10_000_001);
}

#[test]
fn put_replaces_the_account_under_the_same_username() {
    let mut db = AccountDatabase::with_next_uid(5);
    let first = Account { uid: 1, username: "a".into(), password_hash: "h1".into(), token: "t1".into() };
    let second = Account { uid: 2, username: "a".into(), password_hash: "h2".into(), token: "t2".into() };
    db.put("a".into(), first);
    db.put("b".into(), Account { uid: 3, username: "b".into(), password_hash: "h".into(), token: "t".into() });
    db.put("a".into(), second);
    assert_eq!(db.len(), 2);
    assert_eq!(db.find_by_username("a").unwrap().uid, 2);
    assert_eq!(db.find_by_uid(3).unwrap().username, "b");
    assert!(db.find_by_uid(1).is_none());
    assert!(db.find_by_username("c").is_none());
    let (key, account) = db.entry(0);
    assert_eq!(db.find_by_username(key).unwrap().uid, account.uid);
}

#[test]
fn decrypt_field_reports_why_a_field_has_no_text() {
    assert_eq!(decrypt_field(Ok(b"alice".to_vec())), Ok("alice".to_string()));
    assert_eq!(decrypt_field(Err("bad padding".to_string())), Err("RSA decrypt failed: bad padding".to_string()));
    assert_eq!(
        decrypt_field(Ok(vec![0xff])),
        Err("UTF-8 decode failed: invalid utf-8 sequence of 1 bytes from index 0".to_string())
    );
}

#[test]
fn first_login_registers_the_account() {
    let mut db = AccountDatabase::default();
    let account = register(&mut db, "alice", "secret");
    assert_eq!(account.uid, 10_000_001);
    assert_eq!(account.username, "alice");
    assert_eq!(account.password_hash, hash_password("secret"));
    assert_eq!(account.token, generate_token(10_000_001, "alice", NOW));
    assert_eq!(db.next_uid(), 10_000_002);
    assert_eq!(db.len(), 1);
    assert_eq!(db.find_by_username("alice").unwrap().token, account.token);
    expect_login(&finish_registration(&account, true), 10_000_001, "alice", &account.token);
    expect_error(&finish_registration(&account, false), -1, "Failed to save account");
    let bob = register(&mut db, "bob", "secret");
    assert_eq!(bob.uid, 10_000_002);
    assert_eq!(db.next_uid(), 10_000_003);
}

#[test]
fn registered_account_logs_in_with_its_password_only() {
    let mut db = AccountDatabase::default();
    let account = register(&mut db, "alice", "secret");
    let reply = respond(handle_login(&mut db, credentials("alice", "secret"), NOW + 5));
    expect_login(&reply, account.uid, "alice", &account.token);
    let reply = respond(handle_login(&mut db, credentials("alice", "guess"), NOW));
    expect_error(&reply, -101, "Account or password error");
    assert_eq!(db.next_uid(), 10_000_002);
    assert_eq!(db.len(), 1);
}

#[test]
fn login_refusals_leave_the_database_alone() {
    let mut db = AccountDatabase::default();
    expect_error(&respond(handle_login(&mut db, None, NOW)), -1, "Invalid request");
    expect_error(&respond(handle_login(&mut db, credentials("", "x"), NOW)), -101, "Username is empty");
    let long = "x".repeat(65);
    expect_error(&respond(handle_login(&mut db, credentials(&long, "x"), NOW)), -101, "Username is too long");
    let wide = "é".repeat(33);
    expect_error(&respond(handle_login(&mut db, credentials(&wide, "x"), NOW)), -101, "Username is too long");
    let bad_account = Some(LoginCredentials { account: Err("bad".into()), password: Ok(b"x".to_vec()) });
    expect_error(&respond(handle_login(&mut db, bad_account, NOW)), -101, PATCH);
    let bad_password = Some(LoginCredentials { account: Ok(b"alice".to_vec()), password: Ok(vec![0xc3]) });
    expect_error(&respond(handle_login(&mut db, bad_password, NOW)), -101, PATCH);
    assert_eq!(db.len(), 0);
    assert_eq!(db.next_uid(), 10_000_001);
    let exactly_64 = "y".repeat(64);
    let account = register(&mut db, &exactly_64, "x");
    assert_eq!(account.username, exactly_64);
}

#[test]
fn session_token_resumes_a_registered_account() {
    let mut db = AccountDatabase::default();
    let account = register(&mut db, "alice", "secret");
    let request = VerifySTokenRequest { mid: account.uid.to_string(), stoken: account.token.clone() };
    expect_login(&handle_verify_stoken(&db, Some(request)), account.uid, "alice", &account.token);
}

#[test]
fn session_token_refusals() {
    let mut db = AccountDatabase::default();
    let account = register(&mut db, "alice", "secret");
    expect_error(&handle_verify_stoken(&db, None), -1, "Invalid request");
    for (mid, token) in [("abc", account.token.as_str()), ("10000002", account.token.as_str()), ("10000001", "wrong")] {
        let request = VerifySTokenRequest { mid: mid.into(), stoken: token.into() };
        expect_error(&handle_verify_stoken(&db, Some(request)), -101, RELOGIN);
    }
}

fn combo_request() -> Option<ComboLoginRequest> {
    Some(ComboLoginRequest { data: String::new(), app_id: 1, channel_id: 1, device: "pc".into(), sign: "s".into() })
}

#[test]
fn combo_login_answers_with_the_combo_token() {
    let mut db = AccountDatabase::default();
    let account = register(&mut db, "alice", "secret");
    let data = ComboLoginData { uid: "10000001".into(), guest: false, token: account.token.clone() };
    match handle_combo_login(&db, combo_request(), Some(data)) {
        Reply::Success(Payload::Combo(combo)) => {
            assert_eq!(combo.account_type, 1);
            assert_eq!(combo.combo_id, "10000001");
            assert_eq!(combo.open_id, "10000001");
            assert_eq!(combo.combo_token, account.token);
            assert_eq!(combo.data, "{\"guest\":false}");
            assert!(!combo.heartbeat);
        }
        _ => panic!("expected a combo answer"),
    }
}

#[test]
fn combo_login_refusals() {
    let mut db = AccountDatabase::default();
    let account = register(&mut db, "alice", "secret");
    let data = |uid: &str, token: &str| Some(ComboLoginData { uid: uid.into(), guest: false, token: token.into() });
    expect_error(&handle_combo_login(&db, None, data("10000001", &account.token)), -1, "Invalid request");
    expect_error(&handle_combo_login(&db, combo_request(), None), -1, "Invalid combo data");
    expect_error(&handle_combo_login(&db, combo_request(), data("x1", &account.token)), -101, "Invalid uid");
    expect_error(&handle_combo_login(&db, combo_request(), data("10000009", &account.token)), -101, "Account not found");
    expect_error(&handle_combo_login(&db, combo_request(), data("10000001", "nope")), -101, "Invalid token");
}

#[test]
fn full_uid_counter_only_stops_registrations() {
    let mut db = AccountDatabase::with_next_uid(u32::MAX - 1);
    let account = register(&mut db, "alice", "secret");
    assert_eq!(account.uid, u32::MAX - 1);
    assert_eq!(db.next_uid(), u32::MAX);
    expect_error(&respond(handle_login(&mut db, None, NOW)), -1, "Invalid request");
    expect_error(&respond(handle_login(&mut db, credentials("", "x"), NOW)), -101, "Username is empty");
    expect_error(&respond(handle_login(&mut db, credentials("alice", "guess"), NOW)), -101, "Account or password error");
    let reply = respond(handle_login(&mut db, credentials("alice", "secret"), NOW));
    expect_login(&reply, u32::MAX - 1, "alice", &account.token);
    assert!(matches!(handle_login(&mut db, credentials("bob", "secret"), NOW), LoginOutcome::UidsExhausted));
    assert_eq!(db.len(), 1);
    assert_eq!(db.next_uid(), u32::MAX);
}

#[test]
fn shared_uid_sessions_go_to_the_first_stored_account() {
    let mut db = AccountDatabase::with_next_uid(10);
    db.put("a".into(), Account { uid: 5, username: "a".into(), password_hash: "h".into(), token: "ta".into() });
    db.put("b".into(), Account { uid: 5, username: "b".into(), password_hash: "h".into(), token: "tb".into() });
    let first = db.find_by_uid(5).unwrap().username.clone();
    let first_token = db.find_by_uid(5).unwrap().token.clone();
    let request = VerifySTokenRequest { mid: "5".into(), stoken: first_token.clone() };
    expect_login(&handle_verify_stoken(&db, Some(request)), 5, &first, &first_token);
    let other_token = if first_token == "ta" { "tb" } else { "ta" };
    let request = VerifySTokenRequest { mid: "5".into(), stoken: other_token.into() };
    expect_error(&handle_verify_stoken(&db, Some(request)), -101, RELOGIN);
}

#[test]
fn combo_answer_ignores_the_other_request_fields() {
    let mut db = AccountDatabase::default();
    let account = register(&mut db, "alice", "secret");
    let other = Some(ComboLoginRequest { data: "{}".into(), app_id: 9, channel_id: 7, device: "x".into(), sign: "y".into() });
    for request in [combo_request(), other] {
        for guest in [false, true] {
            let data = ComboLoginData { uid: "10000001".into(), guest, token: account.token.clone() };
            assert!(matches!(handle_combo_login(&db, request.as_ref().map(|r| ComboLoginRequest { data: r.data.clone(), app_id: r.app_id, channel_id: r.channel_id, device: r.device.clone(), sign: r.sign.clone() }), Some(data)), Reply::Success(Payload::Combo(_))));
        }
    }
}

#[test]
fn entries_list_each_account_once() {
    let mut db = AccountDatabase::default();
    for name in ["alice", "bob", "carol"] {
        register(&mut db, name, "pw");
    }
    db.put("bob".into(), Account { uid: 1, username: "bob".into(), password_hash: "h".into(), token: "t".into() });
    let mut names: Vec<String> = (0..db.len()).map(|i| db.entry(i).0.clone()).collect();
    names.sort();
    assert_eq!(names, ["alice", "bob", "carol"]);
    for i in 0..db.len() {
        let (name, account) = db.entry(i);
        assert_eq!(db.find_by_username(name).unwrap().uid, account.uid);
    }
}
