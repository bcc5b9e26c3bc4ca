//! Properties that hold across calls: what logins keep, what they allow afterwards, and
//! how the two path forms relate.
use vstd::prelude::*;
use vstd::utf8::*;
use crate::account::{AccountDatabase, AccountView, DatabaseView};
use crate::decimal::{decimal, lemma_parse_decimal_roundtrip, parse_u32_spec};
use crate::digest::{hex_lower, password_digest, sha256};
use crate::login::{field_text, login_decision, login_effect, LoginCredentials, LoginDecision};
use crate::routing::{route_spec, served_at, Endpoint};
use crate::session::{
    combo_answer, combo_decision, session_account, stoken_answer, stoken_decision,
    ComboLoginData, ComboLoginRequest, SessionAnswer, VerifySTokenRequest,
};

verus! {

/// A login never changes or removes a stored account; only a registration adds one, under
/// a non-empty username of at most 64 bytes, and moves the next uid on by exactly one;
/// with the uid counter at its maximum, a registration changes nothing.
pub proof fn lemma_login_only_adds(
    db: DatabaseView,
    request: Option<LoginCredentials>,
    now_nanos: u128,
)
    ensures
        ({
            let decision = login_decision(db, request, now_nanos);
            let after = login_effect(db, decision);
            &&& forall|k: Seq<char>| #[trigger]
                db.accounts.contains_key(k) ==> after.accounts.contains_key(k)
                    && after.accounts[k] == db.accounts[k]
            &&& match decision {
                LoginDecision::Register(a) => {
                    &&& !db.accounts.contains_key(a.username)
                    &&& a.uid == db.next_uid
                    &&& 0 < a.username.len()
                    &&& encode_utf8(a.username).len() <= 64
                    &&& db.next_uid < u32::MAX ==> after.next_uid == db.next_uid + 1
                        && after.accounts == db.accounts.insert(a.username, a)
                    &&& db.next_uid == u32::MAX ==> after == db
                },
                _ => after == db,
            }
        }),
{
}

/// The stored form of a password is the lowercase hex SHA-256 of all of its UTF-8 bytes.
pub proof fn lemma_password_digest_hashes_all_bytes(password: Seq<char>)
    ensures
        password_digest(password) == hex_lower(sha256(encode_utf8(password))),
{
}

/// A registration stores the account under the decrypted username, with the next uid,
/// the lowercase hex SHA-256 of all of the decrypted password's bytes, and a token that
/// is the lowercase hex SHA-256 of the decimal uid, the username and the decimal time.
pub proof fn lemma_registration_stores_given_credentials(
    db: DatabaseView,
    credentials: LoginCredentials,
    now_nanos: u128,
)
    requires
        login_decision(db, Some(credentials), now_nanos) is Register,
    ensures
        ({
            let a = login_decision(db, Some(credentials), now_nanos)->Register_0;
            &&& field_text(credentials.account) == Some(a.username)
            &&& field_text(credentials.password) is Some
            &&& a.uid == db.next_uid
            &&& a.password_hash == hex_lower(
                sha256(encode_utf8(field_text(credentials.password)->Some_0)),
            )
            &&& a.token == hex_lower(
                sha256(
                    encode_utf8(decimal(db.next_uid as nat) + a.username + decimal(now_nanos as nat)),
                ),
            )
        }),
{
}

/// A login into a stored account succeeds exactly when the stored hash is the lowercase
/// hex SHA-256 of all of the given password's bytes; otherwise it is refused and nothing
/// changes.
pub proof fn lemma_login_checks_stored_hash(
    db: DatabaseView,
    credentials: LoginCredentials,
    now_nanos: u128,
    username: Seq<char>,
    password: Seq<char>,
)
    requires
        field_text(credentials.account) == Some(username),
        field_text(credentials.password) == Some(password),
        0 < username.len(),
        encode_utf8(username).len() <= 64,
        db.accounts.contains_key(username),
    ensures
        login_decision(db, Some(credentials), now_nanos) == if db.accounts[username].password_hash
            == hex_lower(sha256(encode_utf8(password))) {
            LoginDecision::SignIn(db.accounts[username])
        } else {
            LoginDecision::Refuse(-101, "Account or password error"@)
        },
        login_effect(db, login_decision(db, Some(credentials), now_nanos)) == db,
{
}

/// Logging in again with the credentials that registered an account signs into that
/// account, at any later time.
pub proof fn lemma_same_credentials_sign_in(
    db: DatabaseView,
    first: LoginCredentials,
    now_nanos: u128,
    second: LoginCredentials,
    later_nanos: u128,
)
    requires
        db.next_uid < u32::MAX,
        login_decision(db, Some(first), now_nanos) is Register,
        field_text(second.account) == field_text(first.account),
        field_text(second.password) == field_text(first.password),
    ensures
        ({
            let a = login_decision(db, Some(first), now_nanos)->Register_0;
            let after = login_effect(db, LoginDecision::Register(a));
            login_decision(after, Some(second), later_nanos) == LoginDecision::SignIn(a)
        }),
{
}

/// Which requests a password login refuses, with which answer, and when it registers.
pub proof fn lemma_login_refusals(
    db: DatabaseView,
    request: Option<LoginCredentials>,
    now_nanos: u128,
)
    ensures
        request is None ==> login_decision(db, request, now_nanos) == LoginDecision::Refuse(
            -1,
            "Invalid request"@,
        ),
        request is Some && (field_text(request->Some_0.account) is None || field_text(
            request->Some_0.password,
        ) is None) ==> login_decision(db, request, now_nanos) == LoginDecision::Refuse(
            -101,
            "Login failed. Your client patch might be unsupported."@,
        ),
        request is Some && field_text(request->Some_0.account) is Some && field_text(
            request->Some_0.password,
        ) is Some ==> ({
            let u = field_text(request->Some_0.account)->Some_0;
            &&& u.len() == 0 ==> login_decision(db, request, now_nanos)
                == LoginDecision::Refuse(-101, "Username is empty"@)
            &&& 0 < u.len() && encode_utf8(u).len() > 64 ==> login_decision(db, request, now_nanos)
                == LoginDecision::Refuse(-101, "Username is too long"@)
            &&& 0 < u.len() && encode_utf8(u).len() <= 64 && !db.accounts.contains_key(u)
                ==> login_decision(db, request, now_nanos) is Register
        }),
{
}

/// Registration keeps uids unique and below the next uid.
pub proof fn lemma_login_keeps_uids_fresh(
    db: DatabaseView,
    request: Option<LoginCredentials>,
    now_nanos: u128,
)
    requires
        db.uids_fresh(),
    ensures
        login_effect(db, login_decision(db, request, now_nanos)).uids_fresh(),
{
    let decision = login_decision(db, request, now_nanos);
    let after = login_effect(db, decision);
    if decision is Register && db.next_uid < u32::MAX {
        let a = decision->Register_0;
        assert forall|k1: Seq<char>, k2: Seq<char>|
            #![trigger after.accounts[k1], after.accounts[k2]]
            after.accounts.contains_key(k1) && after.accounts.contains_key(k2) && k1 != k2
                implies after.accounts[k1].uid != after.accounts[k2].uid by {
            if k1 != a.username && k2 != a.username {
                assert(after.accounts[k1] == db.accounts[k1]);
                assert(after.accounts[k2] == db.accounts[k2]);
            } else if k1 == a.username {
                assert(db.accounts.contains_key(k2));
                assert(after.accounts[k2] == db.accounts[k2]);
            } else {
                assert(db.accounts.contains_key(k1));
                assert(after.accounts[k1] == db.accounts[k1]);
            }
        }
        assert forall|k: Seq<char>| #[trigger]
            after.accounts.contains_key(k) implies after.accounts[k].uid < after.next_uid by {
            if k != a.username {
                assert(db.accounts.contains_key(k));
            }
        }
    }
}

/// After a registration, a login with the same username succeeds into the new account
/// exactly when its password has the same digest, and is refused otherwise.
pub proof fn lemma_registered_account_signs_in(
    db: DatabaseView,
    first: LoginCredentials,
    now_nanos: u128,
    second: LoginCredentials,
    later_nanos: u128,
)
    requires
        db.next_uid < u32::MAX,
        login_decision(db, Some(first), now_nanos) is Register,
        field_text(second.account) == field_text(first.account),
        field_text(second.password) is Some,
    ensures
        ({
            let a = login_decision(db, Some(first), now_nanos)->Register_0;
            let after = login_effect(db, LoginDecision::Register(a));
            login_decision(after, Some(second), later_nanos) == if password_digest(
                field_text(second.password)->Some_0,
            ) == a.password_hash {
                LoginDecision::SignIn(a)
            } else {
                LoginDecision::Refuse(-101, "Account or password error"@)
            }
        }),
{
}

/// A stored account's session is found again from its uid written in decimal and its
/// token, as long as uids are distinct.
pub proof fn lemma_stored_session_checks_out(db: DatabaseView, username: Seq<char>)
    requires
        db.uids_distinct(),
        db.accounts.contains_key(username),
    ensures
        ({
            let a = db.accounts[username];
            &&& parse_u32_spec(decimal(a.uid as nat)) == Some(a.uid)
            &&& session_account(db, a.uid, a.token) == Some(a)
        }),
{
    let a = db.accounts[username];
    lemma_parse_decimal_roundtrip(a.uid);
    assert(db.has_uid(a.uid));
    let k = choose|k: Seq<char>| #[trigger]
        db.accounts.contains_key(k) && db.accounts[k].uid == a.uid;
    assert(k == username);
}

/// The session of a newly registered account checks out right away with its decimal uid
/// and its token, when uids were fresh before.
pub proof fn lemma_registered_session_checks_out(
    db: DatabaseView,
    request: Option<LoginCredentials>,
    now_nanos: u128,
)
    requires
        db.uids_fresh(),
        db.next_uid < u32::MAX,
        login_decision(db, request, now_nanos) is Register,
    ensures
        ({
            let a = login_decision(db, request, now_nanos)->Register_0;
            let after = login_effect(db, LoginDecision::Register(a));
            &&& after.uids_fresh()
            &&& parse_u32_spec(decimal(a.uid as nat)) == Some(a.uid)
            &&& session_account(after, a.uid, a.token) == Some(a)
        }),
{
    let a = login_decision(db, request, now_nanos)->Register_0;
    let after = login_effect(db, LoginDecision::Register(a));
    lemma_login_keeps_uids_fresh(db, request, now_nanos);
    lemma_stored_session_checks_out(after, a.username);
}

/// The session-token check and the combo login accept the same uid text and token, into
/// the same account.
pub proof fn lemma_session_logins_agree(db: &AccountDatabase, uid: Seq<char>, token: Seq<char>)
    ensures
        forall|a: AccountView|
            (stoken_answer(db, uid, token) == SessionAnswer::Accept(a)) == (combo_answer(
                db,
                uid,
                token,
            ) == SessionAnswer::Accept(a)),
{
}

/// A combo login's answer depends on the data's uid and token alone: `guest`, `app_id`,
/// `channel_id`, `device`, `sign` and the data text only have to be present.
pub proof fn lemma_combo_ignores_other_fields(
    db: &AccountDatabase,
    first: ComboLoginRequest,
    first_data: ComboLoginData,
    second: ComboLoginRequest,
    second_data: ComboLoginData,
)
    requires
        first_data.uid@ == second_data.uid@,
        first_data.token@ == second_data.token@,
    ensures
        combo_decision(db, Some(first), Some(first_data)) == combo_decision(
            db,
            Some(second),
            Some(second_data),
        ),
{
}

/// A session-token check depends on the uid text and the token alone.
pub proof fn lemma_stoken_depends_on_uid_and_token(
    db: &AccountDatabase,
    first: VerifySTokenRequest,
    second: VerifySTokenRequest,
)
    requires
        first.mid@ == second.mid@,
        first.stoken@ == second.stoken@,
    ensures
        stoken_decision(db, Some(first)) == stoken_decision(db, Some(second)),
{
}

/// When uids are distinct, every stored account is accepted by both session logins with
/// its uid written in decimal and its token.
pub proof fn lemma_stored_account_resumes(db: &AccountDatabase, username: Seq<char>)
    requires
        db.wf(),
        db@.uids_distinct(),
        db@.accounts.contains_key(username),
    ensures
        ({
            let a = db@.accounts[username];
            &&& stoken_answer(db, decimal(a.uid as nat), a.token) == SessionAnswer::Accept(a)
            &&& combo_answer(db, decimal(a.uid as nat), a.token) == SessionAnswer::Accept(a)
        }),
{
    let a = db@.accounts[username];
    lemma_stored_session_checks_out(db@, username);
    db.lemma_uid_owner(a.uid);
}

/// A session-token check accepts only the exact stored token of a stored account whose
/// uid the request names; refusals always ask to log in again; and when uids are distinct
/// the account with the named uid and that token is accepted.
pub proof fn lemma_stoken_accepts_only_stored_token(db: &AccountDatabase, q: VerifySTokenRequest)
    requires
        db.wf(),
    ensures
        stoken_decision(db, Some(q)) matches SessionAnswer::Accept(a) ==> {
            &&& q.stoken@ == a.token
            &&& parse_u32_spec(q.mid@) == Some(a.uid)
            &&& exists|k: Seq<char>| db@.accounts.contains_key(k) && #[trigger] db@.accounts[k] == a
        },
        stoken_decision(db, Some(q)) matches SessionAnswer::Refuse(code, message) ==> code == -101
            && message == "For account safety, please log in again."@,
        forall|a: AccountView|
            db@.uids_distinct() && parse_u32_spec(q.mid@) == Some(a.uid)
                && #[trigger] db@.account_with_uid(a.uid) == Some(a) && a.token == q.stoken@
                ==> stoken_decision(db, Some(q)) == SessionAnswer::Accept(a),
{
    if let Some(uid) = parse_u32_spec(q.mid@) {
        db.lemma_uid_owner(uid);
    }
}

/// A combo login accepts only the exact stored token of a stored account whose uid the
/// data names; and when uids are distinct the account with the named uid and that token is
/// accepted.
pub proof fn lemma_combo_accepts_only_stored_token(
    db: &AccountDatabase,
    request: ComboLoginRequest,
    d: ComboLoginData,
)
    requires
        db.wf(),
    ensures
        combo_decision(db, Some(request), Some(d)) matches SessionAnswer::Accept(a) ==> {
            &&& d.token@ == a.token
            &&& parse_u32_spec(d.uid@) == Some(a.uid)
            &&& exists|k: Seq<char>| db@.accounts.contains_key(k) && #[trigger] db@.accounts[k] == a
        },
        combo_decision(db, Some(request), Some(d)) matches SessionAnswer::Refuse(code, message)
            ==> {
            &&& code == -101
            &&& parse_u32_spec(d.uid@) is None <==> message == "Invalid uid"@
            &&& parse_u32_spec(d.uid@) matches Some(uid) ==> (!db@.has_uid(uid) <==> message
                == "Account not found"@)
        },
        forall|a: AccountView|
            db@.uids_distinct() && parse_u32_spec(d.uid@) == Some(a.uid)
                && #[trigger] db@.account_with_uid(a.uid) == Some(a) && a.token == d.token@
                ==> combo_decision(db, Some(request), Some(d)) == SessionAnswer::Accept(a),
{
    reveal_strlit("Invalid uid");
    reveal_strlit("Account not found");
    reveal_strlit("Invalid token");
    assert("Invalid uid"@.len() == 11 && "Account not found"@.len() == 17 && "Invalid token"@.len()
        == 13);
    if let Some(uid) = parse_u32_spec(d.uid@) {
        db.lemma_uid_owner(uid);
    }
}

/// Every endpoint but the configuration answers POST only; a GET reaches the configuration
/// or nothing.
pub proof fn lemma_route_methods(method: Seq<char>, path: Seq<char>)
    ensures
        route_spec(method, path) != Endpoint::NotImplemented && route_spec(method, path)
            != Endpoint::LoadConfig ==> method == "POST"@,
        route_spec(method, path) == Endpoint::LoadConfig ==> method == "POST"@ || method == "GET"@,
        route_spec("GET"@, path) == Endpoint::LoadConfig || route_spec("GET"@, path)
            == Endpoint::NotImplemented,
{
    reveal_strlit("GET");
    reveal_strlit("POST");
    assert("GET"@ != "POST"@) by {
        assert("GET"@[0] != "POST"@[0]);
    }
}

/// Each endpoint is reached exactly by its method(s) at its path, with or without the
/// `/nap_global` prefix.
pub proof fn lemma_route_paths(method: Seq<char>, path: Seq<char>)
    ensures
        (route_spec(method, path) == Endpoint::LoginByPassword) == (method == "POST"@ && served_at(
            path,
            "/account/ma-passport/api/appLoginByPassword"@,
        )),
        (route_spec(method, path) == Endpoint::VerifySToken) == (method == "POST"@ && served_at(
            path,
            "/account/ma-passport/token/verifySToken"@,
        )),
        (route_spec(method, path) == Endpoint::ComboLogin) == (method == "POST"@ && served_at(
            path,
            "/combo/granter/login/v2/login"@,
        )),
        (route_spec(method, path) == Endpoint::Logout) == (method == "POST"@ && served_at(
            path,
            "/account/ma-passport/api/logout"@,
        )),
        (route_spec(method, path) == Endpoint::LoadConfig) == ((method == "POST"@ || method
            == "GET"@) && served_at(path, "/mdk/shield/api/loadConfig"@)),
        (route_spec(method, path) == Endpoint::DataUpload) == (method == "POST"@ && served_at(
            path,
            "/sdk/dataUpload"@,
        )),
{
    reveal_strlit("/nap_global");
    reveal_strlit("/account/ma-passport/api/appLoginByPassword");
    reveal_strlit("/account/ma-passport/token/verifySToken");
    reveal_strlit("/combo/granter/login/v2/login");
    reveal_strlit("/account/ma-passport/api/logout");
    reveal_strlit("/mdk/shield/api/loadConfig");
    reveal_strlit("/sdk/dataUpload");
    let pre = "/nap_global"@;
    assert(!pre.is_prefix_of("/account/ma-passport/api/appLoginByPassword"@)) by { assert(pre[1] != "/account/ma-passport/api/appLoginByPassword"@[1]); }
    assert(!pre.is_prefix_of("/account/ma-passport/token/verifySToken"@)) by { assert(pre[1] != "/account/ma-passport/token/verifySToken"@[1]); }
    assert(!pre.is_prefix_of("/combo/granter/login/v2/login"@)) by { assert(pre[1] != "/combo/granter/login/v2/login"@[1]); }
    assert(!pre.is_prefix_of("/account/ma-passport/api/logout"@)) by { assert(pre[1] != "/account/ma-passport/api/logout"@[1]); }
    assert(!pre.is_prefix_of("/mdk/shield/api/loadConfig"@)) by { assert(pre[1] != "/mdk/shield/api/loadConfig"@[1]); }
    assert(!pre.is_prefix_of("/sdk/dataUpload"@)) by { assert(pre[1] != "/sdk/dataUpload"@[1]); }
    lemma_served_at_one_base(path, "/account/ma-passport/api/appLoginByPassword"@, "/account/ma-passport/token/verifySToken"@);
    lemma_served_at_one_base(path, "/account/ma-passport/api/appLoginByPassword"@, "/combo/granter/login/v2/login"@);
    lemma_served_at_one_base(path, "/account/ma-passport/api/appLoginByPassword"@, "/account/ma-passport/api/logout"@);
    lemma_served_at_one_base(path, "/account/ma-passport/api/appLoginByPassword"@, "/mdk/shield/api/loadConfig"@);
    lemma_served_at_one_base(path, "/account/ma-passport/api/appLoginByPassword"@, "/sdk/dataUpload"@);
    lemma_served_at_one_base(path, "/account/ma-passport/token/verifySToken"@, "/combo/granter/login/v2/login"@);
    lemma_served_at_one_base(path, "/account/ma-passport/token/verifySToken"@, "/account/ma-passport/api/logout"@);
    lemma_served_at_one_base(path, "/account/ma-passport/token/verifySToken"@, "/mdk/shield/api/loadConfig"@);
    lemma_served_at_one_base(path, "/account/ma-passport/token/verifySToken"@, "/sdk/dataUpload"@);
    lemma_served_at_one_base(path, "/combo/granter/login/v2/login"@, "/account/ma-passport/api/logout"@);
    lemma_served_at_one_base(path, "/combo/granter/login/v2/login"@, "/mdk/shield/api/loadConfig"@);
    lemma_served_at_one_base(path, "/combo/granter/login/v2/login"@, "/sdk/dataUpload"@);
    lemma_served_at_one_base(path, "/account/ma-passport/api/logout"@, "/mdk/shield/api/loadConfig"@);
    lemma_served_at_one_base(path, "/account/ma-passport/api/logout"@, "/sdk/dataUpload"@);
    lemma_served_at_one_base(path, "/mdk/shield/api/loadConfig"@, "/sdk/dataUpload"@);
}

proof fn lemma_served_at_one_base(path: Seq<char>, first: Seq<char>, second: Seq<char>)
    requires
        first.len() != second.len(),
        !"/nap_global"@.is_prefix_of(first),
        !"/nap_global"@.is_prefix_of(second),
    ensures
        !(served_at(path, first) && served_at(path, second)),
{
    let pre = "/nap_global"@;
    lemma_prefix_cancels(pre, first, second);
    if path == first && path == pre + second {
        assert(first.subrange(0, pre.len() as int) =~= pre);
    }
    if path == pre + first && path == second {
        assert(second.subrange(0, pre.len() as int) =~= pre);
    }
}

proof fn lemma_prefix_cancels(pre: Seq<char>, x: Seq<char>, y: Seq<char>)
    ensures
        (pre + x == pre + y) == (x == y),
{
    if pre + x == pre + y {
        assert((pre + x).skip(pre.len() as int) =~= x);
        assert((pre + y).skip(pre.len() as int) =~= y);
    }
}

proof fn lemma_served_at_prefixed(path: Seq<char>, base: Seq<char>)
    requires
        !"/nap_global"@.is_prefix_of(path),
        !"/nap_global"@.is_prefix_of(base),
    ensures
        served_at("/nap_global"@ + path, base) == served_at(path, base),
{
    let pre = "/nap_global"@;
    lemma_prefix_cancels(pre, path, base);
    if pre + path == base {
        assert(pre.is_prefix_of(base)) by {
            assert(base.subrange(0, pre.len() as int) =~= pre);
        }
    }
    if path == pre + base {
        assert(pre.is_prefix_of(path)) by {
            assert(path.subrange(0, pre.len() as int) =~= pre);
        }
    }
}

/// A path under the `/nap_global` prefix is served exactly as the path without it.
pub proof fn lemma_nap_global_prefix(method: Seq<char>, path: Seq<char>)
    requires
        !"/nap_global"@.is_prefix_of(path),
    ensures
        route_spec(method, "/nap_global"@ + path) == route_spec(method, path),
{
    reveal_strlit("/nap_global");
    reveal_strlit("/account/ma-passport/api/appLoginByPassword");
    reveal_strlit("/account/ma-passport/token/verifySToken");
    reveal_strlit("/combo/granter/login/v2/login");
    reveal_strlit("/account/ma-passport/api/logout");
    reveal_strlit("/mdk/shield/api/loadConfig");
    reveal_strlit("/sdk/dataUpload");
    let pre = "/nap_global"@;
    assert forall|base: Seq<char>| base.len() > 1 && base[1] != 'n' implies !#[trigger] pre.is_prefix_of(base) by {
        assert(pre[1] == 'n');
    }
    lemma_served_at_prefixed(path, "/account/ma-passport/api/appLoginByPassword"@);
    lemma_served_at_prefixed(path, "/account/ma-passport/token/verifySToken"@);
    lemma_served_at_prefixed(path, "/combo/granter/login/v2/login"@);
    lemma_served_at_prefixed(path, "/account/ma-passport/api/logout"@);
    lemma_served_at_prefixed(path, "/mdk/shield/api/loadConfig"@);
    lemma_served_at_prefixed(path, "/sdk/dataUpload"@);
}

} // verus!
