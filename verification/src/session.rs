//! Logins with an existing session: the session-token check and the combo login.
use vstd::prelude::*;
use crate::account::{AccountDatabase, AccountView, DatabaseView};
use crate::decimal::{parse_u32, parse_u32_spec};
use crate::reply::{combo_response, error_response, login_response, Reply};

verus! {

/// A session-token check request: the account's uid as text, and the token.
pub struct VerifySTokenRequest {
    pub mid: String,
    pub stoken: String,
}

/// A combo login request; `data` holds the login data as JSON text.
pub struct ComboLoginRequest {
    pub data: String,
    pub app_id: u32,
    pub channel_id: u32,
    pub device: String,
    pub sign: String,
}

/// The login data inside a combo login request.
pub struct ComboLoginData {
    pub uid: String,
    pub guest: bool,
    pub token: String,
}

/// The message for a session that does not check out.
pub open spec fn relogin_message() -> Seq<char> {
    "For account safety, please log in again."@
}

/// The account with uid `uid`, when its token is `token`.
pub open spec fn session_account(db: DatabaseView, uid: u32, token: Seq<char>) -> Option<
    AccountView,
> {
    match db.account_with_uid(uid) {
        Some(a) => if a.token == token {
            Some(a)
        } else {
            None
        },
        None => None,
    }
}

/// What a session lookup decides.
pub enum SessionAnswer {
    /// Answer with this error.
    Refuse(int, Seq<char>),
    /// The session belongs to this account.
    Accept(AccountView),
}

/// The decision on a session given the account that the lookup by uid found (if any)
/// and the token that the client sent.
pub open spec fn session_check(
    owner: Option<AccountView>,
    token: Seq<char>,
    no_account: Seq<char>,
    wrong_token: Seq<char>,
) -> SessionAnswer {
    match owner {
        None => SessionAnswer::Refuse(-101, no_account),
        Some(a) => if a.token == token {
            SessionAnswer::Accept(a)
        } else {
            SessionAnswer::Refuse(-101, wrong_token)
        },
    }
}

/// The decision on a session-token check with uid text `mid` and token `stoken`.
pub open spec fn stoken_answer(db: &AccountDatabase, mid: Seq<char>, stoken: Seq<char>) -> SessionAnswer {
    match parse_u32_spec(mid) {
        None => SessionAnswer::Refuse(-101, relogin_message()),
        Some(uid) => session_check(db.uid_owner(uid), stoken, relogin_message(), relogin_message()),
    }
}

/// The decision on a combo login whose data carries uid text `uid` and token `token`.
pub open spec fn combo_answer(db: &AccountDatabase, uid: Seq<char>, token: Seq<char>) -> SessionAnswer {
    match parse_u32_spec(uid) {
        None => SessionAnswer::Refuse(-101, "Invalid uid"@),
        Some(n) => session_check(db.uid_owner(n), token, "Account not found"@, "Invalid token"@),
    }
}

/// The decision on a session-token check request (`None`: the body is not one).
pub open spec fn stoken_decision(db: &AccountDatabase, request: Option<VerifySTokenRequest>) -> SessionAnswer {
    match request {
        None => SessionAnswer::Refuse(-1, "Invalid request"@),
        Some(q) => stoken_answer(db, q.mid@, q.stoken@),
    }
}

/// The decision on a combo login request and its parsed data.
pub open spec fn combo_decision(
    db: &AccountDatabase,
    request: Option<ComboLoginRequest>,
    data: Option<ComboLoginData>,
) -> SessionAnswer {
    match (request, data) {
        (None, _) => SessionAnswer::Refuse(-1, "Invalid request"@),
        (Some(_), None) => SessionAnswer::Refuse(-1, "Invalid combo data"@),
        (Some(_), Some(d)) => combo_answer(db, d.uid@, d.token@),
    }
}

/// Checks a session token and answers with the account's login data.
pub fn handle_verify_stoken(db: &AccountDatabase, request: Option<VerifySTokenRequest>) -> (r:
    Reply)
    requires
        db.wf(),
    ensures
        match stoken_decision(db, request) {
            SessionAnswer::Refuse(code, message) => r.is_error(code, message),
            SessionAnswer::Accept(a) => r.is_login_for(a),
        },
{
    let request = match request {
        None => return error_response(-1, "Invalid request"),
        Some(q) => q,
    };
    let uid = match parse_u32(request.mid.as_str()) {
        Some(uid) => uid,
        None => return error_response(-101, "For account safety, please log in again."),
    };
    let account = match db.find_by_uid(uid) {
        Some(a) => a,
        None => return error_response(-101, "For account safety, please log in again."),
    };
    if account.token != request.stoken {
        return error_response(-101, "For account safety, please log in again.");
    }
    login_response(account)
}

/// Handles a combo login: `request` is the parsed request (`None` when the body is not
/// one), and `data` its `data` field parsed as login data (`None` when it is not).
pub fn handle_combo_login(
    db: &AccountDatabase,
    request: Option<ComboLoginRequest>,
    data: Option<ComboLoginData>,
) -> (r: Reply)
    requires
        db.wf(),
    ensures
        match combo_decision(db, request, data) {
            SessionAnswer::Refuse(code, message) => r.is_error(code, message),
            SessionAnswer::Accept(a) => r.is_combo_for(a),
        },
{
    if request.is_none() {
        return error_response(-1, "Invalid request");
    }
    let data = match data {
        None => return error_response(-1, "Invalid combo data"),
        Some(d) => d,
    };
    let uid = match parse_u32(data.uid.as_str()) {
        Some(uid) => uid,
        None => return error_response(-101, "Invalid uid"),
    };
    let account = match db.find_by_uid(uid) {
        Some(a) => a,
        None => return error_response(-101, "Account not found"),
    };
    if account.token != data.token {
        return error_response(-101, "Invalid token");
    }
    combo_response(account)
}

} // verus!
