//! Password login: the decision that it makes and how it changes the database.
use vstd::prelude::*;
use vstd::string::*;
use vstd::utf8::*;
use crate::account::{Account, AccountDatabase, AccountView, DatabaseView};
use crate::digest::{generate_token, hash_password, password_digest, token_digest};
use crate::reply::{error_response, login_response, Reply};

verus! {

/// The text of the error that `String::from_utf8` reports for invalid UTF-8.
pub uninterp spec fn utf8_error_text(bytes: Seq<u8>) -> Seq<char>;

/// `String::from_utf8`: the text when `bytes` is UTF-8, else the error's message.
#[verifier::external_body]
fn utf8_to_string(bytes: Vec<u8>) -> (r: Result<String, String>)
    ensures
        r is Ok <==> valid_utf8(bytes@),
        r matches Ok(s) ==> s@ == decode_utf8(bytes@),
        r matches Err(e) ==> e@ == utf8_error_text(bytes@),
{
    match String::from_utf8(bytes) {
        Ok(s) => Ok(s),
        Err(e) => Err(format!("{e}")),
    }
}

/// The text carried by an encrypted request field, given what RSA decryption of it gave:
/// present when decryption succeeded and gave UTF-8.
pub open spec fn field_text(decrypted: Result<Vec<u8>, String>) -> Option<Seq<char>> {
    match decrypted {
        Ok(bytes) => if valid_utf8(bytes@) {
            Some(decode_utf8(bytes@))
        } else {
            None
        },
        Err(_) => None,
    }
}

/// Turns the outcome of decrypting a request field into its text, or into the reason why
/// there is none.
pub fn decrypt_field(decrypted: Result<Vec<u8>, String>) -> (r: Result<String, String>)
    ensures
        r is Ok <==> field_text(decrypted) is Some,
        r matches Ok(t) ==> Some(t@) == field_text(decrypted),
        decrypted matches Err(e) ==> (r matches Err(m) && m@ == "RSA decrypt failed: "@ + e@),
        decrypted matches Ok(b) ==> (!valid_utf8(b@) ==> (r matches Err(m) && m@
            == "UTF-8 decode failed: "@ + utf8_error_text(b@))),
{
    match decrypted {
        Err(e) => {
            let mut message = "RSA decrypt failed: ".to_owned();
            message.append(e.as_str());
            Err(message)
        },
        Ok(bytes) => {
            match utf8_to_string(bytes) {
                Ok(text) => Ok(text),
                Err(e) => {
                    let mut message = "UTF-8 decode failed: ".to_owned();
                    message.append(e.as_str());
                    Err(message)
                },
            }
        },
    }
}

/// What RSA decryption gave for the two encrypted fields of a password login request.
pub struct LoginCredentials {
    pub account: Result<Vec<u8>, String>,
    pub password: Result<Vec<u8>, String>,
}

/// What a password login decides.
pub enum LoginDecision {
    /// Answer with this error; nothing changes.
    Refuse(int, Seq<char>),
    /// The password matches this stored account.
    SignIn(AccountView),
    /// A new account is created and stored.
    Register(AccountView),
}

/// The message for fields that do not decrypt to text.
pub open spec fn unsupported_patch_message() -> Seq<char> {
    "Login failed. Your client patch might be unsupported."@
}

/// The decision on a password login request; `None` stands for a body that is not a
/// login request. `now_nanos` is the time of the request, which seeds a new token.
pub open spec fn login_decision(
    db: DatabaseView,
    request: Option<LoginCredentials>,
    now_nanos: u128,
) -> LoginDecision {
    match request {
        None => LoginDecision::Refuse(-1, "Invalid request"@),
        Some(c) => match (field_text(c.account), field_text(c.password)) {
            (Some(username), Some(password)) => {
                if username.len() == 0 {
                    LoginDecision::Refuse(-101, "Username is empty"@)
                } else if encode_utf8(username).len() > 64 {
                    LoginDecision::Refuse(-101, "Username is too long"@)
                } else if db.accounts.contains_key(username) {
                    if db.accounts[username].password_hash == password_digest(password) {
                        LoginDecision::SignIn(db.accounts[username])
                    } else {
                        LoginDecision::Refuse(-101, "Account or password error"@)
                    }
                } else {
                    LoginDecision::Register(
                        AccountView {
                            uid: db.next_uid,
                            username,
                            password_hash: password_digest(password),
                            token: token_digest(db.next_uid, username, now_nanos),
                        },
                    )
                }
            },
            _ => LoginDecision::Refuse(-101, unsupported_patch_message()),
        },
    }
}

/// The database after a login decision: a registration stores the account under its
/// username and moves the next uid on by one, unless the uid counter is at its maximum,
/// where nothing changes.
pub open spec fn login_effect(db: DatabaseView, decision: LoginDecision) -> DatabaseView {
    match decision {
        LoginDecision::Register(a) => if db.next_uid < u32::MAX {
            DatabaseView {
                next_uid: (db.next_uid + 1) as u32,
                accounts: db.accounts.insert(a.username, a),
            }
        } else {
            db
        },
        _ => db,
    }
}

/// What a password login leads to.
pub enum LoginOutcome {
    /// Answer now.
    Respond(Reply),
    /// This account was created and stored; save the database, then answer with
    /// `finish_registration`.
    Registered(Account),
    /// A new account would be needed, but the uid counter cannot move past its maximum;
    /// nothing was stored.
    UidsExhausted,
}

/// Handles a password login request.
pub fn handle_login(
    db: &mut AccountDatabase,
    request: Option<LoginCredentials>,
    now_nanos: u128,
) -> (out: LoginOutcome)
    requires
        old(db).wf(),
    ensures
        final(db).wf(),
        final(db)@ == login_effect(old(db)@, login_decision(old(db)@, request, now_nanos)),
        match login_decision(old(db)@, request, now_nanos) {
            LoginDecision::Refuse(code, message) => out matches LoginOutcome::Respond(r)
                && r.is_error(code, message),
            LoginDecision::SignIn(a) => out matches LoginOutcome::Respond(r) && r.is_login_for(a),
            LoginDecision::Register(a) => if old(db)@.next_uid < u32::MAX {
                out matches LoginOutcome::Registered(acc) && acc@ == a
            } else {
                out is UidsExhausted
            },
        },
{
    let credentials = match request {
        None => return LoginOutcome::Respond(error_response(-1, "Invalid request")),
        Some(c) => c,
    };
    let username = match decrypt_field(credentials.account) {
        Ok(text) => text,
        Err(_) => return LoginOutcome::Respond(
            error_response(-101, "Login failed. Your client patch might be unsupported."),
        ),
    };
    let password = match decrypt_field(credentials.password) {
        Ok(text) => text,
        Err(_) => return LoginOutcome::Respond(
            error_response(-101, "Login failed. Your client patch might be unsupported."),
        ),
    };
    if username.as_str().is_empty() {
        return LoginOutcome::Respond(error_response(-101, "Username is empty"));
    }
    if username.as_str().as_bytes().len() > 64 {
        return LoginOutcome::Respond(error_response(-101, "Username is too long"));
    }
    let password_hash = hash_password(password.as_str());
    match db.find_by_username(username.as_str()) {
        Some(account) => {
            if account.password_hash == password_hash {
                return LoginOutcome::Respond(login_response(account));
            } else {
                return LoginOutcome::Respond(error_response(-101, "Account or password error"));
            }
        },
        None => {},
    }
    if db.next_uid() == u32::MAX {
        return LoginOutcome::UidsExhausted;
    }
    let uid = db.take_next_uid();
    let token = generate_token(uid, username.as_str(), now_nanos);
    let account = Account { uid, username: username.clone(), password_hash, token };
    db.put(username, account.duplicate());
    LoginOutcome::Registered(account)
}

/// The answer after a registration, once saving the database succeeded or failed.
pub fn finish_registration(account: &Account, saved: bool) -> (r: Reply)
    ensures
        saved ==> r.is_login_for(account@),
        !saved ==> r.is_error(-1, "Failed to save account"@),
{
    if saved {
        login_response(account)
    } else {
        error_response(-1, "Failed to save account")
    }
}

} // verus!
