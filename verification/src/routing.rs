//! Which handler serves a request, and the answers that need no account data.
use vstd::prelude::*;
use vstd::utf8::*;
use crate::reply::{config_response, error_response, ok_response, Reply};
use crate::text::text_eq;

verus! {

/// The SDK endpoints.
#[derive(PartialEq, Eq, Structural, Debug, Clone, Copy)]
pub enum Endpoint {
    LoginByPassword,
    VerifySToken,
    ComboLogin,
    Logout,
    LoadConfig,
    DataUpload,
    NotImplemented,
}

/// `path` is `base` itself, or `base` under the `/nap_global` prefix.
pub open spec fn served_at(path: Seq<char>, base: Seq<char>) -> bool {
    path == base || path == "/nap_global"@ + base
}

/// The endpoint for a method and a path.
pub open spec fn route_spec(method: Seq<char>, path: Seq<char>) -> Endpoint {
    let post = method == "POST"@;
    if post && served_at(path, "/account/ma-passport/api/appLoginByPassword"@) {
        Endpoint::LoginByPassword
    } else if post && served_at(path, "/account/ma-passport/token/verifySToken"@) {
        Endpoint::VerifySToken
    } else if post && served_at(path, "/combo/granter/login/v2/login"@) {
        Endpoint::ComboLogin
    } else if post && served_at(path, "/account/ma-passport/api/logout"@) {
        Endpoint::Logout
    } else if (post || method == "GET"@) && served_at(path, "/mdk/shield/api/loadConfig"@) {
        Endpoint::LoadConfig
    } else if post && served_at(path, "/sdk/dataUpload"@) {
        Endpoint::DataUpload
    } else {
        Endpoint::NotImplemented
    }
}

fn served_at_exec(path: &str, base: &str, prefixed: &str) -> (r: bool)
    requires
        prefixed@ == "/nap_global"@ + base@,
    ensures
        r == served_at(path@, base@),
{
    text_eq(path, base) || text_eq(path, prefixed)
}

/// The endpoint for a method and a path.
pub fn route(method: &str, path: &str) -> (e: Endpoint)
    ensures
        e == route_spec(method@, path@),
{
    proof {
        reveal_strlit("/nap_global");
        reveal_strlit("/account/ma-passport/api/appLoginByPassword");
        reveal_strlit("/nap_global/account/ma-passport/api/appLoginByPassword");
        reveal_strlit("/account/ma-passport/token/verifySToken");
        reveal_strlit("/nap_global/account/ma-passport/token/verifySToken");
        reveal_strlit("/combo/granter/login/v2/login");
        reveal_strlit("/nap_global/combo/granter/login/v2/login");
        reveal_strlit("/account/ma-passport/api/logout");
        reveal_strlit("/nap_global/account/ma-passport/api/logout");
        reveal_strlit("/mdk/shield/api/loadConfig");
        reveal_strlit("/nap_global/mdk/shield/api/loadConfig");
        reveal_strlit("/sdk/dataUpload");
        reveal_strlit("/nap_global/sdk/dataUpload");
        assert("/nap_global/account/ma-passport/api/appLoginByPassword"@ =~= "/nap_global"@
            + "/account/ma-passport/api/appLoginByPassword"@);
        assert("/nap_global/account/ma-passport/token/verifySToken"@ =~= "/nap_global"@
            + "/account/ma-passport/token/verifySToken"@);
        assert("/nap_global/combo/granter/login/v2/login"@ =~= "/nap_global"@
            + "/combo/granter/login/v2/login"@);
        assert("/nap_global/account/ma-passport/api/logout"@ =~= "/nap_global"@
            + "/account/ma-passport/api/logout"@);
        assert("/nap_global/mdk/shield/api/loadConfig"@ =~= "/nap_global"@
            + "/mdk/shield/api/loadConfig"@);
        assert("/nap_global/sdk/dataUpload"@ =~= "/nap_global"@ + "/sdk/dataUpload"@);
    }
    let post = text_eq(method, "POST");
    if post && served_at_exec(
        path,
        "/account/ma-passport/api/appLoginByPassword",
        "/nap_global/account/ma-passport/api/appLoginByPassword",
    ) {
        Endpoint::LoginByPassword
    } else if post && served_at_exec(
        path,
        "/account/ma-passport/token/verifySToken",
        "/nap_global/account/ma-passport/token/verifySToken",
    ) {
        Endpoint::VerifySToken
    } else if post && served_at_exec(
        path,
        "/combo/granter/login/v2/login",
        "/nap_global/combo/granter/login/v2/login",
    ) {
        Endpoint::ComboLogin
    } else if post && served_at_exec(
        path,
        "/account/ma-passport/api/logout",
        "/nap_global/account/ma-passport/api/logout",
    ) {
        Endpoint::Logout
    } else if (post || text_eq(method, "GET")) && served_at_exec(
        path,
        "/mdk/shield/api/loadConfig",
        "/nap_global/mdk/shield/api/loadConfig",
    ) {
        Endpoint::LoadConfig
    } else if post && served_at_exec(path, "/sdk/dataUpload", "/nap_global/sdk/dataUpload") {
        Endpoint::DataUpload
    } else {
        Endpoint::NotImplemented
    }
}

/// The text of a body with every invalid UTF-8 sequence replaced by U+FFFD.
pub uninterp spec fn utf8_lossy(bytes: Seq<u8>) -> Seq<char>;

/// `String::from_utf8_lossy`: the body as text, unchanged when it is valid UTF-8.
#[verifier::external_body]
fn body_text(bytes: &[u8]) -> (s: String)
    ensures
        s@ == utf8_lossy(bytes@),
        valid_utf8(bytes@) ==> s@ == decode_utf8(bytes@),
{
    String::from_utf8_lossy(bytes).into_owned()
}

/// The answer to a logout.
pub fn handle_logout() -> (r: Reply)
    ensures
        r.is_empty_success(),
{
    ok_response()
}

/// The answer to a configuration request.
pub fn handle_load_config() -> (r: Reply)
    ensures
        r.is_config(),
{
    config_response()
}

/// The answer to uploaded client data, which is not kept.
pub fn handle_data_upload(body: &str) -> (r: Reply)
    ensures
        r.is_empty_success(),
{
    ok_response()
}

/// What to do with a request: answer it now, or hand its body text to the handler that
/// reads request data and accounts.
pub enum RequestPlan {
    Respond(Reply),
    Login(String),
    VerifySToken(String),
    ComboLogin(String),
}

/// Serves a request given its method, its path and its body (`None` when the body could
/// not be read).
pub fn handle_request(method: &str, path: &str, body: Option<Vec<u8>>) -> (p: RequestPlan)
    ensures
        body is None ==> (p matches RequestPlan::Respond(r) && r.is_error(
            -1,
            "Failed to read request"@,
        )),
        body matches Some(b) ==> match route_spec(method@, path@) {
            Endpoint::LoginByPassword => p matches RequestPlan::Login(t) && t@ == utf8_lossy(b@),
            Endpoint::VerifySToken => p matches RequestPlan::VerifySToken(t) && t@ == utf8_lossy(
                b@,
            ),
            Endpoint::ComboLogin => p matches RequestPlan::ComboLogin(t) && t@ == utf8_lossy(b@),
            Endpoint::Logout => p matches RequestPlan::Respond(r) && r.is_empty_success(),
            Endpoint::LoadConfig => p matches RequestPlan::Respond(r) && r.is_config(),
            Endpoint::DataUpload => p matches RequestPlan::Respond(r) && r.is_empty_success(),
            Endpoint::NotImplemented => p matches RequestPlan::Respond(r) && r.is_error(
                -1,
                "Endpoint not implemented"@,
            ),
        },
{
    let bytes = match body {
        None => return RequestPlan::Respond(error_response(-1, "Failed to read request")),
        Some(b) => b,
    };
    let text = body_text(bytes.as_slice());
    match route(method, path) {
        Endpoint::LoginByPassword => RequestPlan::Login(text),
        Endpoint::VerifySToken => RequestPlan::VerifySToken(text),
        Endpoint::ComboLogin => RequestPlan::ComboLogin(text),
        Endpoint::Logout => RequestPlan::Respond(handle_logout()),
        Endpoint::LoadConfig => RequestPlan::Respond(handle_load_config()),
        Endpoint::DataUpload => RequestPlan::Respond(handle_data_upload(text.as_str())),
        Endpoint::NotImplemented => RequestPlan::Respond(
            error_response(-1, "Endpoint not implemented"),
        ),
    }
}

} // verus!
