//! What the SDK server answers: a return code with a message, and for a success the data
//! that goes with it.
use vstd::prelude::*;
use crate::account::{Account, AccountView};
use crate::decimal::{decimal, decimal_text};

verus! {

/// The session token part of a login answer.
pub struct TokenInfo {
    pub token_type: i32,
    pub token: String,
}

/// The profile part of a login answer.
pub struct UserInfo {
    pub aid: String,
    pub mid: String,
    pub account_name: String,
    pub email: String,
    pub is_email_verify: i32,
    pub area_code: String,
    pub mobile: String,
    pub safe_area_code: String,
    pub safe_mobile: String,
    pub realname: String,
    pub identity_code: String,
    pub rebind_area_code: String,
    pub rebind_mobile: String,
    pub rebind_mobile_time: String,
    pub links: Vec<String>,
    pub country: String,
    pub password_time: String,
    pub is_adult: i32,
    pub unmasked_email: String,
    pub unmasked_email_type: i32,
}

/// The extra profile part of a login answer.
pub struct ExtUserInfo {
    pub guardian_email: String,
    pub birth: String,
}

/// The data of a successful password or session-token login.
pub struct LoginData {
    pub token: TokenInfo,
    pub user_info: UserInfo,
    pub ext_user_info: ExtUserInfo,
    pub reactivate_action_ticket: String,
    pub bind_email_action_ticket: String,
}

/// The data of a successful combo login.
pub struct ComboData {
    pub account_type: i32,
    pub combo_id: String,
    pub combo_token: String,
    pub data: String,
    pub heartbeat: bool,
    pub open_id: String,
}

/// The client configuration that the SDK hands out.
pub struct ConfigData {
    pub id: i32,
    pub game_key: String,
    pub client: String,
    pub identity: String,
    pub guest: bool,
    pub ignore_versions: String,
    pub scene: String,
    pub name: String,
    pub disable_regist: bool,
    pub enable_email_captcha: bool,
    pub thirdparty: Vec<String>,
    pub disable_mmt: bool,
    pub server_guest: bool,
    pub thirdparty_ignore: Vec<(String, String)>,
    pub enable_ps_bind_account: bool,
    pub thirdparty_login_configs: Vec<(String, String)>,
    pub initialize_firebase: bool,
    pub bbs_auth_login: bool,
    pub bbs_auth_login_ignore: Vec<String>,
    pub fetch_instance_id: bool,
    pub enable_flash_login: bool,
    pub enable_logo_18: bool,
    pub logo_height: String,
    pub logo_width: String,
    pub enable_cx_bind_account: bool,
}

/// The data of a successful answer.
pub enum Payload {
    Empty,
    Login(LoginData),
    Combo(ComboData),
    Config(ConfigData),
}

/// An answer of the SDK server. A success carries return code 0 and message "OK".
pub enum Reply {
    Error { retcode: i32, message: String },
    Success(Payload),
}

impl UserInfo {
    /// Every field as the login answer for `a` has it.
    pub open spec fn describes(&self, a: AccountView) -> bool {
        &&& self.aid@ == decimal(a.uid as nat)
        &&& self.mid@ == decimal(a.uid as nat)
        &&& self.account_name@ == ""@
        &&& self.email@ == a.username
        &&& self.is_email_verify == 0
        &&& self.area_code@ == "**"@
        &&& self.mobile@ == ""@
        &&& self.safe_area_code@ == ""@
        &&& self.safe_mobile@ == ""@
        &&& self.realname@ == ""@
        &&& self.identity_code@ == ""@
        &&& self.rebind_area_code@ == ""@
        &&& self.rebind_mobile@ == ""@
        &&& self.rebind_mobile_time@ == "228"@
        &&& self.links@.len() == 0
        &&& self.country@ == "RU"@
        &&& self.password_time@ == "1337"@
        &&& self.is_adult == 0
        &&& self.unmasked_email@ == ""@
        &&& self.unmasked_email_type == 0
    }
}

impl LoginData {
    /// Every field as the login answer for `a` has it.
    pub open spec fn describes(&self, a: AccountView) -> bool {
        &&& self.token.token_type == 1
        &&& self.token.token@ == a.token
        &&& self.user_info.describes(a)
        &&& self.ext_user_info.guardian_email@ == ""@
        &&& self.ext_user_info.birth@ == "0"@
        &&& self.reactivate_action_ticket@ == ""@
        &&& self.bind_email_action_ticket@ == ""@
    }
}

impl ComboData {
    /// Every field as the combo login answer for `a` has it.
    pub open spec fn describes(&self, a: AccountView) -> bool {
        &&& self.account_type == 1
        &&& self.combo_id@ == decimal(a.uid as nat)
        &&& self.combo_token@ == a.token
        &&& self.data@ == "{\"guest\":false}"@
        &&& !self.heartbeat
        &&& self.open_id@ == decimal(a.uid as nat)
    }
}

impl ConfigData {
    /// Every field as the configuration answer has it.
    pub open spec fn is_standard(&self) -> bool {
        &&& self.id == 31
        &&& self.game_key@ == "nap_cn"@
        &&& self.client@ == "PC"@
        &&& self.identity@ == "I_IDENTITY"@
        &&& !self.guest
        &&& self.ignore_versions@ == ""@
        &&& self.scene@ == "S_NORMAL"@
        &&& self.name@ == "Nap"@
        &&& !self.disable_regist
        &&& !self.enable_email_captcha
        &&& self.thirdparty@.len() == 0
        &&& !self.disable_mmt
        &&& !self.server_guest
        &&& self.thirdparty_ignore@.len() == 0
        &&& !self.enable_ps_bind_account
        &&& self.thirdparty_login_configs@.len() == 0
        &&& !self.initialize_firebase
        &&& !self.bbs_auth_login
        &&& self.bbs_auth_login_ignore@.len() == 0
        &&& !self.fetch_instance_id
        &&& !self.enable_flash_login
        &&& !self.enable_logo_18
        &&& self.logo_height@ == "0"@
        &&& self.logo_width@ == "0"@
        &&& !self.enable_cx_bind_account
    }
}

impl Reply {
    /// An error answer with this code and message.
    pub open spec fn is_error(&self, retcode: int, message: Seq<char>) -> bool {
        self matches Reply::Error { retcode: c, message: m } && c == retcode && m@ == message
    }

    /// The login answer for account `a`.
    pub open spec fn is_login_for(&self, a: AccountView) -> bool {
        self matches Reply::Success(Payload::Login(d)) && d.describes(a)
    }

    /// The combo login answer for account `a`.
    pub open spec fn is_combo_for(&self, a: AccountView) -> bool {
        self matches Reply::Success(Payload::Combo(d)) && d.describes(a)
    }

    /// A success without data.
    pub open spec fn is_empty_success(&self) -> bool {
        self matches Reply::Success(Payload::Empty)
    }

    /// The configuration answer.
    pub open spec fn is_config(&self) -> bool {
        self matches Reply::Success(Payload::Config(d)) && d.is_standard()
    }
}

/// An error answer.
pub fn error_response(retcode: i32, message: &str) -> (r: Reply)
    ensures
        r.is_error(retcode as int, message@),
{
    Reply::Error { retcode, message: message.to_owned() }
}

/// A success without data.
pub fn ok_response() -> (r: Reply)
    ensures
        r.is_empty_success(),
{
    Reply::Success(Payload::Empty)
}

/// The profile of an account as the login answer shows it.
pub fn user_info(account: &Account) -> (u: UserInfo)
    ensures
        u.describes(account@),
{
    UserInfo {
        aid: decimal_text(account.uid as u128),
        mid: decimal_text(account.uid as u128),
        account_name: "".to_owned(),
        email: account.username.clone(),
        is_email_verify: 0,
        area_code: "**".to_owned(),
        mobile: "".to_owned(),
        safe_area_code: "".to_owned(),
        safe_mobile: "".to_owned(),
        realname: "".to_owned(),
        identity_code: "".to_owned(),
        rebind_area_code: "".to_owned(),
        rebind_mobile: "".to_owned(),
        rebind_mobile_time: "228".to_owned(),
        links: Vec::new(),
        country: "RU".to_owned(),
        password_time: "1337".to_owned(),
        is_adult: 0,
        unmasked_email: "".to_owned(),
        unmasked_email_type: 0,
    }
}

/// The answer to a successful login into `account`.
pub fn login_response(account: &Account) -> (r: Reply)
    ensures
        r.is_login_for(account@),
{
    Reply::Success(
        Payload::Login(
            LoginData {
                token: TokenInfo { token_type: 1, token: account.token.clone() },
                user_info: user_info(account),
                ext_user_info: ExtUserInfo {
                    guardian_email: "".to_owned(),
                    birth: "0".to_owned(),
                },
                reactivate_action_ticket: "".to_owned(),
                bind_email_action_ticket: "".to_owned(),
            },
        ),
    )
}

/// The answer to a successful combo login into `account`.
pub fn combo_response(account: &Account) -> (r: Reply)
    ensures
        r.is_combo_for(account@),
{
    Reply::Success(
        Payload::Combo(
            ComboData {
                account_type: 1,
                combo_id: decimal_text(account.uid as u128),
                combo_token: account.token.clone(),
                data: "{\"guest\":false}".to_owned(),
                heartbeat: false,
                open_id: decimal_text(account.uid as u128),
            },
        ),
    )
}

/// The client configuration answer.
pub fn config_response() -> (r: Reply)
    ensures
        r.is_config(),
{
    Reply::Success(
        Payload::Config(
            ConfigData {
                id: 31,
                game_key: "nap_cn".to_owned(),
                client: "PC".to_owned(),
                identity: "I_IDENTITY".to_owned(),
                guest: false,
                ignore_versions: "".to_owned(),
                scene: "S_NORMAL".to_owned(),
                name: "Nap".to_owned(),
                disable_regist: false,
                enable_email_captcha: false,
                thirdparty: Vec::new(),
                disable_mmt: false,
                server_guest: false,
                thirdparty_ignore: Vec::new(),
                enable_ps_bind_account: false,
                thirdparty_login_configs: Vec::new(),
                initialize_firebase: false,
                bbs_auth_login: false,
                bbs_auth_login_ignore: Vec::new(),
                fetch_instance_id: false,
                enable_flash_login: false,
                enable_logo_18: false,
                logo_height: "0".to_owned(),
                logo_width: "0".to_owned(),
                enable_cx_bind_account: false,
            },
        ),
    )
}

} // verus!
