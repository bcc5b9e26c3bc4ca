use roxy::dispatch::{query_dispatch, query_gateway};
use roxy::reply::{Payload, Reply};
use roxy::routing::{handle_request, route, Endpoint, RequestPlan};

#[test]
fn route_serves_both_path_forms() {
    let table = [
        ("POST", "/account/ma-passport/api/appLoginByPassword", Endpoint::LoginByPassword),
        ("POST", "/account/ma-passport/token/verifySToken", Endpoint::VerifySToken),
        ("POST", "/combo/granter/login/v2/login", Endpoint::ComboLogin),
        ("POST", "/account/ma-passport/api/logout", Endpoint::Logout),
        ("POST", "/mdk/shield/api/loadConfig", Endpoint::LoadConfig),
        ("GET", "/mdk/shield/api/loadConfig", Endpoint::LoadConfig),
        ("POST", "/sdk/dataUpload", Endpoint::DataUpload),
    ];
    for (method, path, endpoint) in table {
        assert_eq!(route(method, path), endpoint, "{method} {path}");
        assert_eq!(route(method, &format!("/nap_global{path}")), endpoint, "{method} /nap_global{path}");
    }
}

#[test]
fn route_refuses_other_methods_and_paths() {
    assert_eq!(route("GET", "/account/ma-passport/api/appLoginByPassword"), Endpoint::NotImplemented);
    assert_eq!(route("PUT", "/mdk/shield/api/loadConfig"), Endpoint::NotImplemented);
    assert_eq!(route("post", "/sdk/dataUpload"), Endpoint::NotImplemented);
    assert_eq!(route("POST", "/sdk/dataUpload/"), Endpoint::NotImplemented);
    assert_eq!(route("POST", "/nap_global/nap_global/sdk/dataUpload"), Endpoint::NotImplemented);
    assert_eq!(route("POST", "/other/sdk/dataUpload"), Endpoint::NotImplemented);
    assert_eq!(route("GET", "/"), Endpoint::NotImplemented);
}

fn expect_error(plan: RequestPlan, code: i32, text: &str) {
    match plan {
        RequestPlan::Respond(Reply::Error { retcode, message }) => {
            assert_eq!(retcode, code);
            assert_eq!(message, text);
        }
        _ => panic!("expected an error answer"),
    }
}

#[test]
fn handle_request_plans_each_endpoint() {
    let body = || Some(b"{\"a\":1}".to_vec());
    match handle_request("POST", "/account/ma-passport/api/appLoginByPassword", body()) {
        RequestPlan::Login(text) => assert_eq!(text, "{\"a\":1}"),
        _ => panic!("expected a login"),
    }
    assert!(matches!(handle_request("POST", "/nap_global/account/ma-passport/token/verifySToken", body()), RequestPlan::VerifySToken(_)));
    assert!(matches!(handle_request("POST", "/combo/granter/login/v2/login", body()), RequestPlan::ComboLogin(_)));
    assert!(matches!(handle_request("POST", "/account/ma-passport/api/logout", body()), RequestPlan::Respond(Reply::Success(Payload::Empty))));
    assert!(matches!(handle_request("POST", "/sdk/dataUpload", body()), RequestPlan::Respond(Reply::Success(Payload::Empty))));
    match handle_request("GET", "/mdk/shield/api/loadConfig", Some(Vec::new())) {
        RequestPlan::Respond(Reply::Success(Payload::Config(config))) => {
            assert_eq!(config.id, 31);
            assert_eq!(config.game_key, "nap_cn");
            assert_eq!(config.client, "PC");
            assert_eq!(config.identity, "I_IDENTITY");
            assert_eq!(config.scene, "S_NORMAL");
            assert_eq!(config.name, "Nap");
            assert_eq!(config.logo_height, "0");
            assert!(config.thirdparty.is_empty() && config.thirdparty_ignore.is_empty());
            assert!(!config.guest && !config.enable_cx_bind_account);
        }
        _ => panic!("expected the configuration"),
    }
    expect_error(handle_request("POST", "/unknown", body()), -1, "Endpoint not implemented");
}

#[test]
fn handle_request_reports_an_unreadable_body_first() {
    expect_error(handle_request("POST", "/account/ma-passport/api/appLoginByPassword", None), -1, "Failed to read request");
    expect_error(handle_request("GET", "/unknown", None), -1, "Failed to read request");
}

#[test]
fn handle_request_replaces_invalid_utf8_in_bodies() {
    match handle_request("POST", "/combo/granter/login/v2/login", Some(vec![b'a', 0xff, b'b'])) {
        RequestPlan::ComboLogin(text) => assert_eq!(text, "a\u{fffd}b"),
        _ => panic!("expected a combo login"),
    }
}

#[test]
fn dispatch_answers_name_the_local_region() {
    let regions = query_dispatch();
    assert_eq!(regions.retcode, 0);
    assert_eq!(regions.region_list.len(), 1);
    let region = &regions.region_list[0];
    assert_eq!(region.name, "prod_gf_cn");
    assert_eq!(region.title, "roxy");
    assert_eq!(region.dispatch_url, "http://127.0.0.1:12401/query_gateway/prod_gf_cn");
    assert_eq!(region.biz, "nap_global");
    assert_eq!((region.area, region.env, region.retcode, region.is_recommend), (2, 2, 0, true));
    let gateway = query_gateway();
    assert_eq!(gateway.retcode, 0);
    assert_eq!(gateway.message, "OK");
    assert_eq!(gateway.data.dispatch_url, region.dispatch_url);
    assert_eq!(gateway.data.gateway_url, "http://127.0.0.1:10000");
}
