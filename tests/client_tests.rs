use mini_rusaint::client::{SapSsrClient, SapSsrClientError};
use mini_rusaint::session::{check_sso_cookie, has_cookie_named, Credentials, USaintSessionError};

const FIXTURE: &str = r#"<html><body>
<form id="sap.client.SsrClient.form" action="/sap/bc/webdynpro/SAP/ZCMB3W0017?sap-contextid=abc" method="post">
<input type="hidden" name="sap-charset" value="utf-8">
<input type="hidden" name="sap-wd-secure-id" value="SECURE123">
<input type="hidden" name="fesrAppName" value="ZCMB3W0017">
<input type="hidden" name="fesrUseBeacon" value="true">
<input type="hidden" name="other" value="ignored">
</form>
</body></html>"#;

#[test]
fn bootstrap_reads_all_fields_from_the_form() {
    let client = SapSsrClient::from_document(FIXTURE);
    assert_eq!(
        client.action_url,
        "/sap/bc/webdynpro/SAP/ZCMB3W0017?sap-contextid=abc"
    );
    assert_eq!(client.charset, "utf-8");
    assert_eq!(client.wd_secure_id, "SECURE123");
    assert_eq!(client.app_name, "ZCMB3W0017");
    assert!(client.use_beacon);
}

#[test]
fn bootstrap_without_the_form_leaves_fields_empty() {
    let client = SapSsrClient::from_document(
        "<html><body><form id=\"other\" action=\"/x\"><input name=\"sap-charset\" value=\"utf-8\"></form></body></html>",
    );
    assert_eq!(client.action_url, "");
    assert_eq!(client.charset, "");
    assert_eq!(client.wd_secure_id, "");
    assert_eq!(client.app_name, "");
    assert!(!client.use_beacon);
    assert_eq!(
        client.action_target().err(),
        Some(SapSsrClientError::BootstrapParseIncomplete)
    );
}

#[test]
fn beacon_is_on_only_for_true() {
    let client = SapSsrClient::from_document(
        "<form id=\"sap.client.SsrClient.form\" action=\"/a\"><input name=\"fesrUseBeacon\" value=\"TRUE\"></form>",
    );
    assert!(!client.use_beacon);
    assert_eq!(client.action_url, "/a");
}

#[test]
fn form_without_action_has_empty_url() {
    let forms = vec![(
        None,
        vec![(Some("sap-charset".to_string()), Some("utf-8".to_string())), (None, Some("x".to_string()))],
    )];
    let client = SapSsrClient::from_forms(&forms);
    assert_eq!(client.action_url, "");
    assert_eq!(client.charset, "utf-8");
}

#[test]
fn bootstrap_url_of_an_application() {
    assert_eq!(
        SapSsrClient::bootstrap_url("ZCMB3W0017"),
        "https://ecc.ssu.ac.kr/sap/bc/webdynpro/SAP/ZCMB3W0017?sap-wd-stableids=x"
    );
}

#[test]
fn action_target_joins_base_and_action() {
    let client = SapSsrClient::from_document(FIXTURE);
    assert_eq!(
        client.action_target().unwrap(),
        "https://ecc.ssu.ac.kr//sap/bc/webdynpro/SAP/ZCMB3W0017?sap-contextid=abc"
    );
}

fn pairs(v: &[(&str, &str)]) -> Vec<(String, String)> {
    v.iter().map(|(k, x)| (k.to_string(), x.to_string())).collect()
}

#[test]
fn form_data_without_and_with_queue() {
    let client = SapSsrClient::from_document(FIXTURE);
    assert_eq!(
        client.form_data(None),
        pairs(&[
            ("charset", "utf-8"),
            ("sap-wd-secure-id", "SECURE123"),
            ("fesrAppName", "ZCMB3W0017"),
            ("fesrUseBeacon", "true"),
        ])
    );
    assert_eq!(
        client.form_data(Some("Q")),
        pairs(&[
            ("charset", "utf-8"),
            ("sap-wd-secure-id", "SECURE123"),
            ("fesrAppName", "ZCMB3W0017"),
            ("fesrUseBeacon", "true"),
            ("SAPEVENTQUEUE", "Q"),
        ])
    );
}

#[test]
fn login_form_fields() {
    let credentials = Credentials::new("20241234".to_string(), "pw".to_string());
    assert_eq!(
        credentials.login_form(),
        pairs(&[
            ("sap-user", "20241234"),
            ("sap-password", "pw"),
            ("sap-system-login", "onLogin"),
        ])
    );
}

#[test]
fn session_is_made_when_the_cookie_arrived() {
    assert_eq!(check_sso_cookie(Some("sap-usercontext=x; MYSAPSSO2=AjExMDAg")), Ok(()));
}

#[test]
fn session_is_refused_without_the_cookie() {
    assert_eq!(
        check_sso_cookie(Some("sap-usercontext=x")),
        Err(USaintSessionError::MissingMYSAPSSO2Cookie)
    );
    assert_eq!(
        check_sso_cookie(None),
        Err(USaintSessionError::MissingMYSAPSSO2Cookie)
    );
}

#[test]
fn session_is_refused_for_a_cookie_with_a_longer_name() {
    assert_eq!(
        check_sso_cookie(Some("XMYSAPSSO2=1")),
        Err(USaintSessionError::MissingMYSAPSSO2Cookie)
    );
    assert_eq!(
        check_sso_cookie(Some("a=MYSAPSSO2=1")),
        Err(USaintSessionError::MissingMYSAPSSO2Cookie)
    );
    assert_eq!(check_sso_cookie(Some("MYSAPSSO2=AjE")), Ok(()));
}

#[test]
fn cookie_names_in_a_header() {
    assert!(has_cookie_named("a=1; b=2", "a"));
    assert!(has_cookie_named("a=1; b=2", "b"));
    assert!(!has_cookie_named("a=1; bb=2", "b"));
    assert!(!has_cookie_named("a=1;b=2", "b"));
    assert!(!has_cookie_named("b", "b"));
    assert!(!has_cookie_named("", "b"));
}

#[test]
fn bootstrap_page_without_submission_url_is_refused() {
    assert_eq!(
        SapSsrClient::from_bootstrap_page("<html><body></body></html>").err(),
        Some(SapSsrClientError::BootstrapParseIncomplete)
    );
    let client = SapSsrClient::from_bootstrap_page(FIXTURE).unwrap();
    assert_eq!(client.wd_secure_id, "SECURE123");
}

#[test]
fn bootstrap_reads_inputs_in_any_order() {
    let client = SapSsrClient::from_document(
        r#"<form id="sap.client.SsrClient.form" action="/act"><input name="fesrUseBeacon" value="false"><input name="x"><input name="fesrAppName" value="APP"><input name="sap-wd-secure-id" value="S1"><input name="sap-charset" value="iso-8859-1"></form>"#,
    );
    assert_eq!(client.action_url, "/act");
    assert_eq!(client.charset, "iso-8859-1");
    assert_eq!(client.wd_secure_id, "S1");
    assert_eq!(client.app_name, "APP");
    assert!(!client.use_beacon);
}
