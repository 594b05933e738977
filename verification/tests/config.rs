use rokind_reminder::config::{
    build_config, effective_google_oauth_config, env_config_value, initial_google_oauth_config,
    oauth_config_diagnostics, trimmed_config_value, BuildConfig, EnvFile,
};
use rokind_reminder::state::GoogleOAuthConfig;

fn some(s: &str) -> Option<String> {
    Some(s.to_string())
}

fn build() -> BuildConfig {
    BuildConfig {
        client_id: some(" embedded-id "),
        client_secret: some("  "),
        source: some("embedded from /x/.env"),
    }
}

fn nothing() -> BuildConfig {
    BuildConfig { client_id: None, client_secret: None, source: None }
}

fn saved(id: Option<&str>, secret: Option<&str>) -> Option<GoogleOAuthConfig> {
    Some(GoogleOAuthConfig {
        client_id: id.map(|s| s.to_string()),
        client_secret: secret.map(|s| s.to_string()),
    })
}

#[test]
fn values_are_trimmed() {
    assert_eq!(trimmed_config_value("  abc\n"), some("abc"));
    assert_eq!(trimmed_config_value(" \u{3000} "), None);
    assert_eq!(trimmed_config_value(""), None);
}

#[test]
fn embedded_values_by_name() {
    assert_eq!(env_config_value(&build(), "GOOGLE_CLIENT_ID"), some("embedded-id"));
    assert_eq!(env_config_value(&build(), "GOOGLE_CLIENT_SECRET"), None);
    assert_eq!(env_config_value(&build(), "OTHER"), None);
    assert_eq!(env_config_value(&nothing(), "GOOGLE_CLIENT_ID"), None);
}

#[test]
fn initial_credentials_come_from_the_build() {
    let initial = initial_google_oauth_config(&build());
    assert_eq!(initial.client_id, some("embedded-id"));
    assert_eq!(initial.client_secret, None);
}

#[test]
fn saved_credentials_replace_the_embedded_ones() {
    let effective = effective_google_oauth_config(&None, &build());
    assert_eq!(effective.client_id, some("embedded-id"));
    let effective = effective_google_oauth_config(&saved(Some(" mine "), Some("s")), &build());
    assert_eq!(effective.client_id, some("mine"));
    assert_eq!(effective.client_secret, some("s"));
    let effective = effective_google_oauth_config(&saved(Some("  "), None), &build());
    assert_eq!(effective.client_id, None);
    assert_eq!(effective.client_secret, None);
    let again = effective_google_oauth_config(&Some(effective.clone()), &nothing());
    assert!(again.same(&effective));
}

#[test]
fn diagnostics_tell_where_credentials_come_from() {
    assert_eq!(
        oauth_config_diagnostics(&None, &build()),
        "embedded from /x/.env / GOOGLE_CLIENT_ID: initial from build / GOOGLE_CLIENT_SECRET: missing"
    );
    assert_eq!(
        oauth_config_diagnostics(&saved(Some("a"), Some(" ")), &build()),
        "embedded from /x/.env / GOOGLE_CLIENT_ID: saved / GOOGLE_CLIENT_SECRET: saved empty"
    );
    assert_eq!(
        oauth_config_diagnostics(&saved(None, Some("b")), &nothing()),
        "build-time source: unknown / GOOGLE_CLIENT_ID: saved empty / GOOGLE_CLIENT_SECRET: saved"
    );
    assert_eq!(
        oauth_config_diagnostics(&None, &nothing()),
        "build-time source: unknown / GOOGLE_CLIENT_ID: missing / GOOGLE_CLIENT_SECRET: missing"
    );
    let secret_only = BuildConfig { client_id: None, client_secret: some("x"), source: None };
    assert_eq!(
        oauth_config_diagnostics(&None, &secret_only),
        "build-time source: unknown / GOOGLE_CLIENT_ID: missing / GOOGLE_CLIENT_SECRET: initial from build"
    );
}

fn pair(name: &str, value: &str) -> (String, String) {
    (name.to_string(), value.to_string())
}

#[test]
fn a_build_embeds_the_last_values() {
    let env = EnvFile::Read(vec![
        pair("GOOGLE_CLIENT_ID", "first"),
        pair("OTHER", "x"),
        pair("GOOGLE_CLIENT_ID", " second "),
        pair("GOOGLE_CLIENT_SECRET", "   "),
    ]);
    let built = build_config("/p/.env", &env);
    assert_eq!(built.client_id, some("second"));
    assert_eq!(built.client_secret, None);
    assert_eq!(built.source, some("embedded from /p/.env"));
    let effective = effective_google_oauth_config(&None, &built);
    assert_eq!(effective.client_id, some("second"));
    assert_eq!(effective.client_secret, None);
}

#[test]
fn a_build_without_its_file_embeds_nothing() {
    let built = build_config("/p/.env", &EnvFile::Missing);
    assert_eq!(built.client_id, None);
    assert_eq!(built.client_secret, None);
    assert_eq!(built.source, some("build-time .env not found: /p/.env"));
    let built = build_config("/p/.env", &EnvFile::Unreadable("denied".to_string()));
    assert_eq!(built.client_id, None);
    assert_eq!(built.source, some("build-time .env load error at /p/.env: denied"));
}
