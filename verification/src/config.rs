//! The credentials of the OAuth client: those embedded at build time, those that the user
//! saved, and which of the two are in effect.

use vstd::prelude::*;

use crate::oauth;
use crate::oauth::Pairs;
use crate::state;
use crate::state::{ConfigView, GoogleOAuthConfig};
use crate::text;

verus! {

/// The file beside the project that the build reads credentials from.
#[derive(Debug)]
pub enum EnvFile {
    /// There is none.
    Missing,
    /// It could not be opened; the message says why.
    Unreadable(String),
    /// Its names and values, in their order.
    Read(Vec<(String, String)>),
}

/// The file that the build reads credentials from, as texts.
pub enum EnvView {
    Missing,
    Unreadable(Seq<char>),
    Read(Pairs),
}

impl View for EnvFile {
    type V = EnvView;

    open spec fn view(&self) -> EnvView {
        match *self {
            EnvFile::Missing => EnvView::Missing,
            EnvFile::Unreadable(error) => EnvView::Unreadable(error@),
            EnvFile::Read(pairs) => EnvView::Read(oauth::pair_views(pairs@)),
        }
    }
}

/// What was embedded at build time.
#[derive(Debug)]
pub struct BuildConfig {
    pub client_id: Option<String>,
    pub client_secret: Option<String>,
    /// Where the credentials were read from.
    pub source: Option<String>,
}

/// What was embedded at build time, as texts.
#[verifier::ext_equal]
pub struct BuildView {
    pub client_id: Option<Seq<char>>,
    pub client_secret: Option<Seq<char>>,
    pub source: Option<Seq<char>>,
}

impl View for BuildConfig {
    type V = BuildView;

    open spec fn view(&self) -> BuildView {
        BuildView {
            client_id: text::opt_text(self.client_id),
            client_secret: text::opt_text(self.client_secret),
            source: text::opt_text(self.source),
        }
    }
}

/// A value without white space around it, where something is left.
pub open spec fn trimmed_value(value: Seq<char>) -> Option<Seq<char>> {
    if text::trimmed(value).len() == 0 {
        None
    } else {
        Some(text::trimmed(value))
    }
}

/// An optional value without white space around it, where something is left.
pub open spec fn trimmed_opt(value: Option<Seq<char>>) -> Option<Seq<char>> {
    match value {
        Some(value) => trimmed_value(value),
        None => None,
    }
}

/// The value without white space around it, where something is left.
pub fn trimmed_config_value(value: &str) -> (r: Option<String>)
    ensures
        text::opt_text(r) == trimmed_value(value@),
{
    let trimmed = text::trim(value);
    if trimmed.as_str().is_empty() {
        None
    } else {
        Some(trimmed)
    }
}

/// The optional value without white space around it, where something is left.
fn trimmed_config_opt(value: &Option<String>) -> (r: Option<String>)
    ensures
        text::opt_text(r) == trimmed_opt(text::opt_text(*value)),
{
    match value {
        Some(value) => trimmed_config_value(value.as_str()),
        None => None,
    }
}

/// What a build embeds when its file of credentials is at `path`: of several values for a name
/// the last one, without white space around it, where something is left.
pub open spec fn built(path: Seq<char>, env: EnvView) -> BuildView {
    match env {
        EnvView::Missing => BuildView {
            client_id: None,
            client_secret: None,
            source: Some("build-time .env not found: "@ + path),
        },
        EnvView::Unreadable(error) => BuildView {
            client_id: None,
            client_secret: None,
            source: Some("build-time .env load error at "@ + path + ": "@ + error),
        },
        EnvView::Read(pairs) => BuildView {
            client_id: trimmed_opt(oauth::last_value(pairs, "GOOGLE_CLIENT_ID"@)),
            client_secret: trimmed_opt(oauth::last_value(pairs, "GOOGLE_CLIENT_SECRET"@)),
            source: Some("embedded from "@ + path),
        },
    }
}

/// What a build embeds when its file of credentials is at `path`.
pub fn build_config(path: &str, env: &EnvFile) -> (r: BuildConfig)
    ensures
        r@ == built(path@, env@),
{
    match env {
        EnvFile::Missing => {
            let mut source = "build-time .env not found: ".to_string();
            source.append(path);
            BuildConfig { client_id: None, client_secret: None, source: Some(source) }
        },
        EnvFile::Unreadable(error) => {
            let mut source = "build-time .env load error at ".to_string();
            source.append(path);
            source.append(": ");
            source.append(error.as_str());
            BuildConfig { client_id: None, client_secret: None, source: Some(source) }
        },
        EnvFile::Read(pairs) => {
            let mut source = "embedded from ".to_string();
            source.append(path);
            BuildConfig {
                client_id: trimmed_config_opt(&oauth::find_last_value(pairs, "GOOGLE_CLIENT_ID")),
                client_secret: trimmed_config_opt(
                    &oauth::find_last_value(pairs, "GOOGLE_CLIENT_SECRET"),
                ),
                source: Some(source),
            }
        },
    }
}

/// What the build embedded under a name.
pub open spec fn embedded(build: BuildView, name: Seq<char>) -> Option<Seq<char>> {
    if name == "GOOGLE_CLIENT_ID"@ {
        trimmed_opt(build.client_id)
    } else if name == "GOOGLE_CLIENT_SECRET"@ {
        trimmed_opt(build.client_secret)
    } else {
        None
    }
}

/// What the build embedded under a name, without white space around it.
pub fn env_config_value(build: &BuildConfig, name: &str) -> (r: Option<String>)
    ensures
        text::opt_text(r) == embedded(build@, name@),
{
    if text::same_text(name, "GOOGLE_CLIENT_ID") {
        trimmed_config_opt(&build.client_id)
    } else if text::same_text(name, "GOOGLE_CLIENT_SECRET") {
        trimmed_config_opt(&build.client_secret)
    } else {
        None
    }
}

/// The credentials that the build embedded.
pub open spec fn initial_config(build: BuildView) -> ConfigView {
    ConfigView {
        client_id: trimmed_opt(build.client_id),
        client_secret: trimmed_opt(build.client_secret),
    }
}

/// The credentials that the build embedded.
pub fn initial_google_oauth_config(build: &BuildConfig) -> (r: GoogleOAuthConfig)
    ensures
        r@ == initial_config(build@),
{
    proof {
        lemma_names_differ();
    }
    GoogleOAuthConfig {
        client_id: env_config_value(build, "GOOGLE_CLIENT_ID"),
        client_secret: env_config_value(build, "GOOGLE_CLIENT_SECRET"),
    }
}

proof fn lemma_names_differ()
    ensures
        "GOOGLE_CLIENT_ID"@ != "GOOGLE_CLIENT_SECRET"@,
{
    reveal_strlit("GOOGLE_CLIENT_ID");
    reveal_strlit("GOOGLE_CLIENT_SECRET");
    assert("GOOGLE_CLIENT_ID"@.len() != "GOOGLE_CLIENT_SECRET"@.len());
}

/// The credentials in effect: once the user has saved any, those and nothing else; before
/// that, the embedded ones.
pub open spec fn effective_config(stored: Option<ConfigView>, build: BuildView) -> ConfigView {
    match stored {
        Some(stored) => ConfigView {
            client_id: trimmed_opt(stored.client_id),
            client_secret: trimmed_opt(stored.client_secret),
        },
        None => initial_config(build),
    }
}

/// The credentials in effect.
pub fn effective_google_oauth_config(
    stored: &Option<GoogleOAuthConfig>,
    build: &BuildConfig,
) -> (r: GoogleOAuthConfig)
    ensures
        r@ == effective_config(state::opt_config(*stored), build@),
{
    match stored {
        Some(stored) => GoogleOAuthConfig {
            client_id: trimmed_config_opt(&stored.client_id),
            client_secret: trimmed_config_opt(&stored.client_secret),
        },
        None => initial_google_oauth_config(build),
    }
}

/// What the diagnostics say of the client id.
pub open spec fn id_diagnosis(stored: Option<ConfigView>, build: BuildView) -> Seq<char> {
    match stored {
        Some(stored) => if trimmed_opt(stored.client_id) is Some {
            "GOOGLE_CLIENT_ID: saved"@
        } else {
            "GOOGLE_CLIENT_ID: saved empty"@
        },
        None => if initial_config(build).client_id is Some {
            "GOOGLE_CLIENT_ID: initial from build"@
        } else {
            "GOOGLE_CLIENT_ID: missing"@
        },
    }
}

/// What the diagnostics say of the client secret.
pub open spec fn secret_diagnosis(stored: Option<ConfigView>, build: BuildView) -> Seq<char> {
    match stored {
        Some(stored) => if trimmed_opt(stored.client_secret) is Some {
            "GOOGLE_CLIENT_SECRET: saved"@
        } else {
            "GOOGLE_CLIENT_SECRET: saved empty"@
        },
        None => if initial_config(build).client_secret is Some {
            "GOOGLE_CLIENT_SECRET: initial from build"@
        } else {
            "GOOGLE_CLIENT_SECRET: missing"@
        },
    }
}

/// Where the embedded credentials were read from, as the diagnostics say it.
pub open spec fn source_diagnosis(build: BuildView) -> Seq<char> {
    match build.source {
        Some(source) => source,
        None => "build-time source: unknown"@,
    }
}

/// The line of diagnostics on the credentials.
pub open spec fn diagnostics(stored: Option<ConfigView>, build: BuildView) -> Seq<char> {
    source_diagnosis(build) + " / "@ + id_diagnosis(stored, build) + " / "@ + secret_diagnosis(
        stored,
        build,
    )
}

/// The line of diagnostics on the credentials.
pub fn oauth_config_diagnostics(
    stored: &Option<GoogleOAuthConfig>,
    build: &BuildConfig,
) -> (r: String)
    ensures
        r@ == diagnostics(state::opt_config(*stored), build@),
{
    let initial = initial_google_oauth_config(build);
    let id_state = match stored {
        Some(stored) => if trimmed_config_opt(&stored.client_id).is_some() {
            "GOOGLE_CLIENT_ID: saved"
        } else {
            "GOOGLE_CLIENT_ID: saved empty"
        },
        None => if initial.client_id.is_some() {
            "GOOGLE_CLIENT_ID: initial from build"
        } else {
            "GOOGLE_CLIENT_ID: missing"
        },
    };
    let secret_state = match stored {
        Some(stored) => if trimmed_config_opt(&stored.client_secret).is_some() {
            "GOOGLE_CLIENT_SECRET: saved"
        } else {
            "GOOGLE_CLIENT_SECRET: saved empty"
        },
        None => if initial.client_secret.is_some() {
            "GOOGLE_CLIENT_SECRET: initial from build"
        } else {
            "GOOGLE_CLIENT_SECRET: missing"
        },
    };
    let mut line = match &build.source {
        Some(source) => source.clone(),
        None => "build-time source: unknown".to_string(),
    };
    line.append(" / ");
    line.append(id_state);
    line.append(" / ");
    line.append(secret_state);
    line
}

/// Before the user saves any credentials, those in effect are the ones in the file that the
/// build read.
pub proof fn law_embedded_credentials_are_in_effect(path: Seq<char>, pairs: Pairs)
    ensures
        built(path, EnvView::Read(pairs)).source == Some("embedded from "@ + path),
        effective_config(None, built(path, EnvView::Read(pairs))) == (ConfigView {
            client_id: trimmed_opt(oauth::last_value(pairs, "GOOGLE_CLIENT_ID"@)),
            client_secret: trimmed_opt(oauth::last_value(pairs, "GOOGLE_CLIENT_SECRET"@)),
        }),
{
    lemma_trimmed_opt_stable(oauth::last_value(pairs, "GOOGLE_CLIENT_ID"@));
    lemma_trimmed_opt_stable(oauth::last_value(pairs, "GOOGLE_CLIENT_SECRET"@));
}

/// A value without white space around it has none to lose.
proof fn lemma_trimmed_opt_stable(value: Option<Seq<char>>)
    ensures
        trimmed_opt(trimmed_opt(value)) == trimmed_opt(value),
{
    if let Some(v) = value {
        text::law_trim_idempotent(v);
    }
}

/// Credentials in effect, once saved, are the ones in effect.
pub proof fn law_effective_config_is_stable(stored: Option<ConfigView>, build: BuildView)
    ensures
        effective_config(Some(effective_config(stored, build)), build) == effective_config(
            stored,
            build,
        ),
{
    assert forall|value: Option<Seq<char>>| #[trigger]
        trimmed_opt(trimmed_opt(value)) == trimmed_opt(value) by {
        lemma_trimmed_opt_stable(value);
    }
}

/// Credentials that the user saved are never mixed with embedded ones.
pub proof fn law_saved_config_hides_build(stored: ConfigView, one: BuildView, other: BuildView)
    ensures
        effective_config(Some(stored), one) == effective_config(Some(stored), other),
{
}

/// A value counts exactly when it holds a character other than white space, and then it is the
/// value without the white space around it.
pub proof fn law_blank_values_do_not_count(value: Seq<char>)
    ensures
        trimmed_value(value) is None <==> (forall|j: int|
            0 <= j < value.len() ==> text::white_space(#[trigger] value[j])),
        trimmed_value(value) matches Some(left) ==> left == text::trimmed(value),
        trimmed_opt(Some(value)) == trimmed_value(value),
        trimmed_opt(None) is None,
{
    text::law_blank_text_leaves_nothing(value);
}

/// Saved credentials are in effect each for itself: the id comes from the saved id and the secret
/// from the saved secret, whatever the build embedded. Before any are saved, each comes from the
/// build.
pub proof fn law_credentials_are_not_mixed(stored: ConfigView, build: BuildView)
    ensures
        effective_config(Some(stored), build).client_id == trimmed_opt(stored.client_id),
        effective_config(Some(stored), build).client_secret == trimmed_opt(stored.client_secret),
        effective_config(None, build).client_id == trimmed_opt(build.client_id),
        effective_config(None, build).client_secret == trimmed_opt(build.client_secret),
        embedded(build, "GOOGLE_CLIENT_ID"@) == trimmed_opt(build.client_id),
        embedded(build, "GOOGLE_CLIENT_SECRET"@) == trimmed_opt(build.client_secret),
{
    lemma_names_differ();
}

/// The diagnostics name the source and tell of id and secret each for itself whether it was
/// saved, saved empty, embedded or is missing.
pub proof fn law_diagnostics_tell_the_origin(
    stored: Option<ConfigView>,
    build: BuildView,
    source: Seq<char>,
    id: Seq<char>,
    secret: Seq<char>,
)
    requires
        build.source == Some(source) || (build.source is None && source
            == "build-time source: unknown"@),
        id == match (stored is Some, effective_config(stored, build).client_id is Some) {
            (true, true) => "GOOGLE_CLIENT_ID: saved"@,
            (true, false) => "GOOGLE_CLIENT_ID: saved empty"@,
            (false, true) => "GOOGLE_CLIENT_ID: initial from build"@,
            (false, false) => "GOOGLE_CLIENT_ID: missing"@,
        },
        secret == match (stored is Some, effective_config(stored, build).client_secret is Some) {
            (true, true) => "GOOGLE_CLIENT_SECRET: saved"@,
            (true, false) => "GOOGLE_CLIENT_SECRET: saved empty"@,
            (false, true) => "GOOGLE_CLIENT_SECRET: initial from build"@,
            (false, false) => "GOOGLE_CLIENT_SECRET: missing"@,
        },
    ensures
        diagnostics(stored, build) == source + " / "@ + id + " / "@ + secret,
{
}

/// A build that finds no file of credentials, or cannot read it, embeds none.
pub proof fn law_no_file_embeds_nothing(path: Seq<char>, error: Seq<char>)
    ensures
        effective_config(None, built(path, EnvView::Missing)).client_id is None,
        effective_config(None, built(path, EnvView::Missing)).client_secret is None,
        effective_config(None, built(path, EnvView::Unreadable(error))).client_id is None,
        effective_config(None, built(path, EnvView::Unreadable(error))).client_secret is None,
        built(path, EnvView::Missing).source == Some("build-time .env not found: "@ + path),
        built(path, EnvView::Unreadable(error)).source == Some(
            "build-time .env load error at "@ + path + ": "@ + error,
        ),
{
}

/// Under any other name nothing was embedded.
pub proof fn law_other_names_hold_nothing(build: BuildView, name: Seq<char>)
    requires
        name != "GOOGLE_CLIENT_ID"@,
        name != "GOOGLE_CLIENT_SECRET"@,
    ensures
        embedded(build, name) is None,
{
}

} // verus!
