//! HTTP clients (the `reqwest` crate). A client is opaque; what is known of
//! it is the settings it was built with, which the client keeps beside it.
use vstd::prelude::*;

verus! {

#[verifier::external_type_specification]
#[verifier::external_body]
pub struct ExClient(reqwest::Client);

/// Settings of a client tuned for many small requests to one host.
#[derive(Debug, Clone, Copy, PartialEq, Eq, Structural)]
pub struct TunedSettings {
    /// Whole-request timeout, in seconds.
    pub timeout_secs: u64,
    /// Connection timeout, in seconds.
    pub connect_timeout_secs: u64,
    /// Idle connections kept per host.
    pub pool_max_idle_per_host: usize,
    /// How long an idle connection is kept, in seconds.
    pub pool_idle_timeout_secs: u64,
    /// TCP keep-alive interval, in seconds.
    pub tcp_keepalive_secs: u64,
    /// Whether Nagle's algorithm is turned off.
    pub tcp_nodelay: bool,
}

/// Settings of a plain client: a request timeout and a user agent.
#[derive(Debug, Clone)]
pub struct SimpleSettings {
    /// Whole-request timeout, in seconds.
    pub timeout_secs: u64,
    /// The `User-Agent` header sent.
    pub user_agent: String,
}

/// The settings a client was built with.
#[derive(Debug, Clone)]
pub enum ClientSettings {
    Tuned(TunedSettings),
    Simple(SimpleSettings),
    /// reqwest's default client.
    Default,
}

/// The view of client settings, the user agent by its characters.
pub ghost enum SettingsView {
    Tuned(TunedSettings),
    Simple(u64, Seq<char>),
    Default,
}

pub open spec fn settings_view(s: ClientSettings) -> SettingsView {
    match s {
        ClientSettings::Tuned(t) => SettingsView::Tuned(t),
        ClientSettings::Simple(p) => SettingsView::Simple(p.timeout_secs, p.user_agent@),
        ClientSettings::Default => SettingsView::Default,
    }
}

/// A reqwest client together with the settings it was built with. Only the
/// builders below and [`HttpClient::from_default`] make one.
pub struct HttpClient {
    client: reqwest::Client,
    settings: ClientSettings,
}

/// Builds a client with `s` applied to `reqwest::ClientBuilder` (its
/// `timeout`, `connect_timeout`, `pool_max_idle_per_host`,
/// `pool_idle_timeout`, `tcp_keepalive` and `tcp_nodelay`), keeping `s`
/// beside it; `None` where `build` reports an error (the TLS backend or the
/// system's resolver configuration cannot be set up).
#[verifier::external_body]
pub(crate) fn build_tuned_client(s: TunedSettings) -> (r: Option<HttpClient>)
    ensures
        r matches Some(c) ==> c.settings() == SettingsView::Tuned(s),
{
    reqwest::Client::builder()
        .timeout(std::time::Duration::from_secs(s.timeout_secs))
        .connect_timeout(std::time::Duration::from_secs(s.connect_timeout_secs))
        .pool_max_idle_per_host(s.pool_max_idle_per_host)
        .pool_idle_timeout(std::time::Duration::from_secs(s.pool_idle_timeout_secs))
        .tcp_keepalive(std::time::Duration::from_secs(s.tcp_keepalive_secs))
        .tcp_nodelay(s.tcp_nodelay)
        .build()
        .ok()
        .map(|client| HttpClient { client, settings: ClientSettings::Tuned(s) })
}

/// Builds a client with the timeout and the user agent of `s` applied to
/// `reqwest::ClientBuilder`, keeping `s` beside it; `None` where `build`
/// reports an error (also where the user agent is not a valid header value,
/// which `user_agent` stores as an error for `build`).
#[verifier::external_body]
pub(crate) fn build_simple_client(s: SimpleSettings) -> (r: Option<HttpClient>)
    ensures
        r matches Some(c) ==> c.settings() == SettingsView::Simple(s.timeout_secs, s.user_agent@),
{
    reqwest::Client::builder()
        .timeout(std::time::Duration::from_secs(s.timeout_secs))
        .user_agent(s.user_agent.clone())
        .build()
        .ok()
        .map(|client| HttpClient { client, settings: ClientSettings::Simple(s) })
}

impl HttpClient {
    /// The settings the client was built with.
    pub closed spec fn settings(&self) -> SettingsView {
        settings_view(self.settings)
    }

    /// The reqwest client.
    pub closed spec fn inner(&self) -> reqwest::Client {
        self.client
    }

    /// A client that was built with reqwest's defaults.
    pub fn from_default(client: reqwest::Client) -> (r: HttpClient)
        ensures
            r.inner() == client,
            r.settings() == SettingsView::Default,
    {
        HttpClient { client, settings: ClientSettings::Default }
    }

    /// The reqwest client, to send requests with.
    pub fn client(&self) -> (r: &reqwest::Client)
        ensures
            *r == self.inner(),
    {
        &self.client
    }
}

/// The user agent the providers send.
pub fn user_agent() -> (r: &'static str)
    ensures
        r@ == "metapak/0.1.0"@,
{
    "metapak/0.1.0"
}

/// The settings of the npm and PyPI clients: a 10 second timeout and the
/// crate's user agent.
pub open spec fn simple_settings_spec(timeout_secs: u64) -> SettingsView {
    SettingsView::Simple(timeout_secs, "metapak/0.1.0"@)
}

/// A client with a request timeout and the user agent; `None` where reqwest
/// cannot build it.
pub fn simple_client(timeout_secs: u64) -> (r: Option<HttpClient>)
    ensures
        r matches Some(c) ==> c.settings() == simple_settings_spec(timeout_secs),
{
    let agent = user_agent().to_owned();
    build_simple_client(SimpleSettings { timeout_secs, user_agent: agent })
}

} // verus!
