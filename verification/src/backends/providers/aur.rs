//! The AUR: its RPC search response, the request for it and the retry
//! policy around it.
use vstd::prelude::*;

use crate::models::{opt_view, AppError, Package, PackageSource};
use super::http::{build_tuned_client, HttpClient, SettingsView, TunedSettings};
use crate::pattern::{percent_encode, url_encode};
use crate::text::{i32_to_string, signed_decimal};
use crate::utils::{after_check, after_failure, after_success, available_at, BreakerView, CircuitBreaker};
use vstd::utf8::encode_utf8;

verus! {

/// Request timeout of the AUR client, in seconds.
pub const AUR_REQUEST_TIMEOUT_SECS: u64 = 30;
/// Connection timeout of the AUR client, in seconds.
pub const AUR_CONNECT_TIMEOUT_SECS: u64 = 10;
/// How long an idle connection is kept, in seconds.
pub const HTTP_IDLE_TIMEOUT_SECS: u64 = 90;
/// Idle connections kept per host.
pub const HTTP_MAX_CONNECTIONS: u64 = 10;
/// Attempts at sending a search request.
pub const MAX_RETRIES: usize = 3;

/// AUR package provider implementation
pub struct AurProvider {
    client: HttpClient,
}

/// The AUR's answer to a search.
#[derive(Debug)]
pub struct AurResponse {
    pub result_count: u32,
    pub results: Vec<AurPackage>,
}

/// One package of an AUR search.
#[derive(Debug)]
pub struct AurPackage {
    pub name: String,
    pub version: String,
    pub description: Option<String>,
    pub url: Option<String>,
    pub maintainer: Option<String>,
    pub depends: Option<Vec<String>>,
    pub make_depends: Option<Vec<String>>,
    pub opt_depends: Option<Vec<String>>,
    pub conflicts: Option<Vec<String>>,
    pub licenses: Option<Vec<String>>,
    pub keywords: Option<Vec<String>>,
    pub provides: Option<Vec<String>>,
    pub num_votes: Option<i32>,
    pub last_updated: Option<i64>,
    pub first_submitted: Option<i64>,
    pub out_of_date: Option<i64>,
    pub package_base_id: Option<i32>,
}

/// The view of an optional list, empty when absent.
pub open spec fn list_or_empty(o: Option<Vec<String>>) -> Seq<Seq<char>> {
    match o {
        Some(v) => v.deep_view(),
        None => Seq::empty(),
    }
}

/// The package made from an AUR search result: its dependencies are the
/// run-time then the build dependencies, it is outdated when flagged out of
/// date, and its base id is written in decimal.
pub open spec fn aur_package_ok(r: Package, a: AurPackage) -> bool {
    &&& r.name@ == a.name@
    &&& r.version@ == a.version@
    &&& r.description@ == match a.description {
        Some(d) => d@,
        None => Seq::empty(),
    }
    &&& r.source == PackageSource::Aur
    &&& !r.is_installed
    &&& r.is_outdated == (a.out_of_date is Some)
    &&& r.installed_size is None
    &&& r.download_size is None
    &&& r.groups@.len() == 0
    &&& r.licenses.deep_view() == list_or_empty(a.licenses)
    &&& r.maintainers.deep_view() == match a.maintainer {
        Some(m) => seq![m@],
        None => Seq::empty(),
    }
    &&& r.keywords.deep_view() == list_or_empty(a.keywords)
    &&& opt_view(r.url) == opt_view(a.url)
    &&& r.depends_on.deep_view() == list_or_empty(a.depends) + list_or_empty(a.make_depends)
    &&& r.required_by@.len() == 0
    &&& r.opt_depends.deep_view() == list_or_empty(a.opt_depends)
    &&& r.conflicts.deep_view() == list_or_empty(a.conflicts)
    &&& r.replaces@.len() == 0
    &&& r.provides.deep_view() == list_or_empty(a.provides)
    &&& r.votes == a.num_votes
    &&& r.first_submitted == a.first_submitted
    &&& r.last_updated == a.last_updated
    &&& opt_view(r.package_base_id) == match a.package_base_id {
        Some(id) => Some(signed_decimal(id as int)),
        None => None,
    }
    &&& r.num_votes == a.num_votes
}

/// The settings of the AUR client: 30 s request and 10 s connection
/// timeouts, 10 idle connections per host kept 90 s, a 60 s TCP keep-alive
/// and no Nagle delay.
pub open spec fn aur_client_settings_spec() -> TunedSettings {
    TunedSettings {
        timeout_secs: 30,
        connect_timeout_secs: 10,
        pool_max_idle_per_host: 10,
        pool_idle_timeout_secs: 90,
        tcp_keepalive_secs: 60,
        tcp_nodelay: true,
    }
}

/// The RPC URL that searches for `query`.
pub open spec fn aur_search_url_spec(query: Seq<char>) -> Seq<char> {
    "https://aur.archlinux.org/rpc/v5/search/"@ + percent_encode(encode_utf8(query))
}

/// What to do after an attempt at sending the request.
#[derive(Debug, Clone, Copy, PartialEq, Eq, Structural)]
pub enum RetryStep {
    /// The request went out.
    Done,
    /// Wait this many milliseconds, then try again.
    RetryAfterMs(u64),
    /// No attempt is left.
    GiveUp,
}

/// What an AUR search has just learnt.
#[derive(Debug)]
pub enum AurEvent {
    /// The search is about to start.
    Start,
    /// Attempt `attempt` (from 0) could not send the request; `error` says
    /// why.
    SendFailed { attempt: usize, error: String },
    /// The request went out and the AUR answered; `success` when the status
    /// is a success, `status` the status as text.
    Responded { success: bool, status: String },
    /// The body of a successful answer is not a search response; `error`
    /// says why.
    BodyUnreadable { error: String },
}

/// What an AUR search does next.
#[derive(Debug)]
pub enum AurAction {
    /// Send attempt `attempt`.
    Send { attempt: usize },
    /// Wait `ms` milliseconds, then send attempt `attempt`.
    WaitThenSend { ms: u64, attempt: usize },
    /// Read the answer's body as a search response.
    ReadBody,
    /// Stop with this error.
    Fail(AppError),
}

/// The view of an action: an AUR error by its message.
pub ghost enum AurActionView {
    Send(usize),
    WaitThenSend(u64, usize),
    ReadBody,
    FailAur(Seq<char>),
    FailOther,
}

impl View for AurAction {
    type V = AurActionView;

    open spec fn view(&self) -> AurActionView {
        match self {
            AurAction::Send { attempt } => AurActionView::Send(*attempt),
            AurAction::WaitThenSend { ms, attempt } => AurActionView::WaitThenSend(*ms, *attempt),
            AurAction::ReadBody => AurActionView::ReadBody,
            AurAction::Fail(AppError::Aur(m)) => AurActionView::FailAur(m@),
            AurAction::Fail(_) => AurActionView::FailOther,
        }
    }
}

/// The message when the circuit breaker refuses a search.
pub open spec fn unavailable_message() -> Seq<char> {
    "AUR service temporarily unavailable (circuit breaker open)"@
}

/// One step of an AUR search at time `now` (seconds since the epoch): the
/// breaker after it and the next action.
/// - At the start the breaker is asked (an open one whose recovery time has
///   passed turns half-open); when it refuses, the search fails with the
///   unavailable message and nothing is sent or recorded.
/// - A failed attempt is retried after `250 * (attempt + 1)` ms while
///   attempts are left; after the last one a failure is recorded and the
///   search fails with the last error.
/// - An answer records a success; a non-success status fails the search
///   with that status, a success leads to reading the body.
/// - An unreadable body fails the search.
pub open spec fn aur_step(b: BreakerView, now: u64, ev: AurEvent) -> (BreakerView, AurActionView) {
    match ev {
        AurEvent::Start => if available_at(b, now) {
            (after_check(b, now), AurActionView::Send(0))
        } else {
            (after_check(b, now), AurActionView::FailAur(unavailable_message()))
        },
        AurEvent::SendFailed { attempt, error } => if attempt + 1 < MAX_RETRIES {
            (b, AurActionView::WaitThenSend((250 * (attempt + 1)) as u64, (attempt + 1) as usize))
        } else {
            (
                after_failure(b, now),
                AurActionView::FailAur("Failed to send AUR request after 3 attempts: "@ + error@),
            )
        },
        AurEvent::Responded { success, status } => (
            after_success(b),
            if success {
                AurActionView::ReadBody
            } else {
                AurActionView::FailAur("AUR request failed with status "@ + status@)
            },
        ),
        AurEvent::BodyUnreadable { error } => (
            b,
            AurActionView::FailAur("Failed to parse AUR response: "@ + error@),
        ),
    }
}

/// When the breaker refuses, the search fails at once with the unavailable
/// error: nothing is sent and nothing is recorded.
pub proof fn law_aur_refused_while_breaker_open(b: BreakerView, now: u64)
    requires
        !available_at(b, now),
    ensures
        aur_step(b, now, AurEvent::Start) == (b, AurActionView::FailAur(unavailable_message())),
{
}

/// When every send fails, the search sends exactly three times, waiting
/// 250 ms and then 500 ms between them, records one failure and no
/// success, and fails with the last error.
pub proof fn law_aur_failed_sends(b: BreakerView, now: u64, e0: String, e1: String, e2: String)
    requires
        available_at(b, now),
        b.failures < u32::MAX,
    ensures
        ({
            let s0 = aur_step(b, now, AurEvent::Start);
            let s1 = aur_step(s0.0, now, AurEvent::SendFailed { attempt: 0, error: e0 });
            let s2 = aur_step(s1.0, now, AurEvent::SendFailed { attempt: 1, error: e1 });
            let s3 = aur_step(s2.0, now, AurEvent::SendFailed { attempt: 2, error: e2 });
            &&& s0.1 == AurActionView::Send(0)
            &&& s1.1 == AurActionView::WaitThenSend(250, 1)
            &&& s2.1 == AurActionView::WaitThenSend(500, 2)
            &&& s3.1 == AurActionView::FailAur(
                "Failed to send AUR request after 3 attempts: "@ + e2@,
            )
            &&& s3.0 == after_failure(after_check(b, now), now)
            &&& s3.0.failures == b.failures + 1
        }),
{
}

/// An answer records a success and, for a success status, leads to
/// reading the body; nothing else changes the breaker after it.
pub proof fn law_aur_answer_records_success(b: BreakerView, now: u64, status: String)
    ensures
        aur_step(b, now, AurEvent::Responded { success: true, status }) == (
            after_success(b),
            AurActionView::ReadBody,
        ),
        aur_step(after_success(b), now, AurEvent::BodyUnreadable { error: status }).0 == after_success(b),
{
}

fn list_of(o: Option<Vec<String>>) -> (r: Vec<String>)
    ensures
        r.deep_view() == list_or_empty(o),
{
    match o {
        Some(v) => v,
        None => {
            let v: Vec<String> = Vec::new();
            assert(v.deep_view() =~= Seq::<Seq<char>>::empty());
            v
        },
    }
}

impl AurProvider {
    /// The settings of the AUR client.
    pub fn client_settings() -> (s: TunedSettings)
        ensures
            s == aur_client_settings_spec(),
    {
        TunedSettings {
            timeout_secs: AUR_REQUEST_TIMEOUT_SECS,
            connect_timeout_secs: AUR_CONNECT_TIMEOUT_SECS,
            pool_max_idle_per_host: HTTP_MAX_CONNECTIONS as usize,
            pool_idle_timeout_secs: HTTP_IDLE_TIMEOUT_SECS,
            tcp_keepalive_secs: 60,
            tcp_nodelay: true,
        }
    }

    /// A provider with a client tuned for the AUR (the settings of
    /// [`aur_client_settings_spec`]); `None` where reqwest cannot build that
    /// client (its TLS backend or the system's resolver configuration
    /// cannot be set up).
    pub fn new() -> (r: Option<AurProvider>)
        ensures
            r matches Some(p) ==> p.http_client().settings() == SettingsView::Tuned(
                aur_client_settings_spec(),
            ),
    {
        match build_tuned_client(Self::client_settings()) {
            Some(client) => Some(AurProvider { client }),
            None => None,
        }
    }

    /// A provider that sends its requests with `client`, a client built
    /// with reqwest's defaults.
    pub fn with_client(client: reqwest::Client) -> (r: AurProvider)
        ensures
            r.http_client().inner() == client,
            r.http_client().settings() == SettingsView::Default,
    {
        AurProvider { client: HttpClient::from_default(client) }
    }

    /// The HTTP client the provider was made with.
    pub closed spec fn http_client(&self) -> HttpClient {
        self.client
    }

    /// The HTTP client of the provider.
    pub fn client(&self) -> (r: &reqwest::Client)
        ensures
            *r == self.http_client().inner(),
    {
        self.client.client()
    }

    /// The RPC URL that searches for `query`.
    pub fn search_url(query: &str) -> (r: String)
        ensures
            r@ == aur_search_url_spec(query@),
    {
        let mut r = "https://aur.archlinux.org/rpc/v5/search/".to_owned();
        let enc = url_encode(query);
        r.append(enc.as_str());
        r
    }

    /// After attempt `attempt` (from 0): done when the request went out,
    /// else another try after `250 * (attempt + 1)` ms while attempts are
    /// left.
    pub fn retry_step(attempt: usize, sent: bool) -> (r: RetryStep)
        requires
            attempt < MAX_RETRIES,
        ensures
            sent ==> r == RetryStep::Done,
            !sent && attempt + 1 < MAX_RETRIES ==> r == RetryStep::RetryAfterMs(
                (250 * (attempt + 1)) as u64,
            ),
            !sent && attempt + 1 >= MAX_RETRIES ==> r == RetryStep::GiveUp,
    {
        if sent {
            RetryStep::Done
        } else if attempt + 1 < MAX_RETRIES {
            RetryStep::RetryAfterMs(250 * (attempt as u64 + 1))
        } else {
            RetryStep::GiveUp
        }
    }

    /// Takes one step of a search: consults or updates the breaker and says
    /// what to do next, as [`aur_step`] states.
    pub fn search_step(breaker: &mut CircuitBreaker, now: u64, ev: AurEvent) -> (a: AurAction)
        requires
            ev matches AurEvent::SendFailed { attempt, .. } ==> attempt < MAX_RETRIES && (attempt + 1
                >= MAX_RETRIES ==> old(breaker)@.failures < u32::MAX),
        ensures
            (final(breaker)@, a@) == aur_step(old(breaker)@, now, ev),
    {
        match ev {
            AurEvent::Start => {
                if breaker.is_available_at(now) {
                    AurAction::Send { attempt: 0 }
                } else {
                    AurAction::Fail(Self::unavailable_error())
                }
            },
            AurEvent::SendFailed { attempt, error } => {
                match Self::retry_step(attempt, false) {
                    RetryStep::RetryAfterMs(ms) => AurAction::WaitThenSend { ms, attempt: attempt + 1 },
                    RetryStep::GiveUp => {
                        breaker.record_failure_at(now);
                        AurAction::Fail(Self::send_failure_error(Some(error.as_str())))
                    },
                    RetryStep::Done => {
                        proof {
                            assert(false);
                        }
                        AurAction::ReadBody
                    },
                }
            },
            AurEvent::Responded { success, status } => {
                breaker.record_success();
                if success {
                    AurAction::ReadBody
                } else {
                    let mut m = "AUR request failed with status ".to_owned();
                    m.append(status.as_str());
                    AurAction::Fail(AppError::Aur(m))
                }
            },
            AurEvent::BodyUnreadable { error } => {
                let mut m = "Failed to parse AUR response: ".to_owned();
                m.append(error.as_str());
                AurAction::Fail(AppError::Aur(m))
            },
        }
    }

    /// The error when the circuit breaker refuses the request.
    pub fn unavailable_error() -> (r: AppError)
        ensures
            r matches AppError::Aur(m) && m@
                == "AUR service temporarily unavailable (circuit breaker open)"@,
    {
        AppError::Aur("AUR service temporarily unavailable (circuit breaker open)".to_owned())
    }

    /// The error when no attempt went out, with the last failure if known.
    pub fn send_failure_error(last_error: Option<&str>) -> (r: AppError)
        ensures
            r matches AppError::Aur(m) && m@ == "Failed to send AUR request after 3 attempts: "@
                + match last_error {
                Some(e) => e@,
                None => "unknown error"@,
            },
    {
        let mut m = "Failed to send AUR request after 3 attempts: ".to_owned();
        match last_error {
            Some(e) => m.append(e),
            None => m.append("unknown error"),
        }
        AppError::Aur(m)
    }

    /// The package made from one search result.
    pub fn package_from(a: AurPackage) -> (r: Package)
        ensures
            aur_package_ok(r, a),
    {
        let AurPackage {
            name,
            version,
            description,
            url,
            maintainer,
            depends,
            make_depends,
            opt_depends,
            conflicts,
            licenses,
            keywords,
            provides,
            num_votes,
            last_updated,
            first_submitted,
            out_of_date,
            package_base_id,
        } = a;
        let mut all_deps = list_of(depends);
        let mut make = list_of(make_depends);
        let ghost d1 = all_deps.deep_view();
        let ghost d2 = make.deep_view();
        let ghost s1 = all_deps@;
        let ghost s2 = make@;
        all_deps.append(&mut make);
        assert(all_deps@ == s1 + s2);
        assert(all_deps.deep_view() =~= d1 + d2);
        let description = match description {
            Some(d) => d,
            None => String::new(),
        };
        let maintainers = match maintainer {
            Some(m) => {
                let mut v: Vec<String> = Vec::new();
                let ghost mv = m@;
                v.push(m);
                assert(v.deep_view() =~= seq![mv]);
                v
            },
            None => {
                let v: Vec<String> = Vec::new();
                assert(v.deep_view() =~= Seq::<Seq<char>>::empty());
                v
            },
        };
        let base_id = match package_base_id {
            Some(id) => Some(i32_to_string(id)),
            None => None,
        };
        let mut p = Package::basic(name, version, description, PackageSource::Aur, false);
        p.is_outdated = out_of_date.is_some();
        p.licenses = list_of(licenses);
        p.maintainers = maintainers;
        p.keywords = list_of(keywords);
        p.url = url;
        p.depends_on = all_deps;
        p.opt_depends = list_of(opt_depends);
        p.conflicts = list_of(conflicts);
        p.provides = list_of(provides);
        p.votes = num_votes;
        p.first_submitted = first_submitted;
        p.last_updated = last_updated;
        p.package_base_id = base_id;
        p.num_votes = num_votes;
        p
    }

    /// The packages of a search response, in order.
    pub fn parse_response(response: AurResponse) -> (r: Vec<Package>)
        ensures
            r@.len() == response.results@.len(),
            forall|i: int|
                0 <= i < r@.len() ==> #[trigger] aur_package_ok(r@[i], response.results@[i]),
    {
        let ghost items = response.results@;
        assert(items.len() == response.results.len());
        let mut rest = response.results;
        let mut out: Vec<Package> = Vec::new();
        let mut k: usize = 0;
        while rest.len() > 0
            invariant
                k + rest@.len() == items.len(),
                items.len() <= usize::MAX,
                rest@ == items.skip(k as int),
                out@.len() == k,
                forall|i: int| 0 <= i < k ==> #[trigger] aur_package_ok(out@[i], items[i]),
            decreases rest@.len(),
        {
            let a = rest.remove(0);
            proof {
                assert(a == items[k as int]);
                assert(rest@ =~= items.skip(k + 1));
            }
            out.push(Self::package_from(a));
            k += 1;
        }
        out
    }
}

} // verus!
