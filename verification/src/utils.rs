//! Utility functions for secure operations: the circuit breaker that guards
//! calls to outside services, masked password input, and the path check.
use vstd::prelude::*;
use vstd::string::StringSliceAdditionalSpecFns;
use vstd::utf8::encode_utf8;

use secrecy::ExposeSecret;
use std::path::Component;

use crate::clock::{secs_since_epoch, system_time_now};
use crate::text::{is_prefix, repeat, repeat_char, string_push};

verus! {

// ---------------------------------------------------------------------------
// Circuit breaker
// ---------------------------------------------------------------------------

/// The state of a circuit breaker: consecutive failures, the time of the
/// last failure (seconds since the epoch) and the state code.
pub struct BreakerView {
    pub failures: u32,
    pub last_failure: u64,
    pub state: u32,
}

/// Consecutive failures after which the breaker opens.
pub open spec fn failure_threshold() -> u32 {
    5
}

/// Seconds an open breaker waits before it lets a trial call through.
pub open spec fn recovery_secs() -> u64 {
    30
}

/// The breaker after a failure at `now`.
pub open spec fn after_failure(b: BreakerView, now: u64) -> BreakerView {
    let count = b.failures + 1;
    BreakerView {
        failures: count as u32,
        last_failure: now,
        state: if count >= failure_threshold() {
            CircuitBreaker::STATE_OPEN
        } else {
            b.state
        },
    }
}

/// The breaker after a success.
pub open spec fn after_success(b: BreakerView) -> BreakerView {
    BreakerView { failures: 0, state: CircuitBreaker::STATE_CLOSED, ..b }
}

/// Whether a call may go through at `now`: closed and half-open breakers
/// let it, an open one only once the recovery time has passed since the
/// last failure.
pub open spec fn available_at(b: BreakerView, now: u64) -> bool {
    if b.state == CircuitBreaker::STATE_CLOSED {
        true
    } else if b.state == CircuitBreaker::STATE_OPEN {
        (if now >= b.last_failure { now - b.last_failure } else { 0 }) > recovery_secs()
    } else {
        b.state == CircuitBreaker::STATE_HALF_OPEN
    }
}

/// The breaker after the availability check at `now`: an open breaker whose
/// recovery time has passed becomes half-open.
pub open spec fn after_check(b: BreakerView, now: u64) -> BreakerView {
    if b.state == CircuitBreaker::STATE_OPEN && available_at(b, now) {
        BreakerView { state: CircuitBreaker::STATE_HALF_OPEN, ..b }
    } else {
        b
    }
}

/// The current time in seconds since the Unix epoch.
fn now_secs() -> u64 {
    let t = system_time_now();
    secs_since_epoch(&t)
}

/// Circuit breaker for external API calls to prevent flooding when service is down
pub struct CircuitBreaker {
    failure_count: u32,
    last_failure: u64,
    state: u32,
}

impl View for CircuitBreaker {
    type V = BreakerView;

    closed spec fn view(&self) -> BreakerView {
        BreakerView { failures: self.failure_count, last_failure: self.last_failure, state: self.state }
    }
}

/// A breaker state that can be reached: closed, open or half-open, and
/// never open or half-open with fewer failures than the threshold.
pub open spec fn breaker_wf(b: BreakerView) -> bool {
    &&& (b.state == CircuitBreaker::STATE_CLOSED || b.state == CircuitBreaker::STATE_OPEN || b.state
        == CircuitBreaker::STATE_HALF_OPEN)
    &&& (b.state != CircuitBreaker::STATE_CLOSED ==> b.failures >= failure_threshold())
}

/// A new breaker is well formed, and failures, successes and availability
/// checks keep it so: a breaker is open or half-open only after at least
/// `FAILURE_THRESHOLD` consecutive failures.
pub proof fn law_breaker_states_reachable(b: BreakerView, now: u64)
    requires
        breaker_wf(b),
        b.failures < u32::MAX,
    ensures
        breaker_wf(BreakerView { failures: 0, last_failure: 0, state: CircuitBreaker::STATE_CLOSED }),
        breaker_wf(after_failure(b, now)),
        breaker_wf(after_success(b)),
        breaker_wf(after_check(b, now)),
        after_check(b, now).state == CircuitBreaker::STATE_HALF_OPEN ==> after_check(b, now).failures
            >= failure_threshold(),
{
}

impl CircuitBreaker {
    #[verifier::type_invariant]
    spec fn well_formed(self) -> bool {
        breaker_wf(self@)
    }

    pub const FAILURE_THRESHOLD: u32 = 5;
    pub const RECOVERY_SECS: u64 = 30;
    pub const STATE_CLOSED: u32 = 0;
    pub const STATE_OPEN: u32 = 1;
    pub const STATE_HALF_OPEN: u32 = 2;

    /// A closed breaker with no failures.
    pub fn new() -> (r: CircuitBreaker)
        ensures
            r@ == (BreakerView { failures: 0, last_failure: 0, state: Self::STATE_CLOSED }),
    {
        CircuitBreaker { failure_count: 0, last_failure: 0, state: Self::STATE_CLOSED }
    }

    /// Whether a call may go through at `now` (seconds since the epoch); an
    /// open breaker whose recovery time has passed becomes half-open.
    pub fn is_available_at(&mut self, now: u64) -> (r: bool)
        ensures
            r == available_at(old(self)@, now),
            final(self)@ == after_check(old(self)@, now),
    {
        proof {
            use_type_invariant(&*self);
        }
        if self.state == Self::STATE_CLOSED {
            true
        } else if self.state == Self::STATE_OPEN {
            let elapsed = now.saturating_sub(self.last_failure);
            if elapsed > Self::RECOVERY_SECS {
                self.state = Self::STATE_HALF_OPEN;
                true
            } else {
                false
            }
        } else if self.state == Self::STATE_HALF_OPEN {
            true
        } else {
            false
        }
    }

    /// Whether a call may go through now. Only an open breaker reads the
    /// clock; the result is the one `is_available_at` gives for that
    /// reading.
    pub fn is_available(&mut self) -> (r: bool)
        ensures
            exists|now: u64|
                r == available_at(old(self)@, now) && final(self)@ == after_check(old(self)@, now),
            old(self)@.state != Self::STATE_OPEN ==> r == available_at(old(self)@, 0) && final(self)@
                == old(self)@,
    {
        let now = if self.state == Self::STATE_OPEN {
            now_secs()
        } else {
            0
        };
        self.is_available_at(now)
    }

    /// Records a successful call: the breaker closes and the failure count
    /// restarts.
    pub fn record_success(&mut self)
        ensures
            final(self)@ == after_success(old(self)@),
    {
        self.state = Self::STATE_CLOSED;
        self.failure_count = 0;
    }

    /// Records a failed call at `now`; at the threshold the breaker opens.
    pub fn record_failure_at(&mut self, now: u64)
        requires
            old(self)@.failures < u32::MAX,
        ensures
            final(self)@ == after_failure(old(self)@, now),
    {
        proof {
            use_type_invariant(&*self);
        }
        let count = self.failure_count + 1;
        self.failure_count = count;
        self.last_failure = now;
        if count >= Self::FAILURE_THRESHOLD {
            self.state = Self::STATE_OPEN;
        }
    }

    /// Records a failed call now.
    pub fn record_failure(&mut self)
        requires
            old(self)@.failures < u32::MAX,
        ensures
            exists|now: u64| final(self)@ == after_failure(old(self)@, now),
    {
        let now = now_secs();
        self.record_failure_at(now);
    }

    /// Consecutive failures since the last success.
    pub fn failure_count(&self) -> (r: u32)
        ensures
            r == self@.failures,
            breaker_wf(self@),
    {
        proof {
            use_type_invariant(self);
        }
        self.failure_count
    }

    /// The state code: closed, open or half-open; open and half-open only
    /// after at least `FAILURE_THRESHOLD` consecutive failures.
    pub fn state(&self) -> (r: u32)
        ensures
            r == self@.state,
            r == Self::STATE_CLOSED || r == Self::STATE_OPEN || r == Self::STATE_HALF_OPEN,
            r != Self::STATE_CLOSED ==> self@.failures >= Self::FAILURE_THRESHOLD,
    {
        proof {
            use_type_invariant(self);
        }
        self.state
    }
}

impl Default for CircuitBreaker {
    fn default() -> (r: CircuitBreaker)
        ensures
            r@ == (BreakerView { failures: 0, last_failure: 0, state: CircuitBreaker::STATE_CLOSED }),
    {
        CircuitBreaker::new()
    }
}

/// The breaker after failures at the given times, in order.
pub open spec fn after_failures(b: BreakerView, times: Seq<u64>) -> BreakerView
    decreases times.len(),
{
    if times.len() == 0 {
        b
    } else {
        after_failure(after_failures(b, times.drop_last()), times.last())
    }
}

proof fn lemma_failures_count(b: BreakerView, times: Seq<u64>)
    requires
        b.failures + times.len() <= u32::MAX,
    ensures
        after_failures(b, times).failures == b.failures + times.len(),
        times.len() > 0 ==> after_failures(b, times).last_failure == times.last(),
        after_failures(b, times).failures < failure_threshold() ==> after_failures(b, times).state
            == b.state,
        after_failures(b, times).failures >= failure_threshold() && b.failures < failure_threshold()
            ==> after_failures(b, times).state == CircuitBreaker::STATE_OPEN,
    decreases times.len(),
{
    if times.len() > 0 {
        lemma_failures_count(b, times.drop_last());
    }
}

/// A breaker that has seen `FAILURE_THRESHOLD` consecutive failures since
/// it was last closed with no failures is open, and refuses calls until
/// `RECOVERY_SECS` have passed since the last of them.
pub proof fn law_breaker_opens_after_threshold(b: BreakerView, times: Seq<u64>, now: u64)
    requires
        b.failures == 0,
        b.state == CircuitBreaker::STATE_CLOSED,
        times.len() >= failure_threshold(),
        times.len() < u32::MAX,
        now >= times.last(),
        now - times.last() <= recovery_secs(),
    ensures
        after_failures(b, times).state == CircuitBreaker::STATE_OPEN,
        !available_at(after_failures(b, times), now),
{
    lemma_failures_count(b, times);
}

/// Fewer than `FAILURE_THRESHOLD` consecutive failures leave a closed
/// breaker closed and available.
pub proof fn law_breaker_stays_closed_below_threshold(b: BreakerView, times: Seq<u64>, now: u64)
    requires
        b.failures == 0,
        b.state == CircuitBreaker::STATE_CLOSED,
        times.len() < failure_threshold(),
    ensures
        after_failures(b, times).state == CircuitBreaker::STATE_CLOSED,
        available_at(after_failures(b, times), now),
{
    lemma_failures_count(b, times);
}

/// After a success the breaker is closed with no failures, and lets calls
/// through whatever the time.
pub proof fn law_breaker_success_closes(b: BreakerView, now: u64)
    ensures
        after_success(b).state == CircuitBreaker::STATE_CLOSED,
        after_success(b).failures == 0,
        available_at(after_success(b), now),
        after_check(after_success(b), now) == after_success(b),
{
}

/// An open breaker lets a trial call through once the recovery time has
/// passed, becoming half-open; it then lets calls through until the next
/// failure.
pub proof fn law_breaker_half_opens_after_recovery(b: BreakerView, now: u64, later: u64)
    requires
        b.state == CircuitBreaker::STATE_OPEN,
        now >= b.last_failure,
        now - b.last_failure > recovery_secs(),
    ensures
        available_at(b, now),
        after_check(b, now).state == CircuitBreaker::STATE_HALF_OPEN,
        available_at(after_check(b, now), later),
{
}

// ---------------------------------------------------------------------------
// Password input
// ---------------------------------------------------------------------------

/// A secret string: a `secrecy::SecretString` kept whole and opaque in a
/// private field (the secrecy type is generic over that crate's `Zeroize`
/// trait, so it is not described field by field); the characters it holds
/// are named by [`secret_chars`].
#[verifier::external_body]
pub struct SecretText {
    inner: secrecy::SecretString,
}

/// The characters a secret holds.
pub uninterp spec fn secret_chars(s: SecretText) -> Seq<char>;

/// `secrecy::Secret::new`: wraps `s`, holding its characters.
#[verifier::external_body]
fn secret_new(s: String) -> (r: SecretText)
    ensures
        secret_chars(r) == s@,
{
    SecretText { inner: secrecy::SecretString::new(s) }
}

/// `secrecy::ExposeSecret::expose_secret`: the characters held.
#[verifier::external_body]
fn secret_expose(s: &SecretText) -> (r: &str)
    ensures
        r@ == secret_chars(*s),
{
    s.inner.expose_secret().as_str()
}

impl SecretText {
    /// Wraps `s` as a secret.
    pub fn new(s: String) -> (r: SecretText)
        ensures
            secret_chars(r) == s@,
    {
        secret_new(s)
    }

    /// The characters held, in clear.
    pub fn expose(&self) -> (r: &str)
        ensures
            r@ == secret_chars(*self),
    {
        secret_expose(self)
    }
}

/// Secure password input with masking
pub struct PasswordInput {
    value: SecretText,
}

impl View for PasswordInput {
    type V = Seq<char>;

    closed spec fn view(&self) -> Seq<char> {
        secret_chars(self.value)
    }
}

/// A password after removing its last character, if any.
pub open spec fn after_pop(s: Seq<char>) -> Seq<char> {
    if s.len() > 0 {
        s.drop_last()
    } else {
        s
    }
}

/// Removing a character undoes typing it.
pub proof fn law_pop_undoes_push(s: Seq<char>, c: char)
    ensures
        after_pop(s.push(c)) == s,
{
    assert(s.push(c).drop_last() =~= s);
}

/// The mask shows one star per byte of the password, then the cursor, and
/// nothing else.
pub proof fn law_mask_shape(n: nat)
    ensures
        mask_spec(n).len() == n + 1,
        forall|i: int| 0 <= i < n ==> #[trigger] mask_spec(n)[i] == '*',
        mask_spec(n)[n as int] == '\u{2588}',
{
}

/// The display of a password of `n` bytes: one star per byte, then a block
/// cursor.
pub open spec fn mask_spec(n: nat) -> Seq<char> {
    repeat_char('*', n).push('\u{2588}')
}

impl PasswordInput {
    /// An empty password.
    pub fn new() -> (r: PasswordInput)
        ensures
            r@ == Seq::<char>::empty(),
    {
        PasswordInput { value: secret_new(String::new()) }
    }

    /// A password holding `s`.
    pub fn from_string(s: String) -> (r: PasswordInput)
        ensures
            r@ == s@,
    {
        PasswordInput { value: secret_new(s) }
    }

    /// Appends a character.
    pub fn push(&mut self, c: char)
        ensures
            final(self)@ == old(self)@.push(c),
    {
        let mut current = secret_expose(&self.value).to_owned();
        string_push(&mut current, c);
        self.value = secret_new(current);
    }

    /// Removes the last character, if any.
    pub fn pop(&mut self)
        ensures
            final(self)@ == after_pop(old(self)@),
    {
        let current = crate::text::chars_of(secret_expose(&self.value));
        let n = current.len();
        let kept = if n > 0 {
            crate::text::string_from(&current, 0, n - 1)
        } else {
            crate::text::string_from(&current, 0, 0)
        };
        assert(n > 0 ==> kept@ =~= current@.drop_last());
        assert(n == 0 ==> kept@ =~= current@);
        self.value = secret_new(kept);
    }

    /// The length in bytes (UTF-8).
    pub fn len(&self) -> (r: usize)
        ensures
            r == encode_utf8(self@).len() as usize,
    {
        let s = secret_expose(&self.value);
        assert(s.spec_bytes() == encode_utf8(s@));
        s.len()
    }

    /// Whether the password is empty.
    pub fn is_empty(&self) -> (r: bool)
        ensures
            r == (self@.len() == 0),
    {
        secret_expose(&self.value).is_empty()
    }

    /// Forgets the password.
    pub fn clear(&mut self)
        ensures
            final(self)@ == Seq::<char>::empty(),
    {
        self.value = secret_new(String::new());
    }

    /// The secret itself.
    pub fn get_secret(&self) -> (r: &SecretText)
        ensures
            secret_chars(*r) == self@,
    {
        &self.value
    }

    /// The password in clear.
    pub fn expose_secret(&self) -> (r: &str)
        ensures
            r@ == self@,
    {
        secret_expose(&self.value)
    }

    /// Get masked representation for display
    pub fn masked(&self) -> (r: String)
        ensures
            r@ == mask_spec((encode_utf8(self@).len() as usize) as nat),
    {
        let mut r = repeat('*', self.len());
        string_push(&mut r, '\u{2588}');
        r
    }
}

impl Default for PasswordInput {
    fn default() -> (r: PasswordInput)
        ensures
            r@ == Seq::<char>::empty(),
    {
        PasswordInput::new()
    }
}

// ---------------------------------------------------------------------------
// Paths
// ---------------------------------------------------------------------------

/// One component of a path, as `std::path::Component` reports it.
#[derive(Debug)]
pub enum PathComponent {
    Prefix,
    RootDir,
    CurDir,
    ParentDir,
    Normal(String),
}

/// The view of a component: the text of a normal one.
pub ghost enum ComponentView {
    Prefix,
    RootDir,
    CurDir,
    ParentDir,
    Normal(Seq<char>),
}

pub open spec fn component_view(c: PathComponent) -> ComponentView {
    match c {
        PathComponent::Prefix => ComponentView::Prefix,
        PathComponent::RootDir => ComponentView::RootDir,
        PathComponent::CurDir => ComponentView::CurDir,
        PathComponent::ParentDir => ComponentView::ParentDir,
        PathComponent::Normal(s) => ComponentView::Normal(s@),
    }
}

pub open spec fn components_view(v: Seq<PathComponent>) -> Seq<ComponentView> {
    v.map_values(|c: PathComponent| component_view(c))
}

/// The components of a path (`std::path::Path::components`, each normal
/// one converted with `to_string_lossy`).
pub uninterp spec fn path_components_of(path: Seq<char>) -> Seq<ComponentView>;

/// `std::path::Path::components` on `path`; its result is named
/// [`path_components_of`].
#[verifier::external_body]
fn path_components(path: &str) -> (r: Vec<PathComponent>)
    ensures
        components_view(r@) == path_components_of(path@),
{
    std::path::Path::new(path).components().map(|c| match c {
        Component::Prefix(_) => PathComponent::Prefix,
        Component::RootDir => PathComponent::RootDir,
        Component::CurDir => PathComponent::CurDir,
        Component::ParentDir => PathComponent::ParentDir,
        Component::Normal(s) => PathComponent::Normal(s.to_string_lossy().into_owned()),
    }).collect()
}

/// A hidden name other than `.config`, `.local`, `.cache` and `.tmp*`.
pub open spec fn hidden_not_allowed(s: Seq<char>) -> bool {
    is_prefix(seq!['.'], s) && s != ".config"@ && s != ".local"@ && s != ".cache"@ && !is_prefix(
        ".tmp"@,
        s,
    )
}

/// A component that a safe path may have: no `..`, and no hidden name
/// other than the allowed ones.
pub open spec fn component_ok(c: ComponentView) -> bool {
    match c {
        ComponentView::ParentDir => false,
        ComponentView::Normal(s) => !hidden_not_allowed(s),
        _ => true,
    }
}

pub open spec fn components_ok(cs: Seq<ComponentView>) -> bool {
    forall|i: int| 0 <= i < cs.len() ==> #[trigger] component_ok(cs[i])
}

/// A path with a `..` component is refused, whatever else it holds.
pub proof fn law_parent_dir_refused(cs: Seq<ComponentView>, i: int)
    requires
        0 <= i < cs.len(),
        cs[i] == ComponentView::ParentDir,
    ensures
        !components_ok(cs),
{
    assert(!component_ok(cs[i]));
}

/// Whether no component is `..` or a hidden name other than `.config`,
/// `.local`, `.cache` and `.tmp*`.
pub fn validate_components(components: &Vec<PathComponent>) -> (r: bool)
    ensures
        r == components_ok(components_view(components@)),
{
    let mut i: usize = 0;
    while i < components.len()
        invariant
            i <= components.len(),
            forall|j: int| 0 <= j < i ==> #[trigger] component_ok(components_view(components@)[j]),
        decreases components.len() - i,
    {
        let ok = match &components[i] {
            PathComponent::ParentDir => false,
            PathComponent::Normal(s) => {
                let name = s.as_str();
                let dot = crate::text::starts_with(name, ".");
                proof {
                    reveal_strlit(".");
                    assert("."@ =~= seq!['.']);
                }
                !(dot && !crate::text::str_eq(name, ".config") && !crate::text::str_eq(name, ".local")
                    && !crate::text::str_eq(name, ".cache") && !crate::text::starts_with(name, ".tmp"))
            },
            _ => true,
        };
        if !ok {
            assert(!component_ok(components_view(components@)[i as int]));
            return false;
        }
        i += 1;
    }
    true
}

/// Validate that a path doesn't contain path traversal attempts
pub fn validate_path(path: &str) -> (r: bool)
    ensures
        r == components_ok(path_components_of(path@)),
{
    let components = path_components(path);
    validate_components(&components)
}

} // verus!
