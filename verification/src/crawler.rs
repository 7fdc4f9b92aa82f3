//! The decision core of the ads.txt discovery crawler.
//!
//! Every choice the crawler makes is a function here, from plain values to
//! plain values: how a response is classified, how a redirect is validated,
//! which URL is fetched next, what a timeout means, how the batch is cut
//! into chunks, and what becomes of each domain's result. The I/O around
//! these decisions — the HTTP transport, the timers, the task scheduler and
//! the file writes — lives outside the library and only carries values to
//! and from these functions.

use crate::text::{contains_str, spec_contains};
use vstd::prelude::*;
use vstd::seq_lib::group_seq_lib_default;
use vstd::string::*;

pub mod error;

use error::{Error, Result};

verus! {

/// Immutable batch parameters.
pub struct Config {
    /// How many domains are processed with bounded concurrency at a time;
    /// must be positive.
    pub chunk_size: usize,
    /// The directory the found files are written into; it must exist before
    /// the batch starts.
    pub out_dir: String,
    /// The deadline for each single fetch, in milliseconds.
    pub timeout_ms: u64,
}

impl Config {
    /// A configuration is well formed when its chunk size is positive.
    pub open spec fn wf(&self) -> bool {
        self.chunk_size > 0
    }
}

/// What one fetch concluded about a URL.
#[derive(Debug, PartialEq, Clone)]
pub enum FetchOutcome {
    /// No usable ads.txt at this URL.
    NotFound,
    /// The server redirected with a `Location` header.
    Redirect { location: String },
    /// A well-typed response whose body decoded as UTF-8 text.
    Success { body: String },
}

/// The mathematical value of a [`FetchOutcome`].
pub enum FetchOutcomeView {
    NotFound,
    Redirect(Seq<char>),
    Success(Seq<char>),
}

impl DeepView for FetchOutcome {
    type V = FetchOutcomeView;

    open spec fn deep_view(&self) -> FetchOutcomeView {
        match *self {
            FetchOutcome::NotFound => FetchOutcomeView::NotFound,
            FetchOutcome::Redirect { ref location } => FetchOutcomeView::Redirect(location@),
            FetchOutcome::Success { ref body } => FetchOutcomeView::Success(body@),
        }
    }
}

/// A header value as the transport handed it over: readable text, or bytes
/// that could not be read as text, with the text of that failure.
#[derive(Debug, PartialEq, Clone)]
pub enum HeaderText {
    Readable(String),
    Unreadable(String),
}

/// Whether the fetch is to read the response body or is already decided.
#[derive(Debug, PartialEq, Clone)]
pub enum HeadDecision {
    /// The response head passed every check: read the body.
    ReadBody,
    /// The fetch ends now with this outcome.
    Done(FetchOutcome),
}

/// The statuses that redirect: 301, 302, 307 and 308.
pub open spec fn spec_is_redirect_status(status: u16) -> bool {
    status == 301 || status == 302 || status == 307 || status == 308
}

/// Whether `status` redirects.
pub fn is_redirect_status(status: u16) -> (r: bool)
    ensures
        r == spec_is_redirect_status(status),
{
    status == 301 || status == 302 || status == 307 || status == 308
}

/// The success statuses: the 2xx range.
pub open spec fn spec_is_success_status(status: u16) -> bool {
    200 <= status < 300
}

/// The bytes of `text/plain`.
pub open spec fn spec_text_plain() -> Seq<u8> {
    seq![116u8, 101u8, 120u8, 116u8, 47u8, 112u8, 108u8, 97u8, 105u8, 110u8]
}

/// Whether a `Content-Type` header value declares `text/plain`: it opens
/// with those bytes (parameters such as a charset may follow).
pub open spec fn spec_declares_text_plain(ct: Seq<u8>) -> bool {
    ct.len() >= 10 && ct.subrange(0, 10) == spec_text_plain()
}

/// Reads [`spec_declares_text_plain`] of a header value.
pub fn declares_text_plain(ct: &Vec<u8>) -> (r: bool)
    ensures
        r == spec_declares_text_plain(ct@),
{
    let pat: Vec<u8> = vec![116u8, 101u8, 120u8, 116u8, 47u8, 112u8, 108u8, 97u8, 105u8, 110u8];
    proof {
        assert(pat@ =~= spec_text_plain());
    }
    if ct.len() < 10 {
        return false;
    }
    let mut i: usize = 0;
    while i < 10
        invariant
            pat@ == spec_text_plain(),
            ct@.len() >= 10,
            0 <= i <= 10,
            forall|j: int| 0 <= j < i ==> ct@[j] == spec_text_plain()[j],
        decreases 10 - i,
    {
        if ct[i] != pat[i] {
            proof {
                assert(ct@.subrange(0, 10)[i as int] == ct@[i as int]);
            }
            return false;
        }
        i = i + 1;
    }
    proof {
        assert(ct@.subrange(0, 10) =~= spec_text_plain());
    }
    true
}

/// A transport failure before any response: a connection failure means the
/// domain simply has no reachable server at that URL, so it is not-found;
/// any other transport failure is a reported crawl error.
pub fn classify_transport_failure(is_connect: bool, message: String) -> (r: Result<FetchOutcome>)
    ensures
        is_connect ==> r == Result::<FetchOutcome>::Ok(FetchOutcome::NotFound),
        !is_connect ==> r == Result::<FetchOutcome>::Err(Error::Crawle(message)),
{
    if is_connect {
        Ok(FetchOutcome::NotFound)
    } else {
        Err(Error::Crawle(message))
    }
}

/// Classifies a response head.
///
/// A redirect status yields the `Location` target, or not-found without one;
/// a `Location` that is not readable text is a header-encoding error. A 2xx
/// response is read only if it declares no content type or `text/plain`;
/// any other declared type, and any other status, is not-found.
pub fn classify_head(status: u16, location: Option<HeaderText>, content_type: Option<Vec<u8>>) -> (r:
    Result<HeadDecision>)
    ensures
        spec_is_redirect_status(status) ==> match location {
            None => r == Result::<HeadDecision>::Ok(HeadDecision::Done(FetchOutcome::NotFound)),
            Some(HeaderText::Readable(l)) => r == Result::<HeadDecision>::Ok(
                HeadDecision::Done(FetchOutcome::Redirect { location: l }),
            ),
            Some(HeaderText::Unreadable(m)) => r == Result::<HeadDecision>::Err(
                Error::HeaderEncoding(m),
            ),
        },
        !spec_is_redirect_status(status) && spec_is_success_status(status) ==> match content_type {
            Some(ct) => if spec_declares_text_plain(ct@) {
                r == Result::<HeadDecision>::Ok(HeadDecision::ReadBody)
            } else {
                r == Result::<HeadDecision>::Ok(HeadDecision::Done(FetchOutcome::NotFound))
            },
            None => r == Result::<HeadDecision>::Ok(HeadDecision::ReadBody),
        },
        !spec_is_redirect_status(status) && !spec_is_success_status(status) ==> r == Result::<
            HeadDecision,
        >::Ok(HeadDecision::Done(FetchOutcome::NotFound)),
{
    if is_redirect_status(status) {
        return match location {
            None => Ok(HeadDecision::Done(FetchOutcome::NotFound)),
            Some(HeaderText::Readable(l)) => Ok(
                HeadDecision::Done(FetchOutcome::Redirect { location: l }),
            ),
            Some(HeaderText::Unreadable(m)) => Err(Error::HeaderEncoding(m)),
        };
    }
    if 200 <= status && status < 300 {
        if let Some(ct) = content_type {
            if !declares_text_plain(&ct) {
                return Ok(HeadDecision::Done(FetchOutcome::NotFound));
            }
        }
        Ok(HeadDecision::ReadBody)
    } else {
        Ok(HeadDecision::Done(FetchOutcome::NotFound))
    }
}

/// Relies on String::from_utf8: it succeeds exactly on the valid UTF-8 byte
/// strings and returns their decoded characters; the error case yields the
/// failure's text.
#[verifier::external_body]
fn utf8_text(bytes: Vec<u8>) -> (r: core::result::Result<String, String>)
    ensures
        r is Ok <==> vstd::utf8::valid_utf8(bytes@),
        r matches Ok(s) ==> s@ == vstd::utf8::decode_utf8(bytes@),
{
    match String::from_utf8(bytes) {
        Ok(s) => Ok(s),
        Err(e) => Err(format!("{}", e)),
    }
}

/// The end of a fetch whose head passed every check: the body bytes decoded
/// as UTF-8 text. A body that is not UTF-8 is a reported decode error — a
/// symptom of a misbehaving server — never a not-found.
pub fn body_outcome(bytes: Vec<u8>) -> (r: Result<FetchOutcome>)
    ensures
        vstd::utf8::valid_utf8(bytes@) ==> (r matches Ok(o) && o matches FetchOutcome::Success {
            body,
        } && body@ == vstd::utf8::decode_utf8(bytes@)),
        !vstd::utf8::valid_utf8(bytes@) ==> (r matches Err(e) && e is BodyEncoding),
{
    match utf8_text(bytes) {
        Ok(body) => Ok(FetchOutcome::Success { body }),
        Err(m) => Err(Error::BodyEncoding(m)),
    }
}

/// The fixed user-agent string every request carries.
pub const USER_AGENT: &'static str = "ads.txt crawler/1.0.2; +github.com/mechiru/adstxt v1.0.2";

/// The URL of the first attempt for a domain: plain http.
pub open spec fn spec_http_url(domain: Seq<char>) -> Seq<char> {
    "http://"@ + domain + "/ads.txt"@
}

/// The URL of the fallback attempt for a domain: https.
pub open spec fn spec_https_url(domain: Seq<char>) -> Seq<char> {
    "https://"@ + domain + "/ads.txt"@
}

/// Builds `http://<domain>/ads.txt`.
pub fn http_url(domain: &str) -> (r: String)
    ensures
        r@ == spec_http_url(domain@),
{
    let mut u = String::new();
    u.append("http://");
    u.append(domain);
    u.append("/ads.txt");
    u
}

/// Builds `https://<domain>/ads.txt`.
pub fn https_url(domain: &str) -> (r: String)
    ensures
        r@ == spec_https_url(domain@),
{
    let mut u = String::new();
    u.append("https://");
    u.append(domain);
    u.append("/ads.txt");
    u
}

/// A redirect target is trusted only if it still names the domain and the
/// `ads.txt` file — a defensive heuristic against redirects to unrelated
/// hosts or pages.
pub open spec fn spec_redirect_ok(location: Seq<char>, domain: Seq<char>) -> bool {
    spec_contains(location, domain) && spec_contains(location, "ads.txt"@)
}

/// Reads [`spec_redirect_ok`] of a `Location` target.
pub fn redirect_ok(location: &str, domain: &str) -> (r: bool)
    ensures
        r == spec_redirect_ok(location@, domain@),
{
    contains_str(location, domain) && contains_str(location, "ads.txt")
}

/// What the resolver does after the first (http) fetch of a domain.
#[derive(Debug, PartialEq, Clone)]
pub enum FirstStep {
    /// Terminal: the ads.txt content was found; no second fetch happens.
    Found(String),
    /// Terminal: the domain has none; no second fetch happens.
    NotFound,
    /// One more fetch, of this URL: the validated redirect target, or the
    /// https fallback.
    FetchNext(String),
}

/// The mathematical value of a [`FirstStep`].
pub enum FirstStepView {
    Found(Seq<char>),
    NotFound,
    FetchNext(Seq<char>),
}

impl DeepView for FirstStep {
    type V = FirstStepView;

    open spec fn deep_view(&self) -> FirstStepView {
        match *self {
            FirstStep::Found(ref body) => FirstStepView::Found(body@),
            FirstStep::NotFound => FirstStepView::NotFound,
            FirstStep::FetchNext(ref u) => FirstStepView::FetchNext(u@),
        }
    }
}

/// The resolver's step after the first fetch, as a value.
pub open spec fn spec_step_first(domain: Seq<char>, outcome: FetchOutcomeView) -> FirstStepView {
    match outcome {
        FetchOutcomeView::Success(body) => FirstStepView::Found(body),
        FetchOutcomeView::Redirect(location) => {
            if spec_redirect_ok(location, domain) {
                FirstStepView::FetchNext(location)
            } else {
                FirstStepView::NotFound
            }
        },
        FetchOutcomeView::NotFound => FirstStepView::FetchNext(spec_https_url(domain)),
    }
}

/// The resolver's end after the second fetch, as a value.
pub open spec fn spec_step_second(outcome: FetchOutcomeView) -> Option<Seq<char>> {
    match outcome {
        FetchOutcomeView::Success(body) => Some(body),
        _ => None,
    }
}

/// The whole per-domain protocol as a value: the outcome of the first fetch
/// decides everything, except that a fallback or validated redirect consults
/// the outcome of one second fetch. No third outcome is ever consulted.
pub open spec fn spec_resolve(
    domain: Seq<char>,
    first: FetchOutcomeView,
    second: FetchOutcomeView,
) -> Option<Seq<char>> {
    match spec_step_first(domain, first) {
        FirstStepView::Found(body) => Some(body),
        FirstStepView::NotFound => None,
        FirstStepView::FetchNext(_) => spec_step_second(second),
    }
}

/// A domain whose first fetch succeeds resolves to that body at once:
/// whatever any further fetch might have said, it plays no part, so no
/// second request is made.
pub proof fn lemma_success_needs_no_second_fetch(
    domain: Seq<char>,
    body: Seq<char>,
    second: FetchOutcomeView,
    other: FetchOutcomeView,
)
    ensures
        spec_resolve(domain, FetchOutcomeView::Success(body), second) == Some(body),
        spec_resolve(domain, FetchOutcomeView::Success(body), second) == spec_resolve(
            domain,
            FetchOutcomeView::Success(body),
            other,
        ),
{
}

/// A redirect whose target names neither the domain nor `ads.txt` ends the
/// resolution as not-found: it is not followed, and no https attempt is
/// made either.
pub proof fn lemma_foreign_redirect_is_terminal(
    domain: Seq<char>,
    location: Seq<char>,
    second: FetchOutcomeView,
)
    requires
        !spec_redirect_ok(location, domain),
    ensures
        spec_step_first(domain, FetchOutcomeView::Redirect(location)) == FirstStepView::NotFound,
        spec_resolve(domain, FetchOutcomeView::Redirect(location), second) is None,
{
}

/// A domain whose http fetch came back not-found — which a timeout and a
/// refused connection both map to — is tried exactly once more, at its
/// https URL.
pub proof fn lemma_not_found_falls_back_to_https(domain: Seq<char>)
    ensures
        spec_step_first(domain, FetchOutcomeView::NotFound) == FirstStepView::FetchNext(
            spec_https_url(domain),
        ),
{
}

/// When the https attempt fails too, the resolver returns not-found after
/// exactly two attempts: the second outcome is terminal whatever it is, so
/// there is never a third.
pub proof fn lemma_second_failure_is_final(domain: Seq<char>, second: FetchOutcomeView)
    requires
        !(second is Success),
    ensures
        spec_resolve(domain, FetchOutcomeView::NotFound, second) is None,
{
}

/// Decides the resolver's step after the first fetch.
///
/// Success is terminal with the body. A redirect is followed once, and only
/// to a target that passes [`spec_redirect_ok`]; a foreign target ends the
/// resolution as not-found. A not-found (which a timeout and a connection
/// refusal both map to) falls back to the https URL.
pub fn step_after_first(domain: &str, outcome: FetchOutcome) -> (r: FirstStep)
    ensures
        r.deep_view() == spec_step_first(domain@, outcome.deep_view()),
        (outcome matches FetchOutcome::Success { body } ==> r == FirstStep::Found(body)),
        (outcome matches FetchOutcome::Redirect { location } ==> (if spec_redirect_ok(
            location@,
            domain@,
        ) {
            r == FirstStep::FetchNext(location)
        } else {
            r == FirstStep::NotFound
        })),
        (outcome matches FetchOutcome::NotFound ==> (r matches FirstStep::FetchNext(u) && u@
            == spec_https_url(domain@))),
{
    match outcome {
        FetchOutcome::Success { body } => FirstStep::Found(body),
        FetchOutcome::Redirect { location } => {
            if redirect_ok(location.as_str(), domain) {
                FirstStep::FetchNext(location)
            } else {
                FirstStep::NotFound
            }
        },
        FetchOutcome::NotFound => FirstStep::FetchNext(https_url(domain)),
    }
}

/// Decides the resolver's end after the second fetch: the body on success,
/// not-found on anything else. There is never a third fetch: a redirect is
/// not followed again.
pub fn step_after_second(outcome: FetchOutcome) -> (r: Option<String>)
    ensures
        r.deep_view() == spec_step_second(outcome.deep_view()),
        (outcome matches FetchOutcome::Success { body } ==> r == Some(body)),
        (outcome matches FetchOutcome::Redirect { location } ==> r is None),
        (outcome matches FetchOutcome::NotFound ==> r is None),
{
    match outcome {
        FetchOutcome::Success { body } => Some(body),
        FetchOutcome::Redirect { location: _ } => None,
        FetchOutcome::NotFound => None,
    }
}

/// Which side of the race between a fetch and its deadline finished first.
#[derive(Debug, PartialEq)]
pub enum RaceWinner {
    /// The deadline fired before the fetch completed; the fetch is
    /// abandoned.
    Deadline,
    /// The fetch completed first, with this result.
    Fetch(Result<FetchOutcome>),
}

/// Decides the timeout race: a timed-out domain is treated as absent — not
/// as an error — and a fetch that completed passes through unchanged.
pub fn race_outcome(winner: RaceWinner) -> (r: Result<FetchOutcome>)
    ensures
        (winner matches RaceWinner::Deadline ==> r == Result::<FetchOutcome>::Ok(
            FetchOutcome::NotFound,
        )),
        (winner matches RaceWinner::Fetch(res) ==> r == res),
{
    match winner {
        RaceWinner::Deadline => Ok(FetchOutcome::NotFound),
        RaceWinner::Fetch(res) => res,
    }
}

/// Cuts the domain list into consecutive chunks of `chunk_size`; the last
/// chunk may be shorter. One chunk is the unit of concurrency: every task of
/// a chunk finishes before the next chunk starts, so never more than
/// `chunk_size` fetch tasks are in flight.
pub fn chunks_of(domains: Vec<String>, chunk_size: usize) -> (r: Vec<Vec<String>>)
    requires
        chunk_size > 0,
    ensures
        r.deep_view().flatten() == domains.deep_view(),
        forall|i: int| 0 <= i < r@.len() ==> 0 < #[trigger] r@[i]@.len() <= chunk_size,
        forall|i: int| 0 <= i < r@.len() - 1 ==> #[trigger] r@[i]@.len() == chunk_size,
{
    broadcast use group_seq_lib_default;

    let n = domains.len();
    let mut r: Vec<Vec<String>> = Vec::new();
    let mut current: Vec<String> = Vec::new();
    let mut idx: usize = 0;
    proof {
        assert(r.deep_view() =~= Seq::<Seq<Seq<char>>>::empty());
        assert(r.deep_view().flatten() =~= Seq::<Seq<char>>::empty());
        assert(current.deep_view() =~= Seq::<Seq<char>>::empty());
        assert(domains.deep_view().take(0) =~= Seq::<Seq<char>>::empty());
    }
    while idx < n
        invariant
            n == domains@.len(),
            0 <= idx <= n,
            chunk_size > 0,
            current@.len() < chunk_size,
            r.deep_view().flatten() + current.deep_view() == domains.deep_view().take(idx as int),
            forall|i: int| 0 <= i < r@.len() ==> #[trigger] r@[i]@.len() == chunk_size,
        decreases n - idx,
    {
        let ghost prev_flat = r.deep_view().flatten();
        let ghost prev_current = current.deep_view();
        let d = domains[idx].clone();
        proof {
            assert(d@ == domains.deep_view()[idx as int]);
        }
        current.push(d);
        proof {
            assert(current.deep_view() =~= prev_current.push(domains.deep_view()[idx as int]));
            assert(prev_flat + current.deep_view() =~= (prev_flat + prev_current).push(
                domains.deep_view()[idx as int],
            ));
            assert(domains.deep_view().take(idx + 1) =~= domains.deep_view().take(
                idx as int,
            ).push(domains.deep_view()[idx as int]));
        }
        if current.len() == chunk_size {
            let ghost prev_chunks = r.deep_view();
            let ghost full = current.deep_view();
            let mut done = current;
            current = Vec::new();
            r.push(done);
            proof {
                assert(current.deep_view() =~= Seq::<Seq<char>>::empty());
                assert(r.deep_view() =~= prev_chunks.push(full));
                prev_chunks.lemma_flatten_push(full);
                assert(r.deep_view().flatten() == prev_chunks.push(full).flatten());
                assert(r.deep_view().flatten() + current.deep_view() =~= prev_flat + full);
            }
        }
        idx = idx + 1;
    }
    if current.len() > 0 {
        let ghost prev_chunks = r.deep_view();
        let ghost part = current.deep_view();
        r.push(current);
        proof {
            assert(r.deep_view() =~= prev_chunks.push(part));
            prev_chunks.lemma_flatten_push(part);
            assert(r.deep_view().flatten() == prev_chunks.push(part).flatten());
        }
    } else {
        proof {
            assert(r.deep_view().flatten() + current.deep_view() =~= r.deep_view().flatten());
        }
    }
    proof {
        assert(domains.deep_view().take(n as int) =~= domains.deep_view());
    }
    r
}

/// The batch's progress counters: how many domains are done, out of how
/// many. The count advances only at a chunk barrier, after every task of the
/// chunk has finished, so it is monotonic and never races.
#[derive(Debug, PartialEq, Clone, Copy)]
pub struct BatchProgress {
    /// Domains fully processed so far.
    pub processed: usize,
    /// Domains in the whole batch.
    pub total: usize,
}

impl BatchProgress {
    /// A fresh count for a batch of `total` domains.
    pub fn new(total: usize) -> (r: BatchProgress)
        ensures
            r.processed == 0,
            r.total == total,
    {
        BatchProgress { processed: 0, total }
    }

    /// Records a finished chunk of `k` domains: the count advances by
    /// exactly `k` and never beyond the total.
    pub fn advance_chunk(&mut self, k: usize)
        requires
            old(self).processed + k <= old(self).total,
        ensures
            final (self).processed == old(self).processed + k,
            final (self).total == old(self).total,
    {
        self.processed = self.processed + k;
    }

    /// Whether the running count sits on a reporting boundary: a progress
    /// line is logged every 10000 processed domains.
    pub fn at_log_boundary(&self) -> (r: bool)
        ensures
            r == (self.processed % 10000 == 0),
    {
        self.processed % 10000 == 0
    }
}

/// What the batch does with one domain's finished task.
#[derive(Debug, PartialEq, Clone)]
pub enum Disposition {
    /// The content was found: write it through the Sink.
    Store(String),
    /// Nothing to do: the domain has no ads.txt, or its response was too
    /// broken to decode (a common symptom of misbehaving servers, swallowed
    /// by design).
    Nothing,
    /// Log this error with the domain's name and move on.
    LogError(Error),
}

/// Decides what becomes of one domain's result. Found content is stored;
/// not-found is silent; decode errors (body or header encoding) are
/// swallowed; every other error is logged. No per-domain result ever aborts
/// the batch — only a task-execution failure, which never reaches here, is
/// fatal.
pub fn task_disposition(result: Result<Option<String>>) -> (r: Disposition)
    ensures
        (result matches Ok(o) ==> match o {
            Some(txt) => r == Disposition::Store(txt),
            None => r == Disposition::Nothing,
        }),
        (result matches Err(e) ==> match e {
            Error::BodyEncoding(_) => r == Disposition::Nothing,
            Error::HeaderEncoding(_) => r == Disposition::Nothing,
            _ => r == Disposition::LogError(e),
        }),
{
    match result {
        Ok(Some(txt)) => Disposition::Store(txt),
        Ok(None) => Disposition::Nothing,
        Err(Error::BodyEncoding(_)) => Disposition::Nothing,
        Err(Error::HeaderEncoding(_)) => Disposition::Nothing,
        Err(e) => Disposition::LogError(e),
    }
}

/// The path the Sink writes for a domain: the output directory, a
/// separator, the domain name itself — no extension, no escaping; callers
/// must ensure domain strings are filesystem-safe.
pub open spec fn spec_sink_path(out_dir: Seq<char>, domain: Seq<char>) -> Seq<char> {
    out_dir + "/"@ + domain
}

/// Builds `<out_dir>/<domain>`.
pub fn sink_path(out_dir: &str, domain: &str) -> (r: String)
    ensures
        r@ == spec_sink_path(out_dir@, domain@),
{
    let mut p = String::new();
    p.append(out_dir);
    p.append("/");
    p.append(domain);
    p
}

/// A model of the output directory: each written file's path maps to its
/// content. Storing a found file writes its content under the domain's
/// path, overwriting any file already there.
pub open spec fn spec_store(
    files: Map<Seq<char>, Seq<char>>,
    out_dir: Seq<char>,
    domain: Seq<char>,
    content: Seq<char>,
) -> Map<Seq<char>, Seq<char>> {
    files.insert(spec_sink_path(out_dir, domain), content)
}

/// Storing the same content for the same domain twice overwrites without
/// change: the second store leaves exactly the files of the first.
pub proof fn lemma_store_idempotent(
    files: Map<Seq<char>, Seq<char>>,
    out_dir: Seq<char>,
    domain: Seq<char>,
    content: Seq<char>,
)
    ensures
        spec_store(spec_store(files, out_dir, domain, content), out_dir, domain, content)
            == spec_store(files, out_dir, domain, content),
{
    assert(spec_store(spec_store(files, out_dir, domain, content), out_dir, domain, content)
        =~= spec_store(files, out_dir, domain, content));
}

/// However a batch interleaves stores of different domains under one output
/// directory, their paths never collide: distinct domains write distinct
/// files, so no store disturbs another's content.
pub proof fn lemma_stores_do_not_collide(
    files: Map<Seq<char>, Seq<char>>,
    out_dir: Seq<char>,
    domain_a: Seq<char>,
    content_a: Seq<char>,
    domain_b: Seq<char>,
    content_b: Seq<char>,
)
    requires
        domain_a != domain_b,
    ensures
        spec_store(spec_store(files, out_dir, domain_a, content_a), out_dir, domain_b, content_b)[
            spec_sink_path(out_dir, domain_a)
        ] == content_a,
{
    reveal_strlit("/");
    let pa = spec_sink_path(out_dir, domain_a);
    let pb = spec_sink_path(out_dir, domain_b);
    if pa == pb {
        assert(pa.len() == out_dir.len() + 1 + domain_a.len());
        assert(pb.len() == out_dir.len() + 1 + domain_b.len());
        assert(domain_a =~= domain_b) by {
            assert forall|i: int| 0 <= i < domain_a.len() implies domain_a[i] == domain_b[i] by {
                assert(pa[out_dir.len() + 1 + i] == domain_a[i]);
                assert(pb[out_dir.len() + 1 + i] == domain_b[i]);
            }
        }
    }
}

} // verus!
