//! The poll scheduler and change detector: owns the polling cadence,
//! the cache-validation token and the last adopted interval, digests
//! one response per cycle, and decides whether the caller gets a batch
//! or polls again.  The transport that carries the request is outside;
//! this state machine is handed what came back.

use vstd::prelude::*;
use vstd::string::StringExecFns;

use crate::event::Event;
use crate::event::EventType;
use crate::event::parse_events;
use crate::event::filter_events;
use crate::event::body_decode;
use crate::event::events_model;
use crate::event::filtered_spec;
use crate::event::lemma_model_filter_commutes;
use crate::text::parse_u64;
use crate::text::parse_u64_spec;
use crate::text::trim_end;
use crate::text::trim_end_of;

verus! {

/// Seconds scheduled between cycles when the server has given no usable
/// hint yet, and pessimistically before each send.
pub const DEFAULT_INTERVAL_SECS: u64 = 300;

/// Sum of two counts of seconds, stopping at the largest representable
/// value instead of wrapping.
pub open spec fn sat_add(a: u64, b: u64) -> u64 {
    if a + b <= u64::MAX {
        (a + b) as u64
    } else {
        u64::MAX
    }
}

/// The interval after a response: the hint when one is present and
/// reads as a positive number of seconds, the previous interval on a
/// missing, unparseable, or zero hint.
pub open spec fn updated_interval(prev: u64, hint: Option<Seq<char>>) -> u64 {
    match hint {
        Some(h) => match parse_u64_spec(h) {
            Some(n) => if n >= 1 {
                n
            } else {
                prev
            },
            None => prev,
        },
        None => prev,
    }
}

/// Interval floor: a hint that is absent, unparseable, or not a
/// positive number of seconds leaves the interval exactly as it was.
pub proof fn lemma_interval_floor(prev: u64, hint: Option<Seq<char>>)
    requires
        match hint {
            Some(h) => parse_u64_spec(h) is None || parse_u64_spec(h) == Some(0u64),
            None => true,
        },
    ensures
        updated_interval(prev, hint) == prev,
{
}

/// A positive interval stays positive, whatever hint arrives: the
/// scheduler can never be talked into a zero wait.
pub proof fn lemma_interval_stays_positive(prev: u64, hint: Option<Seq<char>>)
    requires
        prev >= 1,
    ensures
        updated_interval(prev, hint) >= 1,
{
}

/// View of an optional header value.
pub open spec fn opt_text(o: Option<String>) -> Option<Seq<char>> {
    match o {
        Some(s) => Some(s@),
        None => None,
    }
}

/// The events endpoint for a repository coordinate.
pub open spec fn url_spec(owner: Seq<char>, repo: Seq<char>) -> Seq<char> {
    "https://api.github.com/repos/"@ + owner + "/"@ + repo + "/events"@
}

/// One request, laid out for the transport: where to send it, the
/// authorization value, and the conditional cache validator when one is
/// held.  The fixed accept, client-identifying and API-version headers
/// ride along unchanged on every request.
pub struct RequestPlan {
    pub url: String,
    pub authorization: String,
    pub if_none_match: Option<String>,
}

/// What the transport handed back for one cycle: the status code, the
/// two hint headers when present, and the body's text.
pub struct PollResponse {
    pub status: u16,
    pub poll_interval: Option<String>,
    pub etag: Option<String>,
    pub body: String,
}

/// What the caller does after a received response: hand a filtered
/// batch out, or poll again after the scheduled wait.
pub enum CycleStep {
    Batch(Vec<Event>),
    Retry,
}

/// Per-resource polling state, owned by one caller at a time.
pub struct ChangeDetector {
    owner: String,
    repo: String,
    token: String,
    next_query: u64,
    interval: u64,
    etag: Option<String>,
}

fn saturated(a: u64, b: u64) -> (r: u64)
    ensures
        r == sat_add(a, b),
{
    if a <= u64::MAX - b {
        a + b
    } else {
        u64::MAX
    }
}

/// The fixed events endpoint for a repository coordinate.
fn build_events_url(owner: &String, repo: &String) -> (r: String)
    ensures
        r@ == url_spec(owner@, repo@),
{
    let url = "https://api.github.com/repos/".to_owned().concat(owner.as_str()).concat(
        "/",
    ).concat(repo.as_str()).concat("/events");
    proof {
        assert(url@ =~= url_spec(owner@, repo@));
    }
    url
}

impl ChangeDetector {
    pub closed spec fn spec_owner(&self) -> Seq<char> {
        self.owner@
    }

    pub closed spec fn spec_repo(&self) -> Seq<char> {
        self.repo@
    }

    pub closed spec fn spec_token(&self) -> Seq<char> {
        self.token@
    }

    /// The earliest instant, in seconds, the next request may go out.
    pub closed spec fn spec_next_query(&self) -> u64 {
        self.next_query
    }

    /// The wait, in seconds, currently scheduled between cycles.
    pub closed spec fn spec_interval(&self) -> u64 {
        self.interval
    }

    /// The stored cache validator, if any response has carried one.
    pub closed spec fn spec_etag(&self) -> Option<Seq<char>> {
        opt_text(self.etag)
    }

    /// The interval is positive, so the scheduler can never busy-loop.
    pub open spec fn wf(&self) -> bool {
        self.spec_interval() >= 1
    }

    /// A fresh detector for one repository: eligible to poll at once,
    /// at the default cadence, holding no validator yet.
    pub fn new(owner: &str, repo: &str, token: &str) -> (d: Self)
        ensures
            d.spec_owner() == owner@,
            d.spec_repo() == repo@,
            d.spec_token() == token@,
            d.spec_next_query() == 0,
            d.spec_interval() == DEFAULT_INTERVAL_SECS,
            d.spec_etag() is None,
            d.wf(),
    {
        ChangeDetector {
            owner: owner.to_owned(),
            repo: repo.to_owned(),
            token: token.to_owned(),
            next_query: 0,
            interval: DEFAULT_INTERVAL_SECS,
            etag: None,
        }
    }

    pub fn next_eligible_time(&self) -> (t: u64)
        ensures
            t == self.spec_next_query(),
    {
        self.next_query
    }

    pub fn current_interval(&self) -> (i: u64)
        ensures
            i == self.spec_interval(),
    {
        self.interval
    }

    pub fn validation_token(&self) -> (t: Option<String>)
        ensures
            opt_text(t) == self.spec_etag(),
    {
        match &self.etag {
            Some(s) => Some(s.clone()),
            None => None,
        }
    }

    /// The step before sending: schedules the next cycle a default
    /// interval away — a pessimistic floor that guarantees forward
    /// progress even if the response never arrives in a usable form —
    /// and lays the request out: the endpoint URL, the authorization
    /// value built from the trimmed credential, and the stored cache
    /// validator exactly when one is held.
    pub fn prepare_request(&mut self, now: u64) -> (plan: RequestPlan)
        ensures
            final(self).spec_next_query() == sat_add(now, DEFAULT_INTERVAL_SECS),
            final(self).spec_interval() == old(self).spec_interval(),
            final(self).spec_etag() == old(self).spec_etag(),
            final(self).spec_owner() == old(self).spec_owner(),
            final(self).spec_repo() == old(self).spec_repo(),
            final(self).spec_token() == old(self).spec_token(),
            plan.url@ == url_spec(old(self).spec_owner(), old(self).spec_repo()),
            plan.authorization@ == "Bearer "@ + trim_end_of(old(self).spec_token()),
            opt_text(plan.if_none_match) == old(self).spec_etag(),
    {
        let url = build_events_url(&self.owner, &self.repo);
        let authorization = "Bearer ".to_owned().concat(trim_end(self.token.as_str()));
        let if_none_match = match &self.etag {
            Some(t) => Some(t.clone()),
            None => None,
        };
        self.next_query = saturated(now, DEFAULT_INTERVAL_SECS);
        RequestPlan { url, authorization, if_none_match }
    }

    /// Digests one received response, whatever its status: adopts a
    /// positive, parseable interval hint; overwrites the stored
    /// validator with any the response carries; schedules the next
    /// cycle one (possibly fresh) interval from now; and decides the
    /// caller's step.  Only a success whose body decodes as envelopes
    /// yields a batch — filtered to the requested kind — while a
    /// not-modified response, a decode failure and every other status
    /// keep the caller polling.
    pub fn process_response(
        &mut self,
        now: u64,
        response: &PollResponse,
        requested: &EventType,
    ) -> (step: CycleStep)
        ensures
            final(self).spec_interval() == updated_interval(
                old(self).spec_interval(),
                opt_text(response.poll_interval),
            ),
            final(self).spec_etag() == (if response.etag is Some {
                opt_text(response.etag)
            } else {
                old(self).spec_etag()
            }),
            final(self).spec_next_query() == sat_add(now, final(self).spec_interval()),
            final(self).spec_owner() == old(self).spec_owner(),
            final(self).spec_repo() == old(self).spec_repo(),
            final(self).spec_token() == old(self).spec_token(),
            old(self).wf() ==> final(self).wf(),
            response.status != 200 ==> (step is Retry),
            response.status == 200 ==> match body_decode(response.body@) {
                Some(models) => step matches CycleStep::Batch(batch) && events_model(batch@)
                    == models.filter(
                    |m: (Seq<char>, serde_json::Value)| m.0 == requested.spec_str(),
                ),
                None => step is Retry,
            },
    {
        if let Some(hint) = &response.poll_interval {
            match parse_u64(hint.as_str()) {
                Some(n) => {
                    if n >= 1 {
                        self.interval = n;
                    }
                },
                None => {},
            }
        }
        if let Some(tag) = &response.etag {
            self.etag = Some(tag.clone());
        }
        self.next_query = saturated(now, self.interval);
        if response.status == 200 {
            match parse_events(response.body.as_str()) {
                Ok(decoded) => {
                    let ghost decoded_seq = decoded@;
                    let batch = filter_events(decoded, requested);
                    proof {
                        assert(batch@ == filtered_spec(decoded_seq, *requested));
                        lemma_model_filter_commutes(decoded_seq, *requested);
                    }
                    return CycleStep::Batch(batch);
                },
                Err(_) => {},
            }
        }
        CycleStep::Retry
    }

    /// A transport failure surfaces to the caller, but only after the
    /// next cycle is scheduled one current interval away — the last
    /// known good interval, not the default — so an external retry
    /// cannot busy-loop.
    pub fn note_failure(&mut self, now: u64)
        ensures
            final(self).spec_next_query() == sat_add(now, old(self).spec_interval()),
            final(self).spec_interval() == old(self).spec_interval(),
            final(self).spec_etag() == old(self).spec_etag(),
            final(self).spec_owner() == old(self).spec_owner(),
            final(self).spec_repo() == old(self).spec_repo(),
            final(self).spec_token() == old(self).spec_token(),
            old(self).wf() ==> final(self).wf(),
    {
        self.next_query = saturated(now, self.interval);
    }
}

} // verus!
