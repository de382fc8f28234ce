//! Webhooks: their stored form, the checks a webhook URL must pass, the
//! signature of a delivery, and the retry policy of a delivery.
use vstd::prelude::*;
use vstd::utf8::{decode_utf8, valid_utf8};
use crate::codec::{from_utf8_lossy, hex_encode, hex_lower, hmac_sha256, hmac_sha256_tag, json_string_list, json_string_list_of, json_string_list_text, parse_json_string_list, strings_view, utf8_lossy};
use crate::net::{blocked_spec, is_blocked_ip, IpAddress};
use crate::status::{TusError, TusErrorView};
use crate::text::{append_u64, concat_str, nat_text, str_eq};

verus! {

/// A webhook as configured.
#[derive(Debug, Clone)]
pub struct WebhookConfig {
    pub id: String,
    pub name: String,
    pub url: String,
    pub secret: Option<String>,
    pub events: Vec<String>,
    pub enabled: bool,
    pub created_at: String,
    pub updated_at: String,
}

/// The body of a request to create a webhook.
#[derive(Debug, Clone)]
pub struct NewWebhookConfig {
    pub name: String,
    pub url: String,
    pub secret: Option<String>,
    pub events: Vec<String>,
}

/// The body of a request to change a webhook.
#[derive(Debug, Clone)]
pub struct UpdateWebhookConfig {
    pub name: String,
    pub url: String,
    pub secret: Option<String>,
    pub events: Vec<String>,
    pub enabled: bool,
}

/// A recorded delivery, as listed.
#[derive(Debug, Clone)]
pub struct WebhookDelivery {
    pub id: String,
    pub webhook_id: String,
    pub upload_id: Option<String>,
    pub event_type: String,
    pub payload: String,
    pub status_code: Option<i64>,
    pub response_body: Option<String>,
    pub error: Option<String>,
    pub attempts: i64,
    pub delivered_at: String,
}

/// A delivery to record.
#[derive(Debug, Clone)]
pub struct NewWebhookDelivery {
    pub id: String,
    pub webhook_id: String,
    pub upload_id: Option<String>,
    pub event_type: String,
    pub payload: String,
    pub status_code: Option<i64>,
    pub response_body: Option<String>,
    pub error: Option<String>,
    pub attempts: i64,
}

/// A webhook as stored: its events are a JSON array of strings.
#[derive(Debug, Clone)]
pub struct WebhookRow {
    pub id: String,
    pub name: String,
    pub url: String,
    pub secret: Option<String>,
    pub events: String,
    pub enabled: bool,
    pub created_at: String,
    pub updated_at: String,
}

/// The stored form of a webhook's event list.
pub fn events_json(events: &Vec<String>) -> (r: String)
    ensures
        r@ == json_string_list_text(strings_view(events@)),
        json_string_list(r@) == Ok::<Seq<Seq<char>>, Seq<char>>(strings_view(events@)),
{
    json_string_list_of(events.as_slice())
}

/// Reads a stored webhook; a malformed event list is an internal error.
pub fn row_to_config(row: WebhookRow) -> (r: Result<WebhookConfig, TusError>)
    ensures
        match json_string_list(row.events@) {
            Ok(ev) => r matches Ok(c) && strings_view(c.events@) == ev && c.id == row.id
                && c.name == row.name && c.url == row.url && c.secret == row.secret
                && c.enabled == row.enabled && c.created_at == row.created_at
                && c.updated_at == row.updated_at,
            Err(m) => r matches Err(e) && e@ == TusErrorView::Internal(m),
        },
{
    let events = match parse_json_string_list(row.events.as_str()) {
        Ok(v) => v,
        Err(m) => {
            return Err(TusError::Internal(m));
        },
    };
    Ok(WebhookConfig {
        id: row.id,
        name: row.name,
        url: row.url,
        secret: row.secret,
        events,
        enabled: row.enabled,
        created_at: row.created_at,
        updated_at: row.updated_at,
    })
}

/// `c` is the webhook stored as `row`.
pub open spec fn config_from_row(c: WebhookConfig, row: WebhookRow) -> bool {
    &&& json_string_list(row.events@) == Ok::<Seq<Seq<char>>, Seq<char>>(strings_view(c.events@))
    &&& c.id == row.id
    &&& c.name == row.name
    &&& c.url == row.url
    &&& c.secret == row.secret
    &&& c.enabled == row.enabled
    &&& c.created_at == row.created_at
    &&& c.updated_at == row.updated_at
}

/// Reads stored webhooks in order; the first malformed one is the error.
pub fn rows_to_configs(rows: Vec<WebhookRow>) -> (r: Result<Vec<WebhookConfig>, TusError>)
    ensures
        r matches Ok(v) ==> v.len() == rows.len() && forall|i: int|
            0 <= i < rows.len() ==> config_from_row(#[trigger] v@[i], rows@[i]),
        r is Err <==> exists|i: int| 0 <= i < rows.len() && #[trigger] json_string_list(rows@[i].events@) is Err,
        r matches Err(e) ==> exists|i: int|
            0 <= i < rows.len() && (forall|j: int| 0 <= j < i ==> #[trigger] json_string_list(rows@[j].events@) is Ok)
                && #[trigger] json_string_list(rows@[i].events@) is Err && e@ == TusErrorView::Internal(
                json_string_list(rows@[i].events@)->Err_0,
            ),
{
    let mut out: Vec<WebhookConfig> = Vec::new();
    let ghost all = rows@;
    assert(all.len() == rows.len());
    let mut rest = rows;
    let mut i: usize = 0;
    while rest.len() > 0
        invariant
            i + rest.len() == all.len(),
            all.len() <= usize::MAX,
            all == rows@,
            out.len() == i,
            rest@ == all.skip(i as int),
            forall|k: int| 0 <= k < i ==> config_from_row(#[trigger] out@[k], all[k]),
        decreases rest.len(),
    {
        let row = rest.remove(0);
        assert(row == all[i as int]);
        assert(rest@ =~= all.skip(i + 1));
        match row_to_config(row) {
            Ok(c) => {
                out.push(c);
            },
            Err(e) => {
                assert(json_string_list(all[i as int].events@) is Err);
                assert(forall|j: int| 0 <= j < i ==> #[trigger] json_string_list(all[j].events@) is Ok) by {
                    assert forall|j: int| 0 <= j < i implies #[trigger] json_string_list(all[j].events@) is Ok by {
                        assert(config_from_row(out@[j], all[j]));
                    }
                }
                return Err(e);
            },
        }
        i += 1;
    }
    proof {
        assert forall|k: int| 0 <= k < all.len() implies !(#[trigger] json_string_list(all[k].events@) is Err) by {
            assert(config_from_row(out@[k], all[k]));
        }
    }
    Ok(out)
}

/// A webhook as shown by the dashboard: its secret is never shown, only
/// whether it has one.
#[derive(Debug, Clone)]
pub struct WebhookResponse {
    pub id: String,
    pub name: String,
    pub url: String,
    pub has_secret: bool,
    pub events: Vec<String>,
    pub enabled: bool,
    pub created_at: String,
    pub updated_at: String,
}

impl WebhookResponse {
    /// The dashboard form of a webhook.
    pub fn from(w: WebhookConfig) -> (r: WebhookResponse)
        ensures
            r.id == w.id,
            r.name == w.name,
            r.url == w.url,
            r.has_secret == w.secret is Some,
            r.events == w.events,
            r.enabled == w.enabled,
            r.created_at == w.created_at,
            r.updated_at == w.updated_at,
    {
        let has_secret = w.secret.is_some();
        WebhookResponse {
            id: w.id,
            name: w.name,
            url: w.url,
            has_secret,
            events: w.events,
            enabled: w.enabled,
            created_at: w.created_at,
            updated_at: w.updated_at,
        }
    }
}

// ---------------------------------------------------------------------------
// URL checks
// ---------------------------------------------------------------------------

/// What `url::Url::parse` makes of `s`: `None` when it does not parse, else
/// the URL's `scheme()`, `host_str()` and `port_or_known_default()`.
pub uninterp spec fn url_components(s: Seq<char>) -> Option<(Seq<char>, Option<Seq<char>>, Option<u16>)>;

/// `reqwest::Url::parse` (the `url` crate), read back as scheme, host and
/// port; the outcome is named by `url_components`.
#[verifier::external_body]
fn parse_url(s: &str) -> (r: Option<(String, Option<String>, Option<u16>)>)
    ensures
        match r {
            Some((a, b, c)) => url_components(s@) == Some((a@, crate::text::opt_chars(b), c)),
            None => url_components(s@) is None,
        },
{
    reqwest::Url::parse(s).ok().map(|u| (u.scheme().to_string(), u.host_str().map(|h| h.to_string()), u.port_or_known_default()))
}

/// The checks of a webhook URL before its host is resolved: it parses, its
/// scheme is `http` or `https`, and it has a host.  On success the host and
/// the port to connect to (80 when the URL gives none and its scheme has no
/// default).
pub open spec fn webhook_url_spec(url: Seq<char>) -> Result<(Seq<char>, u16), TusErrorView> {
    match url_components(url) {
        None => Err(TusErrorView::InvalidHeader("webhook URL is invalid: "@ + url)),
        Some((scheme, host, port)) => if scheme != "http"@ && scheme != "https"@ {
            Err(TusErrorView::InvalidHeader("webhook URL scheme must be http or https, got: "@ + scheme))
        } else {
            match host {
                None => Err(TusErrorView::InvalidHeader("webhook URL has no host"@)),
                Some(h) => Ok((
                    h,
                    match port {
                        Some(p) => p,
                        None => 80u16,
                    },
                )),
            }
        },
    }
}

/// Checks a webhook URL; on success the host and port to resolve.
pub fn check_webhook_url(url: &str) -> (r: Result<(String, u16), TusError>)
    ensures
        match webhook_url_spec(url@) {
            Ok((h, p)) => r matches Ok((x, y)) && x@ == h && y == p,
            Err(e) => r matches Err(x) && x@ == e,
        },
{
    let (scheme, host, port) = match parse_url(url) {
        None => {
            return Err(TusError::InvalidHeader(concat_str("webhook URL is invalid: ", url)));
        },
        Some(parts) => parts,
    };
    if !str_eq(scheme.as_str(), "http") && !str_eq(scheme.as_str(), "https") {
        return Err(
            TusError::InvalidHeader(
                concat_str("webhook URL scheme must be http or https, got: ", scheme.as_str()),
            ),
        );
    }
    let h = match host {
        None => {
            return Err(TusError::InvalidHeader("webhook URL has no host".to_owned()));
        },
        Some(h) => h,
    };
    let p = match port {
        Some(p) => p,
        None => 80,
    };
    Ok((h, p))
}

/// The error for a host that could not be resolved.
pub fn unresolved_host(reason: &str) -> (e: TusError)
    ensures
        e@ == TusErrorView::InvalidHeader("webhook URL host could not be resolved: "@ + reason@),
{
    TusError::InvalidHeader(concat_str("webhook URL host could not be resolved: ", reason))
}

/// The addresses a webhook host resolved to (each with its text): the first
/// blocked one refuses the webhook.
pub fn check_resolved_addresses(addrs: &[(IpAddress, String)]) -> (r: Result<(), TusError>)
    ensures
        r is Ok <==> forall|i: int| 0 <= i < addrs.len() ==> !blocked_spec(#[trigger] addrs@[i].0),
        r matches Err(e) ==> exists|i: int|
            0 <= i < addrs.len() && blocked_spec(#[trigger] addrs@[i].0) && (forall|j: int|
                0 <= j < i ==> !blocked_spec(#[trigger] addrs@[j].0)) && e@
                == TusErrorView::InvalidHeader(
                "webhook URL resolves to a blocked address: "@ + addrs@[i].1@,
            ),
{
    let mut i: usize = 0;
    while i < addrs.len()
        invariant
            i <= addrs.len(),
            forall|j: int| 0 <= j < i ==> !blocked_spec(#[trigger] addrs@[j].0),
        decreases addrs.len() - i,
    {
        if is_blocked_ip(addrs[i].0) {
            return Err(
                TusError::InvalidHeader(
                    concat_str("webhook URL resolves to a blocked address: ", addrs[i].1.as_str()),
                ),
            );
        }
        i += 1;
    }
    Ok(())
}

// ---------------------------------------------------------------------------
// Deliveries
// ---------------------------------------------------------------------------

/// The `X-Hub-Signature-256` value of a delivery: `sha256=` and the lower-case
/// hex HMAC-SHA256 of the body under the webhook's secret.
pub open spec fn signature_spec(secret: Seq<char>, body: Seq<u8>) -> Seq<char> {
    "sha256="@ + hex_lower(hmac_sha256(vstd::utf8::encode_utf8(secret), body))
}

/// Signs a delivery body with a webhook's secret.
pub fn signature_header(secret: &str, body: &[u8]) -> (r: String)
    ensures
        r@ == signature_spec(secret@, body@),
{
    let tag = hmac_sha256_tag(secret.as_bytes(), body);
    let hex = hex_encode(tag.as_slice());
    concat_str("sha256=", hex.as_str())
}

/// At most this many bytes of a response body are kept.
pub const MAX_RESPONSE_BODY: usize = 4096;

/// Adds a chunk of a response body to what was kept, up to the cap.  Returns
/// `false` when the cap had already been reached (the rest of the body is not
/// read).
pub fn keep_response_chunk(kept: &mut Vec<u8>, chunk: &[u8]) -> (more: bool)
    ensures
        old(kept).len() <= MAX_RESPONSE_BODY ==> final(kept).len() <= MAX_RESPONSE_BODY,
        more == (old(kept).len() < MAX_RESPONSE_BODY),
        more ==> final(kept)@ == old(kept)@ + chunk@.take(
            if chunk.len() <= MAX_RESPONSE_BODY - old(kept).len() {
                chunk.len() as int
            } else {
                MAX_RESPONSE_BODY - old(kept).len()
            },
        ),
        !more ==> final(kept)@ == old(kept)@,
{
    if kept.len() >= MAX_RESPONSE_BODY {
        return false;
    }
    let remaining = MAX_RESPONSE_BODY - kept.len();
    let n = if chunk.len() <= remaining {
        chunk.len()
    } else {
        remaining
    };
    let ghost start = kept@;
    let mut i: usize = 0;
    while i < n
        invariant
            n <= chunk.len(),
            i <= n,
            n <= MAX_RESPONSE_BODY - start.len(),
            kept@ == start + chunk@.take(i as int),
        decreases n - i,
    {
        kept.push(chunk[i]);
        proof {
            assert(chunk@.take(i + 1) =~= chunk@.take(i as int).push(chunk@[i as int]));
        }
        i += 1;
    }
    true
}

/// The seconds to wait after failed attempt `attempt` (counted from 1): the
/// configured delay of that attempt, else the last configured delay, else 1.
pub open spec fn retry_delay_spec(delays: Seq<u64>, attempt: u32) -> u64 {
    if attempt - 1 < delays.len() {
        delays[attempt - 1]
    } else if delays.len() > 0 {
        delays.last()
    } else {
        1
    }
}

/// The delay before the next attempt of a delivery.
pub fn retry_delay(delays: &[u64], attempt: u32) -> (d: u64)
    requires
        attempt >= 1,
    ensures
        d == retry_delay_spec(delays@, attempt),
{
    let idx = (attempt - 1) as usize;
    if idx < delays.len() {
        delays[idx]
    } else if delays.len() > 0 {
        delays[delays.len() - 1]
    } else {
        1
    }
}

/// What one attempt to deliver a webhook came to.
#[derive(Debug, Clone)]
pub enum AttemptResult {
    /// The endpoint answered with `status`; `body` is the kept part of its body.
    Response { status: u16, body: Vec<u8> },
    /// The request failed; the error's text.
    Failed { error: String },
}

/// What the delivery loop does next.
#[derive(Debug, Clone, Copy, PartialEq, Eq)]
pub enum DeliveryStep {
    /// Wait this many seconds, then make the next attempt.
    Retry { delay_secs: u64 },
    /// Record the delivery.
    Finished,
}

/// The outcome of a delivery so far: the last attempt's number, status, body
/// text and error.
#[derive(Debug, Clone)]
pub struct DeliveryState {
    pub attempts: i64,
    pub last_status: Option<i64>,
    pub last_body: Option<String>,
    pub last_error: Option<String>,
}

/// A 2xx status.
pub open spec fn is_success(status: u16) -> bool {
    200 <= status <= 299
}

/// The error recorded for an unsuccessful status: `HTTP <status>`.
pub open spec fn http_error_text(status: u16) -> Seq<char> {
    "HTTP "@ + nat_text(status as nat)
}

impl DeliveryState {
    /// Before the first attempt: nothing recorded.
    pub fn new() -> (s: DeliveryState)
        ensures
            s.attempts == 0,
            s.last_status is None,
            s.last_body is None,
            s.last_error is None,
    {
        DeliveryState { attempts: 0, last_status: None, last_body: None, last_error: None }
    }

    /// Records attempt `attempt` of `max_attempts` and decides what follows: a
    /// 2xx answer ends the delivery; any other outcome is retried after the
    /// configured delay until the attempts are used up.
    pub fn record_attempt(&mut self, attempt: u32, result: AttemptResult, max_attempts: u32, delays: &[u64]) -> (step: DeliveryStep)
        requires
            1 <= attempt,
        ensures
            final(self).attempts == attempt as i64,
            match result {
                AttemptResult::Response { status, body } => {
                    &&& final(self).last_status == Some(status as i64)
                    &&& final(self).last_body matches Some(b) && b@ == utf8_lossy(body@)
                    &&& valid_utf8(body@) ==> (final(self).last_body matches Some(b) && b@ == decode_utf8(body@))
                    &&& if is_success(status) {
                        final(self).last_error is None && step == DeliveryStep::Finished
                    } else {
                        final(self).last_error matches Some(e) && e@ == http_error_text(status)
                    }
                },
                AttemptResult::Failed { error } => {
                    &&& final(self).last_status is None
                    &&& final(self).last_body is None
                    &&& final(self).last_error == Some(error)
                },
            },
            !(result matches AttemptResult::Response { status, .. } && is_success(status)) ==> step == (
            if attempt < max_attempts {
                DeliveryStep::Retry { delay_secs: retry_delay_spec(delays@, attempt) }
            } else {
                DeliveryStep::Finished
            }),
    {
        self.attempts = attempt as i64;
        match result {
            AttemptResult::Response { status, body } => {
                self.last_status = Some(status as i64);
                self.last_body = Some(from_utf8_lossy(body.as_slice()));
                if 200 <= status && status <= 299 {
                    self.last_error = None;
                    return DeliveryStep::Finished;
                }
                let mut e = "HTTP ".to_owned();
                append_u64(&mut e, status as u64);
                self.last_error = Some(e);
            },
            AttemptResult::Failed { error } => {
                self.last_error = Some(error);
                self.last_status = None;
                self.last_body = None;
            },
        }
        if attempt < max_attempts {
            DeliveryStep::Retry { delay_secs: retry_delay(delays, attempt) }
        } else {
            DeliveryStep::Finished
        }
    }

    /// The outcome label of a finished delivery: `success` when its last
    /// attempt left no error.
    pub fn outcome(&self) -> (r: String)
        ensures
            r@ == (if self.last_error is None {
                "success"@
            } else {
                "failure"@
            }),
    {
        if self.last_error.is_none() {
            "success".to_owned()
        } else {
            "failure".to_owned()
        }
    }

    /// The record of a finished delivery of `event_type` for `upload_id` to
    /// `webhook_id`, with the payload text it sent.
    pub fn into_record(self, id: String, webhook_id: String, upload_id: String, event_type: String, payload: &[u8]) -> (d: NewWebhookDelivery)
        ensures
            d.id == id,
            d.webhook_id == webhook_id,
            d.upload_id == Some(upload_id),
            d.event_type == event_type,
            d.payload@ == utf8_lossy(payload@),
            d.status_code == self.last_status,
            d.response_body == self.last_body,
            d.error == self.last_error,
            d.attempts == self.attempts,
    {
        NewWebhookDelivery {
            id,
            webhook_id,
            upload_id: Some(upload_id),
            event_type,
            payload: from_utf8_lossy(payload),
            status_code: self.last_status,
            response_body: self.last_body,
            error: self.last_error,
            attempts: self.attempts,
        }
    }
}

/// The wait before a retry is always one of the configured delays, or one
/// second when none is configured; attempts past the list reuse its last delay.
pub proof fn lemma_retry_delay_configured(delays: Seq<u64>, attempt: u32)
    requires
        attempt >= 1,
    ensures
        delays.len() == 0 ==> retry_delay_spec(delays, attempt) == 1,
        delays.len() > 0 ==> delays.contains(retry_delay_spec(delays, attempt)),
        attempt > delays.len() && delays.len() > 0 ==> retry_delay_spec(delays, attempt) == delays.last(),
{
    if delays.len() > 0 {
        if attempt - 1 < delays.len() {
            assert(delays[attempt - 1] == retry_delay_spec(delays, attempt));
        } else {
            assert(delays[delays.len() - 1] == retry_delay_spec(delays, attempt));
        }
    }
}

/// The wait before retry `attempt` is the `attempt`-th configured delay while
/// the list lasts.
pub proof fn lemma_retry_delay_in_order(delays: Seq<u64>, attempt: u32)
    requires
        1 <= attempt <= delays.len(),
    ensures
        retry_delay_spec(delays, attempt) == delays[attempt - 1],
{
}

/// A delivery succeeds exactly on a 2xx answer; any other status is an error
/// recorded as `HTTP <status>`.
pub proof fn lemma_success_is_2xx(status: u16)
    ensures
        is_success(status) <==> 200 <= status < 300,
        http_error_text(status) == "HTTP "@ + nat_text(status as nat),
{
}

/// A delivery is signed with the HMAC-SHA256 of exactly its body, keyed by the
/// UTF-8 bytes of the webhook's secret, written `sha256=` and then two
/// lower-case hex digits per tag byte, high nibble first.
pub proof fn lemma_signature_shape(secret: Seq<char>, body: Seq<u8>)
    ensures
        ({
            let tag = hmac_sha256(vstd::utf8::encode_utf8(secret), body);
            let sig = signature_spec(secret, body);
            &&& sig.len() == 7 + 2 * tag.len()
            &&& sig.subrange(0, 7) == "sha256="@
            &&& forall|i: int| 0 <= i < tag.len() ==> sig[7 + 2 * i] == crate::codec::hex_digit((#[trigger] tag[i] / 16) as nat)
                && sig[7 + 2 * i + 1] == crate::codec::hex_digit((tag[i] % 16) as nat)
        }),
{
    reveal_strlit("sha256=");
    let tag = hmac_sha256(vstd::utf8::encode_utf8(secret), body);
    lemma_hex_lower_at(tag);
    let sig = signature_spec(secret, body);
    assert(sig.subrange(0, 7) =~= "sha256="@);
    assert forall|i: int| 0 <= i < tag.len() implies sig[7 + 2 * i] == crate::codec::hex_digit((#[trigger] tag[i] / 16) as nat)
        && sig[7 + 2 * i + 1] == crate::codec::hex_digit((tag[i] % 16) as nat) by {
        assert(sig[7 + 2 * i] == hex_lower(tag)[2 * i]);
        assert(sig[7 + 2 * i + 1] == hex_lower(tag)[2 * i + 1]);
    }
}

proof fn lemma_hex_lower_at(b: Seq<u8>)
    ensures
        hex_lower(b).len() == 2 * b.len(),
        forall|i: int| 0 <= i < b.len() ==> hex_lower(b)[2 * i] == crate::codec::hex_digit((#[trigger] b[i] / 16) as nat)
            && hex_lower(b)[2 * i + 1] == crate::codec::hex_digit((b[i] % 16) as nat),
    decreases b.len(),
{
    if b.len() > 0 {
        let p = b.drop_last();
        lemma_hex_lower_at(p);
        assert forall|i: int| 0 <= i < b.len() implies hex_lower(b)[2 * i] == crate::codec::hex_digit((#[trigger] b[i] / 16) as nat)
            && hex_lower(b)[2 * i + 1] == crate::codec::hex_digit((b[i] % 16) as nat) by {
            if i < p.len() {
                assert(b[i] == p[i]);
                assert(hex_lower(b)[2 * i] == hex_lower(p)[2 * i]);
                assert(hex_lower(b)[2 * i + 1] == hex_lower(p)[2 * i + 1]);
            }
        }
    }
}

/// A webhook URL is accepted exactly when it parses with scheme `http` or
/// `https` and a host; the host is the URL's, and the port is the URL's (or
/// its scheme's default), 80 when it has none.
pub proof fn lemma_webhook_url(url: Seq<char>)
    ensures
        webhook_url_spec(url) is Ok <==> (url_components(url) matches Some((scheme, host, _)) && (scheme == "http"@
            || scheme == "https"@) && host is Some),
        webhook_url_spec(url) matches Ok((h, p)) ==> (url_components(url) matches Some((_, host, port)) && host
            == Some(h) && p == (if port is Some { port->0 } else { 80u16 })),
{
}

} // verus!
