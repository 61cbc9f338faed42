//! Talking to model providers: requests, replies, errors and model lists.

pub mod gemini;
pub mod ollama;
pub mod openai;

use vstd::prelude::*;
use vstd::string::StringExecFns;
use crate::fix::TokenUsage;
use crate::prompt::Prompt;
use crate::provider::ProviderId;
use crate::text::{
    all_ws, chars_of, lemma_leading_ws_bounds, lemma_lex_le_total, lemma_lex_le_transitive, lex_le,
    lex_le_exec, parse_u64, spec_parse_u64, trim, trimmed, ws_run_forward,
};

verus! {

broadcast use vstd::string::group_string_axioms;

/// A model a provider offers.
#[derive(Debug)]
pub struct ModelInfo {
    pub id: String,
    pub label: String,
}

impl Clone for ModelInfo {
    fn clone(&self) -> (r: Self)
        ensures
            r == *self,
    {
        ModelInfo { id: self.id.clone(), label: self.label.clone() }
    }
}

impl ModelInfo {
    /// A model labelled by its id.
    pub fn new(id: String) -> (r: Self)
        ensures
            r.id == id,
            r.label == id,
    {
        let label = id.clone();
        ModelInfo { id, label }
    }
}

/// What is sent to a provider.
#[derive(Debug)]
pub struct CompletionRequest {
    pub model: String,
    pub prompt: Prompt,
}

/// What a provider sends back.
#[derive(Debug)]
pub struct Completion {
    pub text: String,
    pub usage: TokenUsage,
}

/// Why a request to a provider failed.
#[derive(Debug)]
pub enum ProviderError {
    NoApiKey { provider: ProviderId },
    Auth { provider: ProviderId },
    RateLimited { retry_after_secs: Option<u64> },
    Server { status: u16 },
    Rejected { status: u16, message: String },
    Network { provider: ProviderId, detail: String },
    Timeout,
    Cancelled,
    Truncated,
    Filtered { provider: ProviderId, reason: Option<String> },
    Malformed(String),
}

impl ProviderError {
    pub open spec fn spec_code(&self) -> Seq<char> {
        match self {
            ProviderError::NoApiKey { .. } => "no_api_key"@,
            ProviderError::Auth { .. } => "auth"@,
            ProviderError::RateLimited { .. } => "rate_limited"@,
            ProviderError::Server { .. } => "server"@,
            ProviderError::Rejected { .. } => "rejected"@,
            ProviderError::Network { .. } => "network"@,
            ProviderError::Timeout => "timeout"@,
            ProviderError::Cancelled => "cancelled"@,
            ProviderError::Truncated => "truncated"@,
            ProviderError::Filtered { .. } => "filtered"@,
            ProviderError::Malformed(_) => "malformed"@,
        }
    }

    /// Failures that may go away when the request is sent again.
    pub open spec fn spec_is_retryable(&self) -> bool {
        self is RateLimited || self is Server || self is Network || self is Timeout
    }

    /// What the user can do about the failure.
    pub open spec fn spec_remedy(&self) -> Seq<char> {
        match self {
            ProviderError::NoApiKey { .. } => "Add an API key for this provider in the Providers panel."@,
            ProviderError::Auth { .. } => "Check the API key in the Providers panel."@,
            ProviderError::RateLimited { .. } => "Wait a moment and try again, or check your plan's quota."@,
            ProviderError::Server { .. } => "The provider is having trouble; try again in a moment."@,
            ProviderError::Rejected { .. } => "Check the model name in the Providers panel."@,
            ProviderError::Network { provider, .. } => match provider {
                ProviderId::Ollama => "Make sure Ollama is running (`ollama serve`) and reachable."@,
                _ => "Check your internet connection and try again."@,
            },
            ProviderError::Timeout => "The provider took too long to answer; try again."@,
            ProviderError::Cancelled => "The correction was cancelled; start it again when ready."@,
            ProviderError::Truncated => "Correct a smaller selection, or choose a more detailed speed."@,
            ProviderError::Filtered { .. } => "The provider refused this text; try rewording it or another model."@,
            ProviderError::Malformed(_) => "The provider sent an unexpected reply; try again or pick another model."@,
        }
    }

    /// The error as a sentence for the user.
    pub open spec fn spec_message(&self) -> Seq<char> {
        match self {
            ProviderError::NoApiKey { provider } => "no API key is set for "@ + provider.spec_slug(),
            ProviderError::Auth { provider } => provider.spec_slug() + " rejected the API key"@,
            ProviderError::RateLimited { .. } => "the provider is rate limiting requests"@,
            ProviderError::Server { .. } => "the provider reported a server error"@,
            ProviderError::Rejected { message, .. } => "the provider rejected the request: "@ + message@,
            ProviderError::Network { provider, detail } => "could not reach "@ + provider.spec_slug() + ": "@ + detail@,
            ProviderError::Timeout => "the request timed out"@,
            ProviderError::Cancelled => "the request was cancelled"@,
            ProviderError::Truncated => "the answer was cut off before it was complete"@,
            ProviderError::Filtered { provider, .. } => provider.spec_slug() + " filtered the response"@,
            ProviderError::Malformed(detail) => "the provider's response was malformed: "@ + detail@,
        }
    }

    /// A stable identifier of the kind of failure.
    pub fn code(&self) -> (s: &'static str)
        ensures
            s@ == self.spec_code(),
    {
        match self {
            ProviderError::NoApiKey { .. } => "no_api_key",
            ProviderError::Auth { .. } => "auth",
            ProviderError::RateLimited { .. } => "rate_limited",
            ProviderError::Server { .. } => "server",
            ProviderError::Rejected { .. } => "rejected",
            ProviderError::Network { .. } => "network",
            ProviderError::Timeout => "timeout",
            ProviderError::Cancelled => "cancelled",
            ProviderError::Truncated => "truncated",
            ProviderError::Filtered { .. } => "filtered",
            ProviderError::Malformed(_) => "malformed",
        }
    }

    /// Whether sending the request again may succeed.
    pub fn is_retryable(&self) -> (b: bool)
        ensures
            b == self.spec_is_retryable(),
    {
        match self {
            ProviderError::RateLimited { .. } | ProviderError::Server { .. } | ProviderError::Network { .. }
            | ProviderError::Timeout => true,
            _ => false,
        }
    }

    /// What the user can do about the failure.
    pub fn remedy(&self) -> (s: String)
        ensures
            s@ == self.spec_remedy(),
    {
        let s = match self {
            ProviderError::NoApiKey { .. } => "Add an API key for this provider in the Providers panel.",
            ProviderError::Auth { .. } => "Check the API key in the Providers panel.",
            ProviderError::RateLimited { .. } => "Wait a moment and try again, or check your plan's quota.",
            ProviderError::Server { .. } => "The provider is having trouble; try again in a moment.",
            ProviderError::Rejected { .. } => "Check the model name in the Providers panel.",
            ProviderError::Network { provider, .. } => match provider {
                ProviderId::Ollama => "Make sure Ollama is running (`ollama serve`) and reachable.",
                _ => "Check your internet connection and try again.",
            },
            ProviderError::Timeout => "The provider took too long to answer; try again.",
            ProviderError::Cancelled => "The correction was cancelled; start it again when ready.",
            ProviderError::Truncated => "Correct a smaller selection, or choose a more detailed speed.",
            ProviderError::Filtered { .. } => "The provider refused this text; try rewording it or another model.",
            ProviderError::Malformed(_) => "The provider sent an unexpected reply; try again or pick another model.",
        };
        String::from_str(s)
    }

    /// The error as a sentence for the user.
    pub fn message(&self) -> (s: String)
        ensures
            s@ == self.spec_message(),
    {
        let mut m = String::new();
        match self {
            ProviderError::NoApiKey { provider } => {
                m.append("no API key is set for ");
                m.append(provider.slug());
            },
            ProviderError::Auth { provider } => {
                m.append(provider.slug());
                m.append(" rejected the API key");
            },
            ProviderError::RateLimited { .. } => m.append("the provider is rate limiting requests"),
            ProviderError::Server { .. } => m.append("the provider reported a server error"),
            ProviderError::Rejected { message, .. } => {
                m.append("the provider rejected the request: ");
                m.append(message.as_str());
            },
            ProviderError::Network { provider, detail } => {
                m.append("could not reach ");
                m.append(provider.slug());
                m.append(": ");
                m.append(detail.as_str());
            },
            ProviderError::Timeout => m.append("the request timed out"),
            ProviderError::Cancelled => m.append("the request was cancelled"),
            ProviderError::Truncated => m.append("the answer was cut off before it was complete"),
            ProviderError::Filtered { provider, .. } => {
                m.append(provider.slug());
                m.append(" filtered the response");
            },
            ProviderError::Malformed(detail) => {
                m.append("the provider's response was malformed: ");
                m.append(detail.as_str());
            },
        }
        m
    }
}

/// How many times a request is sent before a failure that may go away is
/// reported.
pub const ATTEMPTS: u32 = 3;

/// Whether an HTTP status reports success (`2xx`).
pub open spec fn spec_status_succeeded(status: u16) -> bool {
    200 <= status <= 299
}

/// Whether an HTTP status reports success (`2xx`).
pub fn status_succeeded(status: u16) -> (b: bool)
    ensures
        b == spec_status_succeeded(status),
{
    200 <= status && status <= 299
}

/// The wait that a `Retry-After` header asks for, in whole seconds.
pub open spec fn spec_retry_after_secs(header: Option<Seq<char>>) -> Option<u64> {
    match header {
        Some(h) => spec_parse_u64(trim(h)),
        None => None,
    }
}

/// The failure that an unsuccessful HTTP status reports: a refused key
/// (`401`, `403`), rate limiting (`429`, with the wait the provider asked
/// for), a server error (`5xx`), or else a rejected request carrying the
/// reply's body.
pub open spec fn spec_status_failure(
    provider: ProviderId,
    status: u16,
    retry_after: Option<Seq<char>>,
    body: String,
) -> ProviderError {
    if status == 401 || status == 403 {
        ProviderError::Auth { provider }
    } else if status == 429 {
        ProviderError::RateLimited { retry_after_secs: spec_retry_after_secs(retry_after) }
    } else if 500 <= status <= 599 {
        ProviderError::Server { status }
    } else {
        ProviderError::Rejected { status, message: body }
    }
}

/// The failure that an unsuccessful HTTP status reports (`retry_after`: the
/// `Retry-After` header, where the reply has a readable one; `body`: the
/// reply's text).
pub fn status_failure(provider: ProviderId, status: u16, retry_after: Option<&str>, body: String) -> (e: ProviderError)
    requires
        !spec_status_succeeded(status),
    ensures
        e == spec_status_failure(
            provider,
            status,
            match retry_after {
                Some(h) => Some(h@),
                None => None,
            },
            body,
        ),
{
    if status == 401 || status == 403 {
        ProviderError::Auth { provider }
    } else if status == 429 {
        let retry_after_secs = match retry_after {
            Some(h) => {
                let t = trimmed(h);
                parse_u64(t.as_str())
            },
            None => None,
        };
        ProviderError::RateLimited { retry_after_secs }
    } else if 500 <= status && status <= 599 {
        ProviderError::Server { status }
    } else {
        ProviderError::Rejected { status, message: body }
    }
}

/// The failure of a request that got no reply: a timeout, or the provider
/// could not be reached.
pub fn transport_failure(provider: ProviderId, timed_out: bool, detail: String) -> (e: ProviderError)
    ensures
        e == (if timed_out {
            ProviderError::Timeout
        } else {
            ProviderError::Network { provider, detail }
        }),
{
    if timed_out {
        ProviderError::Timeout
    } else {
        ProviderError::Network { provider, detail }
    }
}

/// How long to wait before sending a request again after its `tries`-th
/// attempt failed, in milliseconds: longer after each attempt, and only for
/// failures that may go away, until `ATTEMPTS` have been made.
pub open spec fn spec_retry_delay_ms(error: ProviderError, tries: u32) -> Option<u64> {
    if error.spec_is_retryable() && tries < ATTEMPTS {
        Some((500 * tries) as u64)
    } else {
        None
    }
}

/// How long to wait before sending a request again after its `tries`-th
/// attempt failed with `error`; `None`: report the failure.
pub fn retry_delay_ms(error: &ProviderError, tries: u32) -> (r: Option<u64>)
    ensures
        r == spec_retry_delay_ms(*error, tries),
{
    if error.is_retryable() && tries < ATTEMPTS {
        Some(500 * (tries as u64))
    } else {
        None
    }
}

/// A request is sent at most `ATTEMPTS` times, each wait is longer than the
/// one before, and a failure that will not go away by itself (a refused key,
/// a rejected request) is reported after the first attempt.
pub proof fn lemma_retries_are_bounded_and_back_off(error: ProviderError, tries: u32)
    ensures
        spec_retry_delay_ms(error, tries) is Some ==> tries < ATTEMPTS && error.spec_is_retryable(),
        !error.spec_is_retryable() ==> spec_retry_delay_ms(error, tries) is None,
        spec_retry_delay_ms(error, tries) is Some && spec_retry_delay_ms(error, (tries + 1) as u32) is Some
            ==> spec_retry_delay_ms(error, tries)->0 < spec_retry_delay_ms(error, (tries + 1) as u32)->0,
{
}

/// The key a provider is built with.
pub open spec fn spec_resolve_api_key(id: ProviderId, api_key: Option<String>) -> Result<Option<String>, ProviderError> {
    if !id.spec_needs_api_key() {
        Ok(api_key)
    } else {
        match api_key {
            Some(k) if !all_ws(k@) => Ok(Some(k)),
            _ => Err(ProviderError::NoApiKey { provider: id }),
        }
    }
}

/// The key a provider is built with: a keyed provider needs a key that is not
/// blank, a keyless one takes whatever it was given.
pub fn resolve_api_key(id: ProviderId, api_key: Option<String>) -> (r: Result<Option<String>, ProviderError>)
    ensures
        r == spec_resolve_api_key(id, api_key),
        id.spec_needs_api_key() ==> match api_key {
            Some(k) if !all_ws(k@) => r == Ok::<Option<String>, ProviderError>(Some(k)),
            _ => r matches Err(ProviderError::NoApiKey { provider }) && provider == id,
        },
        !id.spec_needs_api_key() ==> r == Ok::<Option<String>, ProviderError>(api_key),
{
    if !id.needs_api_key() {
        return Ok(api_key);
    }
    match api_key {
        Some(k) => {
            let v = chars_of(k.as_str());
            let n = v.len();
            let lead = ws_run_forward(&v, 0, n);
            proof {
                assert(v@.subrange(0, n as int) =~= v@);
                lemma_leading_ws_bounds(v@);
            }
            if lead == n {
                Err(ProviderError::NoApiKey { provider: id })
            } else {
                assert(!all_ws(k@)) by {
                    assert(!crate::text::is_ws(v@[lead as int]));
                }
                Ok(Some(k))
            }
        },
        None => Err(ProviderError::NoApiKey { provider: id }),
    }
}


/// Models listed in ascending order of id.
pub open spec fn sorted_by_id(v: Seq<ModelInfo>) -> bool {
    forall|i: int, j: int| 0 <= i < j < v.len() ==> lex_le((#[trigger] v[i]).id@, (#[trigger] v[j]).id@)
}

proof fn lemma_insert_multiset<A>(s: Seq<A>, pos: int, x: A)
    requires
        0 <= pos <= s.len(),
    ensures
        s.insert(pos, x).to_multiset() == s.to_multiset().insert(x),
{
    broadcast use vstd::seq_lib::group_to_multiset_ensures;
    let t = s.insert(pos, x);
    assert(t.remove(pos) =~= s);
    assert(t.to_multiset().remove(x) == s.to_multiset());
    assert(t.contains(x)) by {
        assert(t[pos] == x);
    }
    assert(t.to_multiset() =~= s.to_multiset().insert(x));
}

/// The models whose id is `k`, in their order.
pub open spec fn with_id(v: Seq<ModelInfo>, k: Seq<char>) -> Seq<ModelInfo> {
    v.filter(|m: ModelInfo| m.id@ == k)
}

proof fn lemma_with_id_concat(a: Seq<ModelInfo>, b: Seq<ModelInfo>, k: Seq<char>)
    ensures
        with_id(a + b, k) == with_id(a, k) + with_id(b, k),
    decreases b.len(),
{
    reveal(Seq::filter);
    if b.len() == 0 {
        assert(a + b =~= a);
        assert(with_id(a, k) + with_id(b, k) =~= with_id(a, k));
    } else {
        lemma_with_id_concat(a, b.drop_last(), k);
        assert((a + b).drop_last() =~= a + b.drop_last());
        assert((a + b).last() == b.last());
        if b.last().id@ == k {
            assert(with_id(a, k) + with_id(b.drop_last(), k).push(b.last()) =~= (with_id(a, k) + with_id(
                b.drop_last(),
                k,
            )).push(b.last()));
        }
    }
}

proof fn lemma_with_id_absent(b: Seq<ModelInfo>, k: Seq<char>)
    requires
        forall|j: int| 0 <= j < b.len() ==> (#[trigger] b[j]).id@ != k,
    ensures
        with_id(b, k) == Seq::<ModelInfo>::empty(),
    decreases b.len(),
{
    reveal(Seq::filter);
    if b.len() > 0 {
        lemma_with_id_absent(b.drop_last(), k);
    }
}

proof fn lemma_with_id_single(x: ModelInfo, k: Seq<char>)
    ensures
        with_id(seq![x], k) == if x.id@ == k {
            seq![x]
        } else {
            Seq::<ModelInfo>::empty()
        },
{
    reveal(Seq::filter);
    assert(seq![x].drop_last() =~= Seq::<ModelInfo>::empty());
    assert(with_id(Seq::<ModelInfo>::empty(), k) =~= Seq::<ModelInfo>::empty());
}

/// Inserting a model before every model of a greater id adds it after the
/// models that share its id.
proof fn lemma_with_id_insert(s: Seq<ModelInfo>, pos: int, x: ModelInfo, k: Seq<char>)
    requires
        0 <= pos <= s.len(),
        forall|j: int| pos <= j < s.len() ==> (#[trigger] s[j]).id@ != x.id@,
    ensures
        with_id(s.insert(pos, x), k) == if x.id@ == k {
            with_id(s, k).push(x)
        } else {
            with_id(s, k)
        },
{
    let a = s.take(pos);
    let b = s.skip(pos);
    assert(s =~= a + b);
    assert(s.insert(pos, x) =~= (a + seq![x]) + b);
    lemma_with_id_concat(a + seq![x], b, k);
    lemma_with_id_concat(a, seq![x], k);
    lemma_with_id_concat(a, b, k);
    lemma_with_id_single(x, k);
    if x.id@ == k {
        assert forall|j: int| 0 <= j < b.len() implies (#[trigger] b[j]).id@ != k by {
            assert(b[j] == s[pos + j]);
        }
        lemma_with_id_absent(b, k);
        assert(with_id(a, k) + seq![x] + Seq::<ModelInfo>::empty() =~= (with_id(a, k) + Seq::<ModelInfo>::empty()).push(x));
    } else {
        assert(with_id(a, k) + Seq::<ModelInfo>::empty() =~= with_id(a, k));
    }
}

/// The models sorted by id; models that share an id keep their order, as
/// with `sort_by`.
pub fn sort_models(models: Vec<ModelInfo>) -> (r: Vec<ModelInfo>)
    ensures
        sorted_by_id(r@),
        r@.to_multiset() == models@.to_multiset(),
        forall|k: Seq<char>| #[trigger] with_id(r@, k) == with_id(models@, k),
{
    broadcast use vstd::seq_lib::group_to_multiset_ensures;
    let mut r: Vec<ModelInfo> = Vec::new();
    let mut i: usize = 0;
    assert(models@.take(0) =~= Seq::<ModelInfo>::empty());
    while i < models.len()
        invariant
            i <= models@.len(),
            sorted_by_id(r@),
            r@.to_multiset() == models@.take(i as int).to_multiset(),
            forall|k: Seq<char>| #[trigger] with_id(r@, k) == with_id(models@.take(i as int), k),
        decreases models@.len() - i,
    {
        let x = models[i].clone();
        let mut pos = r.len();
        while pos > 0 && !lex_le_exec(r[pos - 1].id.as_str(), x.id.as_str())
            invariant
                pos <= r@.len(),
                sorted_by_id(r@),
                forall|j: int| pos <= j < r@.len() ==> !lex_le((#[trigger] r@[j]).id@, x.id@),
            decreases pos,
        {
            pos = pos - 1;
        }
        let ghost old_r = r@;
        proof {
            assert forall|j: int| pos <= j < old_r.len() implies lex_le(x.id@, (#[trigger] old_r[j]).id@) by {
                lemma_lex_le_total(old_r[j].id@, x.id@);
            }
            if pos > 0 {
                assert forall|j: int| 0 <= j < pos implies lex_le((#[trigger] old_r[j]).id@, x.id@) by {
                    if j < pos - 1 {
                        lemma_lex_le_transitive(old_r[j].id@, old_r[pos - 1].id@, x.id@);
                    }
                }
            }
            lemma_insert_multiset(old_r, pos as int, x);
            assert forall|j: int| pos <= j < old_r.len() implies (#[trigger] old_r[j]).id@ != x.id@ by {
                lemma_lex_le_total(x.id@, x.id@);
            }
            assert forall|k: Seq<char>| #[trigger] with_id(old_r.insert(pos as int, x), k) == with_id(
                models@.take(i + 1),
                k,
            ) by {
                lemma_with_id_insert(old_r, pos as int, x, k);
                reveal(Seq::filter);
                assert(models@.take(i + 1).drop_last() =~= models@.take(i as int));
                assert(models@.take(i + 1).last() == x);
            }
        }
        r.insert(pos, x);
        proof {
            assert(r@ == old_r.insert(pos as int, x));
            assert forall|a: int, b: int| 0 <= a < b < r@.len() implies lex_le((#[trigger] r@[a]).id@, (#[trigger] r@[b]).id@) by {
                if b < pos {
                    assert(r@[a] == old_r[a] && r@[b] == old_r[b]);
                } else if b == pos {
                    assert(r@[a] == old_r[a]);
                } else if a == pos {
                    assert(r@[b] == old_r[b - 1]);
                } else if a < pos {
                    assert(r@[a] == old_r[a] && r@[b] == old_r[b - 1]);
                    lemma_lex_le_transitive(old_r[a].id@, x.id@, old_r[b - 1].id@);
                } else {
                    assert(r@[a] == old_r[a - 1] && r@[b] == old_r[b - 1]);
                }
            }
            assert(models@.take(i + 1) =~= models@.take(i as int).push(models@[i as int]));
            vstd::seq_lib::to_multiset_build(models@.take(i as int), models@[i as int]);
        }
        i = i + 1;
    }
    assert(models@.take(i as int) =~= models@);
    r
}


} // verus!
