//! Adaptive SMS parsing.
//!
//! When the patterns miss, because an operator changed its SMS template without notice, a
//! language model is asked to extract the fields, over a chain of OpenAI-compatible
//! providers. The first that gives a valid, complete extraction wins. Every attempt is
//! logged, so that drifted formats become visible.
//!
//! Without API keys the chain is empty: nobody is asked, and the patterns alone decide.

use crate::config::{env_or, non_empty, unless_empty, value_or};
use crate::gateway::{ParsedTxn, TxnView};
use crate::json;
use crate::json::quoted;
use crate::text::{
    chars_of, clone_opt, find_from, find_last_end, joined, last_position, lemma_last_position,
    lemma_position, occurs, occurs_at, opt_view, position, string_of, trim_text, trimmed,
};
use vstd::prelude::*;

verus! {

/// A provider of language models.
#[derive(Debug)]
pub struct Provider {
    pub name: &'static str,
    pub base_url: String,
    pub api_key: String,
    pub model: String,
}

/// The view of a [`Provider`].
#[verifier::ext_equal]
pub struct ProviderView {
    pub name: Seq<char>,
    pub base_url: Seq<char>,
    pub api_key: Seq<char>,
    pub model: Seq<char>,
}

impl View for Provider {
    type V = ProviderView;

    open spec fn view(&self) -> ProviderView {
        ProviderView {
            name: self.name@,
            base_url: self.base_url@,
            api_key: self.api_key@,
            model: self.model@,
        }
    }
}

/// The views of several providers.
pub open spec fn providers_view(v: Seq<Provider>) -> Seq<ProviderView> {
    Seq::new(v.len(), |i: int| v[i]@)
}

/// The variables that configure one provider, each as far as it is set.
#[derive(Debug)]
pub struct ProviderVariables {
    pub api_key: Option<String>,
    pub base_url: Option<String>,
    pub model: Option<String>,
}

/// The provider that variables configure; none without a key.
pub open spec fn configured(
    vars: ProviderVariables,
    name: Seq<char>,
    base_url: Seq<char>,
    model: Seq<char>,
) -> Seq<ProviderView> {
    match unless_empty(opt_view(vars.api_key)) {
        Some(api_key) => seq![
            ProviderView {
                name,
                base_url: value_or(vars.base_url, base_url),
                api_key,
                model: value_or(vars.model, model),
            },
        ],
        None => Seq::empty(),
    }
}

/// The providers that the environment configures, the one to ask first in front.
pub open spec fn chain(openrouter: ProviderVariables, zen: ProviderVariables) -> Seq<ProviderView> {
    configured(
        openrouter,
        "openrouter"@,
        "https://openrouter.ai/api/v1"@,
        "meta-llama/llama-3.3-70b-instruct:free"@,
    ) + configured(zen, "opencode-zen"@, "https://opencode.ai/zen/v1"@, "grok-code"@)
}

/// The provider that variables configure; none without a key.
fn provider_from(
    vars: ProviderVariables,
    name: &'static str,
    base_url: &str,
    model: &str,
) -> (r: Option<Provider>)
    ensures
        configured(vars, name@, base_url@, model@) == match r {
            Some(p) => seq![p@],
            None => Seq::empty(),
        },
{
    match non_empty(vars.api_key) {
        Some(api_key) => {
            let p = Provider {
                name,
                base_url: env_or(vars.base_url, base_url),
                api_key,
                model: env_or(vars.model, model),
            };
            assert(seq![p@] =~= configured(vars, name@, base_url@, model@));
            Some(p)
        },
        None => None,
    }
}

/// Build the provider chain from the environment. Order is priority.
pub fn providers_from_env(openrouter: ProviderVariables, zen: ProviderVariables) -> (r: Vec<
    Provider,
>)
    ensures
        providers_view(r@) == chain(openrouter, zen),
{
    let first = provider_from(
        openrouter,
        "openrouter",
        "https://openrouter.ai/api/v1",
        "meta-llama/llama-3.3-70b-instruct:free",
    );
    let second = provider_from(zen, "opencode-zen", "https://opencode.ai/zen/v1", "grok-code");
    let mut r: Vec<Provider> = Vec::new();
    match first {
        Some(p) => {
            r.push(p);
        },
        None => {},
    }
    match second {
        Some(p) => {
            r.push(p);
        },
        None => {},
    }
    assert(providers_view(r@) =~= chain(openrouter, zen));
    r
}

// ---- asking ----

/// What a model is told to do.
pub const EXTRACTION_PROMPT: &'static str = r#"You extract fields from a mobile-money (bKash/Nagad Bangladesh) confirmation SMS. Reply with ONLY a JSON object, no prose, no code fences: {"txn_id": string, "amount_bdt": number, "sender_msisdn": string|null}. txn_id is the transaction reference (TrxID/TxnID). amount_bdt is the received amount in taka. sender_msisdn is the 11-digit sender number starting 01, or null. If the SMS is not a money-received confirmation, reply exactly: {"txn_id": null}"#;

/// The body of a request, with given literals of its three texts.
pub open spec fn request_text(model: Seq<char>, prompt: Seq<char>, sms: Seq<char>) -> Seq<char> {
    "{\"messages\":[{\"content\":"@ + prompt + ",\"role\":\"system\"},{\"content\":"@ + sms
        + ",\"role\":\"user\"}],\"model\":"@ + model + ",\"temperature\":0}"@
}

/// The body of a request, with given literals of its three texts.
pub fn request_with(model: &str, prompt: &str, sms: &str) -> (s: String)
    ensures
        s@ == request_text(model@, prompt@, sms@),
{
    let mut s = "{\"messages\":[{\"content\":".to_owned();
    s.append(prompt);
    s.append(",\"role\":\"system\"},{\"content\":");
    s.append(sms);
    s.append(",\"role\":\"user\"}],\"model\":");
    s.append(model);
    s.append(",\"temperature\":0}");
    s
}

/// What is sent to a provider.
#[derive(Debug)]
pub struct ProviderRequest {
    pub url: String,
    /// The bearer token.
    pub token: String,
    /// A JSON document.
    pub body: String,
}

/// The request that asks a provider to extract the fields of an SMS.
pub fn provider_request(p: &Provider, sms: &str) -> (r: ProviderRequest)
    ensures
        r.url@ == p.base_url@ + "/chat/completions"@,
        r.token@ == p.api_key@,
        r.body@ == request_text(quoted(p.model@), quoted(EXTRACTION_PROMPT@), quoted(sms@)),
{
    let model = json::quote(p.model.as_str());
    let prompt = json::quote(EXTRACTION_PROMPT);
    let text = json::quote(sms);
    ProviderRequest {
        url: joined(p.base_url.as_str(), "/chat/completions"),
        token: p.api_key.clone(),
        body: request_with(model.as_str(), prompt.as_str(), text.as_str()),
    }
}

// ---- reading the reply ----

/// The object in a reply: from the first opening brace to the last closing one. Code fences
/// and prose around it are left out.
pub open spec fn object_in(content: Seq<char>) -> Option<Seq<char>> {
    let start = position(content, '{');
    let end = last_position(content, '}');
    if start < end {
        Some(content.subrange(start, end + 1))
    } else {
        None
    }
}

/// The object in a reply, as a text.
pub fn json_object(content: &str) -> (r: Option<String>)
    ensures
        opt_view(r) == object_in(content@),
{
    let v = chars_of(content);
    let start = find_from(&v, '{', 0);
    let end = find_last_end(&v, '}');
    proof {
        assert(v@.skip(0) =~= v@);
        lemma_position(v@, '{');
        lemma_last_position(v@, '}');
    }
    if start < end && start < end - 1 {
        Some(string_of(&v, start, end))
    } else {
        None
    }
}

/// What the object in a reply holds.
#[derive(Debug)]
pub struct Extraction {
    pub txn_id: Option<String>,
    /// The amount in minor units; none where it is left out or is not a finite number above
    /// zero.
    pub amount_minor: Option<i64>,
    pub sender_msisdn: Option<String>,
}

/// The transaction that an extraction describes, if it is complete: its id is there and not
/// blank, and its amount is one.
pub open spec fn extracted(gateway: Seq<char>, ex: Extraction) -> Option<TxnView> {
    match (ex.txn_id, ex.amount_minor) {
        (Some(id), Some(amount)) if trimmed(id@).len() > 0 => Some(
            TxnView {
                gateway,
                txn_id: trimmed(id@),
                amount_minor: amount as int,
                sender_msisdn: unless_empty(opt_view(ex.sender_msisdn)),
            },
        ),
        _ => None,
    }
}

/// The view of an outcome.
pub open spec fn txn_view(t: Option<ParsedTxn>) -> Option<TxnView> {
    match t {
        Some(t) => Some(t@),
        None => None,
    }
}

/// The transaction that an extraction describes, if it is complete.
pub fn parse_extraction(gateway: &'static str, ex: Extraction) -> (r: Option<ParsedTxn>)
    ensures
        txn_view(r) == extracted(gateway@, ex),
{
    let txn_id = match ex.txn_id {
        Some(id) => trim_text(id.as_str()),
        None => {
            return None;
        },
    };
    if txn_id.as_str().is_empty() {
        return None;
    }
    let amount_minor = match ex.amount_minor {
        Some(amount) => amount,
        None => {
            return None;
        },
    };
    let sender_msisdn = non_empty(ex.sender_msisdn);
    Some(ParsedTxn { gateway, txn_id, amount_minor, sender_msisdn })
}

// ---- the chain ----

/// How the extraction goes on.
#[derive(Debug)]
pub enum Step {
    /// Ask the provider at this place in the chain.
    Ask(usize),
    /// A provider gave a valid extraction.
    Recovered(ParsedTxn),
    /// Nobody is left to ask.
    GiveUp,
}

/// The view of a [`Step`].
pub enum StepView {
    Ask(int),
    Recovered(TxnView),
    GiveUp,
}

impl View for Step {
    type V = StepView;

    open spec fn view(&self) -> StepView {
        match self {
            Step::Ask(i) => StepView::Ask(*i as int),
            Step::Recovered(txn) => StepView::Recovered(txn@),
            Step::GiveUp => StepView::GiveUp,
        }
    }
}

/// Ask at a place in a chain of `n` providers, if there is one.
pub open spec fn ask_at(n: int, i: int) -> StepView {
    if i < n {
        StepView::Ask(i)
    } else {
        StepView::GiveUp
    }
}

/// What follows on what the provider at place `i` of `n` gave.
pub open spec fn step_after(n: int, i: int, parsed: Option<TxnView>) -> StepView {
    match parsed {
        Some(txn) => StepView::Recovered(txn),
        None => ask_at(n, i + 1),
    }
}

/// Begin with the first provider, if there is one.
pub fn extract(chain: &Vec<Provider>) -> (r: Step)
    ensures
        r@ == ask_at(chain@.len() as int, 0),
{
    if chain.len() == 0 {
        Step::GiveUp
    } else {
        Step::Ask(0)
    }
}

/// Go on after the provider at place `i` was asked. The first valid extraction wins.
pub fn after_reply(chain: &Vec<Provider>, i: usize, parsed: Option<ParsedTxn>) -> (r: Step)
    requires
        i < chain@.len(),
    ensures
        r@ == step_after(chain@.len() as int, i as int, txn_view(parsed)),
{
    match parsed {
        Some(txn) => Step::Recovered(txn),
        None => {
            if chain.len() - i > 1 {
                Step::Ask(i + 1)
            } else {
                Step::GiveUp
            }
        },
    }
}

/// A row of the log of attempts.
#[derive(Debug)]
pub struct ParseLog {
    pub gateway: &'static str,
    pub raw_sha256: String,
    pub provider: &'static str,
    pub success: i64,
    pub txn_id: Option<String>,
    pub amount_minor: Option<i64>,
    pub sender_msisdn: Option<String>,
}

/// The row that logs an attempt.
pub fn log_attempt(
    gateway: &'static str,
    raw_sha256: &str,
    provider: &Provider,
    parsed: &Option<ParsedTxn>,
) -> (r: ParseLog)
    ensures
        r.gateway@ == gateway@,
        r.raw_sha256@ == raw_sha256@,
        r.provider@ == provider.name@,
        r.success == if parsed is Some {
            1int
        } else {
            0int
        },
        match parsed {
            Some(txn) => opt_view(r.txn_id) == Some(txn@.txn_id) && r.amount_minor == Some(
                txn.amount_minor,
            ) && opt_view(r.sender_msisdn) == txn@.sender_msisdn,
            None => r.txn_id is None && r.amount_minor is None && r.sender_msisdn is None,
        },
{
    match parsed {
        Some(txn) => ParseLog {
            gateway,
            raw_sha256: raw_sha256.to_owned(),
            provider: provider.name,
            success: 1,
            txn_id: Some(txn.txn_id.clone()),
            amount_minor: Some(txn.amount_minor),
            sender_msisdn: clone_opt(&txn.sender_msisdn),
        },
        None => ParseLog {
            gateway,
            raw_sha256: raw_sha256.to_owned(),
            provider: provider.name,
            success: 0,
            txn_id: None,
            amount_minor: None,
            sender_msisdn: None,
        },
    }
}

// ---- laws ----

/// Without API keys there is nobody to ask.
pub proof fn law_no_keys_no_chain(openrouter: ProviderVariables, zen: ProviderVariables)
    requires
        unless_empty(opt_view(openrouter.api_key)) is None,
        unless_empty(opt_view(zen.api_key)) is None,
    ensures
        ask_at(chain(openrouter, zen).len() as int, 0) is GiveUp,
{
}

/// What comes of a chain whose providers give these extractions, from a step on.
pub open spec fn outcome(given: Seq<Option<TxnView>>, step: StepView) -> Option<TxnView>
    decreases
            given.len() - (match step {
                StepView::Ask(i) => i,
                _ => given.len() as int,
            }),
{
    match step {
        StepView::Recovered(txn) => Some(txn),
        StepView::GiveUp => None,
        StepView::Ask(i) => if 0 <= i < given.len() {
            outcome(given, step_after(given.len() as int, i, given[i]))
        } else {
            None
        },
    }
}

/// The first provider that gives a valid extraction wins: none before it gave one.
pub proof fn law_first_extraction_wins(given: Seq<Option<TxnView>>, k: int)
    requires
        0 <= k < given.len(),
        given[k] is Some,
        forall|j: int| 0 <= j < k ==> (#[trigger] given[j]) is None,
    ensures
        outcome(given, ask_at(given.len() as int, 0)) == given[k],
{
    lemma_wins_from(given, 0, k);
}

/// The first extraction from a place on wins.
proof fn lemma_wins_from(given: Seq<Option<TxnView>>, i: int, k: int)
    requires
        0 <= i <= k < given.len(),
        given[k] is Some,
        forall|j: int| i <= j < k ==> (#[trigger] given[j]) is None,
    ensures
        outcome(given, StepView::Ask(i)) == given[k],
    decreases k - i,
{
    if i < k {
        assert(given[i] is None);
        lemma_wins_from(given, i + 1, k);
    } else {
        reveal_with_fuel(outcome, 2);
    }
}

/// Where no provider gives a valid extraction, or there is none to ask, nothing is recovered.
pub proof fn law_nothing_extracted_recovers_nothing(given: Seq<Option<TxnView>>)
    requires
        forall|j: int| 0 <= j < given.len() ==> (#[trigger] given[j]) is None,
    ensures
        outcome(given, ask_at(given.len() as int, 0)) is None,
{
    if given.len() > 0 {
        lemma_none_from(given, 0);
    }
}

/// Nothing is recovered from a place on.
proof fn lemma_none_from(given: Seq<Option<TxnView>>, i: int)
    requires
        0 <= i < given.len(),
        forall|j: int| 0 <= j < given.len() ==> (#[trigger] given[j]) is None,
    ensures
        outcome(given, StepView::Ask(i)) is None,
    decreases given.len() - i,
{
    assert(given[i] is None);
    if i + 1 < given.len() {
        lemma_none_from(given, i + 1);
    } else {
        reveal_with_fuel(outcome, 2);
    }
}

/// Prose without braces around an object makes no difference.
pub proof fn law_prose_is_tolerated(front: Seq<char>, object: Seq<char>, back: Seq<char>)
    requires
        object.len() >= 2,
        object[0] == '{',
        object.last() == '}',
        !front.contains('{'),
        !back.contains('}'),
    ensures
        object_in(front + object + back) == Some(object),
{
    let s = front + object + back;
    let p = front.len() as int;
    let q = front.len() + object.len() - 1;
    assert forall|j: int| 0 <= j < p implies s[j] != '{' by {
        assert(s[j] == front[j]);
    }
    crate::text::lemma_position_is(s, '{', p);
    lemma_last_position(s, '}');
    assert(s[q] == '}');
    assert forall|j: int| q < j < s.len() implies s[j] != '}' by {
        assert(s[j] == back[j - q - 1]);
    }
    assert(s.subrange(p, q + 1) =~= object);
}

/// A provider is in the chain exactly if it has a key, with that key; its address and its model
/// are the configured ones, or else its own.
pub proof fn law_provider_is_there_with_its_key(
    vars: ProviderVariables,
    name: Seq<char>,
    base_url: Seq<char>,
    model: Seq<char>,
)
    ensures
        ({
            let c = configured(vars, name, base_url, model);
            &&& c.len() <= 1
            &&& c.len() == 1 <==> vars.api_key is Some && vars.api_key.unwrap()@.len() > 0
            &&& c.len() == 1 ==> {
                &&& c[0].name == name
                &&& c[0].api_key == vars.api_key.unwrap()@
                &&& vars.base_url matches Some(u) ==> c[0].base_url == u@
                &&& vars.base_url is None ==> c[0].base_url == base_url
                &&& vars.model matches Some(m) ==> c[0].model == m@
                &&& vars.model is None ==> c[0].model == model
            }
        }),
{
}

/// OpenRouter is asked before OpenCode Zen, and nobody else is.
pub proof fn law_chain_is_in_order(openrouter: ProviderVariables, zen: ProviderVariables)
    ensures
        ({
            let c = chain(openrouter, zen);
            let a = unless_empty(opt_view(openrouter.api_key)) is Some;
            let b = unless_empty(opt_view(zen.api_key)) is Some;
            &&& c.len() == if a {
                1int
            } else {
                0
            } + if b {
                1int
            } else {
                0
            }
            &&& a ==> c[0].name == "openrouter"@
            &&& b ==> c.last().name == "opencode-zen"@
        }),
{
}

/// An extraction is complete exactly if it has an amount and a transaction id that is not
/// blank. The amount is kept, the id is trimmed, and a sender counts only if it is not empty.
pub proof fn law_what_is_extracted(gateway: Seq<char>, ex: Extraction)
    ensures
        ({
            let r = extracted(gateway, ex);
            &&& r is Some <==> {
                &&& ex.amount_minor is Some
                &&& ex.txn_id is Some
                &&& trimmed(ex.txn_id.unwrap()@).len() > 0
            }
            &&& r matches Some(t) ==> {
                &&& t.gateway == gateway
                &&& t.amount_minor == ex.amount_minor.unwrap()
                &&& t.txn_id == trimmed(ex.txn_id.unwrap()@)
                &&& ex.sender_msisdn is None ==> t.sender_msisdn is None
                &&& ex.sender_msisdn matches Some(s) ==> if s@.len() > 0 {
                    t.sender_msisdn == Some(s@)
                } else {
                    t.sender_msisdn is None
                }
            }
        }),
{
}

/// A reply without an opening brace before a closing one holds no object.
pub proof fn law_no_braces_no_object(content: Seq<char>)
    requires
        forall|i: int, j: int|
            0 <= i < j < content.len() ==> !(#[trigger] content[i] == '{' && #[trigger] content[j]
                == '}'),
    ensures
        object_in(content) is None,
{
    lemma_position(content, '{');
    lemma_last_position(content, '}');
}

/// After a provider was asked, the next one is, until one recovers the transaction or none is
/// left.
pub proof fn law_providers_are_asked_in_turn(n: int, i: int, parsed: Option<TxnView>)
    ensures
        parsed matches Some(txn) ==> step_after(n, i, parsed) == StepView::Recovered(txn),
        parsed is None && i + 1 < n ==> step_after(n, i, parsed) == StepView::Ask(i + 1),
        parsed is None && i + 1 >= n ==> step_after(n, i, parsed) is GiveUp,
        n > 0 ==> ask_at(n, 0) == StepView::Ask(0),
        n <= 0 ==> ask_at(n, 0) is GiveUp,
{
}

/// A request holds the three texts that it is made of, each in its own place: the prompt for
/// the system, the SMS for the user, and the model.
pub proof fn law_request_holds_its_texts(model: Seq<char>, prompt: Seq<char>, sms: Seq<char>)
    ensures
        ({
            let r = request_text(model, prompt, sms);
            &&& occurs(r, "{\"content\":"@ + prompt + ",\"role\":\"system\"}"@)
            &&& occurs(r, "{\"content\":"@ + sms + ",\"role\":\"user\"}"@)
            &&& occurs(r, "\"model\":"@ + model + ",\"temperature\":0}"@)
        }),
{
    let r = request_text(model, prompt, sms);
    reveal_strlit("{\"messages\":[{\"content\":");
    reveal_strlit(",\"role\":\"system\"},{\"content\":");
    reveal_strlit(",\"role\":\"user\"}],\"model\":");
    reveal_strlit(",\"temperature\":0}");
    reveal_strlit("{\"content\":");
    reveal_strlit(",\"role\":\"system\"}");
    reveal_strlit(",\"role\":\"user\"}");
    reveal_strlit("\"model\":");
    reveal_strlit("{\"messages\":[");
    reveal_strlit(",\"role\":\"system\"},");
    reveal_strlit(",\"role\":\"user\"}],");
    let i0: int = "{\"messages\":["@.len() as int;
    let t0 = "{\"content\":"@ + prompt + ",\"role\":\"system\"}"@;
    assert(r.subrange(i0, i0 + t0.len()) =~= t0);
    assert(occurs_at(r, t0, i0));
    let i1: int = i0 + "{\"content\":"@.len() + prompt.len() + ",\"role\":\"system\"},"@.len();
    let t1 = "{\"content\":"@ + sms + ",\"role\":\"user\"}"@;
    assert(r.subrange(i1, i1 + t1.len()) =~= t1);
    assert(occurs_at(r, t1, i1));
    let i2: int = i1 + "{\"content\":"@.len() + sms.len() + ",\"role\":\"user\"}],"@.len();
    let t2 = "\"model\":"@ + model + ",\"temperature\":0}"@;
    assert(r.subrange(i2, i2 + t2.len()) =~= t2);
    assert(occurs_at(r, t2, i2));
}

/// A provider that has a key and nothing else is asked at its own address for its own model.
pub proof fn law_keys_suffice(openrouter: ProviderVariables, zen: ProviderVariables)
    requires
        openrouter.api_key matches Some(k) && k@.len() > 0,
        zen.api_key matches Some(k) && k@.len() > 0,
        openrouter.base_url is None && openrouter.model is None,
        zen.base_url is None && zen.model is None,
    ensures
        chain(openrouter, zen).len() == 2,
        chain(openrouter, zen)[0].base_url == "https://openrouter.ai/api/v1"@,
        chain(openrouter, zen)[0].model == "meta-llama/llama-3.3-70b-instruct:free"@,
        chain(openrouter, zen)[0].api_key == openrouter.api_key.unwrap()@,
        chain(openrouter, zen)[1].base_url == "https://opencode.ai/zen/v1"@,
        chain(openrouter, zen)[1].model == "grok-code"@,
        chain(openrouter, zen)[1].api_key == zen.api_key.unwrap()@,
{
}

} // verus!
