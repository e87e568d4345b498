//! The hosted checkout page: server-rendered, self-contained HTML.
//!
//! One screen: it shows the amount, lets the customer pick bKash or Nagad, displays the
//! merchant's receiving number with instructions, then polls until the SMS forwarder settles
//! the charge and goes back to the merchant's page. A box that folds out lets the customer
//! submit a transaction id if the SMS is delayed.

use crate::checkout::{PublicCharge, Receiver};
use crate::money::{amount_text, format_minor};
use crate::text::{chars_of, occurs, occurs_at};
use vstd::prelude::*;

verus! {

/// The page before its title.
pub const PAGE_HEAD: &'static str = r#"<!doctype html>
<html lang="en"><head>
<meta charset="utf-8"/>
<meta name="viewport" content="width=device-width, initial-scale=1"/>
<title>"#;

/// The page between its title and its content.
pub const PAGE_STYLE: &'static str = r#" — SpritexAI Pay</title>
<style>
  :root { --accent:#6366f1; --ink:#111827; --muted:#6b7280; --line:#e5e7eb; --bg:#f4f5f7; }
  * { box-sizing:border-box; }
  body { margin:0; background:var(--bg); color:var(--ink);
    font-family:-apple-system,BlinkMacSystemFont,'Segoe UI',Roboto,sans-serif;
    display:flex; min-height:100vh; align-items:center; justify-content:center; padding:16px; }
  .card { background:#fff; width:100%; max-width:420px; border-radius:16px; padding:28px;
    box-shadow:0 1px 3px rgba(0,0,0,.06), 0 8px 24px rgba(0,0,0,.05); }
  h1 { font-size:20px; margin:0 0 6px; }
  .muted { color:var(--muted); font-size:14px; line-height:1.5; }
  .small { font-size:12px; }
  .amount { font-size:40px; font-weight:700; letter-spacing:-.02em; }
  .amount .sym { color:var(--muted); font-weight:600; margin-right:2px; }
  .label { font-size:12px; text-transform:uppercase; letter-spacing:.04em; color:var(--muted);
    margin:22px 0 10px; }
  .gateways { display:flex; flex-direction:column; gap:10px; }
  .gw { display:flex; justify-content:space-between; align-items:center; width:100%;
    background:#fff; border:1.5px solid var(--line); border-radius:12px; padding:14px 16px;
    cursor:pointer; font-size:15px; transition:border-color .15s, background .15s; }
  .gw:hover { border-color:var(--accent); background:#fafaff; }
  .gw-name { font-weight:600; }
  .gw-num { color:var(--muted); font-family:ui-monospace,monospace; font-size:13px; }
  .steps { margin-top:18px; display:flex; flex-direction:column; gap:14px; }
  .step { display:flex; gap:10px; align-items:flex-start; font-size:14px; line-height:1.5; }
  .step span { flex:0 0 22px; height:22px; border-radius:50%; background:#eef2ff; color:var(--accent);
    font-size:12px; font-weight:700; display:inline-flex; align-items:center; justify-content:center; }
  .number-box { display:flex; align-items:center; gap:8px; background:#f9fafb; border:1px solid var(--line);
    border-radius:10px; padding:12px 14px; }
  .number { font-family:ui-monospace,monospace; font-size:18px; font-weight:600; flex:1; }
  .copy, .submit { background:var(--accent); color:#fff; border:0; border-radius:8px;
    padding:8px 14px; font-size:13px; font-weight:600; cursor:pointer; }
  .waiting { display:flex; align-items:center; gap:10px; margin-top:22px; font-size:14px; color:var(--muted); }
  .spinner { width:16px; height:16px; border:2px solid var(--line); border-top-color:var(--accent);
    border-radius:50%; animation:spin 1s linear infinite; }
  @keyframes spin { to { transform:rotate(360deg); } }
  .manual { margin-top:20px; border-top:1px solid var(--line); padding-top:16px; }
  .manual summary { cursor:pointer; font-size:14px; color:var(--accent); }
  .manual input { display:block; width:100%; margin-top:10px; padding:11px 13px;
    border:1px solid var(--line); border-radius:9px; font-size:14px; }
  .manual .submit { margin-top:10px; }
  .success { font-size:44px; color:#16a34a; text-align:center; }
  #done { text-align:center; }
  .brand { text-align:center; margin-top:18px; color:var(--muted); font-size:12px; }
</style></head>
<body>
  <div>"#;

/// The page after its content.
pub const PAGE_TAIL: &'static str = r#"
    <div class="brand">Secured by <b>SpritexAI Pay</b></div>
  </div>
</body></html>"#;

/// What stands on the page of an unknown checkout.
pub const NOT_FOUND_CARD: &'static str = r#"<div class="card"><h1>Payment link invalid</h1>
        <p class="muted">This checkout link is unknown or has expired. Please return to the store and try again.</p></div>"#;

/// What stands in place of the gateways where there are none.
pub const NO_GATEWAYS: &'static str = r#"<p class="muted">The merchant has not configured a receiving number yet.</p>"#;

/// A gateway's button, before the gateway.
pub const BUTTON_HEAD: &'static str = r#"<button class="gw" data-gateway=""#;

/// A gateway's button, between the gateway and the number.
pub const BUTTON_NUMBER: &'static str = r#"" data-number=""#;

/// A gateway's button, between the number and the name.
pub const BUTTON_NAME: &'static str = r#"">
                 <span class="gw-name">"#;

/// A gateway's button, between the name and the number that is shown.
pub const BUTTON_SHOWN: &'static str = r#"</span>
                 <span class="gw-num">"#;

/// A gateway's button, after the number that is shown.
pub const BUTTON_TAIL: &'static str = r#"</span>
               </button>"#;

/// The card, before the currency symbol.
pub const CARD_HEAD: &'static str = r#"<div class="card">
      <div class="amount"><span class="sym">"#;

/// The card, between the symbol and the amount.
pub const CARD_AMOUNT: &'static str = r#"</span>"#;

/// The card, between the amount and the gateways.
pub const CARD_GATEWAYS: &'static str = r#"</div>
      <p class="muted">Complete your payment to continue.</p>

      <div id="pick">
        <div class="label">Pay with</div>
        <div class="gateways">"#;

/// The card, between the gateways and the instructions' symbol.
pub const CARD_STEPS: &'static str = r#"</div>
      </div>

      <div id="instructions" style="display:none">
        <div class="steps">
          <div class="step"><span>1</span> Open your <b id="gw-label"></b> app and choose <b>Send Money</b>.</div>
          <div class="step"><span>2</span> Send exactly <b>"#;

/// The card, from the instructions' amount to the script's reference.
pub const CARD_SCRIPT: &'static str = r#"</b> to this number:</div>
          <div class="number-box">
            <span id="recv-number" class="number"></span>
            <button id="copy" class="copy">Copy</button>
          </div>
          <div class="step"><span>3</span> Keep this page open — we confirm your payment automatically.</div>
        </div>

        <div class="waiting">
          <span class="spinner"></span>
          <span id="status-text">Waiting for your payment…</span>
        </div>

        <details class="manual">
          <summary>Already paid? Enter your Transaction ID</summary>
          <input id="trx" placeholder="TrxID (e.g. BGL7AH92KX)" />
          <input id="sender" placeholder="Your number (optional)" />
          <button id="submit-trx" class="submit">Submit</button>
          <p id="manual-note" class="muted small"></p>
        </details>
      </div>

      <div id="done" style="display:none">
        <div class="success">✓</div>
        <h1>Payment confirmed</h1>
        <p class="muted">Redirecting you back…</p>
      </div>
    </div>

    <script>
      const payRef = "#;

/// The script, between the reference and the return URL.
pub const SCRIPT_RETURN: &'static str = r#";
      const returnUrl = "#;

/// The script, after the return URL.
pub const SCRIPT_TAIL: &'static str = r#";
      let selected = null;

      document.querySelectorAll('.gw').forEach(btn => {
        btn.addEventListener('click', () => {
          selected = btn.dataset.gateway;
          document.getElementById('gw-label').textContent = btn.querySelector('.gw-name').textContent;
          document.getElementById('recv-number').textContent = btn.dataset.number || '—';
          document.getElementById('pick').style.display = 'none';
          document.getElementById('instructions').style.display = 'block';
          fetch('/v1/checkout/' + payRef + '/select', {
            method: 'POST', headers: {'content-type':'application/json'},
            body: JSON.stringify({gateway: selected})
          }).catch(()=>{});
        });
      });

      const copyBtn = document.getElementById('copy');
      if (copyBtn) copyBtn.addEventListener('click', () => {
        const n = document.getElementById('recv-number').textContent;
        navigator.clipboard.writeText(n).then(() => {
          copyBtn.textContent = 'Copied';
          setTimeout(() => copyBtn.textContent = 'Copy', 1500);
        });
      });

      const submitTrx = document.getElementById('submit-trx');
      if (submitTrx) submitTrx.addEventListener('click', () => {
        const trx = document.getElementById('trx').value.trim();
        if (!trx) return;
        fetch('/v1/checkout/' + payRef + '/claim', {
          method: 'POST', headers: {'content-type':'application/json'},
          body: JSON.stringify({trx_id: trx, sender: document.getElementById('sender').value.trim() || null})
        }).then(() => {
          document.getElementById('manual-note').textContent =
            'Thanks — we recorded it. Confirmation still completes automatically once your SMS arrives.';
        }).catch(()=>{});
      });

      function finish() {
        document.getElementById('instructions').style.display = 'none';
        document.getElementById('pick').style.display = 'none';
        document.getElementById('done').style.display = 'block';
        if (returnUrl && returnUrl !== '--') setTimeout(() => location.href = returnUrl, 1800);
      }

      // Poll until the SMS-driven settlement flips this charge to paid.
      async function poll() {
        try {
          const r = await fetch('/v1/checkout/' + payRef);
          if (r.ok) {
            const d = await r.json();
            if (d.status === 'paid') { finish(); return; }
          }
        } catch (e) {}
        setTimeout(poll, 3000);
      }
      poll();
    </script>"#;

// ---- escaping ----

/// A character as it is written in HTML text or in an attribute.
pub open spec fn entity(c: char) -> Seq<char> {
    if c == '&' {
        "&amp;"@
    } else if c == '<' {
        "&lt;"@
    } else if c == '>' {
        "&gt;"@
    } else if c == '"' {
        "&quot;"@
    } else if c == '\'' {
        "&#39;"@
    } else {
        seq![c]
    }
}

/// A text as it is written in HTML text or in an attribute.
pub open spec fn escaped(s: Seq<char>) -> Seq<char>
    decreases s.len(),
{
    if s.len() == 0 {
        Seq::empty()
    } else {
        escaped(s.drop_last()) + entity(s.last())
    }
}

/// Escape a text for HTML.
pub fn esc(s: &str) -> (r: String)
    ensures
        r@ == escaped(s@),
{
    let v = chars_of(s);
    let mut r = String::new();
    let mut i: usize = 0;
    while i < v.len()
        invariant
            i <= v.len(),
            r@ == escaped(v@.take(i as int)),
        decreases v.len() - i,
    {
        let c = v[i];
        proof {
            assert(v@.take(i + 1).drop_last() =~= v@.take(i as int));
        }
        if c == '&' {
            r.append("&amp;");
        } else if c == '<' {
            r.append("&lt;");
        } else if c == '>' {
            r.append("&gt;");
        } else if c == '"' {
            r.append("&quot;");
        } else if c == '\'' {
            r.append("&#39;");
        } else {
            let ghost before = r@;
            r.push(c);
            assert(r@ =~= before + seq![c]);
        }
        i = i + 1;
    }
    assert(v@.take(v@.len() as int) =~= s@);
    r
}

/// Whether a character can open or close a tag or an attribute.
pub open spec fn is_markup(c: char) -> bool {
    c == '<' || c == '>' || c == '"' || c == '\''
}

/// An escaped text opens and closes nothing.
pub proof fn law_escaped_text_is_inert(s: Seq<char>)
    ensures
        forall|i: int| 0 <= i < escaped(s).len() ==> !is_markup(#[trigger] escaped(s)[i]),
    decreases s.len(),
{
    if s.len() > 0 {
        law_escaped_text_is_inert(s.drop_last());
        let e = entity(s.last());
        reveal_strlit("&amp;");
        reveal_strlit("&lt;");
        reveal_strlit("&gt;");
        reveal_strlit("&quot;");
        reveal_strlit("&#39;");
        assert(forall|i: int| 0 <= i < e.len() ==> !is_markup(#[trigger] e[i]));
        let front = escaped(s.drop_last());
        assert forall|i: int| 0 <= i < escaped(s).len() implies !is_markup(
            #[trigger] escaped(s)[i],
        ) by {
            if i < front.len() {
                assert(escaped(s)[i] == front[i]);
            } else {
                assert(escaped(s)[i] == e[i - front.len()]);
            }
        }
    }
}

/// A text without any of the escaped characters stays as it is.
pub proof fn law_plain_text_is_kept(s: Seq<char>)
    requires
        forall|i: int| 0 <= i < s.len() ==> !is_markup(#[trigger] s[i]) && s[i] != '&',
    ensures
        escaped(s) == s,
    decreases s.len(),
{
    if s.len() > 0 {
        law_plain_text_is_kept(s.drop_last());
        assert(s =~= s.drop_last() + seq![s.last()]);
    } else {
        assert(s =~= Seq::empty());
    }
}

/// The text that the standard library's `Debug` writes for a text: the text in double
/// quotes, with escapes.
pub uninterp spec fn debug_text(s: Seq<char>) -> Seq<char>;

/// Write a text with the standard library's `Debug` for `str`, through `format!`. Claimed:
/// what is written depends on the text alone.
#[verifier::external_body]
fn debug_quote(s: &str) -> (r: String)
    ensures
        r@ == debug_text(s@),
{
    format!("{:?}", s)
}

// ---- the page ----

/// A page with a title around a content.
pub open spec fn page(title: Seq<char>, inner: Seq<char>) -> Seq<char> {
    PAGE_HEAD@ + escaped(title) + PAGE_STYLE@ + inner + PAGE_TAIL@
}

/// Shared page chrome: light, clean, mobile-first. No external assets.
fn wrap(title: &str, inner: &str) -> (r: String)
    ensures
        r@ == page(title@, inner@),
{
    let mut r = PAGE_HEAD.to_owned();
    r.append(esc(title).as_str());
    r.append(PAGE_STYLE);
    r.append(inner);
    r.append(PAGE_TAIL);
    r
}

/// The page of an unknown checkout.
pub fn not_found() -> (r: String)
    ensures
        r@ == page("Payment not found"@, NOT_FOUND_CARD@),
{
    wrap("Payment not found", NOT_FOUND_CARD)
}

/// The name under which customers know a gateway.
pub open spec fn brand(gateway: Seq<char>) -> Seq<char> {
    if gateway == "bkash"@ {
        "bKash"@
    } else if gateway == "nagad"@ {
        "Nagad"@
    } else {
        gateway
    }
}

/// The number to send to, empty where none is registered.
pub open spec fn receiving_number(r: Receiver) -> Seq<char> {
    match r.account_msisdn {
        Some(number) => number@,
        None => ""@,
    }
}

/// The button of one gateway.
pub open spec fn button(r: Receiver) -> Seq<char> {
    BUTTON_HEAD@ + escaped(r.gateway@) + BUTTON_NUMBER@ + escaped(receiving_number(r)) + BUTTON_NAME@
        + brand(r.gateway@) + BUTTON_SHOWN@ + escaped(receiving_number(r)) + BUTTON_TAIL@
}

/// The buttons of several gateways, in their order.
pub open spec fn buttons(receivers: Seq<Receiver>) -> Seq<char>
    decreases receivers.len(),
{
    if receivers.len() == 0 {
        ""@
    } else {
        buttons(receivers.drop_last()) + button(receivers.last())
    }
}

/// What the customer picks from.
pub open spec fn options(receivers: Seq<Receiver>) -> Seq<char> {
    if receivers.len() == 0 {
        NO_GATEWAYS@
    } else {
        buttons(receivers)
    }
}

/// The symbol of a currency, where there is one for it.
pub open spec fn symbol(currency: Seq<char>) -> Seq<char> {
    if currency == "BDT"@ {
        "৳"@
    } else {
        ""@
    }
}

/// The card of a checkout: what is to be paid and where, and the script that waits for it.
/// The script holds the reference and the return URL as the literals `pay_ref` and
/// `return_url`.
pub open spec fn card(view: PublicCharge, pay_ref: Seq<char>, return_url: Seq<char>) -> Seq<char> {
    let sum = symbol(view.currency@) + CARD_AMOUNT@ + amount_text(view.amount_minor as int);
    let sent = symbol(view.currency@) + amount_text(view.amount_minor as int);
    CARD_HEAD@ + sum + CARD_GATEWAYS@ + options(view.receivers@) + CARD_STEPS@ + sent
        + CARD_SCRIPT@ + pay_ref + SCRIPT_RETURN@ + return_url + SCRIPT_TAIL@
}

/// Where the customer goes back to, empty where the merchant named no page.
pub open spec fn way_back(view: PublicCharge) -> Seq<char> {
    match view.return_url {
        Some(url) => url@,
        None => ""@,
    }
}

/// The button of one gateway.
fn button_html(r: &Receiver) -> (h: String)
    ensures
        h@ == button(*r),
{
    let name = if r.gateway.as_str().eq("bkash") {
        "bKash"
    } else if r.gateway.as_str().eq("nagad") {
        "Nagad"
    } else {
        r.gateway.as_str()
    };
    let number = match &r.account_msisdn {
        Some(number) => esc(number.as_str()),
        None => esc(""),
    };
    let mut h = BUTTON_HEAD.to_owned();
    h.append(esc(r.gateway.as_str()).as_str());
    h.append(BUTTON_NUMBER);
    h.append(number.as_str());
    h.append(BUTTON_NAME);
    h.append(name);
    h.append(BUTTON_SHOWN);
    h.append(number.as_str());
    h.append(BUTTON_TAIL);
    h
}

/// What the customer picks from.
fn options_html(receivers: &Vec<Receiver>) -> (h: String)
    ensures
        h@ == options(receivers@),
{
    if receivers.len() == 0 {
        return NO_GATEWAYS.to_owned();
    }
    let mut h = "".to_owned();
    let mut i: usize = 0;
    while i < receivers.len()
        invariant
            i <= receivers.len(),
            h@ == buttons(receivers@.take(i as int)),
        decreases receivers.len() - i,
    {
        assert(receivers@.take(i + 1).drop_last() =~= receivers@.take(i as int));
        h.append(button_html(&receivers[i]).as_str());
        i = i + 1;
    }
    assert(receivers@.take(receivers@.len() as int) =~= receivers@);
    h
}

/// The page of a checkout, with given literals of its reference and its return URL.
pub fn render_with(view: &PublicCharge, pay_ref: &str, return_url: &str) -> (r: String)
    ensures
        r@ == page("Checkout"@, card(*view, pay_ref@, return_url@)),
{
    let amount = format_minor(view.amount_minor);
    let symbol = if view.currency.as_str().eq("BDT") {
        "৳"
    } else {
        ""
    };
    let mut sum = symbol.to_owned();
    sum.append(CARD_AMOUNT);
    sum.append(amount.as_str());
    let mut sent = symbol.to_owned();
    sent.append(amount.as_str());
    let mut body = CARD_HEAD.to_owned();
    body.append(sum.as_str());
    body.append(CARD_GATEWAYS);
    body.append(options_html(&view.receivers).as_str());
    body.append(CARD_STEPS);
    body.append(sent.as_str());
    body.append(CARD_SCRIPT);
    body.append(pay_ref);
    body.append(SCRIPT_RETURN);
    body.append(return_url);
    body.append(SCRIPT_TAIL);
    wrap("Checkout", body.as_str())
}

/// The page of a checkout.
pub fn render(view: &PublicCharge) -> (r: String)
    ensures
        r@ == page(
            "Checkout"@,
            card(*view, debug_text(view.pay_ref@), debug_text(way_back(*view))),
        ),
{
    let return_url = match &view.return_url {
        Some(url) => url.as_str(),
        None => "",
    };
    let pay_ref = debug_quote(view.pay_ref.as_str());
    render_with(view, pay_ref.as_str(), debug_quote(return_url).as_str())
}

// ---- laws ----

/// A part of a text occurs in it.
proof fn lemma_part_occurs(a: Seq<char>, t: Seq<char>, b: Seq<char>)
    ensures
        occurs(a + t + b, t),
{
    let s = a + t + b;
    assert(s.subrange(a.len() as int, (a.len() + t.len()) as int) =~= t);
    assert(occurs_at(s, t, a.len() as int));
}

/// What occurs in a text occurs in every text that goes on from it.
proof fn lemma_goes_on(s: Seq<char>, t: Seq<char>, b: Seq<char>)
    requires
        occurs(s, t),
    ensures
        occurs(s + b, t),
{
    let i = choose|i: int| occurs_at(s, t, i);
    assert((s + b).subrange(i, i + t.len()) =~= t);
    assert(occurs_at(s + b, t, i));
}

/// Three parts in a row occur at the end of the text that they end.
proof fn lemma_three_occur(x: Seq<char>, a: Seq<char>, b: Seq<char>, c: Seq<char>)
    ensures
        occurs(x + a + b + c, a + b + c),
{
    let s = x + a + b + c;
    let t = a + b + c;
    assert(s.subrange(x.len() as int, (x.len() + t.len()) as int) =~= t);
    assert(occurs_at(s, t, x.len() as int));
}

/// Five parts in a row occur at the end of the text that they end.
proof fn lemma_five_occur(
    x: Seq<char>,
    a: Seq<char>,
    b: Seq<char>,
    c: Seq<char>,
    d: Seq<char>,
    e: Seq<char>,
)
    ensures
        occurs(x + a + b + c + d + e, a + b + c + d + e),
{
    let s = x + a + b + c + d + e;
    let t = a + b + c + d + e;
    assert(x + a + b + c + d =~= x + (a + b + c + d));
    assert(s =~= x + t);
    assert(s.subrange(x.len() as int, (x.len() + t.len()) as int) =~= t);
    assert(occurs_at(s, t, x.len() as int));
}

/// A text is escaped character by character, each wherever it stands.
pub proof fn law_escaping_goes_by_characters(a: Seq<char>, b: Seq<char>)
    ensures
        escaped(a + b) == escaped(a) + escaped(b),
    decreases b.len(),
{
    if b.len() == 0 {
        assert(a + b =~= a);
        assert(escaped(a) + escaped(b) =~= escaped(a));
    } else {
        law_escaping_goes_by_characters(a, b.drop_last());
        assert((a + b).drop_last() =~= a + b.drop_last());
        assert(escaped(a + b) =~= escaped(a) + escaped(b));
    }
}

/// What the five characters with a meaning of their own are written as; every other is
/// written as it is.
pub proof fn law_what_characters_are_written_as(c: char)
    ensures
        ({
            let e = escaped(seq![c]);
            &&& c == '&' ==> e == "&amp;"@
            &&& c == '<' ==> e == "&lt;"@
            &&& c == '>' ==> e == "&gt;"@
            &&& c == '"' ==> e == "&quot;"@
            &&& c == '\'' ==> e == "&#39;"@
            &&& c != '&' && c != '<' && c != '>' && c != '"' && c != '\'' ==> e == seq![c]
        }),
{
    reveal_with_fuel(escaped, 2);
    assert(seq![c].drop_last() =~= Seq::<char>::empty());
    assert(escaped(seq![c]) =~= entity(c));
}

/// The card asks for the amount of the charge, in its currency, in both places where it names
/// one, and the script waits for the charge's own reference.
pub proof fn law_card_asks_for_the_amount(
    view: PublicCharge,
    pay_ref: Seq<char>,
    return_url: Seq<char>,
)
    ensures
        ({
            let c = card(view, pay_ref, return_url);
            let sign = if view.currency@ == "BDT"@ {
                "৳"@
            } else {
                ""@
            };
            let amount = amount_text(view.amount_minor as int);
            &&& occurs(c, CARD_HEAD@ + (sign + CARD_AMOUNT@ + amount) + CARD_GATEWAYS@)
            &&& occurs(c, CARD_GATEWAYS@ + options(view.receivers@) + CARD_STEPS@)
            &&& occurs(c, CARD_STEPS@ + (sign + amount) + CARD_SCRIPT@)
            &&& occurs(c, CARD_SCRIPT@ + pay_ref + SCRIPT_RETURN@ + return_url + SCRIPT_TAIL@)
        }),
{
    let sign = symbol(view.currency@);
    let amount = amount_text(view.amount_minor as int);
    lemma_card_parts(
        CARD_HEAD@,
        sign + CARD_AMOUNT@ + amount,
        CARD_GATEWAYS@,
        options(view.receivers@),
        CARD_STEPS@,
        sign + amount,
        CARD_SCRIPT@,
        pay_ref,
        SCRIPT_RETURN@,
        return_url,
        SCRIPT_TAIL@,
    );
}

/// The neighbouring parts of a card.
proof fn lemma_card_parts(
    head: Seq<char>,
    sum: Seq<char>,
    gateways: Seq<char>,
    picks: Seq<char>,
    steps: Seq<char>,
    sent: Seq<char>,
    script: Seq<char>,
    pay_ref: Seq<char>,
    back: Seq<char>,
    return_url: Seq<char>,
    tail: Seq<char>,
)
    ensures
        ({
            let c = head + sum + gateways + picks + steps + sent + script + pay_ref + back
                + return_url + tail;
            &&& occurs(c, head + sum + gateways)
            &&& occurs(c, gateways + picks + steps)
            &&& occurs(c, steps + sent + script)
            &&& occurs(c, script + pay_ref + back + return_url + tail)
        }),
{
    let x0 = head + sum;
    let x1 = x0 + gateways;
    let x3 = x1 + picks + steps;
    let x5 = x3 + sent + script;
    let none = Seq::<char>::empty();
    lemma_part_occurs(none, x1, none);
    assert(none + x1 + none =~= x1);
    lemma_goes_on(x1, x1, picks);
    lemma_goes_on(x1 + picks, x1, steps);
    lemma_three_occur(x0, gateways, picks, steps);
    lemma_rest_goes_on(x3, x1, sent, script, pay_ref, back, return_url, tail);
    let middle = gateways + picks + steps;
    lemma_rest_goes_on(x3, middle, sent, script, pay_ref, back, return_url, tail);
    let low = steps + sent + script;
    lemma_three_occur(x1 + picks, steps, sent, script);
    lemma_goes_on(x5, low, pay_ref);
    lemma_goes_on(x5 + pay_ref, low, back);
    lemma_goes_on(x5 + pay_ref + back, low, return_url);
    lemma_goes_on(x5 + pay_ref + back + return_url, low, tail);
    lemma_five_occur(x3 + sent, script, pay_ref, back, return_url, tail);
}

/// What occurs in a text occurs in it with six parts more.
proof fn lemma_rest_goes_on(
    s: Seq<char>,
    t: Seq<char>,
    a: Seq<char>,
    b: Seq<char>,
    c: Seq<char>,
    d: Seq<char>,
    e: Seq<char>,
    f: Seq<char>,
)
    requires
        occurs(s, t),
    ensures
        occurs(s + a + b + c + d + e + f, t),
{
    lemma_goes_on(s, t, a);
    lemma_goes_on(s + a, t, b);
    lemma_goes_on(s + a + b, t, c);
    lemma_goes_on(s + a + b + c, t, d);
    lemma_goes_on(s + a + b + c + d, t, e);
    lemma_goes_on(s + a + b + c + d + e, t, f);
}

/// Every registered gateway can be picked, after those that were there before it; where there
/// is none, the page says so.
pub proof fn law_every_gateway_can_be_picked(receivers: Seq<Receiver>, r: Receiver)
    ensures
        options(Seq::empty()) == NO_GATEWAYS@,
        options(seq![r]) == button(r),
        receivers.len() > 0 ==> options(receivers.push(r)) == options(receivers) + button(r),
{
    reveal_with_fuel(buttons, 2);
    reveal_strlit("");
    assert(seq![r].drop_last() =~= Seq::<Receiver>::empty());
    assert(buttons(seq![r]) =~= button(r));
    assert(receivers.push(r).drop_last() =~= receivers);
}

/// A button holds its gateway and the number to send to, escaped, and shows the name that
/// customers know and that number.
pub proof fn law_button_names_its_gateway(r: Receiver)
    ensures
        ({
            let number = match r.account_msisdn {
                Some(n) => n@,
                None => ""@,
            };
            let name = if r.gateway@ == "bkash"@ {
                "bKash"@
            } else if r.gateway@ == "nagad"@ {
                "Nagad"@
            } else {
                r.gateway@
            };
            &&& occurs(
                button(r),
                BUTTON_HEAD@ + escaped(r.gateway@) + BUTTON_NUMBER@ + escaped(number)
                    + BUTTON_NAME@,
            )
            &&& occurs(
                button(r),
                BUTTON_NAME@ + name + BUTTON_SHOWN@ + escaped(number) + BUTTON_TAIL@,
            )
        }),
{
    lemma_button_parts(
        BUTTON_HEAD@,
        escaped(r.gateway@),
        BUTTON_NUMBER@,
        escaped(receiving_number(r)),
        BUTTON_NAME@,
        brand(r.gateway@),
        BUTTON_SHOWN@,
        BUTTON_TAIL@,
    );
}

/// The neighbouring parts of a button.
proof fn lemma_button_parts(
    head: Seq<char>,
    gateway: Seq<char>,
    to: Seq<char>,
    number: Seq<char>,
    called: Seq<char>,
    name: Seq<char>,
    shown: Seq<char>,
    tail: Seq<char>,
)
    ensures
        ({
            let b = head + gateway + to + number + called + name + shown + number + tail;
            &&& occurs(b, head + gateway + to + number + called)
            &&& occurs(b, called + name + shown + number + tail)
        }),
{
    let x = head + gateway + to + number;
    let none = Seq::<char>::empty();
    let first = x + called;
    lemma_part_occurs(none, first, none);
    assert(none + first + none =~= first);
    lemma_goes_on(first, first, name);
    lemma_goes_on(first + name, first, shown);
    lemma_goes_on(first + name + shown, first, number);
    lemma_goes_on(first + name + shown + number, first, tail);
    lemma_five_occur(x, called, name, shown, number, tail);
}

/// A page holds its title, escaped, and its content, as it is.
pub proof fn law_page_holds_its_content(title: Seq<char>, inner: Seq<char>)
    ensures
        occurs(page(title, inner), PAGE_HEAD@ + escaped(title) + PAGE_STYLE@),
        occurs(page(title, inner), PAGE_STYLE@ + inner + PAGE_TAIL@),
{
    lemma_page_parts(PAGE_HEAD@, escaped(title), PAGE_STYLE@, inner, PAGE_TAIL@);
}

/// The neighbouring parts of a page.
proof fn lemma_page_parts(
    head: Seq<char>,
    title: Seq<char>,
    style: Seq<char>,
    inner: Seq<char>,
    tail: Seq<char>,
)
    ensures
        occurs(head + title + style + inner + tail, head + title + style),
        occurs(head + title + style + inner + tail, style + inner + tail),
{
    let none = Seq::<char>::empty();
    let first = head + title + style;
    lemma_part_occurs(none, first, none);
    assert(none + first + none =~= first);
    lemma_goes_on(first, first, inner);
    lemma_goes_on(first + inner, first, tail);
    lemma_three_occur(head + title, style, inner, tail);
}

/// The customer goes back to the merchant's page, if the merchant named one.
pub proof fn law_way_back_is_the_merchants(view: PublicCharge)
    ensures
        view.return_url matches Some(url) ==> way_back(view) == url@,
        view.return_url is None ==> way_back(view) == ""@,
{
}

} // verus!
