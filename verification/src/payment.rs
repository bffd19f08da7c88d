//! Billing logic: the webhook signature check, checkout form construction,
//! and the billing-record state machine. The HTTP round trips to the payment
//! processor live outside the library; the decisions — what a webhook means,
//! what a record becomes on success, cancellation or expiry — are verified
//! here over plain values.

use hmac::Mac;
use vstd::prelude::*;

use crate::models::{GuildSubscription, SubscriptionTier};
use crate::storekeys::{first_index_of, lemma_first_index_of, lemma_first_index_of_none};
use crate::text::{
    all_dec_digits, dec_of, dec_val, find_char, hex_of_bytes, lower_seq, parse_u64, str_eq,
    str_eq_ignore_case, u64_to_dec,
};

verus! {

/// How long one paid period runs, in seconds.
pub const SUBSCRIPTION_PERIOD_SECS: i64 = 2592000;

/// Why a billing operation was refused.
#[derive(Debug, Clone, PartialEq, Eq)]
pub enum PaymentError {
    /// No billing record for that tenant.
    SubscriptionNotFound(u64),
    /// The named tier cannot be bought (or does not exist).
    InvalidTier(String),
    /// The inbound webhook's signature did not verify.
    WebhookVerificationFailed,
    /// The processor's answer was unusable; the message says how.
    StripeApi(String),
}

/// The HMAC-SHA256 tag over a message under a key. A function of the two
/// arguments alone.
pub uninterp spec fn hmac_sha256_of(key: Seq<u8>, msg: Seq<u8>) -> Seq<u8>;

/// Relies on hmac's `Hmac<Sha256>` (new_from_slice, update, finalize): the
/// HMAC-SHA256 tag of `msg` under `key`. `new_from_slice` accepts keys of any
/// length for HMAC, so it cannot fail here.
#[verifier::external_body]
fn hmac_sha256(key: &[u8], msg: &[u8]) -> (r: Vec<u8>)
    ensures
        r@ == hmac_sha256_of(key@, msg@),
{
    let mut mac = <hmac::Hmac<sha2::Sha256> as Mac>::new_from_slice(key).unwrap();
    mac.update(msg);
    mac.finalize().into_bytes().to_vec()
}

/// Relies on hex::encode: two lowercase hex digits per byte, in order.
#[verifier::external_body]
fn hex_encode(bytes: &[u8]) -> (r: String)
    ensures
        r@ == hex_of_bytes(bytes@),
{
    hex::encode(bytes)
}

/// The comma-separated parts of `s`, in order.
pub open spec fn split_on_commas(s: Seq<char>) -> Seq<Seq<char>>
    decreases s.len(),
{
    let i = first_index_of(s, ',');
    if i < 0 || i >= s.len() {
        seq![s]
    } else {
        seq![s.subrange(0, i)] + split_on_commas(s.subrange(i + 1, s.len() as int))
    }
}

/// What one "key=value" part holds for `key`: the text after the first '=',
/// where the text before it is exactly `key`.
pub open spec fn part_value(part: Seq<char>, key: Seq<char>) -> Option<Seq<char>> {
    let i = first_index_of(part, '=');
    if i == -1 {
        None
    } else if part.subrange(0, i) == key {
        Some(part.subrange(i + 1, part.len() as int))
    } else {
        None
    }
}

/// The value of `key` after scanning the parts left to right, later parts
/// overwriting earlier ones.
pub open spec fn scan_field(
    parts: Seq<Seq<char>>,
    key: Seq<char>,
    acc: Option<Seq<char>>,
) -> Option<Seq<char>>
    decreases parts.len(),
{
    if parts.len() == 0 {
        acc
    } else {
        scan_field(
            parts.drop_first(),
            key,
            match part_value(parts.first(), key) {
                Some(v) => Some(v),
                None => acc,
            },
        )
    }
}

/// The "t" (timestamp) field of a signature header.
pub open spec fn sig_timestamp(sig: Seq<char>) -> Option<Seq<char>> {
    scan_field(split_on_commas(sig), "t"@, None)
}

/// The "v1" (signature) field of a signature header.
pub open spec fn sig_v1(sig: Seq<char>) -> Option<Seq<char>> {
    scan_field(split_on_commas(sig), "v1"@, None)
}

/// Splits `s` at every comma.
fn split_commas(s: &str) -> (r: Vec<String>)
    ensures
        r.deep_view() == split_on_commas(s@),
    decreases s@.len(),
{
    let len = s.unicode_len();
    match find_char(s, ',') {
        None => {
            proof {
                lemma_first_index_of_none(s@, ',');
            }
            let mut v: Vec<String> = Vec::new();
            v.push(s.to_owned());
            proof {
                assert(v.deep_view() =~= split_on_commas(s@));
            }
            v
        },
        Some(i) => {
            proof {
                lemma_first_index_of(s@, ',', i as int);
            }
            let head = s.substring_char(0, i);
            let tail = s.substring_char(i + 1, len);
            let mut v: Vec<String> = Vec::new();
            v.push(head.to_owned());
            let mut rest = split_commas(tail);
            v.append(&mut rest);
            proof {
                assert(v.deep_view() =~= split_on_commas(s@));
            }
            v
        },
    }
}

/// Reads the value of `key` from one "key=value" part.
fn part_value_exec(part: &str, key: &str) -> (r: Option<String>)
    ensures
        r.deep_view() == part_value(part@, key@),
{
    let len = part.unicode_len();
    match find_char(part, '=') {
        None => {
            proof {
                lemma_first_index_of_none(part@, '=');
            }
            None
        },
        Some(i) => {
            proof {
                lemma_first_index_of(part@, '=', i as int);
            }
            let prefix = part.substring_char(0, i);
            if str_eq(prefix, key) {
                Some(part.substring_char(i + 1, len).to_owned())
            } else {
                None
            }
        },
    }
}

/// Reads the last value of `key` among the comma-separated parts of `sig`.
fn scan_sig_field(sig: &str, key: &str) -> (r: Option<String>)
    ensures
        r.deep_view() == scan_field(split_on_commas(sig@), key@, None),
{
    let parts = split_commas(sig);
    let n = parts.len();
    let mut acc: Option<String> = None;
    let mut i: usize = 0;
    proof {
        assert(split_on_commas(sig@).skip(0) =~= split_on_commas(sig@));
    }
    while i < n
        invariant
            n == parts@.len(),
            parts.deep_view() == split_on_commas(sig@),
            0 <= i <= n,
            scan_field(split_on_commas(sig@), key@, None) == scan_field(
                parts.deep_view().skip(i as int),
                key@,
                acc.deep_view(),
            ),
        decreases n - i,
    {
        let ghost rest = parts.deep_view().skip(i as int);
        proof {
            assert(rest.first() == parts.deep_view()[i as int]);
            assert(rest.drop_first() =~= parts.deep_view().skip(i + 1));
        }
        match part_value_exec(parts[i].as_str(), key) {
            Some(v) => {
                acc = Some(v);
            },
            None => {},
        }
        i = i + 1;
    }
    proof {
        assert(parts.deep_view().skip(n as int).len() == 0);
    }
    acc
}

/// Whether a webhook call verifies: the header must carry a nonempty
/// timestamp and a nonempty v1 signature, and the v1 value must equal the
/// lowercase hex of HMAC-SHA256 over "{timestamp}.{payload}" under the
/// shared secret. A mismatch is a hard rejection.
pub open spec fn spec_verify_signature(
    secret: Seq<char>,
    payload: Seq<char>,
    signature: Seq<char>,
) -> bool {
    let ts = sig_timestamp(signature);
    let v1 = sig_v1(signature);
    &&& ts matches Some(t) && t.len() > 0
    &&& v1 matches Some(v) && v.len() > 0
    &&& hex_of_bytes(
        hmac_sha256_of(
            vstd::utf8::encode_utf8(secret),
            vstd::utf8::encode_utf8(sig_timestamp(signature)->0 + "."@ + payload),
        ),
    ) == sig_v1(signature)->0
}

/// Verifies an inbound webhook's signature header against the shared secret.
pub fn verify_webhook_signature(secret: &str, payload: &str, signature: &str) -> (r: bool)
    ensures
        r == spec_verify_signature(secret@, payload@, signature@),
{
    let ts = match scan_sig_field(signature, "t") {
        Some(t) => t,
        None => {
            return false;
        },
    };
    let v1 = match scan_sig_field(signature, "v1") {
        Some(v) => v,
        None => {
            return false;
        },
    };
    if ts.as_str().unicode_len() == 0 || v1.as_str().unicode_len() == 0 {
        return false;
    }
    let mut signed = ts;
    signed.append(".");
    signed.append(payload);
    proof {
        assert(signed@ == sig_timestamp(signature@)->0 + "."@ + payload@);
    }
    let tag = hmac_sha256(secret.as_bytes(), signed.as_str().as_bytes());
    let expected = hex_encode(tag.as_slice());
    str_eq(expected.as_str(), v1.as_str())
}

/// Gates an inbound webhook: a verified signature passes, anything else is
/// the hard rejection, and no state moves on rejection.
pub fn require_verified_webhook(secret: &str, payload: &str, signature: &str) -> (r: Result<
    (),
    PaymentError,
>)
    ensures
        r is Ok <==> spec_verify_signature(secret@, payload@, signature@),
        r matches Err(e) ==> e is WebhookVerificationFailed,
{
    if verify_webhook_signature(secret, payload, signature) {
        Ok(())
    } else {
        Err(PaymentError::WebhookVerificationFailed)
    }
}

/// One form field of a checkout request.
#[derive(Debug)]
pub struct FormField {
    pub key: String,
    pub value: String,
}

/// The mathematical value of a form field.
#[verifier::ext_equal]
pub ghost struct FormFieldV {
    pub key: Seq<char>,
    pub value: Seq<char>,
}

impl View for FormField {
    type V = FormFieldV;

    open spec fn view(&self) -> FormFieldV {
        FormFieldV { key: self.key@, value: self.value@ }
    }
}

impl DeepView for FormField {
    type V = FormFieldV;

    open spec fn deep_view(&self) -> FormFieldV {
        self.view()
    }
}

/// The checkout-session form for a paid tier: a card subscription for the
/// tier's price, the tenant and tier carried in the metadata.
pub open spec fn spec_checkout_form(
    guild_id: u64,
    tier: SubscriptionTier,
    guild_name: Seq<char>,
) -> Seq<FormFieldV>
    recommends
        tier != SubscriptionTier::Free,
{
    seq![
        FormFieldV { key: "success_url"@, value: "https://your-domain.com/success"@ },
        FormFieldV { key: "cancel_url"@, value: "https://your-domain.com/cancel"@ },
        FormFieldV { key: "payment_method_types[]"@, value: "card"@ },
        FormFieldV { key: "mode"@, value: "subscription"@ },
        FormFieldV {
            key: "line_items[0][price]"@,
            value: if tier == SubscriptionTier::Premium {
                "price_premium_placeholder"@
            } else {
                "price_enterprise_placeholder"@
            },
        },
        FormFieldV { key: "line_items[0][quantity]"@, value: "1"@ },
        FormFieldV { key: "metadata[guild_id]"@, value: dec_of(guild_id as nat) },
        FormFieldV {
            key: "metadata[tier]"@,
            value: if tier == SubscriptionTier::Premium {
                "premium"@
            } else {
                "enterprise"@
            },
        },
        FormFieldV { key: "metadata[guild_name]"@, value: guild_name },
    ]
}

/// Builds the checkout form for upgrading `guild_id` to `tier`. The free
/// tier buys nothing: asking for it is invalid input, and nothing is built.
pub fn checkout_form(guild_id: u64, tier: SubscriptionTier, guild_name: &str) -> (r: Result<
    Vec<FormField>,
    PaymentError,
>)
    ensures
        r is Err <==> tier == SubscriptionTier::Free,
        r matches Err(e) ==> e is InvalidTier,
        r matches Ok(form) ==> form.deep_view() == spec_checkout_form(guild_id, tier, guild_name@),
{
    if matches!(tier, SubscriptionTier::Free) {
        return Err(PaymentError::InvalidTier("the free tier needs no payment".to_owned()));
    }
    let price = match tier {
        SubscriptionTier::Premium => "price_premium_placeholder",
        _ => "price_enterprise_placeholder",
    };
    let wire = match tier {
        SubscriptionTier::Premium => "premium",
        _ => "enterprise",
    };
    let mut form: Vec<FormField> = Vec::new();
    form.push(
        FormField { key: "success_url".to_owned(), value: "https://your-domain.com/success".to_owned() },
    );
    form.push(
        FormField { key: "cancel_url".to_owned(), value: "https://your-domain.com/cancel".to_owned() },
    );
    form.push(FormField { key: "payment_method_types[]".to_owned(), value: "card".to_owned() });
    form.push(FormField { key: "mode".to_owned(), value: "subscription".to_owned() });
    form.push(FormField { key: "line_items[0][price]".to_owned(), value: price.to_owned() });
    form.push(FormField { key: "line_items[0][quantity]".to_owned(), value: "1".to_owned() });
    form.push(FormField { key: "metadata[guild_id]".to_owned(), value: u64_to_dec(guild_id) });
    form.push(FormField { key: "metadata[tier]".to_owned(), value: wire.to_owned() });
    form.push(FormField { key: "metadata[guild_name]".to_owned(), value: guild_name.to_owned() });
    proof {
        assert(form.deep_view() =~= spec_checkout_form(guild_id, tier, guild_name@));
    }
    Ok(form)
}

/// The record after a successful payment: the bought tier takes effect, the
/// processor references are stored, and the paid period starts at `now`.
pub fn apply_payment_success(
    sub: &GuildSubscription,
    customer_id: &str,
    subscription_id: &str,
    tier: SubscriptionTier,
    now: i64,
) -> (r: GuildSubscription)
    requires
        now <= i64::MAX - SUBSCRIPTION_PERIOD_SECS,
    ensures
        r.guild_id == sub.guild_id,
        r.tier == tier,
        r.is_active == true,
        r.stripe_customer_id.deep_view() == Some(customer_id@),
        r.stripe_subscription_id.deep_view() == Some(subscription_id@),
        r.last_payment_at == Some(now),
        r.expires_at == Some((now + SUBSCRIPTION_PERIOD_SECS) as i64),
        r.created_at == sub.created_at,
        r.feed_count == sub.feed_count,
{
    GuildSubscription {
        guild_id: sub.guild_id,
        tier,
        stripe_customer_id: Some(customer_id.to_owned()),
        stripe_subscription_id: Some(subscription_id.to_owned()),
        created_at: sub.created_at,
        expires_at: Some(now + SUBSCRIPTION_PERIOD_SECS),
        last_payment_at: Some(now),
        is_active: true,
        feed_count: sub.feed_count,
    }
}

/// The record after a cancellation: back to the free tier, inactive, expired
/// as of `now`, the processor subscription reference dropped.
pub fn apply_cancellation(sub: &GuildSubscription, now: i64) -> (r: GuildSubscription)
    ensures
        r.guild_id == sub.guild_id,
        r.tier == SubscriptionTier::Free,
        r.is_active == false,
        r.expires_at == Some(now),
        r.stripe_subscription_id is None,
        r.stripe_customer_id.deep_view() == sub.stripe_customer_id.deep_view(),
        r.created_at == sub.created_at,
        r.last_payment_at == sub.last_payment_at,
        r.feed_count == sub.feed_count,
{
    GuildSubscription {
        guild_id: sub.guild_id,
        tier: SubscriptionTier::Free,
        stripe_customer_id: crate::models::clone_opt_string(&sub.stripe_customer_id),
        stripe_subscription_id: None,
        created_at: sub.created_at,
        expires_at: Some(now),
        last_payment_at: sub.last_payment_at,
        is_active: false,
        feed_count: sub.feed_count,
    }
}

/// The record after the processor reports `status` for its subscription:
/// "active" confirms the record (and takes the period end as the new
/// expiry); "canceled", "unpaid" and "past_due" downgrade it to free as of
/// `now`; any other status changes nothing.
pub fn apply_stripe_status(
    sub: &GuildSubscription,
    status: &str,
    current_period_end: Option<i64>,
    now: i64,
) -> (r: GuildSubscription)
    ensures
        r.guild_id == sub.guild_id,
        r.created_at == sub.created_at,
        r.last_payment_at == sub.last_payment_at,
        r.feed_count == sub.feed_count,
        r.stripe_customer_id.deep_view() == sub.stripe_customer_id.deep_view(),
        r.stripe_subscription_id.deep_view() == sub.stripe_subscription_id.deep_view(),
        status@ == "active"@ ==> r.is_active == true && r.tier == sub.tier && r.expires_at == (
        match current_period_end {
            Some(e) => Some(e),
            None => sub.expires_at,
        }),
        (status@ == "canceled"@ || status@ == "unpaid"@ || status@ == "past_due"@) ==> r.is_active
            == false && r.tier == SubscriptionTier::Free && r.expires_at == Some(now),
        (status@ != "active"@ && status@ != "canceled"@ && status@ != "unpaid"@ && status@
            != "past_due"@) ==> r.is_active == sub.is_active && r.tier == sub.tier && r.expires_at
            == sub.expires_at,
{
    proof {
        reveal_strlit("active");
        reveal_strlit("canceled");
        reveal_strlit("unpaid");
        reveal_strlit("past_due");
        assert("active"@.len() == 6);
        assert("canceled"@.len() == 8);
        assert("unpaid"@.len() == 6);
        assert("past_due"@.len() == 8);
        assert("active"@ != "canceled"@ && "active"@ != "past_due"@);
        assert("active"@ != "unpaid"@) by {
            assert("active"@[0] != "unpaid"@[0]);
        }
    }
    let mut r = sub.clone();
    if str_eq(status, "active") {
        r.is_active = true;
        match current_period_end {
            Some(e) => {
                r.expires_at = Some(e);
            },
            None => {},
        }
    } else if str_eq(status, "canceled") || str_eq(status, "unpaid") || str_eq(
        status,
        "past_due",
    ) {
        r.is_active = false;
        r.tier = SubscriptionTier::Free;
        r.expires_at = Some(now);
    }
    r
}

/// The record after the expiry check at `now`: a paid record past its expiry
/// drops to free and inactive; everything else stands.
pub fn apply_expiry(sub: &GuildSubscription, now: i64) -> (r: GuildSubscription)
    ensures
        r.guild_id == sub.guild_id,
        r.created_at == sub.created_at,
        r.expires_at == sub.expires_at,
        r.last_payment_at == sub.last_payment_at,
        r.feed_count == sub.feed_count,
        r.stripe_customer_id.deep_view() == sub.stripe_customer_id.deep_view(),
        r.stripe_subscription_id.deep_view() == sub.stripe_subscription_id.deep_view(),
        (sub.expires_at matches Some(e) && e <= now && sub.tier != SubscriptionTier::Free) ==> (
        r.tier == SubscriptionTier::Free && r.is_active == false),
        !(sub.expires_at matches Some(e) && e <= now && sub.tier != SubscriptionTier::Free) ==> (
        r.tier == sub.tier && r.is_active == sub.is_active),
{
    let expired = match sub.expires_at {
        Some(e) => e <= now,
        None => false,
    };
    let mut r = sub.clone();
    if expired && !matches!(sub.tier, SubscriptionTier::Free) {
        r.tier = SubscriptionTier::Free;
        r.is_active = false;
    }
    r
}

/// The webhook events the pipeline acts on.
#[derive(Clone, Copy, Debug, PartialEq, Eq, Structural)]
pub enum WebhookEventKind {
    CheckoutCompleted,
    PaymentSucceeded,
    PaymentFailed,
    SubscriptionUpdated,
    SubscriptionDeleted,
    Other,
}

/// What an event type string classifies to.
pub open spec fn spec_classify_webhook_event(t: Seq<char>) -> WebhookEventKind {
    if t == "checkout.session.completed"@ {
        WebhookEventKind::CheckoutCompleted
    } else if t == "invoice.payment_succeeded"@ {
        WebhookEventKind::PaymentSucceeded
    } else if t == "invoice.payment_failed"@ {
        WebhookEventKind::PaymentFailed
    } else if t == "customer.subscription.updated"@ {
        WebhookEventKind::SubscriptionUpdated
    } else if t == "customer.subscription.deleted"@ {
        WebhookEventKind::SubscriptionDeleted
    } else {
        WebhookEventKind::Other
    }
}

/// Classifies an inbound webhook by its event type string.
pub fn classify_webhook_event(event_type: &str) -> (r: WebhookEventKind)
    ensures
        r == spec_classify_webhook_event(event_type@),
{
    if str_eq(event_type, "checkout.session.completed") {
        WebhookEventKind::CheckoutCompleted
    } else if str_eq(event_type, "invoice.payment_succeeded") {
        WebhookEventKind::PaymentSucceeded
    } else if str_eq(event_type, "invoice.payment_failed") {
        WebhookEventKind::PaymentFailed
    } else if str_eq(event_type, "customer.subscription.updated") {
        WebhookEventKind::SubscriptionUpdated
    } else if str_eq(event_type, "customer.subscription.deleted") {
        WebhookEventKind::SubscriptionDeleted
    } else {
        WebhookEventKind::Other
    }
}

/// What a tier name reads to, ASCII-case-insensitively.
pub open spec fn spec_parse_tier(s: Seq<char>) -> Option<SubscriptionTier> {
    if lower_seq(s) == "free"@ {
        Some(SubscriptionTier::Free)
    } else if lower_seq(s) == "premium"@ {
        Some(SubscriptionTier::Premium)
    } else if lower_seq(s) == "enterprise"@ {
        Some(SubscriptionTier::Enterprise)
    } else {
        None
    }
}

/// Parses a tier name, ignoring ASCII case. An unknown name is invalid input.
pub fn parse_tier(s: &str) -> (r: Option<SubscriptionTier>)
    ensures
        r == spec_parse_tier(s@),
{
    proof {
        reveal_strlit("free");
        reveal_strlit("premium");
        reveal_strlit("enterprise");
        assert(lower_seq("free"@) =~= "free"@);
        assert(lower_seq("premium"@) =~= "premium"@);
        assert(lower_seq("enterprise"@) =~= "enterprise"@);
    }
    if str_eq_ignore_case(s, "free") {
        Some(SubscriptionTier::Free)
    } else if str_eq_ignore_case(s, "premium") {
        Some(SubscriptionTier::Premium)
    } else if str_eq_ignore_case(s, "enterprise") {
        Some(SubscriptionTier::Enterprise)
    } else {
        None
    }
}

/// The billing record a completed checkout session activates: the bought
/// tier, active as of `now`, the session's event id kept as the processor
/// reference. The metadata strings must read back to a tenant and a tier;
/// a malformed tenant id or tier name is rejected and nothing is built.
pub fn checkout_completed_subscription(
    guild_id_str: &str,
    tier_str: &str,
    event_id: &str,
    now: i64,
) -> (r: Result<GuildSubscription, PaymentError>)
    ensures
        (r matches Err(e) && e is StripeApi) <==> !(guild_id_str@.len() > 0 && all_dec_digits(
            guild_id_str@,
        ) && dec_val(guild_id_str@) <= u64::MAX),
        (r matches Err(e) && e is InvalidTier) <==> ((guild_id_str@.len() > 0 && all_dec_digits(
            guild_id_str@,
        ) && dec_val(guild_id_str@) <= u64::MAX) && spec_parse_tier(tier_str@) is None),
        r is Ok <==> ((guild_id_str@.len() > 0 && all_dec_digits(guild_id_str@) && dec_val(
            guild_id_str@,
        ) <= u64::MAX) && spec_parse_tier(tier_str@) is Some),
        r matches Ok(sub) ==> ({
            &&& spec_parse_tier(tier_str@) matches Some(t) && sub.tier == t
            &&& sub.guild_id == dec_val(guild_id_str@)
            &&& sub.is_active == true
            &&& sub.stripe_customer_id is None
            &&& sub.stripe_subscription_id.deep_view() == Some(event_id@)
            &&& sub.created_at == now
            &&& sub.expires_at is None
            &&& sub.last_payment_at == Some(now)
            &&& sub.feed_count == 0
        }),
{
    let guild_id = match parse_u64(guild_id_str) {
        Some(g) => g,
        None => {
            return Err(PaymentError::StripeApi("malformed tenant id in metadata".to_owned()));
        },
    };
    let tier = match parse_tier(tier_str) {
        Some(t) => t,
        None => {
            return Err(PaymentError::InvalidTier(tier_str.to_owned()));
        },
    };
    Ok(
        GuildSubscription {
            guild_id,
            tier,
            stripe_customer_id: None,
            stripe_subscription_id: Some(event_id.to_owned()),
            created_at: now,
            expires_at: None,
            last_payment_at: Some(now),
            is_active: true,
            feed_count: 0,
        },
    )
}

} // verus!
