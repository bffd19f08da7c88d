use epistulus::models::{GuildSubscription, SubscriptionTier};
use hmac::Mac;

use epistulus::payment::{
    apply_cancellation, apply_expiry, apply_payment_success, apply_stripe_status, checkout_form,
    checkout_completed_subscription, classify_webhook_event, parse_tier, require_verified_webhook,
    verify_webhook_signature, PaymentError, WebhookEventKind, SUBSCRIPTION_PERIOD_SECS,
};

const SECRET: &str = "whsec_test_secret";
const PAYLOAD: &str = r#"{"id":"evt_1","type":"checkout.session.completed"}"#;
const GOOD_SIG: &str =
    "t=1700000000,v1=a13d4b1f9003bc2fb6c06224e878b6056185eaa50d40e1e7dc05517f8af41d7b";

#[test]
fn a_correctly_signed_webhook_verifies() {
    assert!(verify_webhook_signature(SECRET, PAYLOAD, GOOD_SIG));
}

#[test]
fn verification_agrees_with_a_direct_hmac_computation() {
    let ts = "1699999999";
    let payload = r#"{"id":"evt_2"}"#;
    let mut mac =
        <hmac::Hmac<sha2::Sha256> as hmac::Mac>::new_from_slice(SECRET.as_bytes()).unwrap();
    mac.update(format!("{}.{}", ts, payload).as_bytes());
    let sig = hex::encode(mac.finalize().into_bytes());
    let header = format!("t={},v1={}", ts, sig);
    assert!(verify_webhook_signature(SECRET, payload, &header));
    // the same header never verifies another payload
    assert!(!verify_webhook_signature(SECRET, PAYLOAD, &header));
}

#[test]
fn signature_mismatch_is_a_hard_rejection() {
    // tampered payload
    assert!(!verify_webhook_signature(SECRET, "{\"id\":\"evt_evil\"}", GOOD_SIG));
    // wrong secret
    assert!(!verify_webhook_signature("whsec_other", PAYLOAD, GOOD_SIG));
    // tampered signature
    let bad = GOOD_SIG.replace("a13d", "b13d");
    assert!(!verify_webhook_signature(SECRET, PAYLOAD, &bad));
}

#[test]
fn a_header_missing_its_fields_never_verifies() {
    assert!(!verify_webhook_signature(SECRET, PAYLOAD, ""));
    assert!(!verify_webhook_signature(SECRET, PAYLOAD, "t=1700000000"));
    assert!(!verify_webhook_signature(SECRET, PAYLOAD, "v1=abcd"));
    assert!(!verify_webhook_signature(SECRET, PAYLOAD, "t=,v1=abcd"));
    assert!(!verify_webhook_signature(SECRET, PAYLOAD, "t=1700000000,v1="));
}

#[test]
fn the_webhook_gate_rejects_hard() {
    assert!(require_verified_webhook(SECRET, PAYLOAD, GOOD_SIG).is_ok());
    match require_verified_webhook(SECRET, "tampered", GOOD_SIG) {
        Err(PaymentError::WebhookVerificationFailed) => {},
        other => panic!("expected a verification failure, got {:?}", other),
    }
}

#[test]
fn later_header_fields_overwrite_earlier_ones() {
    let wrong_then_right = format!("t=1,{}", GOOD_SIG);
    assert!(verify_webhook_signature(SECRET, PAYLOAD, &wrong_then_right));
}

#[test]
fn event_types_classify_exactly() {
    assert_eq!(
        classify_webhook_event("checkout.session.completed"),
        WebhookEventKind::CheckoutCompleted
    );
    assert_eq!(
        classify_webhook_event("invoice.payment_succeeded"),
        WebhookEventKind::PaymentSucceeded
    );
    assert_eq!(
        classify_webhook_event("invoice.payment_failed"),
        WebhookEventKind::PaymentFailed
    );
    assert_eq!(
        classify_webhook_event("customer.subscription.updated"),
        WebhookEventKind::SubscriptionUpdated
    );
    assert_eq!(
        classify_webhook_event("customer.subscription.deleted"),
        WebhookEventKind::SubscriptionDeleted
    );
    assert_eq!(classify_webhook_event("charge.refunded"), WebhookEventKind::Other);
}

#[test]
fn tier_names_parse_ignoring_ascii_case() {
    assert_eq!(parse_tier("free"), Some(SubscriptionTier::Free));
    assert_eq!(parse_tier("Premium"), Some(SubscriptionTier::Premium));
    assert_eq!(parse_tier("ENTERPRISE"), Some(SubscriptionTier::Enterprise));
    assert_eq!(parse_tier("gold"), None);
    assert_eq!(parse_tier(""), None);
}

#[test]
fn the_free_tier_buys_nothing() {
    match checkout_form(7, SubscriptionTier::Free, "My Guild") {
        Err(PaymentError::InvalidTier(_)) => {},
        other => panic!("expected an invalid-tier refusal, got {:?}", other),
    }
}

#[test]
fn the_checkout_form_carries_tenant_and_tier() {
    let form = checkout_form(42, SubscriptionTier::Premium, "My Guild").unwrap();
    let pairs: Vec<(&str, &str)> =
        form.iter().map(|f| (f.key.as_str(), f.value.as_str())).collect();
    assert_eq!(
        pairs,
        vec![
            ("success_url", "https://your-domain.com/success"),
            ("cancel_url", "https://your-domain.com/cancel"),
            ("payment_method_types[]", "card"),
            ("mode", "subscription"),
            ("line_items[0][price]", "price_premium_placeholder"),
            ("line_items[0][quantity]", "1"),
            ("metadata[guild_id]", "42"),
            ("metadata[tier]", "premium"),
            ("metadata[guild_name]", "My Guild"),
        ]
    );
    let form = checkout_form(42, SubscriptionTier::Enterprise, "g").unwrap();
    assert_eq!(form[4].value, "price_enterprise_placeholder");
    assert_eq!(form[7].value, "enterprise");
}

#[test]
fn a_successful_payment_upgrades_the_record() {
    let sub = GuildSubscription::new_free(7, 1000);
    let r = apply_payment_success(&sub, "cus_1", "sub_1", SubscriptionTier::Premium, 5000);
    assert_eq!(r.tier, SubscriptionTier::Premium);
    assert!(r.is_active);
    assert_eq!(r.stripe_customer_id.as_deref(), Some("cus_1"));
    assert_eq!(r.stripe_subscription_id.as_deref(), Some("sub_1"));
    assert_eq!(r.last_payment_at, Some(5000));
    assert_eq!(r.expires_at, Some(5000 + SUBSCRIPTION_PERIOD_SECS));
    assert_eq!(r.created_at, 1000);
}

#[test]
fn a_cancellation_downgrades_to_free() {
    let mut sub = GuildSubscription::new_free(7, 1000);
    sub.tier = SubscriptionTier::Premium;
    sub.stripe_subscription_id = Some("sub_1".to_string());
    let r = apply_cancellation(&sub, 6000);
    assert_eq!(r.tier, SubscriptionTier::Free);
    assert!(!r.is_active);
    assert_eq!(r.expires_at, Some(6000));
    assert_eq!(r.stripe_subscription_id, None);
}

#[test]
fn processor_status_reports_drive_the_record() {
    let mut sub = GuildSubscription::new_free(7, 1000);
    sub.tier = SubscriptionTier::Premium;
    sub.is_active = false;
    let r = apply_stripe_status(&sub, "active", Some(9000), 5000);
    assert!(r.is_active);
    assert_eq!(r.tier, SubscriptionTier::Premium);
    assert_eq!(r.expires_at, Some(9000));
    for status in ["canceled", "unpaid", "past_due"] {
        let r = apply_stripe_status(&sub, status, None, 5000);
        assert!(!r.is_active);
        assert_eq!(r.tier, SubscriptionTier::Free);
        assert_eq!(r.expires_at, Some(5000));
    }
    let r = apply_stripe_status(&sub, "trialing", None, 5000);
    assert_eq!(r.is_active, sub.is_active);
    assert_eq!(r.tier, sub.tier);
}

#[test]
fn expiry_downgrades_a_paid_record() {
    let mut sub = GuildSubscription::new_free(7, 1000);
    sub.tier = SubscriptionTier::Premium;
    sub.expires_at = Some(4000);
    let r = apply_expiry(&sub, 4000);
    assert_eq!(r.tier, SubscriptionTier::Free);
    assert!(!r.is_active);
    // not yet expired: untouched
    let r = apply_expiry(&sub, 3999);
    assert_eq!(r.tier, SubscriptionTier::Premium);
    assert!(r.is_active);
    // an expired free record stays as it is
    let free = GuildSubscription::new_free(8, 0);
    let r = apply_expiry(&free, 10000);
    assert!(r.is_active);
}

#[test]
fn checkout_completion_builds_the_activated_record() {
    let r = checkout_completed_subscription("42", "premium", "evt_9", 5000).unwrap();
    assert_eq!(r.guild_id, 42);
    assert_eq!(r.tier, SubscriptionTier::Premium);
    assert!(r.is_active);
    assert_eq!(r.stripe_subscription_id.as_deref(), Some("evt_9"));
    assert_eq!(r.created_at, 5000);
    assert_eq!(r.last_payment_at, Some(5000));
    assert_eq!(r.expires_at, None);
    assert_eq!(r.feed_count, 0);
    match checkout_completed_subscription("not-a-number", "premium", "e", 0) {
        Err(PaymentError::StripeApi(_)) => {},
        other => panic!("expected a metadata refusal, got {:?}", other),
    }
    match checkout_completed_subscription("42", "gold", "e", 0) {
        Err(PaymentError::InvalidTier(t)) => assert_eq!(t, "gold"),
        other => panic!("expected an invalid-tier refusal, got {:?}", other),
    }
}

#[test]
fn validity_and_quota_read_from_the_record() {
    let mut sub = GuildSubscription::new_free(7, 1000);
    assert!(sub.is_valid(2000));
    assert!(sub.can_add_feed(2000));
    sub.feed_count = 3;
    assert!(!sub.can_add_feed(2000)); // the free limit is three
    sub.tier = SubscriptionTier::Premium;
    assert!(sub.can_add_feed(2000));
    sub.expires_at = Some(1500);
    assert!(!sub.is_valid(2000));
    assert!(!sub.can_add_feed(2000));
    assert_eq!(SubscriptionTier::Free.feed_limit_number(), Some(3));
    assert_eq!(SubscriptionTier::Premium.feed_limit_number(), None);
    assert_eq!(SubscriptionTier::Premium.price_cents(), Some(999));
    assert_eq!(SubscriptionTier::Enterprise.price_cents(), Some(2999));
    assert_eq!(SubscriptionTier::Free.feed_limit(), "3");
    assert_eq!(SubscriptionTier::Enterprise.feed_limit(), "unlimited");
    assert_eq!(SubscriptionTier::Premium.display_name(), "Premium");
    assert_eq!(SubscriptionTier::Premium.wire_name(), "premium");
}
