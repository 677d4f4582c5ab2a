use livepeer_payout_bot::explorer::{
    absolutize_avatar, preferred_valuation, status_rank, Cadence, GatewayProfileRow,
    GatewayProfileRowExt, ValuationKey,
};
use url::Url;

fn base() -> Url {
    Url::parse("https://livepeer-network-api.cloudspe.com").unwrap()
}

#[test]
fn relative_cached_avatar_is_absolutized() {
    let got = absolutize_avatar(
        base().as_str(),
        Some("/api/v1/orchestrators/0xabc/avatar".to_string()),
    );
    assert_eq!(
        got.as_deref(),
        Some("https://livepeer-network-api.cloudspe.com/api/v1/orchestrators/0xabc/avatar")
    );
}

#[test]
fn absolute_http_passthrough_is_untouched() {
    let got = absolutize_avatar(base().as_str(), Some("https://override.example/a.png".to_string()));
    assert_eq!(got.as_deref(), Some("https://override.example/a.png"));
}

#[test]
fn non_http_records_are_left_for_downstream_to_drop() {
    assert_eq!(
        absolutize_avatar(base().as_str(), Some("eip155:1/erc721:0xabc/123".to_string())).as_deref(),
        Some("eip155:1/erc721:0xabc/123")
    );
    assert_eq!(absolutize_avatar(base().as_str(), None), None);
}

#[test]
fn relative_avatar_with_unusable_base_is_kept() {
    assert_eq!(
        absolutize_avatar("not a base", Some("/a.png".to_string())).as_deref(),
        Some("/a.png")
    );
}

fn key(status: &str, usd: bool, price: bool) -> ValuationKey {
    ValuationKey {
        status: status.to_string(),
        amount_usd_positive: usd,
        native_usd_price_positive: price,
    }
}

#[test]
fn status_ranks_priced_highest() {
    assert_eq!(status_rank("priced"), 3);
    assert_eq!(status_rank("priced_with_warning"), 2);
    assert_eq!(status_rank("pending"), 1);
    assert_eq!(status_rank(""), 1);
}

#[test]
fn preferred_valuation_takes_best_status_then_amounts() {
    assert_eq!(preferred_valuation(&[]), None);
    let keys = vec![
        key("pending", true, true),
        key("priced", false, true),
        key("priced_with_warning", true, true),
        key("priced", true, false),
    ];
    assert_eq!(preferred_valuation(&keys), Some(3));
}

#[test]
fn preferred_valuation_takes_the_last_of_equals() {
    let keys = vec![key("priced", true, true), key("pending", true, true), key("priced", true, true)];
    assert_eq!(preferred_valuation(&keys), Some(2));
}

#[test]
fn ai_gateways_are_recognised_by_kind() {
    let ai = GatewayProfileRow { address: "0xg1".to_string(), kind: "ai".to_string() };
    let tx = GatewayProfileRow { address: "0xg2".to_string(), kind: "transcoding".to_string() };
    assert!(ai.is_ai());
    assert!(!tx.is_ai());
}

#[test]
fn cadence_paths_and_titles() {
    assert_eq!(Cadence::Daily.as_path(), "daily");
    assert_eq!(Cadence::Weekly.as_path(), "weekly");
    assert_eq!(Cadence::Monthly.as_path(), "monthly");
    assert_eq!(Cadence::Daily.title_word(), "Daily");
    assert_eq!(Cadence::Monthly.title_word(), "Monthly");
}
