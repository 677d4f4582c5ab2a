use livepeer_payout_bot::commands::{
    cap_reply, checked_address, find_orchestrator_row, is_valid_eth_address, normalize_address,
    not_found_reply, short_addr, shortenable, subscribe_reply, subscriptions_reply,
    unsubscribe_reply, SubscriptionLine,
};
use livepeer_payout_bot::ingest::{DelegatorBucket, DelegatorDigest};
use livepeer_payout_bot::notify::{
    cut_change_dm_description, delegator_digest_description, delinquency_digest_description,
    remaining_text, reward_dm_description, reward_missed_description, reward_pending_description,
    DelegatorLine, DelinquentLine,
};

const ADDR: &str = "0xb120a72a9264e90092e8197c0fabd210c18bc5be";

#[test]
fn reward_dm_shape() {
    let description = reward_dm_description(
        &Some("MyOrch".to_string()),
        "0xorch0001",
        "12.3456",
        &Some("99.99".to_string()),
        "0xrewardtx",
    );
    assert_eq!(
        description,
        "[**MyOrch**](https://tools.livepeer.cloud/orchestrator/0xorch0001) earned **12.3456 LPT** (~$99.99) in inflation rewards.\n\n[View transaction](https://arbiscan.io/tx/0xrewardtx)"
    );
}

#[test]
fn reward_dm_without_usd_uses_the_address_as_name() {
    let description = reward_dm_description(&None, "0xorch0001", "1.0000", &None, "0xtx");
    assert_eq!(
        description,
        "[**0xorch0001**](https://tools.livepeer.cloud/orchestrator/0xorch0001) earned **1.0000 LPT** in inflation rewards.\n\n[View transaction](https://arbiscan.io/tx/0xtx)"
    );
}

#[test]
fn cut_change_dm_lists_the_three_cuts() {
    let description = cut_change_dm_description(
        &Some("MyOrch".to_string()),
        "0xorch0001",
        "10.00%",
        "75.50%",
        "24.50%",
        "0xcut",
    );
    assert_eq!(
        description,
        "[**MyOrch**](https://tools.livepeer.cloud/orchestrator/0xorch0001) updated its cuts:\n\nReward cut: **10.00%** (orchestrator)\nFee Share: **75.50%** (delegators)\nFee Cut: **24.50%** (orchestrator)\n\n[View transaction](https://arbiscan.io/tx/0xcut)"
    );
}

#[test]
fn delegator_digest_dm_shape() {
    let lines = vec![
        DelegatorLine {
            delegator_address: "0xdelegator0001".to_string(),
            tx_hash: "0xbondtx".to_string(),
            lpt: "100.0000".to_string(),
        },
        DelegatorLine {
            delegator_address: "0xdelegator0002".to_string(),
            tx_hash: "0xunbondtx".to_string(),
            lpt: "50.0000".to_string(),
        },
    ];
    let digest = DelegatorDigest::from_buckets(&vec![DelegatorBucket::NewBond, DelegatorBucket::Unbond]);
    assert!(!digest.is_empty());
    let description =
        delegator_digest_description(&Some("MyOrch".to_string()), "0xorch0001", &lines, &digest);
    assert_eq!(
        description,
        "[**MyOrch**](https://tools.livepeer.cloud/orchestrator/0xorch0001) had delegator activity:\n\n**New delegators (1)**\n• [`0xdele…0001`](https://arbiscan.io/tx/0xbondtx) bonded **100.0000 LPT**\n\n**Unbonds (1)**\n• [`0xdele…0002`](https://arbiscan.io/tx/0xunbondtx) unbonded **50.0000 LPT**\n"
    );
}

#[test]
fn addresses_are_checked_and_normalized() {
    assert!(is_valid_eth_address(ADDR));
    assert!(is_valid_eth_address("0xB120A72A9264E90092E8197C0FABD210C18BC5BE"));
    assert!(!is_valid_eth_address("0xb120a72a9264e90092e8197c0fabd210c18bc5b"));
    assert!(!is_valid_eth_address("1xb120a72a9264e90092e8197c0fabd210c18bc5be"));
    assert!(!is_valid_eth_address("0xg120a72a9264e90092e8197c0fabd210c18bc5be"));
    assert_eq!(normalize_address("  0xB120A72A9264E90092E8197C0FABD210C18BC5BE \n"), ADDR);
    assert_eq!(checked_address(" 0xB120A72A9264E90092E8197C0FABD210C18BC5BE ").ok().unwrap(), ADDR);
    let reply = checked_address("0x1234").err().unwrap();
    assert_eq!(reply.title, "Error");
    assert_eq!(
        reply.description,
        "Invalid orchestrator address — expected `0x` followed by 40 hex characters."
    );
    assert_eq!(reply.colour, 0xd04a4a);
}

#[test]
fn short_form_keeps_head_and_tail() {
    assert_eq!(short_addr(ADDR), "0xb120…c5be");
    assert_eq!(short_addr("0xabc"), "0xabc");
    assert!(shortenable(ADDR));
    assert!(!shortenable("0xaééééé00000"));
}

#[test]
fn subscription_cap_is_enforced() {
    assert!(cap_reply(24, 25).is_none());
    let reply = cap_reply(25, 25).unwrap();
    assert_eq!(reply.description, "You're at the subscription cap (25). Use `/unsubscribe` first.");
}

#[test]
fn subscribe_replies() {
    let reply = subscribe_reply(true, None, ADDR, 2, 25);
    assert_eq!(reply.title, "Subscribed");
    assert_eq!(reply.colour, 0x46a758);
    assert_eq!(
        reply.description,
        "Now following **0xb120…c5be** (`0xb120…c5be`). You're subscribed to 3 of 25 orchestrators.\n\n📩 Notifications arrive as DMs. Make sure we share a server and that **\"Allow direct messages from server members\"** is enabled, or I won't be able to reach you — `/subscriptions` shows delivery status."
    );
    let again = subscribe_reply(false, Some("lpt.moudi.eth".to_string()), ADDR, 2, 25);
    assert_eq!(again.title, "Already subscribed");
    assert_eq!(again.description, "You're already following **lpt.moudi.eth** (`0xb120…c5be`).");
    let missing = not_found_reply(ADDR);
    assert_eq!(
        missing.description,
        "Couldn't find an orchestrator at `0xb120…c5be`. Check the address and try again."
    );
}

#[test]
fn unsubscribe_replies() {
    let removed = unsubscribe_reply(true, ADDR);
    assert_eq!(removed.title, "Unsubscribed");
    assert_eq!(removed.description, "Stopped following `0xb120…c5be`.");
    assert_eq!(removed.colour, 0x46a758);
    let absent = unsubscribe_reply(false, ADDR);
    assert_eq!(absent.title, "Not subscribed");
    assert_eq!(absent.description, "You weren't following `0xb120…c5be`.");
    assert_eq!(absent.colour, 0x969696);
}

#[test]
fn subscriptions_listing() {
    let empty = subscriptions_reply(&vec![], 25);
    assert_eq!(
        empty.description,
        "You're not subscribed to any orchestrators yet. Use `/subscribe <address>` to start."
    );
    let lines = vec![
        SubscriptionLine { display_name: Some("Alpha".to_string()), address: ADDR.to_string(), dm_blocked: false },
        SubscriptionLine {
            display_name: None,
            address: "0x141e6d4953b933746c770272126db2bd691a9683".to_string(),
            dm_blocked: true,
        },
    ];
    let reply = subscriptions_reply(&lines, 25);
    assert_eq!(reply.title, "Your subscriptions");
    assert_eq!(
        reply.description,
        "You follow 2 of 25 orchestrators:\n\n• **Alpha** — `0xb120…c5be`\n• **0x141e6d4953b933746c770272126db2bd691a9683** — `0x141e…9683`  ⚠️ DM-blocked\n\n⚠️ Entries marked **DM-blocked** mean I couldn't deliver a DM to you, so notifications are paused (your subscription is kept). Enable **\"Allow direct messages from server members\"** in Discord and make sure we share a server — delivery resumes automatically on the next successful DM."
    );
}

#[test]
fn leaderboard_row_is_found_case_insensitively() {
    let rows = vec![
        "0x0000000000000000000000000000000000000001".to_string(),
        "0xB120A72A9264E90092E8197C0FABD210C18BC5BE".to_string(),
    ];
    assert_eq!(find_orchestrator_row(&rows, ADDR), Some(1));
    assert_eq!(find_orchestrator_row(&rows, "0xdead"), None);
}

#[test]
fn remaining_time_is_hours_and_minutes() {
    assert_eq!(remaining_text(0), "0m");
    assert_eq!(remaining_text(59 * 60 + 59), "59m");
    assert_eq!(remaining_text(3600), "1h 0m");
    assert_eq!(remaining_text(38_262), "10h 37m");
}

#[test]
fn reward_pending_dm_text() {
    let d = reward_pending_description(&Some("MyOrch".to_string()), "0xorch0001", 3512, 3188, 6377, "50", 38_262);
    assert_eq!(
        d,
        "[**MyOrch**](https://tools.livepeer.cloud/orchestrator/0xorch0001) has **not called reward** for round **3512** yet.\n\nRound progress: block ~**3188 of 6377** (50% complete)\nTime left to call reward: **~10h 37m**\n\nIf no reward call lands before the round ends, delegators earn no inflation rewards from this orchestrator for the round."
    );
}

#[test]
fn reward_missed_dm_text() {
    let d = reward_missed_description(&None, "0xorch0001", 3511);
    assert_eq!(
        d,
        "[**0xorch0001**](https://tools.livepeer.cloud/orchestrator/0xorch0001) **did not call reward** during round **3511**.\n\nDelegators earned no inflation rewards from this orchestrator for that round. The reward call for the new round is still available."
    );
}

#[test]
fn delinquency_digest_lists_at_most_twenty() {
    let one = vec![DelinquentLine { display_name: None, address: ADDR.to_string(), stake: "1200".to_string() }];
    assert_eq!(
        delinquency_digest_description(3512, "91", 5810, 6377, &one),
        "Round **3512** is **91% complete** (block ~5810 of 6377) and has entered its lock period. **1** active orchestrator has not called reward yet:\n\n• [**0xb120…c5be**](https://tools.livepeer.cloud/orchestrator/0xb120a72a9264e90092e8197c0fabd210c18bc5be) — 1200 LPT staked\n\nDelegators to these orchestrators earn no inflation rewards for the round unless a reward call lands before it ends."
    );
    let many: Vec<DelinquentLine> = (0..22)
        .map(|i| DelinquentLine {
            display_name: Some(format!("orch{i}")),
            address: format!("0x{i:040x}"),
            stake: format!("{}", 100 - i),
        })
        .collect();
    let text = delinquency_digest_description(3512, "90", 5740, 6377, &many);
    assert!(text.contains("**22** active orchestrators have not called reward yet:\n\n• [**orch0**]"));
    assert!(text.contains("— 81 LPT staked\n…and 2 more\n\nDelegators"));
    assert!(!text.contains("orch20"));
}
