use livepeer_payout_bot::ingest::{
    classify_delegator_event, cursor_name, first_seen_pair, group_by_orchestrator,
    needs_prior_count, page_step, DelegatorBucket, DelegatorDigest, PageStep, EVENT_PAGE_LIMIT,
};

#[test]
fn paging_stops_on_empty_or_short_pages() {
    assert!(matches!(page_step(0, Some("c1".to_string()), EVENT_PAGE_LIMIT), PageStep::Done));
    assert!(matches!(page_step(5, None, EVENT_PAGE_LIMIT), PageStep::Done));
    match page_step(100, Some("c2".to_string()), EVENT_PAGE_LIMIT) {
        PageStep::Advance { cursor, more } => {
            assert_eq!(cursor, "c2");
            assert!(more);
        }
        PageStep::Done => panic!("a full page advances"),
    }
    match page_step(40, Some("c3".to_string()), EVENT_PAGE_LIMIT) {
        PageStep::Advance { cursor, more } => {
            assert_eq!(cursor, "c3");
            assert!(!more);
        }
        PageStep::Done => panic!("a short page still stores its cursor"),
    }
    assert_eq!(cursor_name("Reward"), "events:Reward");
}

#[test]
fn first_bonds_are_recorded() {
    assert_eq!(
        first_seen_pair(true, "Bond", Some("0xd".to_string()), Some("0xo".to_string())),
        Some(("0xd".to_string(), "0xo".to_string()))
    );
    assert_eq!(first_seen_pair(false, "Bond", Some("0xd".to_string()), Some("0xo".to_string())), None);
    assert_eq!(first_seen_pair(true, "Unbond", Some("0xd".to_string()), Some("0xo".to_string())), None);
    assert_eq!(first_seen_pair(true, "Bond", None, Some("0xo".to_string())), None);
}

#[test]
fn delegator_events_are_sorted_into_sections() {
    assert!(needs_prior_count("Bond"));
    assert!(!needs_prior_count("Unbond"));
    assert_eq!(classify_delegator_event("Bond", Some(0)), DelegatorBucket::NewBond);
    assert_eq!(classify_delegator_event("Bond", Some(2)), DelegatorBucket::StakeChange);
    assert_eq!(classify_delegator_event("Unbond", None), DelegatorBucket::Unbond);
    assert_eq!(classify_delegator_event("Rebond", None), DelegatorBucket::Rebond);
    assert_eq!(classify_delegator_event("Reward", None), DelegatorBucket::Ignored);

    let digest = DelegatorDigest::from_buckets(&vec![
        DelegatorBucket::StakeChange,
        DelegatorBucket::NewBond,
        DelegatorBucket::Ignored,
        DelegatorBucket::NewBond,
        DelegatorBucket::Rebond,
    ]);
    assert_eq!(digest.new_bonds, vec![1, 3]);
    assert_eq!(digest.stake_change_bonds, vec![0]);
    assert!(digest.unbonds.is_empty());
    assert_eq!(digest.rebonds, vec![4]);
    assert!(!digest.is_empty());
    assert!(DelegatorDigest::from_buckets(&vec![DelegatorBucket::Ignored]).is_empty());
}

#[test]
fn pending_events_are_grouped_by_orchestrator() {
    let orchs: Vec<String> = ["0xa", "0xb", "0xa", "0xc", "0xb"].iter().map(|s| s.to_string()).collect();
    let groups = group_by_orchestrator(&orchs);
    assert_eq!(groups.len(), 3);
    assert_eq!(groups[0].orch, "0xa");
    assert_eq!(groups[0].events, vec![0, 2]);
    assert_eq!(groups[1].orch, "0xb");
    assert_eq!(groups[1].events, vec![1, 4]);
    assert_eq!(groups[2].orch, "0xc");
    assert_eq!(groups[2].events, vec![3]);
}
