use asi::business::CustomerTier;

#[test]
fn test_tiers() {
    assert_eq!(CustomerTier::free().max_tokens, 100_000);
    assert!(CustomerTier::enterprise().max_tokens > 1_000_000);
}

#[test]
fn tier_limits() {
    let pro = CustomerTier::pro();
    assert_eq!(pro.name, "Pro");
    assert_eq!((pro.max_tokens, pro.max_sessions, pro.max_agents), (1_000_000, 100, 5));
    let free = CustomerTier::free();
    assert_eq!((free.max_sessions, free.max_agents), (10, 1));
    let ent = CustomerTier::enterprise();
    assert_eq!((ent.max_sessions, ent.max_agents), (u32::MAX, 50));
}
