use obn_core::moderation::config::ModerationConfig;
use obn_core::moderation::manager::ModerationManager;
use obn_core::moderation::types::{FlagReason, ModerationList};

#[test]
fn test_block_and_unblock_peer() {
    let mut mgr = ModerationManager::new(ModerationConfig::default());
    assert!(mgr.is_peer_allowed("peer1"));
    mgr.block_peer("peer1", Some("spam".into()));
    assert!(!mgr.is_peer_allowed("peer1"));
    assert_eq!(mgr.blocked_peers().len(), 1);
    assert!(mgr.unblock_peer("peer1"));
    assert!(mgr.is_peer_allowed("peer1"));
    assert_eq!(mgr.blocked_peers().len(), 0);
}

#[test]
fn test_whitelist_only_mode() {
    let config = ModerationConfig { whitelist_only: true, ..Default::default() };
    let mut mgr = ModerationManager::new(config);
    assert!(!mgr.is_peer_allowed("peer1"));
    mgr.whitelist_peer("peer1");
    assert!(mgr.is_peer_allowed("peer1"));
    mgr.block_peer("peer1", None);
    assert!(!mgr.is_peer_allowed("peer1"));
}

#[test]
fn test_flag_and_unflag_stream() {
    let mut mgr = ModerationManager::new(ModerationConfig::default());
    assert!(!mgr.is_stream_flagged("stream1"));
    mgr.flag_stream("stream1", FlagReason::Spam, None, None);
    assert!(mgr.is_stream_flagged("stream1"));
    assert_eq!(mgr.flagged_streams().len(), 1);
    let removed = mgr.unflag_stream("stream1");
    assert_eq!(removed, 1);
    assert!(!mgr.is_stream_flagged("stream1"));
}

#[test]
fn test_export_import() {
    let mut mgr = ModerationManager::new(ModerationConfig::default());
    mgr.block_peer("peer1", Some("test".into()));
    mgr.whitelist_peer("peer2");
    mgr.flag_stream("s1", FlagReason::Copyright, None, None);
    let list = mgr.export_list();
    assert_eq!(list.version, 1);
    assert_eq!(list.blocked_peers.len(), 1);
    assert_eq!(list.whitelisted_peers.len(), 1);
    assert_eq!(list.flagged_streams.len(), 1);
    let mut mgr2 = ModerationManager::new(ModerationConfig::default());
    mgr2.import_list(list);
    assert!(!mgr2.is_peer_allowed("peer1"));
    assert!(mgr2.is_stream_flagged("s1"));
}

#[test]
fn test_block_twice_keeps_one_entry() {
    let mut mgr = ModerationManager::new(ModerationConfig::default());
    mgr.block_peer_at("p", Some("first".into()), 10);
    mgr.block_peer_at("p", Some("second".into()), 20);
    let blocked = mgr.blocked_peers();
    assert_eq!(blocked.len(), 1);
    assert_eq!(blocked[0].reason.as_deref(), Some("second"));
    assert_eq!(blocked[0].blocked_at, 20);
    assert!(!mgr.unblock_peer("other"));
}

#[test]
fn test_block_then_unblock_restores_list() {
    let mut mgr = ModerationManager::new(ModerationConfig::default());
    mgr.block_peer_at("a", None, 1);
    mgr.block_peer_at("b", None, 2);
    assert!(mgr.unblock_peer("b"));
    let blocked = mgr.blocked_peers();
    assert_eq!(blocked.len(), 1);
    assert_eq!(blocked[0].peer_id, "a");
}

#[test]
fn test_remove_whitelist() {
    let config = ModerationConfig { whitelist_only: true, ..Default::default() };
    let mut mgr = ModerationManager::new(config);
    mgr.whitelist_peer("w");
    mgr.whitelist_peer("w");
    assert!(mgr.remove_whitelist("w"));
    assert!(!mgr.remove_whitelist("w"));
    assert!(!mgr.is_peer_allowed("w"));
}

#[test]
fn test_unflag_keeps_other_streams() {
    let mut mgr = ModerationManager::new(ModerationConfig::default());
    mgr.flag_stream_at("s1", FlagReason::Abuse, None, None, 1);
    mgr.flag_stream_at("s2", FlagReason::Other("x".into()), Some("d".into()), Some("r".into()), 2);
    mgr.flag_stream_at("s1", FlagReason::Spam, None, None, 3);
    assert_eq!(mgr.unflag_stream("s1"), 2);
    let flags = mgr.flagged_streams();
    assert_eq!(flags.len(), 1);
    assert_eq!(flags[0].stream_id, "s2");
    assert_eq!(flags[0].flagged_at, 2);
    assert_eq!(flags[0].reason.to_string(), "Other: x");
    assert_eq!(mgr.unflag_stream("none"), 0);
}

#[test]
fn test_export_import_roundtrip_values() {
    let mut mgr = ModerationManager::new(ModerationConfig::default());
    mgr.block_peer_at("p1", Some("r".into()), 5);
    mgr.block_peer_at("p2", None, 6);
    mgr.whitelist_peer("w1");
    mgr.flag_stream_at("s", FlagReason::Inappropriate, None, None, 7);
    let list = mgr.export_list_at(99);
    assert_eq!(list.created_at, 99);
    assert!(list.node_id.is_none());
    let mut fresh = ModerationManager::new(ModerationConfig::default());
    fresh.import_list(list);
    let again = fresh.export_list_at(99);
    assert_eq!(again.blocked_peers.len(), 2);
    assert_eq!(again.whitelisted_peers, vec!["w1".to_string()]);
    assert_eq!(again.flagged_streams.len(), 1);
    assert_eq!(again.flagged_streams[0].flagged_at, 7);
}

#[test]
fn test_flag_reason_text_and_default_list() {
    assert_eq!(FlagReason::Spam.to_string(), "Spam");
    assert_eq!(FlagReason::Copyright.to_string(), "Copyright");
    let list = ModerationList::default();
    assert_eq!(list.version, 1);
    assert_eq!(list.created_at, 0);
    assert!(list.blocked_peers.is_empty());
}
