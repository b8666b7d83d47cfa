use volcano::player::{format_duration, CacheAnswer, InfoCache, PlaybackStatus, PlayingInfo};

#[test]
fn test_format_duration() {
    assert_eq!(format_duration(3661.0f32 as u32), "01:01:01");
    assert_eq!(format_duration(61.0f32 as u32), "01:01");
    assert_eq!(format_duration(59.0f32 as u32), "00:59");
}

#[test]
fn format_duration_edges() {
    assert_eq!(format_duration(0), "00:00");
    assert_eq!(format_duration(3599), "59:59");
    assert_eq!(format_duration(3600), "01:00:00");
    assert_eq!(format_duration(360000), "100:00:00");
}

fn info(pos_s: u64, len_s: u64) -> PlayingInfo {
    PlayingInfo {
        position_us: pos_s * 1_000_000,
        length_us: len_s * 1_000_000,
        state: "Playing".to_string(),
        title: "Song".to_string(),
        artist: "Band".to_string(),
    }
}

#[test]
fn describe_track() {
    assert_eq!(info(65, 3661).describe(), "Band - Song [01:05 / 01:01:01]");
    let mut i = info(0, 0);
    i.position_us = 999_999;
    assert_eq!(i.describe(), "Band - Song [00:00 / 00:00]");
}

#[test]
fn metadata_defaults() {
    let i = PlayingInfo::from_metadata(None, None, None, 5, None);
    assert_eq!(i.title, "Unknown Title");
    assert_eq!(i.artist, "Unknown Artist");
    assert_eq!(i.length_us, 0);
    assert_eq!(i.position_us, 5);
    assert_eq!(i.state, "Stopped");
}

#[test]
fn metadata_joins_artists() {
    let i = PlayingInfo::from_metadata(
        Some("T".to_string()),
        Some(vec!["A".to_string(), "B".to_string(), "C".to_string()]),
        Some(7),
        1,
        Some(PlaybackStatus::Paused),
    );
    assert_eq!(i.title, "T");
    assert_eq!(i.artist, "A, B, C");
    assert_eq!(i.length_us, 7);
    assert_eq!(i.state, "Paused");
    let empty = PlayingInfo::from_metadata(None, Some(vec![]), None, 0, Some(PlaybackStatus::Playing));
    assert_eq!(empty.artist, "");
    assert_eq!(empty.state, "Playing");
}

fn cached(a: CacheAnswer) -> Option<Option<PlayingInfo>> {
    match a {
        CacheAnswer::Cached(i) => Some(i),
        CacheAnswer::Refresh => None,
    }
}

#[test]
fn cache_answers_what_was_stored_while_fresh() {
    let mut c = InfoCache::new(50);
    assert!(cached(c.lookup(0)).is_none());
    c.store(Some(info(1, 2)), 100);
    let hit = cached(c.lookup(120)).expect("fresh entry");
    assert_eq!(hit.expect("stored info").title, "Song");
    assert!(cached(c.lookup(149)).is_some());
    assert!(cached(c.lookup(150)).is_none());
    c.store(None, 200);
    assert!(matches!(cached(c.lookup(210)), Some(None)));
}

#[test]
fn zero_ttl_never_caches() {
    let mut c = InfoCache::new(0);
    c.store(Some(info(1, 2)), 10);
    assert!(cached(c.lookup(10)).is_none());
    assert!(cached(c.lookup(11)).is_none());
}

#[test]
fn refresh_without_player_keeps_the_cache() {
    let mut c = InfoCache::new(50);
    c.store(Some(info(1, 2)), 100);
    assert!(c.refresh(None, 110).is_none());
    assert!(cached(c.lookup(120)).is_some());
    let reply = c.refresh(Some(Some(info(3, 4))), 200).expect("fetched info");
    assert_eq!(reply.position_us, 3_000_000);
    assert!(cached(c.lookup(120)).is_some());
    assert!(cached(c.lookup(249)).is_some());
    assert!(cached(c.lookup(250)).is_none());
    assert!(c.refresh(Some(None), 300).is_none());
    assert!(matches!(cached(c.lookup(310)), Some(None)));
}
