use batch_relay::media_group::{MediaGroupCache, MediaType, STALE_AFTER_SECS};
use batch_relay::message::{InboundMessage, PhotoRef, VideoRef};

fn album_part(id: i32, group: &str, photo: Option<&str>, video: Option<&str>) -> InboundMessage {
    InboundMessage {
        id,
        chat_id: 1,
        photo: photo.map(|f| PhotoRef { file_id: f.to_string(), unique_id: format!("u_{}", f) }),
        video: video.map(|f| VideoRef { file_id: f.to_string(), file_name: None }),
        media_group_id: Some(group.to_string()),
    }
}

#[test]
fn second_item_completes_group() {
    let mut c = MediaGroupCache::new();
    let g = "album1".to_string();
    assert!(c.record(g.clone(), MediaType::Photo("p1".to_string()), 100).is_none());
    assert!(c.contains(&g));
    let done = c.record(g.clone(), MediaType::Video("v1".to_string()), 101).expect("complete");
    assert_eq!(done, vec![MediaType::Photo("p1".to_string()), MediaType::Video("v1".to_string())]);
    assert!(!c.contains(&g));
    assert_eq!(c.len(), 0);
}

#[test]
fn lone_item_is_swept_once_stale() {
    let mut c = MediaGroupCache::new();
    let g = "album2".to_string();
    assert!(c.record(g.clone(), MediaType::Photo("p".to_string()), 1000).is_none());
    c.sweep(1000 + STALE_AFTER_SECS - 1);
    assert!(c.contains(&g));
    c.sweep(1000 + 30);
    assert!(!c.contains(&g));
}

#[test]
fn sweep_keeps_fresh_groups_and_drops_stale_ones() {
    let mut c = MediaGroupCache::new();
    c.record("old".to_string(), MediaType::Photo("a".to_string()), 0);
    c.record("new".to_string(), MediaType::Photo("b".to_string()), 20);
    c.record("older".to_string(), MediaType::Video("c".to_string()), 0);
    c.sweep(35);
    assert_eq!(c.len(), 1);
    assert!(c.contains(&"new".to_string()));
    assert!(!c.contains(&"old".to_string()));
    assert!(!c.contains(&"older".to_string()));
}

#[test]
fn groups_are_kept_apart() {
    let mut c = MediaGroupCache::new();
    assert!(c.record("x".to_string(), MediaType::Photo("1".to_string()), 0).is_none());
    assert!(c.record("y".to_string(), MediaType::Photo("2".to_string()), 0).is_none());
    assert_eq!(c.len(), 2);
    let done = c.record("y".to_string(), MediaType::Photo("3".to_string()), 1).expect("complete");
    assert_eq!(done, vec![MediaType::Photo("2".to_string()), MediaType::Photo("3".to_string())]);
    assert!(c.contains(&"x".to_string()));
}

#[test]
fn photo_and_video_of_one_message_are_both_recorded() {
    let mut c = MediaGroupCache::new();
    let done = c.handle_message(&album_part(1, "g", Some("p"), Some("v")), 5);
    assert_eq!(done, vec![vec![MediaType::Photo("p".to_string()), MediaType::Video("v".to_string())]]);
    assert_eq!(c.len(), 0);
}

#[test]
fn album_parts_in_two_messages_complete_the_group() {
    let mut c = MediaGroupCache::new();
    assert!(c.handle_message(&album_part(1, "g", Some("p1"), None), 5).is_empty());
    let done = c.handle_message(&album_part(2, "g", Some("p2"), None), 6);
    assert_eq!(done, vec![vec![MediaType::Photo("p1".to_string()), MediaType::Photo("p2".to_string())]]);
}

#[test]
fn message_without_group_is_ignored() {
    let mut c = MediaGroupCache::new();
    let mut m = album_part(1, "g", Some("p"), None);
    m.media_group_id = None;
    assert!(c.handle_message(&m, 5).is_empty());
    assert_eq!(c.len(), 0);
}
