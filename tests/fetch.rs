use batch_relay::fetch::{
    no_media_status, photo_file_name, photo_status, plan_download, record_file_name, video_file_name,
    video_status,
};
use batch_relay::message::{InboundMessage, PhotoRef, VideoRef};

#[test]
fn photo_names_and_status() {
    assert_eq!(photo_file_name("AbC"), "photo_AbC.jpg");
    assert_eq!(photo_status("u1"), "下载图片u1成功");
}

#[test]
fn video_names_and_status() {
    assert_eq!(video_file_name(&None, "v9"), "video_v9.mp4");
    assert_eq!(video_file_name(&Some("clip.mov".to_string()), "v9"), "clip.mov");
    assert_eq!(video_status("clip.mov"), "下载视频clip.mov成功");
}

#[test]
fn record_file_sits_beside_media() {
    assert_eq!(record_file_name("photo_x.jpg"), "photo_x.jpg.json");
    assert_eq!(no_media_status(), "No media download");
}

#[test]
fn photo_takes_precedence_over_video() {
    let m = InboundMessage {
        id: 1,
        chat_id: 2,
        photo: Some(PhotoRef { file_id: "P".to_string(), unique_id: "UP".to_string() }),
        video: Some(VideoRef { file_id: "V".to_string(), file_name: None }),
        media_group_id: None,
    };
    let p = plan_download(&m).expect("a plan");
    assert_eq!(p.file_id, "P");
    assert_eq!(p.file_name, "photo_P.jpg");
    assert_eq!(p.status, "下载图片UP成功");
}

#[test]
fn video_plan_and_no_plan() {
    let mut m = InboundMessage {
        id: 1,
        chat_id: 2,
        photo: None,
        video: Some(VideoRef { file_id: "V".to_string(), file_name: None }),
        media_group_id: None,
    };
    let p = plan_download(&m).expect("a plan");
    assert_eq!(p.file_id, "V");
    assert_eq!(p.file_name, "video_V.mp4");
    assert_eq!(p.status, "下载视频video_V.mp4成功");
    m.video = None;
    assert!(plan_download(&m).is_none());
}
