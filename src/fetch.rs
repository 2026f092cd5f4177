use vstd::prelude::*;
use vstd::string::StringExecFns;

use crate::message::InboundMessage;

verus! {

/// What fetching one message's media amounts to: which file to download, the name it is
/// stored under, and the status line reported for it.
#[derive(Debug, Clone)]
pub struct DownloadPlan {
    pub file_id: String,
    pub file_name: String,
    pub status: String,
}

pub open spec fn photo_file_name_of(file_id: Seq<char>) -> Seq<char> {
    "photo_"@ + file_id + ".jpg"@
}

pub open spec fn video_file_name_of(file_name: Option<String>, file_id: Seq<char>) -> Seq<char> {
    match file_name {
        Some(n) => n@,
        None => "video_"@ + file_id + ".mp4"@,
    }
}

pub open spec fn photo_status_of(unique_id: Seq<char>) -> Seq<char> {
    "下载图片"@ + unique_id + "成功"@
}

pub open spec fn video_status_of(file_name: Seq<char>) -> Seq<char> {
    "下载视频"@ + file_name + "成功"@
}

/// The plan for a message: its photo when it has one, else its video, else nothing.
pub open spec fn plan_of(msg: InboundMessage) -> Option<(Seq<char>, Seq<char>, Seq<char>)> {
    match msg.photo {
        Some(p) => Some((p.file_id@, photo_file_name_of(p.file_id@), photo_status_of(p.unique_id@))),
        None => match msg.video {
            Some(v) => {
                let name = video_file_name_of(v.file_name, v.file_id@);
                Some((v.file_id@, name, video_status_of(name)))
            },
            None => None,
        },
    }
}

/// Name under which a photo with this file identifier is stored.
pub fn photo_file_name(file_id: &str) -> (r: String)
    ensures
        r@ == photo_file_name_of(file_id@),
{
    let mut r = String::from_str("photo_");
    r.append(file_id);
    r.append(".jpg");
    r
}

/// Name under which a video is stored: the sender's name, else one made from its identifier.
pub fn video_file_name(file_name: &Option<String>, file_id: &str) -> (r: String)
    ensures
        r@ == video_file_name_of(*file_name, file_id@),
{
    match file_name {
        Some(n) => n.clone(),
        None => {
            let mut r = String::from_str("video_");
            r.append(file_id);
            r.append(".mp4");
            r
        },
    }
}

/// Name of the file that keeps a message's record beside a media file.
pub fn record_file_name(file_name: &str) -> (r: String)
    ensures
        r@ == file_name@ + ".json"@,
{
    let mut r = String::from_str(file_name);
    r.append(".json");
    r
}

/// Status line of a downloaded photo.
pub fn photo_status(unique_id: &str) -> (r: String)
    ensures
        r@ == photo_status_of(unique_id@),
{
    let mut r = String::from_str("下载图片");
    r.append(unique_id);
    r.append("成功");
    r
}

/// Status line of a downloaded video.
pub fn video_status(file_name: &str) -> (r: String)
    ensures
        r@ == video_status_of(file_name@),
{
    let mut r = String::from_str("下载视频");
    r.append(file_name);
    r.append("成功");
    r
}

/// Status line of a message without media.
pub fn no_media_status() -> (r: String)
    ensures
        r@ == "No media download"@,
{
    String::from_str("No media download")
}

/// What to download for `msg`: its photo takes precedence over its video; `None` when
/// it holds neither.
pub fn plan_download(msg: &InboundMessage) -> (r: Option<DownloadPlan>)
    ensures
        match plan_of(*msg) {
            Some((id, name, status)) => r is Some && r->0.file_id@ == id && r->0.file_name@ == name
                && r->0.status@ == status,
            None => r is None,
        },
{
    match &msg.photo {
        Some(p) => Some(
            DownloadPlan {
                file_id: p.file_id.clone(),
                file_name: photo_file_name(p.file_id.as_str()),
                status: photo_status(p.unique_id.as_str()),
            },
        ),
        None => match &msg.video {
            Some(v) => {
                let name = video_file_name(&v.file_name, v.file_id.as_str());
                let status = video_status(name.as_str());
                Some(DownloadPlan { file_id: v.file_id.clone(), file_name: name, status })
            },
            None => None,
        },
    }
}

} // verus!
