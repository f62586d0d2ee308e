use vstd::prelude::*;
use vstd::string::StringExecFns;

verus! {

/// The media type announced in a request's `content-type` header.
pub enum ContentType {
    TextPlain,
    TextHtml,
    TextCSS,
    ImageJpeg,
    ImageGif,
    ImagePng,
    Json,
    VideoMp4,
    AudioWav,
    AudioMp3,
    AudioOgg,
    AudioFlac,
    Custom(String),
    Zip,
    Rar,
    OctetStream,
}

/// The header value of each content type.
pub open spec fn content_type_text(ct: ContentType) -> Seq<char> {
    match ct {
        ContentType::TextPlain => "text/plain"@,
        ContentType::TextHtml => "text/html"@,
        ContentType::TextCSS => "text/css"@,
        ContentType::ImageJpeg => "image/jpeg"@,
        ContentType::ImageGif => "image/gif"@,
        ContentType::ImagePng => "image/png"@,
        ContentType::Json => "application/json"@,
        ContentType::VideoMp4 => "video/mp4"@,
        ContentType::AudioWav => "audio/wav"@,
        ContentType::AudioMp3 => "audio/mp3"@,
        ContentType::AudioOgg => "audio/ogg"@,
        ContentType::AudioFlac => "audio/flac"@,
        ContentType::Custom(s) => "custom/"@ + s@,
        ContentType::Zip => "application/zip"@,
        ContentType::Rar => "application/rar"@,
        ContentType::OctetStream => "application/octet-stream"@,
    }
}

impl ContentType {
    /// The header value of this content type (`custom/<name>` for a custom one).
    pub fn to_string(&self) -> (r: String)
        ensures
            r@ == content_type_text(*self),
    {
        match self {
            ContentType::TextPlain => String::from_str("text/plain"),
            ContentType::TextHtml => String::from_str("text/html"),
            ContentType::TextCSS => String::from_str("text/css"),
            ContentType::ImageJpeg => String::from_str("image/jpeg"),
            ContentType::ImageGif => String::from_str("image/gif"),
            ContentType::ImagePng => String::from_str("image/png"),
            ContentType::Json => String::from_str("application/json"),
            ContentType::VideoMp4 => String::from_str("video/mp4"),
            ContentType::AudioWav => String::from_str("audio/wav"),
            ContentType::AudioMp3 => String::from_str("audio/mp3"),
            ContentType::AudioOgg => String::from_str("audio/ogg"),
            ContentType::AudioFlac => String::from_str("audio/flac"),
            ContentType::Custom(name) => String::from_str("custom/").concat(name.as_str()),
            ContentType::Zip => String::from_str("application/zip"),
            ContentType::Rar => String::from_str("application/rar"),
            ContentType::OctetStream => String::from_str("application/octet-stream"),
        }
    }
}

} // verus!
