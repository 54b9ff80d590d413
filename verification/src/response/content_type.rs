//! This module contains the content type enum for response content type.

use vstd::prelude::*;

use crate::strutil::str_eq;

verus! {

/// Content type enum for response content type.
#[derive(Debug, Clone, PartialEq, Eq)]
pub enum ContentType {
    /// Represents the `text/plain` content type
    Text,
    /// Represents the `text/html` content type
    Html,
    /// Represents the `text/css` content type
    Css,
    /// Represents the `text/csv` content type
    Csv,
    /// Represents the `text/javascript` content type
    Javascript,
    /// Represents the `application/json` content type
    Json,
    /// Represents the `application/gzip` content type
    Gzip,
    /// Represents the `application/xml` content type
    Xml,
    /// Represents the `application/pdf` content type
    Pdf,
    /// Represents the `application/zip` content type
    Zip,
    /// Represents the `image/png` content type
    Png,
    /// Represents the `image/jpeg` content type
    Jpeg,
    /// Represents the `image/x-icon` content type
    Icon,
    /// Represents the `image/gif` content type
    Gif,
    /// Represents the `image/bmp` content type
    Bmp,
    /// Represents the `image/webp` content type
    Webp,
    /// Represents the `image/tiff` content type
    Tiff,
    /// Represents the `audio/mp3` content type
    Mp3,
    /// Represents the `audio/wav` content type
    Wav,
    /// Represents the `audio/ogg` content type
    Ogg,
    /// Represents the `audio/midi` content type
    Midi,
    /// Represents the `audio/webm` content type
    AudioWebm,
    /// Represents the `video/mp4` content type
    Mp4,
    /// Represents the `video/webm` content type
    Webm,
    /// Represents the `video/ogg` content type
    OggVideo,
    /// Represents the `video/mpeg` content type
    Mpeg,
    /// Represents the `font/woff` content type
    Woff,
    /// Represents the `font/woff2` content type
    Woff2,
    /// Represents the `font/ttf` content type
    Ttf,
    /// Represents the `font/otf` content type
    Otf,
    /// Represents any other content type
    Other(String),
}

/// The content type for a file extension, if the extension is a known one.
pub open spec fn spec_content_type_of(ext: Seq<char>) -> Option<ContentType> {
    if ext == "txt"@ {
        Some(ContentType::Text)
    } else if ext == "html"@ {
        Some(ContentType::Html)
    } else if ext == "css"@ {
        Some(ContentType::Css)
    } else if ext == "csv"@ {
        Some(ContentType::Csv)
    } else if ext == "js"@ {
        Some(ContentType::Javascript)
    } else if ext == "json"@ {
        Some(ContentType::Json)
    } else if ext == "xml"@ {
        Some(ContentType::Xml)
    } else if ext == "pdf"@ {
        Some(ContentType::Pdf)
    } else if ext == "gzip"@ {
        Some(ContentType::Gzip)
    } else if ext == "zip"@ {
        Some(ContentType::Zip)
    } else if ext == "png"@ {
        Some(ContentType::Png)
    } else if ext == "jpg"@ {
        Some(ContentType::Jpeg)
    } else if ext == "jpeg"@ {
        Some(ContentType::Jpeg)
    } else if ext == "ico"@ {
        Some(ContentType::Icon)
    } else if ext == "gif"@ {
        Some(ContentType::Gif)
    } else if ext == "bmp"@ {
        Some(ContentType::Bmp)
    } else if ext == "webp"@ {
        Some(ContentType::Webp)
    } else if ext == "tiff"@ {
        Some(ContentType::Tiff)
    } else if ext == "mp3"@ {
        Some(ContentType::Mp3)
    } else if ext == "wav"@ {
        Some(ContentType::Wav)
    } else if ext == "midi"@ {
        Some(ContentType::Midi)
    } else if ext == "mp4"@ {
        Some(ContentType::Mp4)
    } else if ext == "mpeg"@ {
        Some(ContentType::Mpeg)
    } else if ext == "webm"@ {
        Some(ContentType::Webm)
    } else if ext == "ogg"@ {
        Some(ContentType::OggVideo)
    } else if ext == "woff"@ {
        Some(ContentType::Woff)
    } else if ext == "woff2"@ {
        Some(ContentType::Woff2)
    } else if ext == "ttf"@ {
        Some(ContentType::Ttf)
    } else if ext == "otf"@ {
        Some(ContentType::Otf)
    } else {
        None
    }
}

impl ContentType {
    /// The MIME text of the content type.
    pub open spec fn spec_text(&self) -> Seq<char> {
        match self {
            ContentType::Text => "text/plain"@,
            ContentType::Html => "text/html"@,
            ContentType::Css => "text/css"@,
            ContentType::Csv => "text/csv"@,
            ContentType::Javascript => "text/javascript"@,
            ContentType::Json => "application/json"@,
            ContentType::Xml => "application/xml"@,
            ContentType::Pdf => "application/pdf"@,
            ContentType::Gzip => "application/gzip"@,
            ContentType::Zip => "application/zip"@,
            ContentType::Png => "image/png"@,
            ContentType::Jpeg => "image/jpeg"@,
            ContentType::Icon => "image/x-icon"@,
            ContentType::Gif => "image/gif"@,
            ContentType::Bmp => "image/bmp"@,
            ContentType::Webp => "image/webp"@,
            ContentType::Tiff => "image/tiff"@,
            ContentType::Mp3 => "audio/mp3"@,
            ContentType::Wav => "audio/wav"@,
            ContentType::Ogg => "audio/ogg"@,
            ContentType::Midi => "audio/midi"@,
            ContentType::AudioWebm => "audio/webm"@,
            ContentType::Mp4 => "video/mp4"@,
            ContentType::Mpeg => "video/mpeg"@,
            ContentType::Webm => "video/webm"@,
            ContentType::OggVideo => "video/ogg"@,
            ContentType::Woff => "font/woff"@,
            ContentType::Woff2 => "font/woff2"@,
            ContentType::Ttf => "font/ttf"@,
            ContentType::Otf => "font/otf"@,
            ContentType::Other(s) => s@,
        }
    }

    /// The MIME text of the content type, as used in the `Content-Type`
    /// header.
    pub fn to_string(&self) -> (r: String)
        ensures
            r@ == self.spec_text(),
    {
        match self {
            ContentType::Text => String::from_str("text/plain"),
            ContentType::Html => String::from_str("text/html"),
            ContentType::Css => String::from_str("text/css"),
            ContentType::Csv => String::from_str("text/csv"),
            ContentType::Javascript => String::from_str("text/javascript"),
            ContentType::Json => String::from_str("application/json"),
            ContentType::Xml => String::from_str("application/xml"),
            ContentType::Pdf => String::from_str("application/pdf"),
            ContentType::Gzip => String::from_str("application/gzip"),
            ContentType::Zip => String::from_str("application/zip"),
            ContentType::Png => String::from_str("image/png"),
            ContentType::Jpeg => String::from_str("image/jpeg"),
            ContentType::Icon => String::from_str("image/x-icon"),
            ContentType::Gif => String::from_str("image/gif"),
            ContentType::Bmp => String::from_str("image/bmp"),
            ContentType::Webp => String::from_str("image/webp"),
            ContentType::Tiff => String::from_str("image/tiff"),
            ContentType::Mp3 => String::from_str("audio/mp3"),
            ContentType::Wav => String::from_str("audio/wav"),
            ContentType::Ogg => String::from_str("audio/ogg"),
            ContentType::Midi => String::from_str("audio/midi"),
            ContentType::AudioWebm => String::from_str("audio/webm"),
            ContentType::Mp4 => String::from_str("video/mp4"),
            ContentType::Mpeg => String::from_str("video/mpeg"),
            ContentType::Webm => String::from_str("video/webm"),
            ContentType::OggVideo => String::from_str("video/ogg"),
            ContentType::Woff => String::from_str("font/woff"),
            ContentType::Woff2 => String::from_str("font/woff2"),
            ContentType::Ttf => String::from_str("font/ttf"),
            ContentType::Otf => String::from_str("font/otf"),
            ContentType::Other(s) => s.clone(),
        }
    }

    /// The content type serving a file extension; exactly the known
    /// extensions are accepted, and the error message names the unknown one.
    pub fn from_extension(ext: &str) -> (r: Result<ContentType, String>)
        ensures
            r matches Ok(c) ==> spec_content_type_of(ext@) == Some(c),
            r matches Err(m) ==> spec_content_type_of(ext@) is None && m@
                == "Unknown content type for extension: "@ + ext@,
    {
        if str_eq(ext, "txt") {
            Ok(ContentType::Text)
        } else if str_eq(ext, "html") {
            Ok(ContentType::Html)
        } else if str_eq(ext, "css") {
            Ok(ContentType::Css)
        } else if str_eq(ext, "csv") {
            Ok(ContentType::Csv)
        } else if str_eq(ext, "js") {
            Ok(ContentType::Javascript)
        } else if str_eq(ext, "json") {
            Ok(ContentType::Json)
        } else if str_eq(ext, "xml") {
            Ok(ContentType::Xml)
        } else if str_eq(ext, "pdf") {
            Ok(ContentType::Pdf)
        } else if str_eq(ext, "gzip") {
            Ok(ContentType::Gzip)
        } else if str_eq(ext, "zip") {
            Ok(ContentType::Zip)
        } else if str_eq(ext, "png") {
            Ok(ContentType::Png)
        } else if str_eq(ext, "jpg") {
            Ok(ContentType::Jpeg)
        } else if str_eq(ext, "jpeg") {
            Ok(ContentType::Jpeg)
        } else if str_eq(ext, "ico") {
            Ok(ContentType::Icon)
        } else if str_eq(ext, "gif") {
            Ok(ContentType::Gif)
        } else if str_eq(ext, "bmp") {
            Ok(ContentType::Bmp)
        } else if str_eq(ext, "webp") {
            Ok(ContentType::Webp)
        } else if str_eq(ext, "tiff") {
            Ok(ContentType::Tiff)
        } else if str_eq(ext, "mp3") {
            Ok(ContentType::Mp3)
        } else if str_eq(ext, "wav") {
            Ok(ContentType::Wav)
        } else if str_eq(ext, "midi") {
            Ok(ContentType::Midi)
        } else if str_eq(ext, "mp4") {
            Ok(ContentType::Mp4)
        } else if str_eq(ext, "mpeg") {
            Ok(ContentType::Mpeg)
        } else if str_eq(ext, "webm") {
            Ok(ContentType::Webm)
        } else if str_eq(ext, "ogg") {
            Ok(ContentType::OggVideo)
        } else if str_eq(ext, "woff") {
            Ok(ContentType::Woff)
        } else if str_eq(ext, "woff2") {
            Ok(ContentType::Woff2)
        } else if str_eq(ext, "ttf") {
            Ok(ContentType::Ttf)
        } else if str_eq(ext, "otf") {
            Ok(ContentType::Otf)
        } else {
            Err(String::from_str("Unknown content type for extension: ").concat(ext))
        }
    }
}

} // verus!
