use vstd::prelude::*;

verus! {

use vstd::string::StringExecFns;

/// The format an oEmbed answer is asked for in.
#[derive(Debug, Clone, Copy, PartialEq, Eq, Structural)]
pub enum OEmbedFormat {
    Json,
    XML,
}

impl Default for OEmbedFormat {
    /// JSON, unless asked otherwise.
    fn default() -> (f: Self)
        ensures
            f == OEmbedFormat::Json,
    {
        OEmbedFormat::Json
    }
}

/// An oEmbed request.
pub struct OEmbedRequest {
    pub url: Option<String>,
    pub maxwidth: Option<u32>,
    pub maxheight: Option<u32>,
    pub format: OEmbedFormat,
}

/// What an oEmbed answer describes.
pub enum OEmebedType {
    Photo { url: String, width: u32, height: u32 },
    Video { html: String, width: u32, height: u32 },
    Link,
    Rich { html: String, width: u32, height: u32 },
}

/// An oEmbed answer.
pub struct OEmbedResponse {
    pub ty: OEmebedType,
    pub version: &'static str,
    pub provider_name: &'static str,
    pub provider_url: &'static str,
    pub cache_age: u32,
    pub title: Option<String>,
    pub author_name: Option<String>,
    pub author_url: Option<String>,
    pub thumbnail_url: Option<String>,
    pub thumbnail_width: Option<u32>,
    pub thumbnail_height: Option<u32>,
}

/// The fields every answer of this provider shares: oEmbed 1.0, provided by Lantern, to be
/// cached for a day.
pub open spec fn provider_fields(r: OEmbedResponse) -> bool {
    &&& r.version@ == "1.0"@
    &&& r.provider_name@ == "Lantern"@
    &&& r.provider_url@ == "https://lantern.chat"@
    &&& r.cache_age == 86400
}

impl Default for OEmbedResponse {
    /// A bare link answer of this provider.
    fn default() -> (r: Self)
        ensures
            provider_fields(r),
            r.ty is Link,
            r.title is None,
            r.author_name is None,
            r.author_url is None,
            r.thumbnail_url is None,
            r.thumbnail_width is None,
            r.thumbnail_height is None,
    {
        OEmbedResponse {
            ty: OEmebedType::Link,
            version: "1.0",
            provider_name: "Lantern",
            provider_url: "https://lantern.chat",
            cache_age: 60 * 60 * 24,
            title: None,
            author_name: None,
            author_url: None,
            thumbnail_url: None,
            thumbnail_width: None,
            thumbnail_height: None,
        }
    }
}

/// The address of the preview image of the site.
pub open spec fn preview_url() -> Seq<char> {
    "https://lantern.chat/static/assets/preview.png"@
}

/// Answers an oEmbed request. Whatever is asked, the answer is the site's preview: a
/// 1920 by 955 photo titled "Lantern Chat", which is also its thumbnail.
pub fn process_oembed(req: &OEmbedRequest) -> (r: OEmbedResponse)
    ensures
        provider_fields(r),
        r.ty matches OEmebedType::Photo { url, width, height } && url@ == preview_url() && width == 1920
            && height == 955,
        r.title matches Some(t) && t@ == "Lantern Chat"@,
        r.thumbnail_url matches Some(u) && u@ == preview_url(),
        r.thumbnail_width == Some(1920u32),
        r.thumbnail_height == Some(955u32),
        r.author_name is None,
        r.author_url is None,
{
    let url = String::from_str("https://lantern.chat/static/assets/preview.png");
    let base = OEmbedResponse::default();
    OEmbedResponse {
        ty: OEmebedType::Photo { url: url.clone(), height: 955, width: 1920 },
        title: Some(String::from_str("Lantern Chat")),
        thumbnail_url: Some(url),
        thumbnail_height: Some(955),
        thumbnail_width: Some(1920),
        ..base
    }
}

} // verus!
