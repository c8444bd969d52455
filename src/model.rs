//! The crawled data: catalog records, download variants and their bundles,
//! and the pure steps that turn extracted fields into them.

use vstd::prelude::*;
use vstd::string::StringExecFns;
use crate::text::{
    clean_download_link, contains, decimal, decimal_string, imdb_id_from_href, imdb_id_of,
    is_cleaned_link, is_query_start, remove_all, remove_text, slug_from_href, slug_of, str_contains, trim_text,
    trimmed,
};

verus! {

/// Title keyword that marks a film.
pub const MOVIE_KEYWORD: &'static str = "فیلم";

/// Title keyword that marks an animation.
pub const ANIMATION_KEYWORD: &'static str = "انیمیشن";

/// Label that the site puts in front of an encoder's name.
pub const ENCODER_LABEL: &'static str = "Encoder : ";

/// Content-type classification of a catalog item.
#[derive(Clone, Copy, Debug, PartialEq, Eq, Structural)]
pub enum ContentType {
    Movie,
    Animation,
    Unknown,
}

/// Classification by keyword, in priority order: film first, then animation.
pub open spec fn classify_spec(title: Seq<char>) -> ContentType {
    if contains(title, MOVIE_KEYWORD@) {
        ContentType::Movie
    } else if contains(title, ANIMATION_KEYWORD@) {
        ContentType::Animation
    } else {
        ContentType::Unknown
    }
}

/// Classifies an item by the keywords of its title.
pub fn classify(title: &str) -> (r: ContentType)
    ensures
        r == classify_spec(title@),
{
    if str_contains(title, MOVIE_KEYWORD) {
        ContentType::Movie
    } else if str_contains(title, ANIMATION_KEYWORD) {
        ContentType::Animation
    } else {
        ContentType::Unknown
    }
}

impl ContentType {
    /// The stored label of the classification.
    pub fn label(&self) -> (r: &'static str)
        ensures
            *self == ContentType::Movie ==> r@ == "Movie"@,
            *self == ContentType::Animation ==> r@ == "Animation"@,
            *self == ContentType::Unknown ==> r@ == "Unknown"@,
    {
        match self {
            ContentType::Movie => "Movie",
            ContentType::Animation => "Animation",
            ContentType::Unknown => "Unknown",
        }
    }
}


/// The text of an optional field: the field itself, or empty when missing.
pub open spec fn text_or_empty(f: Option<String>) -> Seq<char> {
    match f {
        Some(t) => t@,
        None => Seq::empty(),
    }
}

fn take_or_empty(f: Option<String>) -> (r: String)
    ensures
        r@ == text_or_empty(f),
{
    match f {
        Some(t) => t,
        None => String::new(),
    }
}

/// Deployment constants of the crawled site.
pub struct SiteConfig {
    /// Base address of the site, ending in `'/'`.
    pub base: String,
    /// Source-system tag stored with every record.
    pub source: String,
}

impl SiteConfig {
    /// Address of listing page `page`: `{base}page/{page}/`.
    pub fn listing_url(&self, page: u32) -> (r: String)
        ensures
            r@ == self.base@ + "page/"@ + decimal(page as nat) + "/"@,
    {
        let mut r = self.base.clone();
        r.append("page/");
        let d = decimal_string(page);
        r.append(d.as_str());
        r.append("/");
        r
    }

    /// Address of an item's detail page: `{base}{slug}`.
    pub fn detail_url(&self, slug: &str) -> (r: String)
        ensures
            r@ == self.base@ + slug@,
    {
        let mut r = self.base.clone();
        r.append(slug);
        r
    }
}

/// The fields that the markup rules pulled out of one listing item; `None`
/// marks a field whose rule matched nothing.
pub struct RawListingItem {
    pub link_href: Option<String>,
    pub title_href: Option<String>,
    pub title: Option<String>,
    pub rating: Option<String>,
    pub duration: Option<String>,
    pub genres: Vec<String>,
    pub director: Option<String>,
    pub stars: Vec<String>,
    pub country: Option<String>,
    pub description: Option<String>,
    pub critic_score: Option<String>,
    pub awards: Option<String>,
    pub image_src: Option<String>,
    pub has_subtitle: bool,
    pub trailer_href: Option<String>,
}

/// One crawled catalog item.
pub struct CatalogRecord {
    pub title: String,
    pub imdb_id: String,
    pub imdb_rating: String,
    pub duration: String,
    pub genres: Vec<String>,
    pub director: String,
    pub stars: Vec<String>,
    pub country: String,
    pub description: String,
    pub metacritic_score: String,
    pub awards: String,
    pub image_url: String,
    pub has_subtitle: bool,
    pub trailer_link: String,
    pub page_number: u32,
    pub content_type: ContentType,
    pub slug: String,
    pub source: String,
}

impl CatalogRecord {
    /// A record may be persisted only under a non-empty external identifier.
    pub open spec fn persistable(&self) -> bool {
        self.imdb_id@.len() > 0
    }

    /// Whether the record may be persisted.
    pub fn is_persistable(&self) -> (r: bool)
        ensures
            r == self.persistable(),
    {
        self.imdb_id.as_str().unicode_len() > 0
    }
}

/// `r` is the record of a listing item with fields `raw`, found on page
/// `page`: missing fields become empty; a missing title yields an empty
/// identifier.
pub open spec fn is_record_of(r: CatalogRecord, raw: RawListingItem, page: u32, site: SiteConfig) -> bool {
    &&& r.title@ == text_or_empty(raw.title)
    &&& r.imdb_id@ == imdb_id_of(text_or_empty(raw.title_href))
    &&& r.content_type == classify_spec(text_or_empty(raw.title))
    &&& r.slug@ == slug_of(text_or_empty(raw.link_href), site.base@)
    &&& r.imdb_rating@ == text_or_empty(raw.rating)
    &&& r.duration@ == text_or_empty(raw.duration)
    &&& r.genres@ == raw.genres@
    &&& r.director@ == text_or_empty(raw.director)
    &&& r.stars@ == raw.stars@
    &&& r.country@ == text_or_empty(raw.country)
    &&& r.description@ == text_or_empty(raw.description)
    &&& r.metacritic_score@ == text_or_empty(raw.critic_score)
    &&& r.awards@ == text_or_empty(raw.awards)
    &&& r.image_url@ == text_or_empty(raw.image_src)
    &&& r.has_subtitle == raw.has_subtitle
    &&& r.trailer_link@ == text_or_empty(raw.trailer_href)
    &&& r.page_number == page
    &&& r.source@ == site.source@
}

/// Builds the catalog record of one listing item found on page `page`.
pub fn build_record(raw: RawListingItem, page: u32, site: &SiteConfig) -> (r: CatalogRecord)
    ensures
        is_record_of(r, raw, page, *site),
{
    let title = take_or_empty(raw.title);
    let title_href = take_or_empty(raw.title_href);
    let link_href = take_or_empty(raw.link_href);
    let content_type = classify(title.as_str());
    let imdb_id = imdb_id_from_href(title_href.as_str());
    let slug = slug_from_href(link_href.as_str(), site.base.as_str());
    CatalogRecord {
        title,
        imdb_id,
        imdb_rating: take_or_empty(raw.rating),
        duration: take_or_empty(raw.duration),
        genres: raw.genres,
        director: take_or_empty(raw.director),
        stars: raw.stars,
        country: take_or_empty(raw.country),
        description: take_or_empty(raw.description),
        metacritic_score: take_or_empty(raw.critic_score),
        awards: take_or_empty(raw.awards),
        image_url: take_or_empty(raw.image_src),
        has_subtitle: raw.has_subtitle,
        trailer_link: take_or_empty(raw.trailer_href),
        page_number: page,
        content_type,
        slug,
        source: site.source.clone(),
    }
}

/// The fields that the markup rules pulled out of one download section.
pub struct RawVariant {
    pub quality: Option<String>,
    pub encoder: Option<String>,
    pub size: Option<String>,
    pub link_href: Option<String>,
}

/// One downloadable variant of an item.
pub struct DownloadVariant {
    pub quality: String,
    pub size: String,
    pub sub_type: Option<String>,
    pub encoder: Option<String>,
    pub download_link: Option<String>,
}

impl DownloadVariant {
    /// The variant has a non-empty download address without a query string,
    /// an encoder label, and no subtitle type.
    pub open spec fn has_clean_link(&self) -> bool {
        &&& self.sub_type is None
        &&& self.encoder is Some
        &&& match self.download_link {
            Some(l) => l@.len() > 0 && !l@.contains('?'),
            None => false,
        }
    }
}

/// The download section with fields `raw` is dropped: its address is empty
/// after cleanup.
pub open spec fn is_dropped_section(raw: RawVariant) -> bool {
    is_query_start(text_or_empty(raw.link_href), 0)
}

/// `v` is the variant of the download section with fields `raw`.
pub open spec fn is_variant_of(v: DownloadVariant, raw: RawVariant) -> bool {
    &&& v.quality@ == trimmed(text_or_empty(raw.quality))
    &&& v.size@ == trimmed(text_or_empty(raw.size))
    &&& v.sub_type is None
    &&& v.encoder matches Some(e) && e@ == remove_all(trimmed(text_or_empty(raw.encoder)), ENCODER_LABEL@)
    &&& v.download_link matches Some(l) && is_cleaned_link(text_or_empty(raw.link_href), l@)
}

/// Builds the variant of one download section, or `None` when its download
/// address is empty after cleanup.
pub fn build_variant(raw: RawVariant) -> (r: Option<DownloadVariant>)
    ensures
        r is None <==> is_dropped_section(raw),
        r matches Some(v) ==> is_variant_of(v, raw),
{
    let quality = trim_text(take_or_empty(raw.quality).as_str());
    let size = trim_text(take_or_empty(raw.size).as_str());
    let encoder_text = trim_text(take_or_empty(raw.encoder).as_str());
    proof { reveal_strlit("Encoder : "); }
    let encoder = remove_text(encoder_text.as_str(), ENCODER_LABEL);
    let link = clean_download_link(take_or_empty(raw.link_href).as_str());
    if link.as_str().unicode_len() == 0 {
        None
    } else {
        Some(DownloadVariant {
            quality,
            size,
            sub_type: None,
            encoder: Some(encoder),
            download_link: Some(link),
        })
    }
}

} // verus!
