//! The extractor: markup selection through `scraper`, then the pure record
//! and variant builders.

use vstd::prelude::*;
use scraper::{ElementRef, Html, Selector};
use crate::model::{
    build_record, build_variant, is_dropped_section, is_record_of, is_variant_of, text_or_empty,
    CatalogRecord, DownloadVariant, RawListingItem, RawVariant, SiteConfig,
};
use crate::text::is_cleaned_link;

verus! {

#[verifier::external_type_specification]
#[verifier::external_body]
pub struct ExHtml(Html);

#[verifier::external_type_specification]
#[verifier::external_body]
pub struct ExSelector(Selector);

#[verifier::external_type_specification]
#[verifier::external_body]
pub struct ExElementRef<'a>(ElementRef<'a>);

/// Number of elements of the page with markup `body` that match selector
/// `sel`, as `Html::select` finds them.
pub uninterp spec fn doc_match_count(body: Seq<char>, sel: Seq<char>) -> nat;

/// Number of descendants matching `sel` of the `i`-th match of `outer` in the
/// page with markup `body`, as `ElementRef::select` finds them.
pub uninterp spec fn sub_match_count(body: Seq<char>, outer: Seq<char>, i: nat, sel: Seq<char>) -> nat;

/// Text of the `j`-th match of `sel` under the `i`-th match of `outer`, as
/// `ElementRef::text` joins it.
pub uninterp spec fn sub_text(body: Seq<char>, outer: Seq<char>, i: nat, sel: Seq<char>, j: nat) -> Seq<char>;

/// Inner markup of the `j`-th match of `sel` under the `i`-th match of
/// `outer`, as `ElementRef::inner_html` writes it.
pub uninterp spec fn sub_inner_html(
    body: Seq<char>,
    outer: Seq<char>,
    i: nat,
    sel: Seq<char>,
    j: nat,
) -> Seq<char>;

/// Attribute `name` of the `j`-th match of `sel` under the `i`-th match of
/// `outer`, as `ElementRef::attr` reads it.
pub uninterp spec fn sub_attr(
    body: Seq<char>,
    outer: Seq<char>,
    i: nat,
    sel: Seq<char>,
    j: nat,
    name: Seq<char>,
) -> Option<Seq<char>>;

/// `text` is a selector that `Selector::parse` accepts.
pub uninterp spec fn selector_valid(text: Seq<char>) -> bool;

/// The view of an optional text.
pub open spec fn opt_view(o: Option<String>) -> Option<Seq<char>> {
    match o {
        Some(t) => Some(t@),
        None => None,
    }
}

/// A parsed page together with the markup it was parsed from.
pub struct Page {
    doc: Html,
    text: String,
}

impl Page {
    /// The markup the page was parsed from.
    pub closed spec fn body(&self) -> Seq<char> {
        self.text@
    }
}

/// A selector together with the text it was parsed from.
pub struct Rule {
    sel: Selector,
    text: String,
}

impl Rule {
    /// The text the selector was parsed from.
    pub closed spec fn source(&self) -> Seq<char> {
        self.text@
    }

    /// The text the selector was parsed from.
    pub fn text(&self) -> (r: &str)
        ensures
            r@ == self.source(),
    {
        self.text.as_str()
    }

    /// Parses a selector; `None` when the text is not a valid selector.
    pub fn parse(text: &str) -> (r: Option<Rule>)
        ensures
            r is Some <==> selector_valid(text@),
            r matches Some(rule) ==> rule.source() == text@,
    {
        match parse_selector(text) {
            Some(sel) => Some(Rule { sel, text: text.to_owned() }),
            None => None,
        }
    }
}

/// The `index`-th match of `rule` in `page`. Only `select_items` makes one.
struct ItemNode<'a> {
    e: ElementRef<'a>,
    page: &'a Page,
    rule: &'a Rule,
    index: usize,
}

impl<'a> ItemNode<'a> {
    spec fn body(&self) -> Seq<char> {
        self.page.body()
    }

    spec fn sel(&self) -> Seq<char> {
        self.rule.source()
    }
}

/// The `j`-th match of `rule` under the `i`-th match of `outer` in `page`.
/// Only `select_fields` makes one.
struct FieldNode<'a> {
    e: ElementRef<'a>,
    page: &'a Page,
    outer: &'a Rule,
    i: usize,
    rule: &'a Rule,
    j: usize,
}

impl<'a> FieldNode<'a> {
    spec fn body(&self) -> Seq<char> {
        self.page.body()
    }

    spec fn outer_sel(&self) -> Seq<char> {
        self.outer.source()
    }

    spec fn sel(&self) -> Seq<char> {
        self.rule.source()
    }
}

/// Relies on `scraper::Html::parse_document`: parses a whole page; it never
/// fails, malformed markup is repaired. The page keeps the markup it was
/// parsed from.
#[verifier::external_body]
fn parse_document(body: &str) -> (r: Page)
    ensures
        r.body() == body@,
{
    Page { doc: Html::parse_document(body), text: body.to_string() }
}

/// Relies on `scraper::Selector::parse`: `None` when the selector text is
/// invalid.
#[verifier::external_body]
fn parse_selector(text: &str) -> (r: Option<Selector>)
    ensures
        r is Some <==> selector_valid(text@),
{
    Selector::parse(text).ok()
}

/// Relies on `scraper::Html::select`: the matching elements of a page, in
/// document order, each paired with its position among the matches.
#[verifier::external_body]
fn select_items<'a>(page: &'a Page, rule: &'a Rule) -> (r: Vec<ItemNode<'a>>)
    ensures
        r@.len() == doc_match_count(page.body(), rule.source()),
        forall|i: int|
            0 <= i < r@.len() ==> (#[trigger] r@[i]).body() == page.body() && r@[i].sel()
                == rule.source() && r@[i].index == i,
{
    page.doc.select(&rule.sel).enumerate().map(|(index, e)| ItemNode { e, page, rule, index }).collect()
}

/// Relies on `scraper::ElementRef::select`: the matching descendants of an
/// element, in document order, each paired with its position among the
/// matches.
#[verifier::external_body]
fn select_fields<'a>(node: &ItemNode<'a>, rule: &'a Rule) -> (r: Vec<FieldNode<'a>>)
    ensures
        r@.len() == sub_match_count(node.body(), node.sel(), node.index as nat, rule.source()),
        forall|j: int|
            0 <= j < r@.len() ==> (#[trigger] r@[j]).body() == node.body() && r@[j].outer_sel()
                == node.sel() && r@[j].i == node.index && r@[j].sel() == rule.source() && r@[j].j
                == j,
{
    let (page, outer, i) = (node.page, node.rule, node.index);
    node.e.select(&rule.sel).enumerate().map(|(j, e)| FieldNode { e, page, outer, i, rule, j }).collect()
}

/// Relies on `scraper::ElementRef::text`: the element's text nodes, joined.
#[verifier::external_body]
fn field_text<'a>(f: &FieldNode<'a>) -> (r: String)
    ensures
        r@ == sub_text(f.body(), f.outer_sel(), f.i as nat, f.sel(), f.j as nat),
{
    f.e.text().collect()
}

/// Relies on `scraper::ElementRef::inner_html`: the markup inside the
/// element (attributes in source order).
#[verifier::external_body]
fn field_inner_html<'a>(f: &FieldNode<'a>) -> (r: String)
    ensures
        r@ == sub_inner_html(f.body(), f.outer_sel(), f.i as nat, f.sel(), f.j as nat),
{
    f.e.inner_html()
}

/// Relies on `scraper::ElementRef::attr`: the value of an attribute, if the
/// element has it.
#[verifier::external_body]
fn field_attr<'a>(f: &FieldNode<'a>, name: &str) -> (r: Option<String>)
    ensures
        opt_view(r) == sub_attr(f.body(), f.outer_sel(), f.i as nat, f.sel(), f.j as nat, name@),
{
    f.e.attr(name).map(String::from)
}

/// The field-selection rules of the two page templates, parsed once.
pub struct SelectorRules {
    pub item: Rule,
    pub slug_link: Rule,
    pub title: Rule,
    pub rating: Rule,
    pub duration: Rule,
    pub genre: Rule,
    pub director: Rule,
    pub star: Rule,
    pub country: Rule,
    pub description: Rule,
    pub critic_score: Rule,
    pub awards: Rule,
    pub image: Rule,
    pub subtitle: Rule,
    pub trailer: Rule,
    pub download_section: Rule,
    pub quality: Rule,
    pub encoder: Rule,
    pub size: Rule,
    pub download_link: Rule,
}

/// The texts of the site's selector table are all valid selectors.
pub open spec fn standard_selectors_valid() -> bool {
    &&& selector_valid(".item_def_loop"@)
    &&& selector_valid(".title_h h2.lato_font a"@)
    &&& selector_valid("h2.lato_font a"@)
    &&& selector_valid(".imdb_rate_holder .rate_num strong"@)
    &&& selector_valid(".meta_item ul li:nth-child(2) .res_item"@)
    &&& selector_valid("li:nth-child(3) .res_item a"@)
    &&& selector_valid("li:nth-child(4) .res_item a"@)
    &&& selector_valid("li:nth-child(5) .res_item a"@)
    &&& selector_valid("li:nth-child(6) .res_item a"@)
    &&& selector_valid(".plot_text"@)
    &&& selector_valid(".greenlab"@)
    &&& selector_valid(".award_item .text_hover"@)
    &&& selector_valid(".cover img"@)
    &&& selector_valid(".subtitles_item"@)
    &&& selector_valid(".show_trailer"@)
    &&& selector_valid(".dllink_holder_ham .body_dllink_movies .itemdl"@)
    &&& selector_valid(".side_left .head_left_side h3"@)
    &&& selector_valid(".item_meta.encoder_dl"@)
    &&& selector_valid(".item_meta.size_dl"@)
    &&& selector_valid(".btn_row.btn_dl"@)
}

/// The rules hold the site's selector table.
pub open spec fn is_standard(rules: SelectorRules) -> bool {
    &&& rules.item.source() == ".item_def_loop"@
    &&& rules.slug_link.source() == ".title_h h2.lato_font a"@
    &&& rules.title.source() == "h2.lato_font a"@
    &&& rules.rating.source() == ".imdb_rate_holder .rate_num strong"@
    &&& rules.duration.source() == ".meta_item ul li:nth-child(2) .res_item"@
    &&& rules.genre.source() == "li:nth-child(3) .res_item a"@
    &&& rules.director.source() == "li:nth-child(4) .res_item a"@
    &&& rules.star.source() == "li:nth-child(5) .res_item a"@
    &&& rules.country.source() == "li:nth-child(6) .res_item a"@
    &&& rules.description.source() == ".plot_text"@
    &&& rules.critic_score.source() == ".greenlab"@
    &&& rules.awards.source() == ".award_item .text_hover"@
    &&& rules.image.source() == ".cover img"@
    &&& rules.subtitle.source() == ".subtitles_item"@
    &&& rules.trailer.source() == ".show_trailer"@
    &&& rules.download_section.source() == ".dllink_holder_ham .body_dllink_movies .itemdl"@
    &&& rules.quality.source() == ".side_left .head_left_side h3"@
    &&& rules.encoder.source() == ".item_meta.encoder_dl"@
    &&& rules.size.source() == ".item_meta.size_dl"@
    &&& rules.download_link.source() == ".btn_row.btn_dl"@
}

impl SelectorRules {
    /// Parses the site's selector table; `None` exactly when one of its
    /// selectors is invalid.
    pub fn standard() -> (r: Option<SelectorRules>)
        ensures
            r is Some <==> standard_selectors_valid(),
            r matches Some(rules) ==> is_standard(rules),
    {
        let item = Rule::parse(".item_def_loop")?;
        let slug_link = Rule::parse(".title_h h2.lato_font a")?;
        let title = Rule::parse("h2.lato_font a")?;
        let rating = Rule::parse(".imdb_rate_holder .rate_num strong")?;
        let duration = Rule::parse(".meta_item ul li:nth-child(2) .res_item")?;
        let genre = Rule::parse("li:nth-child(3) .res_item a")?;
        let director = Rule::parse("li:nth-child(4) .res_item a")?;
        let star = Rule::parse("li:nth-child(5) .res_item a")?;
        let country = Rule::parse("li:nth-child(6) .res_item a")?;
        let description = Rule::parse(".plot_text")?;
        let critic_score = Rule::parse(".greenlab")?;
        let awards = Rule::parse(".award_item .text_hover")?;
        let image = Rule::parse(".cover img")?;
        let subtitle = Rule::parse(".subtitles_item")?;
        let trailer = Rule::parse(".show_trailer")?;
        let download_section = Rule::parse(".dllink_holder_ham .body_dllink_movies .itemdl")?;
        let quality = Rule::parse(".side_left .head_left_side h3")?;
        let encoder = Rule::parse(".item_meta.encoder_dl")?;
        let size = Rule::parse(".item_meta.size_dl")?;
        let download_link = Rule::parse(".btn_row.btn_dl")?;
        Some(SelectorRules {
            item,
            slug_link,
            title,
            rating,
            duration,
            genre,
            director,
            star,
            country,
            description,
            critic_score,
            awards,
            image,
            subtitle,
            trailer,
            download_section,
            quality,
            encoder,
            size,
            download_link,
        })
    }
}

/// Text of the first match of `sel` under the `i`-th match of `outer`.
pub open spec fn first_text_of(body: Seq<char>, outer: Seq<char>, i: nat, sel: Seq<char>) -> Option<Seq<char>> {
    if sub_match_count(body, outer, i, sel) > 0 {
        Some(sub_text(body, outer, i, sel, 0))
    } else {
        None
    }
}

/// Inner markup of the first match of `sel` under the `i`-th match of `outer`.
pub open spec fn first_inner_html_of(body: Seq<char>, outer: Seq<char>, i: nat, sel: Seq<char>) -> Option<Seq<char>> {
    if sub_match_count(body, outer, i, sel) > 0 {
        Some(sub_inner_html(body, outer, i, sel, 0))
    } else {
        None
    }
}

/// Attribute `name` of the first match of `sel` under the `i`-th match of
/// `outer`.
pub open spec fn first_attr_of(
    body: Seq<char>,
    outer: Seq<char>,
    i: nat,
    sel: Seq<char>,
    name: Seq<char>,
) -> Option<Seq<char>> {
    if sub_match_count(body, outer, i, sel) > 0 {
        sub_attr(body, outer, i, sel, 0, name)
    } else {
        None
    }
}

/// Texts of all matches of `sel` under the `i`-th match of `outer`, in
/// document order.
pub open spec fn all_texts_of(body: Seq<char>, outer: Seq<char>, i: nat, sel: Seq<char>) -> Seq<Seq<char>> {
    Seq::new(sub_match_count(body, outer, i, sel), |j: int| sub_text(body, outer, i, sel, j as nat))
}

/// `raw` holds the fields of the `i`-th listing item of the page `body`.
pub open spec fn is_listing_fields(raw: RawListingItem, body: Seq<char>, rules: SelectorRules, i: nat) -> bool {
    let o = rules.item.source();
    &&& opt_view(raw.link_href) == first_attr_of(body, o, i, rules.slug_link.source(), "href"@)
    &&& opt_view(raw.title_href) == first_attr_of(body, o, i, rules.title.source(), "href"@)
    &&& opt_view(raw.title) == first_text_of(body, o, i, rules.title.source())
    &&& opt_view(raw.rating) == first_text_of(body, o, i, rules.rating.source())
    &&& opt_view(raw.duration) == first_text_of(body, o, i, rules.duration.source())
    &&& raw.genres@.map_values(|g: String| g@) == all_texts_of(body, o, i, rules.genre.source())
    &&& opt_view(raw.director) == first_text_of(body, o, i, rules.director.source())
    &&& raw.stars@.map_values(|g: String| g@) == all_texts_of(body, o, i, rules.star.source())
    &&& opt_view(raw.country) == first_text_of(body, o, i, rules.country.source())
    &&& opt_view(raw.description) == first_text_of(body, o, i, rules.description.source())
    &&& opt_view(raw.critic_score) == first_text_of(body, o, i, rules.critic_score.source())
    &&& opt_view(raw.awards) == first_text_of(body, o, i, rules.awards.source())
    &&& opt_view(raw.image_src) == first_attr_of(body, o, i, rules.image.source(), "src"@)
    &&& raw.has_subtitle == (sub_match_count(body, o, i, rules.subtitle.source()) > 0)
    &&& opt_view(raw.trailer_href) == first_attr_of(
        body,
        o,
        i,
        rules.trailer.source(),
        "data-trailerlink"@,
    )
}

/// `r` is the record of the `i`-th listing item of the page `body`.
pub open spec fn is_listing_record(
    r: CatalogRecord,
    body: Seq<char>,
    rules: SelectorRules,
    i: nat,
    page: u32,
    site: SiteConfig,
) -> bool {
    exists|raw: RawListingItem| is_listing_fields(raw, body, rules, i) && is_record_of(r, raw, page, site)
}

/// `raw` holds the fields of the `k`-th download section of the page `body`.
pub open spec fn is_section_fields(raw: RawVariant, body: Seq<char>, rules: SelectorRules, k: nat) -> bool {
    let o = rules.download_section.source();
    &&& opt_view(raw.quality) == first_inner_html_of(body, o, k, rules.quality.source())
    &&& opt_view(raw.encoder) == first_inner_html_of(body, o, k, rules.encoder.source())
    &&& opt_view(raw.size) == first_inner_html_of(body, o, k, rules.size.source())
    &&& opt_view(raw.link_href) == first_attr_of(body, o, k, rules.download_link.source(), "href"@)
}

/// `vs` are, in order, the variants of the kept sections among the first `n`
/// download sections of `body`, whose fields are `raws`; `idx` gives the
/// section of each variant.
pub open spec fn is_detail_prefix(
    vs: Seq<DownloadVariant>,
    raws: Seq<RawVariant>,
    idx: Seq<int>,
    body: Seq<char>,
    rules: SelectorRules,
    n: int,
) -> bool {
    &&& raws.len() == n
    &&& idx.len() == vs.len()
    &&& forall|k: int| 0 <= k < n ==> is_section_fields(#[trigger] raws[k], body, rules, k as nat)
    &&& forall|t: int| 0 <= t < vs.len() ==> 0 <= #[trigger] idx[t] < n && is_variant_of(vs[t], raws[idx[t]])
    &&& forall|t: int, u: int| 0 <= t < u < vs.len() ==> idx[t] < idx[u]
    &&& forall|k: int| 0 <= k < n && !is_dropped_section(#[trigger] raws[k]) ==> exists|t: int|
        0 <= t < idx.len() && idx[t] == k
}

fn first_text<'a>(node: &ItemNode<'a>, rule: &'a Rule) -> (r: Option<String>)
    ensures
        opt_view(r) == first_text_of(node.body(), node.sel(), node.index as nat, rule.source()),
{
    let found = select_fields(node, rule);
    if found.len() == 0 {
        None
    } else {
        Some(field_text(&found[0]))
    }
}

fn first_inner_html<'a>(node: &ItemNode<'a>, rule: &'a Rule) -> (r: Option<String>)
    ensures
        opt_view(r) == first_inner_html_of(node.body(), node.sel(), node.index as nat, rule.source()),
{
    let found = select_fields(node, rule);
    if found.len() == 0 {
        None
    } else {
        Some(field_inner_html(&found[0]))
    }
}

fn first_attr<'a>(node: &ItemNode<'a>, rule: &'a Rule, name: &str) -> (r: Option<String>)
    ensures
        opt_view(r) == first_attr_of(node.body(), node.sel(), node.index as nat, rule.source(), name@),
{
    let found = select_fields(node, rule);
    if found.len() == 0 {
        None
    } else {
        field_attr(&found[0], name)
    }
}

fn all_texts<'a>(node: &ItemNode<'a>, rule: &'a Rule) -> (r: Vec<String>)
    ensures
        r@.map_values(|g: String| g@) == all_texts_of(node.body(), node.sel(), node.index as nat, rule.source()),
{
    let found = select_fields(node, rule);
    let mut out: Vec<String> = Vec::new();
    let mut j: usize = 0;
    while j < found.len()
        invariant
            j <= found@.len(),
            found@.len() == sub_match_count(node.body(), node.sel(), node.index as nat, rule.source()),
            forall|t: int|
                0 <= t < found@.len() ==> (#[trigger] found@[t]).body() == node.body() && found@[t].outer_sel()
                    == node.sel() && found@[t].i == node.index && found@[t].sel() == rule.source()
                    && found@[t].j == t,
            out@.len() == j,
            forall|t: int| 0 <= t < j ==> (#[trigger] out@[t])@ == sub_text(node.body(), node.sel(), node.index as nat, rule.source(), t as nat),
        decreases found@.len() - j,
    {
        out.push(field_text(&found[j]));
        j = j + 1;
    }
    assert(out@.map_values(|g: String| g@) =~= all_texts_of(node.body(), node.sel(), node.index as nat, rule.source()));
    out
}

/// Reads the fields of one listing item.
fn read_listing_item<'a>(e: &ItemNode<'a>, rules: &'a SelectorRules) -> (r: RawListingItem)
    requires
        e.sel() == rules.item.source(),
    ensures
        is_listing_fields(r, e.body(), *rules, e.index as nat),
{
    proof {
        reveal_strlit("href");
        reveal_strlit("src");
        reveal_strlit("data-trailerlink");
    }
    RawListingItem {
        link_href: first_attr(e, &rules.slug_link, "href"),
        title_href: first_attr(e, &rules.title, "href"),
        title: first_text(e, &rules.title),
        rating: first_text(e, &rules.rating),
        duration: first_text(e, &rules.duration),
        genres: all_texts(e, &rules.genre),
        director: first_text(e, &rules.director),
        stars: all_texts(e, &rules.star),
        country: first_text(e, &rules.country),
        description: first_text(e, &rules.description),
        critic_score: first_text(e, &rules.critic_score),
        awards: first_text(e, &rules.awards),
        image_src: first_attr(e, &rules.image, "src"),
        has_subtitle: select_fields(e, &rules.subtitle).len() > 0,
        trailer_href: first_attr(e, &rules.trailer, "data-trailerlink"),
    }
}

/// The catalog records of a listing page's markup: one per item node, in
/// document order, each built from that node's fields.
pub fn extract_listing(body: &str, rules: &SelectorRules, page: u32, site: &SiteConfig) -> (r: Vec<
    CatalogRecord,
>)
    ensures
        r@.len() == doc_match_count(body@, rules.item.source()),
        forall|i: int|
            0 <= i < r@.len() ==> is_listing_record(#[trigger] r@[i], body@, *rules, i as nat, page, *site),
{
    let doc = parse_document(body);
    let items = select_items(&doc, &rules.item);
    let mut out: Vec<CatalogRecord> = Vec::new();
    let mut i: usize = 0;
    while i < items.len()
        invariant
            doc.body() == body@,
            items@.len() == doc_match_count(body@, rules.item.source()),
            forall|t: int|
                0 <= t < items@.len() ==> (#[trigger] items@[t]).body() == body@ && items@[t].sel()
                    == rules.item.source() && items@[t].index == t,
            i <= items@.len(),
            out@.len() == i,
            forall|j: int|
                0 <= j < i ==> is_listing_record(#[trigger] out@[j], body@, *rules, j as nat, page, *site),
        decreases items@.len() - i,
    {
        let raw = read_listing_item(&items[i], rules);
        let rec = build_record(raw, page, site);
        assert(is_listing_record(rec, body@, *rules, i as nat, page, *site));
        out.push(rec);
        i = i + 1;
    }
    out
}

/// Reads the fields of one download section.
fn read_variant<'a>(e: &ItemNode<'a>, rules: &'a SelectorRules) -> (r: RawVariant)
    requires
        e.sel() == rules.download_section.source(),
    ensures
        is_section_fields(r, e.body(), *rules, e.index as nat),
{
    proof {
        reveal_strlit("href");
    }
    RawVariant {
        quality: first_inner_html(e, &rules.quality),
        encoder: first_inner_html(e, &rules.encoder),
        size: first_inner_html(e, &rules.size),
        link_href: first_attr(e, &rules.download_link, "href"),
    }
}

/// The download variants of a detail page's markup: in document order, one
/// for each download section whose cleaned address is non-empty, built from
/// that section's fields; the other sections are dropped.
pub fn extract_detail(body: &str, rules: &SelectorRules) -> (r: Vec<DownloadVariant>)
    ensures
        exists|raws: Seq<RawVariant>, idx: Seq<int>|
            is_detail_prefix(
                r@,
                raws,
                idx,
                body@,
                *rules,
                doc_match_count(body@, rules.download_section.source()) as int,
            ),
        forall|i: int| 0 <= i < r@.len() ==> (#[trigger] r@[i]).has_clean_link(),
{
    let doc = parse_document(body);
    let sections = select_items(&doc, &rules.download_section);
    let mut out: Vec<DownloadVariant> = Vec::new();
    let ghost mut raws: Seq<RawVariant> = Seq::empty();
    let ghost mut idx: Seq<int> = Seq::empty();
    let mut i: usize = 0;
    while i < sections.len()
        invariant
            doc.body() == body@,
            sections@.len() == doc_match_count(body@, rules.download_section.source()),
            forall|t: int|
                0 <= t < sections@.len() ==> (#[trigger] sections@[t]).body() == body@
                    && sections@[t].sel() == rules.download_section.source() && sections@[t].index == t,
            i <= sections@.len(),
            is_detail_prefix(out@, raws, idx, body@, *rules, i as int),
            forall|j: int| 0 <= j < out@.len() ==> (#[trigger] out@[j]).has_clean_link(),
        decreases sections@.len() - i,
    {
        let raw = read_variant(&sections[i], rules);
        let ghost href = text_or_empty(raw.link_href);
        let ghost g = raw;
        let ghost old_idx = idx;
        proof {
            raws = raws.push(g);
        }
        match build_variant(raw) {
            Some(v) => {
                proof {
                    let l = v.download_link->0@;
                    assert(is_cleaned_link(href, l));
                    assert forall|k: int| 0 <= k < l.len() implies l[k] != '?' by {
                        assert(l[k] == href[k]);
                    }
                    idx = idx.push(i as int);
                }
                out.push(v);
                proof {
                    assert(idx[idx.len() - 1] == i as int);
                    assert forall|k: int| 0 <= k < i + 1 && !is_dropped_section(#[trigger] raws[k]) implies exists|t: int|
                        0 <= t < idx.len() && idx[t] == k by {
                        if k < i {
                            let t = choose|t: int| 0 <= t < old_idx.len() && old_idx[t] == k;
                            assert(idx[t] == k);
                        } else {
                            assert(idx[idx.len() - 1] == k);
                        }
                    }
                }
            },
            None => {
                proof {
                    assert forall|k: int| 0 <= k < i + 1 && !is_dropped_section(#[trigger] raws[k]) implies exists|t: int|
                        0 <= t < idx.len() && idx[t] == k by {
                        if k < i {
                            assert(raws[k] == raws.drop_last()[k]);
                        }
                    }
                }
            },
        }
        i = i + 1;
    }
    out
}

} // verus!
