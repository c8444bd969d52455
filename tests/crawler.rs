use movie_crawler::crawl::{Crawl, CrawlAction, PageOutcome, StepEffect, INITIAL_PAGE};
use movie_crawler::extract::{extract_detail, extract_listing, Rule, SelectorRules};
use movie_crawler::model::{
    build_record, build_variant, classify, CatalogRecord, ContentType, DownloadVariant,
    RawListingItem, RawVariant, SiteConfig,
};
use movie_crawler::store::{bundle_for, checkpoint_or_initial, item_writes, MemoryStore};
use movie_crawler::text::{
    clean_download_link, decimal_string, imdb_id_from_href, remove_text, slug_from_href,
    str_contains, trim_text,
};

fn site() -> SiteConfig {
    SiteConfig { base: "https://digimoviez.com/".to_string(), source: "DigiMovie".to_string() }
}

fn record(id: &str, title: &str) -> CatalogRecord {
    CatalogRecord {
        title: title.to_string(),
        imdb_id: id.to_string(),
        imdb_rating: String::new(),
        duration: String::new(),
        genres: vec![],
        director: String::new(),
        stars: vec![],
        country: String::new(),
        description: String::new(),
        metacritic_score: String::new(),
        awards: String::new(),
        image_url: String::new(),
        has_subtitle: false,
        trailer_link: String::new(),
        page_number: 7,
        content_type: ContentType::Unknown,
        slug: format!("{}-slug", id),
        source: "DigiMovie".to_string(),
    }
}

fn variant(link: &str) -> DownloadVariant {
    DownloadVariant {
        quality: "1080p".to_string(),
        size: "2 GB".to_string(),
        sub_type: None,
        encoder: Some("PSA".to_string()),
        download_link: Some(link.to_string()),
    }
}

#[test]
fn clean_link_strips_query() {
    assert_eq!(clean_download_link("https://x/file.mp4?sig=abc&exp=99"), "https://x/file.mp4");
    assert_eq!(clean_download_link("https://x/file.mp4"), "https://x/file.mp4");
    assert_eq!(clean_download_link("?only=query"), "");
    assert_eq!(clean_download_link(""), "");
}

#[test]
fn classification_branches() {
    assert_eq!(classify("دانلود فیلم Inception 2010"), ContentType::Movie);
    assert_eq!(classify("دانلود انیمیشن Up 2009"), ContentType::Animation);
    assert_eq!(classify("دانلود سریال Dark"), ContentType::Unknown);
    assert_eq!(classify("فیلم انیمیشن"), ContentType::Movie);
    assert_eq!(ContentType::Animation.label(), "Animation");
}

#[test]
fn substring_search() {
    assert!(str_contains("abcabd", "abd"));
    assert!(!str_contains("abcab", "abd"));
    assert!(str_contains("abc", ""));
    assert!(!str_contains("", "a"));
}

#[test]
fn identifier_from_link() {
    assert_eq!(imdb_id_from_href("https://www.imdb.com/title/tt1375666/"), "tt1375666");
    assert_eq!(imdb_id_from_href("https://digimoviez.com/tt0111161-the-shawshank"), "tt0111161-the-shawshank");
    assert_eq!(imdb_id_from_href("https://digimoviez.com/inception/"), "");
    assert_eq!(imdb_id_from_href("t/tt"), "tt");
    assert_eq!(imdb_id_from_href(""), "");
}

#[test]
fn slug_from_link() {
    let base = "https://digimoviez.com/";
    assert_eq!(slug_from_href("https://digimoviez.com/inception-2010/", base), "inception-2010");
    assert_eq!(slug_from_href("https://digimoviez.com/a/b//", base), "a/b");
    assert_eq!(slug_from_href("other/", base), "other");
    assert_eq!(slug_from_href("https://digimoviez.com/", base), "");
}

#[test]
fn page_addresses() {
    assert_eq!(decimal_string(0), "0");
    assert_eq!(decimal_string(4294967295), "4294967295");
    assert_eq!(site().listing_url(889), "https://digimoviez.com/page/889/");
    assert_eq!(site().detail_url("inception-2010"), "https://digimoviez.com/inception-2010");
}

#[test]
fn record_from_fields() {
    let raw = RawListingItem {
        link_href: Some("https://digimoviez.com/inception-2010/".to_string()),
        title_href: Some("https://www.imdb.com/title/tt1375666/".to_string()),
        title: Some("دانلود فیلم Inception".to_string()),
        rating: Some("8.8".to_string()),
        duration: None,
        genres: vec!["Action".to_string(), "Sci-Fi".to_string()],
        director: Some("Christopher Nolan".to_string()),
        stars: vec![],
        country: None,
        description: None,
        critic_score: None,
        awards: None,
        image_src: Some("https://img/x.jpg".to_string()),
        has_subtitle: true,
        trailer_href: None,
    };
    let r = build_record(raw, 12, &site());
    assert_eq!(r.imdb_id, "tt1375666");
    assert_eq!(r.slug, "inception-2010");
    assert_eq!(r.content_type, ContentType::Movie);
    assert_eq!(r.imdb_rating, "8.8");
    assert_eq!(r.duration, "");
    assert_eq!(r.genres, vec!["Action".to_string(), "Sci-Fi".to_string()]);
    assert!(r.has_subtitle);
    assert_eq!(r.page_number, 12);
    assert_eq!(r.source, "DigiMovie");
    assert!(r.is_persistable());
}

#[test]
fn record_without_title_has_no_identifier() {
    let raw = RawListingItem {
        link_href: None,
        title_href: None,
        title: None,
        rating: None,
        duration: None,
        genres: vec![],
        director: None,
        stars: vec![],
        country: None,
        description: None,
        critic_score: None,
        awards: None,
        image_src: None,
        has_subtitle: false,
        trailer_href: None,
    };
    let r = build_record(raw, 1, &site());
    assert_eq!(r.imdb_id, "");
    assert_eq!(r.title, "");
    assert_eq!(r.content_type, ContentType::Unknown);
    assert!(!r.is_persistable());
    let w = item_writes(r, Some(vec![variant("https://x/f.mkv")]), 0, "DigiMovie");
    assert!(w.record.is_none());
    assert!(w.bundle.is_none());
}

#[test]
fn variant_from_fields() {
    let raw = RawVariant {
        quality: Some("  1080p BluRay ".to_string()),
        encoder: Some(" Encoder : PSA ".to_string()),
        size: Some("2.1 GB".to_string()),
        link_href: Some("https://dl.x/f.mkv?md5=abc".to_string()),
    };
    let v = build_variant(raw).unwrap();
    assert_eq!(v.quality, "1080p BluRay");
    assert_eq!(v.encoder, Some("PSA".to_string()));
    assert_eq!(v.size, "2.1 GB");
    let labelled = RawVariant {
        quality: Some("\n720p\t".to_string()),
        encoder: Some("Encoder : Encoder : X".to_string()),
        size: None,
        link_href: Some("https://dl.x/g.mkv".to_string()),
    };
    let w = build_variant(labelled).unwrap();
    assert_eq!(w.quality, "720p");
    assert_eq!(w.encoder, Some("X".to_string()));
    assert_eq!(w.size, "");
    assert_eq!(w.download_link, Some("https://dl.x/g.mkv".to_string()));
    assert_eq!(v.sub_type, None);
    assert_eq!(v.download_link, Some("https://dl.x/f.mkv".to_string()));
}

#[test]
fn variant_without_link_is_dropped() {
    let missing = RawVariant { quality: None, encoder: None, size: None, link_href: None };
    assert!(build_variant(missing).is_none());
    let query_only = RawVariant {
        quality: Some("720p".to_string()),
        encoder: None,
        size: None,
        link_href: Some("?token=1".to_string()),
    };
    assert!(build_variant(query_only).is_none());
}

#[test]
fn upsert_twice_keeps_second() {
    let mut store = MemoryStore::new();
    store.upsert_catalog_record(record("tt1", "first"));
    store.upsert_catalog_record(record("tt2", "other"));
    store.upsert_catalog_record(record("tt1", "second"));
    assert_eq!(store.movies.len(), 2);
    assert_eq!(store.movies.get("tt1").unwrap().title, "second");
    assert_eq!(store.movies.get("tt2").unwrap().title, "other");
    assert!(store.movies.get("tt3").is_none());
}

#[test]
fn empty_bundle_is_suppressed() {
    let mut store = MemoryStore::new();
    store.upsert_download_bundle("tt1", "s1", vec![], 5, "DigiMovie");
    assert_eq!(store.bundles.len(), 0);
    store.upsert_download_bundle("tt1", "s1", vec![variant("https://x/a.mkv")], 10, "DigiMovie");
    store.upsert_download_bundle("tt1", "s1", vec![], 20, "DigiMovie");
    assert_eq!(store.bundles.len(), 1);
    let b = store.bundles.get("tt1").unwrap();
    assert_eq!(b.last_updated_ms, 10);
    assert_eq!(b.variants.len(), 1);
    store.upsert_download_bundle("tt1", "s1b", vec![variant("https://x/b.mkv"), variant("https://x/c.mkv")], 30, "DigiMovie");
    let b = store.bundles.get("tt1").unwrap();
    assert_eq!(b.slug, "s1b");
    assert_eq!(b.variants.len(), 2);
    assert_eq!(store.bundles.len(), 1);
    assert!(bundle_for("tt9", "s", vec![], 0, "DigiMovie").is_none());
}

#[test]
fn checkpoint_defaults_to_initial_page() {
    let mut store = MemoryStore::new();
    assert_eq!(store.read_checkpoint(), INITIAL_PAGE);
    assert_eq!(store.read_checkpoint(), 889);
    store.write_checkpoint(41);
    assert_eq!(store.read_checkpoint(), 41);
}

#[test]
fn resumed_crawl_walks_down_to_done() {
    let mut c = Crawl::resume(3);
    let mut pages = vec![];
    let mut writes = vec![];
    while let CrawlAction::FetchPage(p) = c.next_action() {
        pages.push(p);
        match c.step(PageOutcome::Processed) {
            StepEffect::WriteCheckpoint(w) => writes.push(w),
            StepEffect::Backoff => panic!("no failure was reported"),
        }
    }
    assert_eq!(c.next_action(), CrawlAction::Done);
    assert_eq!(pages, vec![3, 2, 1]);
    assert_eq!(writes, vec![2, 1, 0]);
    assert_eq!(Crawl::resume(0).next_action(), CrawlAction::Done);
}

#[test]
fn failures_reset_on_success() {
    let mut c = Crawl::resume(5);
    assert_eq!(c.step(PageOutcome::FetchFailed), StepEffect::Backoff);
    assert_eq!(c.step(PageOutcome::FetchFailed), StepEffect::Backoff);
    assert_eq!(c.next_action(), CrawlAction::FetchPage(5));
    assert_eq!(c.step(PageOutcome::Processed), StepEffect::WriteCheckpoint(4));
    assert_eq!(c.failures, 0);
    assert_eq!(c.step(PageOutcome::FetchFailed), StepEffect::Backoff);
    assert_eq!(c.next_action(), CrawlAction::FetchPage(4));
}

#[test]
fn three_failures_abort_without_advancing() {
    let mut store = MemoryStore::new();
    store.write_checkpoint(10);
    let mut c = Crawl::resume(store.read_checkpoint());
    for _ in 0..3 {
        assert_eq!(c.next_action(), CrawlAction::FetchPage(10));
        assert_eq!(c.step(PageOutcome::FetchFailed), StepEffect::Backoff);
    }
    assert_eq!(c.next_action(), CrawlAction::Abort);
    assert_eq!(c.page, 10);
    assert_eq!(store.read_checkpoint(), 10);
}

#[test]
fn failed_item_does_not_stop_page() {
    let mut store = MemoryStore::new();
    let mut c = Crawl::resume(4);
    let resolutions = vec![
        Some(vec![variant("https://x/1.mkv")]),
        None,
        Some(vec![variant("https://x/3.mkv")]),
        Some(vec![]),
        Some(vec![variant("https://x/5.mkv")]),
    ];
    for (i, resolved) in resolutions.into_iter().enumerate() {
        let id = format!("tt{}", i + 1);
        let w = item_writes(record(&id, "t"), resolved, 100, "DigiMovie");
        store.apply_item_writes(w);
    }
    match c.step(PageOutcome::Processed) {
        StepEffect::WriteCheckpoint(p) => store.write_checkpoint(p),
        StepEffect::Backoff => panic!("page was processed"),
    }
    assert_eq!(store.movies.len(), 5);
    for id in ["tt1", "tt3", "tt4", "tt5"] {
        assert!(store.movies.get(id).is_some());
    }
    assert_eq!(store.bundles.len(), 3);
    assert!(store.bundles.get("tt2").is_none());
    assert!(store.bundles.get("tt4").is_none());
    assert_eq!(store.read_checkpoint(), 3);
}

#[test]
fn listing_and_detail_extraction() {
    let rules = SelectorRules::standard().unwrap();
    let listing = r#"<html><body>
      <div class="item_def_loop">
        <div class="title_h"><h2 class="lato_font"><a href="https://digimoviez.com/tt1375666-inception/">دانلود فیلم Inception</a></h2></div>
        <div class="imdb_rate_holder"><span class="rate_num"><strong>8.8</strong></span></div>
        <div class="cover"><img src="https://img/i.jpg"></div>
        <div class="subtitles_item">sub</div>
        <div class="plot_text">A thief.</div>
      </div>
      <div class="item_def_loop">
        <div class="title_h"><h2 class="lato_font"><a href="https://digimoviez.com/up/">دانلود انیمیشن Up</a></h2></div>
      </div>
    </body></html>"#;
    let records = extract_listing(listing, &rules, 12, &site());
    assert_eq!(records.len(), 2);
    assert_eq!(records[0].imdb_id, "tt1375666-inception");
    assert_eq!(records[0].slug, "tt1375666-inception");
    assert_eq!(records[0].content_type, ContentType::Movie);
    assert_eq!(records[0].imdb_rating, "8.8");
    assert_eq!(records[0].image_url, "https://img/i.jpg");
    assert_eq!(records[0].description, "A thief.");
    assert!(records[0].has_subtitle);
    assert_eq!(records[1].imdb_id, "");
    assert_eq!(records[1].content_type, ContentType::Animation);
    assert!(!records[1].has_subtitle);

    let detail = r#"<html><body><div class="dllink_holder_ham"><div class="body_dllink_movies">
      <div class="itemdl">
        <div class="side_left"><div class="head_left_side"><h3> 1080p </h3></div></div>
        <div class="item_meta encoder_dl">Encoder : PSA</div>
        <div class="item_meta size_dl">2 GB</div>
        <a class="btn_row btn_dl" href="https://dl/f.mkv?md5=x">dl</a>
      </div>
      <div class="itemdl">
        <div class="side_left"><div class="head_left_side"><h3>720p</h3></div></div>
      </div>
    </div></div></body></html>"#;
    let variants = extract_detail(detail, &rules);
    assert_eq!(variants.len(), 1);
    assert_eq!(variants[0].quality, "1080p");
    assert_eq!(variants[0].encoder, Some("PSA".to_string()));
    assert_eq!(variants[0].size, "2 GB");
    assert_eq!(variants[0].download_link, Some("https://dl/f.mkv".to_string()));
}

#[test]
fn stored_checkpoint_or_initial() {
    assert_eq!(checkpoint_or_initial(None), 889);
    assert_eq!(checkpoint_or_initial(Some(17)), 17);
    assert_eq!(checkpoint_or_initial(Some(0)), 0);
    assert_eq!(checkpoint_or_initial(Some(-4)), 889);
    assert_eq!(checkpoint_or_initial(Some(1i64 << 40)), 889);
}

#[test]
fn selector_rules_parse() {
    let rules = SelectorRules::standard().unwrap();
    assert_eq!(rules.item.text(), ".item_def_loop");
    assert_eq!(rules.download_link.text(), ".btn_row.btn_dl");
    assert!(Rule::parse("h2 >> [").is_none());
    assert_eq!(Rule::parse("div.a").unwrap().text(), "div.a");
}

#[test]
fn detail_keeps_section_order() {
    let rules = SelectorRules::standard().unwrap();
    let detail = r#"<div class="dllink_holder_ham"><div class="body_dllink_movies">
      <div class="itemdl"><a class="btn_row btn_dl" href="https://dl/a.mkv">a</a></div>
      <div class="itemdl"><a class="btn_row btn_dl" href="?x=1">b</a></div>
      <div class="itemdl"><a class="btn_row btn_dl" href="https://dl/c.mkv?k=2">c</a></div>
    </div></div>"#;
    let variants = extract_detail(detail, &rules);
    assert_eq!(variants.len(), 2);
    assert_eq!(variants[0].download_link, Some("https://dl/a.mkv".to_string()));
    assert_eq!(variants[1].download_link, Some("https://dl/c.mkv".to_string()));
    assert_eq!(variants[1].quality, "");
    assert_eq!(variants[1].encoder, Some(String::new()));
    assert!(extract_listing("<p>nothing</p>", &rules, 3, &site()).is_empty());
}

#[test]
fn label_removal() {
    assert_eq!(remove_text("Encoder : PSA", "Encoder : "), "PSA");
    assert_eq!(remove_text("aXaXb", "aX"), "b");
    assert_eq!(remove_text("aaa", "aa"), "a");
    assert_eq!(remove_text("", "x"), "");
    assert_eq!(remove_text("no label", "Encoder : "), "no label");
}

#[test]
fn whitespace_trim_matches_std() {
    for t in ["  1080p \n", "\u{3000}x\u{a0} ", "", "   ", "a b", "\u{85}\u{2028}y\u{200b}", "\t\r\nz\u{205f}"] {
        assert_eq!(trim_text(t), t.trim());
    }
    assert_eq!(trim_text(" \u{2003}mid dle\u{202f}"), "mid dle");
}
