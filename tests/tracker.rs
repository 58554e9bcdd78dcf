use manga_tracker::detect::{detect, Detection};
use manga_tracker::extract::{
    extract, parse_installment, record_from_parts, scrape_manga_auto, scrape_manga_sing_manga,
    scrape_manga_thai_manga, ExtractionError,
};
use manga_tracker::models::{CanonicalRecord, Channel, Manga, User};
use manga_tracker::notify::{delivery_targets, parse_channel_id, render_notification, DeliveryReport};
use manga_tracker::scheduler::{Action, AutoMangaCommands, Event, Phase, WorkOutcome};
use manga_tracker::services::{ChannelWrite, ChannelsService, MangaService, RegisterError};
use manga_tracker::source::{normalize_url, Source};
use manga_tracker::text::{contains_text, decimal_text, signed_text};
use std::collections::HashMap;

fn work(url: &str, chapter: i32) -> Manga {
    Manga::new("Some Work".to_string(), url.to_string(), chapter, format!("{}/ch{}", url, chapter), None, 1_000)
}

fn record(chapter: i32, chapter_url: &str) -> CanonicalRecord {
    CanonicalRecord {
        title: "Some Work".to_string(),
        latest_chapter: chapter,
        chapter_url: chapter_url.to_string(),
        image_url: Some("https://img.example/cover.jpg".to_string()),
    }
}

fn page(title: &str, image: &str, anchors: &[&str]) -> String {
    format!(
        "<html><body>{}{}<div class=\"lastend\">{}</div></body></html>",
        title,
        image,
        anchors.iter().map(|a| format!("<div class=\"inepcx\">{}</div>", a)).collect::<String>()
    )
}

const TITLE: &str = "<h1 class=\"entry-title\">  The Work  </h1>";
const IMAGE: &str = "<div class=\"thumb\"><img src=\"https://img.example/c.jpg\"></div>";
const CH1: &str = "<a href=\"https://sing-manga.com/x/ch1\"><span class=\"epcurlast\">Chapter 1</span></a>";
const CH11: &str = "<a href=\"https://sing-manga.com/x/ch11\"><span class=\"epcurlast\">Chapter 11</span></a>";

#[test]
fn detector_equal_installment_is_no_change() {
    let persisted = work("https://sing-manga.com/x", 10);
    assert!(matches!(detect(&persisted, &record(10, "https://sing-manga.com/x/ch10"), 2_000), Detection::NoChange));
}

#[test]
fn detector_greater_installment_is_changed() {
    let persisted = work("https://sing-manga.com/x", 10);
    match detect(&persisted, &record(11, "https://sing-manga.com/x/ch11"), 2_000) {
        Detection::Changed(m) => {
            assert_eq!(m.latest_chapter, 11);
            assert_eq!(m.latest_chapter_url, "https://sing-manga.com/x/ch11");
            assert_eq!(m.url, "https://sing-manga.com/x");
            assert_eq!(m.created_at, 1_000);
            assert_eq!(m.updated_at, 2_000);
            assert_eq!(m.image_url.as_deref(), Some("https://img.example/cover.jpg"));
        }
        Detection::NoChange => panic!("expected a change"),
    }
}

#[test]
fn detector_lower_installment_is_no_change() {
    let persisted = work("https://sing-manga.com/x", 10);
    assert!(matches!(detect(&persisted, &record(3, "u"), 2_000), Detection::NoChange));
}

#[test]
fn detector_title_edit_alone_is_no_change() {
    let persisted = work("https://sing-manga.com/x", 10);
    let mut r = record(10, "u");
    r.title = "Renamed".to_string();
    assert!(matches!(detect(&persisted, &r, 2_000), Detection::NoChange));
}

#[test]
fn detector_is_repeatable() {
    let persisted = work("https://sing-manga.com/x", 4);
    let r = record(5, "https://sing-manga.com/x/ch5");
    let first = detect(&persisted, &r, 7);
    let second = detect(&persisted, &r, 7);
    match (first, second) {
        (Detection::Changed(a), Detection::Changed(b)) => {
            assert_eq!(a.latest_chapter, b.latest_chapter);
            assert_eq!(a.latest_chapter_url, b.latest_chapter_url);
            assert_eq!(a.title, b.title);
        }
        _ => panic!("both decisions should be changes"),
    }
    let stale = record(4, "u");
    assert!(matches!(detect(&persisted, &stale, 7), Detection::NoChange));
    assert!(matches!(detect(&persisted, &stale, 8), Detection::NoChange));
}

#[test]
fn native_alias_normalizes_to_ascii_form() {
    assert_eq!(normalize_url("https://สดใสเมะ.com/manga/x"), "https://xn--l3c0azab5a2gta.com/manga/x");
    assert_eq!(normalize_url("https://xn--l3c0azab5a2gta.com/manga/x"), "https://xn--l3c0azab5a2gta.com/manga/x");
    assert_eq!(normalize_url("https://sing-manga.com/x"), "https://sing-manga.com/x");
    assert_eq!(normalize_url(""), "");
}

#[test]
fn both_alias_spellings_select_the_same_adapter() {
    assert_eq!(Source::for_url("https://สดใสเมะ.com/manga/x"), Some(Source::ThaiManga));
    assert_eq!(Source::for_url("https://xn--l3c0azab5a2gta.com/manga/x"), Some(Source::ThaiManga));
    assert_eq!(Source::for_url("https://sing-manga.com/manga/x"), Some(Source::SingManga));
    assert_eq!(Source::for_url("https://example.com/manga/x"), None);
}

#[test]
fn substring_search() {
    assert!(contains_text("https://sing-manga.com/x", "sing-manga.com"));
    assert!(!contains_text("https://sing-manga.org/x", "sing-manga.com"));
    assert!(contains_text("abc", ""));
    assert!(!contains_text("", "a"));
}

#[test]
fn installment_labels() {
    assert_eq!(parse_installment("Chapter 12"), Some(12));
    assert_eq!(parse_installment("ตอนที่ 7"), Some(7));
    assert_eq!(parse_installment("Chapter 1.5"), Some(15));
    assert_eq!(parse_installment("Chapter"), None);
    assert_eq!(parse_installment(""), None);
    assert_eq!(parse_installment("2147483647"), Some(2147483647));
    assert_eq!(parse_installment("2147483648"), None);
    assert_eq!(parse_installment("ตอนที่ ๑๒"), None);
}

#[test]
fn page_with_all_parts_gives_a_record() {
    let html = page(TITLE, IMAGE, &[CH1, CH11]);
    let r = extract(Source::SingManga, &html).expect("record");
    assert_eq!(r.title, "The Work");
    assert_eq!(r.latest_chapter, 11);
    assert_eq!(r.chapter_url, "https://sing-manga.com/x/ch11");
    assert_eq!(r.image_url.as_deref(), Some("https://img.example/c.jpg"));
}

#[test]
fn image_without_source_gives_empty_url_and_no_image_gives_none() {
    let html = page(TITLE, "<div class=\"thumb\"><img alt=\"c\"></div>", &[CH1]);
    assert_eq!(extract(Source::SingManga, &html).unwrap().image_url.as_deref(), Some(""));
    let html = page(TITLE, "", &[CH1]);
    assert_eq!(extract(Source::SingManga, &html).unwrap().image_url, None);
}

#[test]
fn missing_title_is_reported() {
    let html = page("", IMAGE, &[CH1]);
    assert_eq!(extract(Source::SingManga, &html).err(), Some(ExtractionError::MissingTitle));
}

#[test]
fn missing_anchor_is_reported() {
    let html = page(TITLE, IMAGE, &[]);
    assert_eq!(extract(Source::SingManga, &html).err(), Some(ExtractionError::MissingLatestInstallment));
}

#[test]
fn missing_number_span_is_unparsable() {
    let html = page(TITLE, IMAGE, &[CH1, "<a href=\"https://sing-manga.com/x/ch2\">Chapter 2</a>"]);
    assert_eq!(extract(Source::SingManga, &html).err(), Some(ExtractionError::UnparsableInstallmentNumber));
}

#[test]
fn non_numeric_label_is_unparsable() {
    let html = page(TITLE, IMAGE, &["<a href=\"u\"><span class=\"epcurlast\">Finale</span></a>"]);
    assert_eq!(extract(Source::SingManga, &html).err(), Some(ExtractionError::UnparsableInstallmentNumber));
}

#[test]
fn missing_link_is_reported() {
    let html = page(TITLE, IMAGE, &["<a><span class=\"epcurlast\">Chapter 3</span></a>"]);
    assert_eq!(extract(Source::SingManga, &html).err(), Some(ExtractionError::MissingInstallmentUrl));
}

#[test]
fn parts_are_checked_in_order() {
    let t = vec!["  A  ".to_string()];
    let none: Vec<Option<String>> = vec![];
    assert_eq!(record_from_parts(&vec![], &none, &none, &none).err(), Some(ExtractionError::MissingTitle));
    assert_eq!(record_from_parts(&t, &none, &none, &none).err(), Some(ExtractionError::MissingLatestInstallment));
    let labels = vec![Some("Chapter 5".to_string()), None];
    assert_eq!(
        record_from_parts(&t, &none, &labels, &vec![Some("a".to_string()), Some("b".to_string())]).err(),
        Some(ExtractionError::UnparsableInstallmentNumber)
    );
    let labels = vec![Some("Chapter 5".to_string())];
    assert_eq!(record_from_parts(&t, &none, &labels, &vec![None]).err(), Some(ExtractionError::MissingInstallmentUrl));
    let r = record_from_parts(&t, &vec![None], &labels, &vec![Some("b".to_string())]).unwrap();
    assert_eq!(r.title, "A");
    assert_eq!(r.latest_chapter, 5);
    assert_eq!(r.chapter_url, "b");
    assert_eq!(r.image_url.as_deref(), Some(""));
}

#[test]
fn unsupported_source_is_reported() {
    let html = page(TITLE, IMAGE, &[CH1]);
    assert_eq!(scrape_manga_auto("https://example.com/x", &html).err(), Some(ExtractionError::UnsupportedSource));
    assert_eq!(
        scrape_manga_sing_manga("https://xn--l3c0azab5a2gta.com/x", &html).err(),
        Some(ExtractionError::UnsupportedSource)
    );
    assert_eq!(scrape_manga_thai_manga("https://sing-manga.com/x", &html).err(), Some(ExtractionError::UnsupportedSource));
    assert_eq!(scrape_manga_thai_manga("https://สดใสเมะ.com/x", &html).unwrap().latest_chapter, 1);
    assert_eq!(scrape_manga_auto("https://sing-manga.com/x", &html).unwrap().latest_chapter, 1);
}

#[test]
fn channel_ids() {
    assert_eq!(parse_channel_id("1234567890123"), Some(1234567890123));
    assert_eq!(parse_channel_id("+5"), Some(5));
    assert_eq!(parse_channel_id("0"), None);
    assert_eq!(parse_channel_id(""), None);
    assert_eq!(parse_channel_id("12a"), None);
    assert_eq!(parse_channel_id("18446744073709551615"), Some(u64::MAX));
    assert_eq!(parse_channel_id("18446744073709551616"), None);
}

fn channel(id: &str, guild: &str, name: &str) -> Channel {
    Channel::new(id.to_string(), guild.to_string(), name.to_string(), "Guild".to_string(), 5)
}

#[test]
fn delivery_targets_skip_unusable_ids() {
    let chans = vec![channel("11", "g1", "a"), channel("oops", "g2", "b"), channel("0", "g3", "c"), channel("33", "g4", "d")];
    assert_eq!(delivery_targets(&chans), vec![11, 33]);
    assert_eq!(delivery_targets(&vec![]), Vec::<u64>::new());
}

#[test]
fn one_failed_delivery_of_three() {
    let mut report = DeliveryReport::new();
    for ok in [true, false, true] {
        report.record(ok);
    }
    assert_eq!(report, DeliveryReport { delivered: 2, failed: 1 });
}

#[test]
fn notification_payload() {
    let mut m = work("https://sing-manga.com/x", 11);
    m.updated_at = 947638923004;
    m.image_url = Some("https://img.example/c.jpg".to_string());
    let n = render_notification(&m);
    assert_eq!(n.title, "การอัพเดทมังงะ: Some Work");
    assert_eq!(n.description, "อัพเดทถึงตอนที่ 11");
    assert_eq!(n.fields.len(), 4);
    assert_eq!(n.fields[0].name, "ชื่อมังงะ");
    assert_eq!(n.fields[0].value, "Some Work");
    assert_eq!(n.fields[1].value, "ตอนที่ 11");
    assert_eq!(n.fields[2].value, "https://sing-manga.com/x/ch11");
    assert!(!n.fields[2].inline);
    assert_eq!(n.fields[3].name, "เวลาอัพเดท");
    assert_eq!(n.fields[3].value, "12/01/2000 01:02:03");
    assert_eq!(n.thumbnail.as_deref(), Some("https://img.example/c.jpg"));
    assert_eq!(n.footer, "ระบบอัพเดทมังงะอัตโนมัติ");
    assert_eq!(n.colour, 0x1F8B4C);
}

#[test]
fn notification_without_renderable_time_has_three_fields() {
    let mut m = work("https://sing-manga.com/x", 2);
    m.updated_at = i64::MAX;
    let n = render_notification(&m);
    assert_eq!(n.fields.len(), 3);
    assert_eq!(n.thumbnail, None);
}

#[test]
fn decimal_rendering() {
    assert_eq!(decimal_text(0), "0");
    assert_eq!(decimal_text(10), "10");
    assert_eq!(decimal_text(u64::MAX), "18446744073709551615");
    assert_eq!(signed_text(-42), "-42");
    assert_eq!(signed_text(i64::MIN), "-9223372036854775808");
}

#[test]
fn register_then_lookup_finds_new_work() {
    let mut store: HashMap<String, Manga> = HashMap::new();
    let url = "https://สดใสเมะ.com/manga/x";
    let key = MangaService::registration_key(url).unwrap();
    let m = MangaService::register_work(url, store.contains_key(&key), 9).unwrap();
    store.insert(m.url.clone(), m);
    let found = store.get("https://xn--l3c0azab5a2gta.com/manga/x").expect("stored");
    assert_eq!(found.latest_chapter, 0);
    assert_eq!(found.url, "https://xn--l3c0azab5a2gta.com/manga/x");
    assert_eq!(found.latest_chapter_url, found.url);
    assert_eq!(found.title, "Untitled");
    assert_eq!(found.image_url, None);
    assert_eq!(MangaService::register_work(url, store.contains_key(&key), 10).err(), Some(RegisterError::AlreadyExists));
}

#[test]
fn registration_rejects_bad_urls() {
    assert_eq!(MangaService::register_work("http://sing-manga.com/x", false, 1).err(), Some(RegisterError::InvalidUrl));
    assert_eq!(MangaService::register_work("https://example.com/x", false, 1).err(), Some(RegisterError::InvalidUrl));
    assert_eq!(MangaService::registration_key("ftp://x").err(), Some(RegisterError::InvalidUrl));
}

#[test]
fn one_channel_per_guild() {
    let existing = vec![channel("1", "g1", "a"), channel("2", "g2", "b")];
    assert_eq!(ChannelsService::registration_write(&existing, "g2"), ChannelWrite::Update);
    assert_eq!(ChannelsService::registration_write(&existing, "g3"), ChannelWrite::Create);
    assert_eq!(ChannelsService::registration_write(&vec![], "g1"), ChannelWrite::Create);
}

#[test]
fn channel_listing() {
    assert_eq!(ChannelsService::describe_channels(&vec![]), None);
    let chans = vec![channel("1", "g", "news"), channel("2", "g", "alerts")];
    assert_eq!(ChannelsService::describe_channels(&chans).unwrap(), "**news** (1)\n\n**alerts** (2)\n");
}

#[test]
fn user_profile_refresh_keeps_identity() {
    let u = User::new("u1".into(), "g1".into(), "Guild".into(), "nick".into(), "Global".into(), "name".into(), 3);
    let v = u.with_profile("nick2".into(), "Global2".into(), "name2".into(), 8);
    assert_eq!(v.user_id, "u1");
    assert_eq!(v.guild_user_nickname, "nick2");
    assert_eq!(v.created_at, 3);
    assert_eq!(v.updated_at, 8);
}

fn start_cycle(works: Vec<Manga>) -> (AutoMangaCommands, Action) {
    let s = AutoMangaCommands::new();
    let (s, a) = s.step(Event::Tick, 0);
    assert!(matches!(a, Action::LoadWatchlist));
    assert_eq!(s.phase(), Phase::Loading);
    s.step(Event::WatchlistLoaded(works), 0)
}

#[test]
fn empty_watchlist_is_a_no_op_pass() {
    let (s, a) = start_cycle(vec![]);
    assert!(matches!(a, Action::Sleep));
    assert_eq!(s.phase(), Phase::Idle);
    assert!(s.outcomes().is_empty());
}

#[test]
fn failed_load_sleeps_until_next_tick() {
    let s = AutoMangaCommands::new();
    let (s, _) = s.step(Event::Tick, 0);
    let (s, a) = s.step(Event::WatchlistFailed, 0);
    assert!(matches!(a, Action::Sleep));
    assert_eq!(s.phase(), Phase::Idle);
}

#[test]
fn extraction_failure_moves_on_to_next_work() {
    let works = vec![work("https://sing-manga.com/a", 1), work("https://sing-manga.com/b", 2)];
    let (s, a) = start_cycle(works);
    match a {
        Action::Extract { url, source } => {
            assert_eq!(url, "https://sing-manga.com/a");
            assert_eq!(source, Source::SingManga);
        }
        _ => panic!("expected an extraction"),
    }
    let no_span = page(TITLE, IMAGE, &[CH1, "<a href=\"https://sing-manga.com/a/ch2\">Chapter 2</a>"]);
    let (s, a) = s.step(Event::Fetched(no_span), 5);
    match a {
        Action::Extract { url, .. } => assert_eq!(url, "https://sing-manga.com/b"),
        _ => panic!("expected the next extraction"),
    }
    let (s, a) = s.step(Event::FetchFailed, 6);
    assert!(matches!(a, Action::Sleep));
    assert_eq!(
        s.outcomes(),
        &vec![WorkOutcome::ExtractionFailed(ExtractionError::UnparsableInstallmentNumber), WorkOutcome::FetchFailed]
    );
}

#[test]
fn change_is_persisted_then_notified_despite_delivery_failure() {
    let works = vec![work("https://example.com/z", 1), work("https://sing-manga.com/x", 10)];
    let (s, a) = start_cycle(works);
    assert!(matches!(a, Action::Extract { .. }));
    let (s, a) = s.step(Event::Fetched(page(TITLE, IMAGE, &[CH1, CH11])), 50);
    let persisted = match a {
        Action::Persist(m) => m,
        _ => panic!("expected a write"),
    };
    assert_eq!(persisted.latest_chapter, 11);
    assert_eq!(persisted.updated_at, 50);
    assert_eq!(s.phase(), Phase::Persisting);
    let (s, a) = s.step(Event::Persisted(true), 51);
    match a {
        Action::Notify(m) => assert_eq!(m.latest_chapter_url, "https://sing-manga.com/x/ch11"),
        _ => panic!("expected a notification"),
    }
    let report = DeliveryReport { delivered: 2, failed: 1 };
    let (s, a) = s.step(Event::Notified(report), 52);
    assert!(matches!(a, Action::Sleep));
    assert_eq!(s.outcomes(), &vec![WorkOutcome::Skipped, WorkOutcome::Notified(report)]);
}

#[test]
fn failed_write_is_not_notified() {
    let (s, _) = start_cycle(vec![work("https://sing-manga.com/x", 1)]);
    let (s, a) = s.step(Event::Fetched(page(TITLE, IMAGE, &[CH1, CH11])), 1);
    assert!(matches!(a, Action::Persist(_)));
    let (s, a) = s.step(Event::Persisted(false), 2);
    assert!(matches!(a, Action::Sleep));
    assert_eq!(s.outcomes(), &vec![WorkOutcome::PersistFailed]);
}

#[test]
fn unchanged_work_and_out_of_turn_events() {
    let (s, _) = start_cycle(vec![work("https://sing-manga.com/x", 1)]);
    let (s, a) = s.step(Event::Persisted(true), 1);
    assert!(matches!(a, Action::Ignore));
    assert_eq!(s.phase(), Phase::Extracting);
    let (s, a) = s.step(Event::Fetched(page(TITLE, IMAGE, &[CH1])), 1);
    assert!(matches!(a, Action::Sleep));
    assert_eq!(s.outcomes(), &vec![WorkOutcome::Unchanged]);
}

#[test]
fn stop_finishes_current_work_and_starts_no_other() {
    let works = vec![work("https://sing-manga.com/a", 1), work("https://sing-manga.com/b", 1)];
    let (s, _) = start_cycle(works);
    let s = s.request_stop();
    let (s, a) = s.step(Event::Fetched(page(TITLE, IMAGE, &[CH1])), 1);
    assert!(matches!(a, Action::Stop));
    assert_eq!(s.phase(), Phase::Stopped);
    let (_, a) = s.step(Event::Tick, 2);
    assert!(matches!(a, Action::Ignore));
    let idle = AutoMangaCommands::new().request_stop();
    let (s, a) = idle.step(Event::Tick, 0);
    assert!(matches!(a, Action::Stop));
    assert_eq!(s.phase(), Phase::Stopped);
}

#[test]
fn normalizing_twice_changes_nothing() {
    for url in ["https://สดใสเมะ.com/a/สดใสเมะ.com", "https://sing-manga.com/x", "สสดใสเมะ.comะ", ""] {
        let once = normalize_url(url);
        assert_eq!(normalize_url(&once), once);
        assert_eq!(Source::for_url(&once), Source::for_url(url));
    }
    assert_eq!(normalize_url("สสดใสเมะ.comะ"), "สxn--l3c0azab5a2gta.comะ");
}

#[test]
fn equal_or_older_record_is_never_written() {
    let (s, _) = start_cycle(vec![work("https://sing-manga.com/x", 11)]);
    let (s, a) = s.step(Event::Fetched(page(TITLE, IMAGE, &[CH1, CH11])), 1);
    assert!(matches!(a, Action::Sleep));
    assert_eq!(s.outcomes(), &vec![WorkOutcome::Unchanged]);
}
