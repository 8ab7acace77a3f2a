use raven_news::rss::politico::{PoliticoRssItem, PoliticoRssParser};
use raven_news::rss::wsj::{WsjRssItem, WsjRssParser};
use raven_news::rss::{strip_cdata, FeedEvent, RssItem, RssParseError};
use raven_news::time::Timestamp;

const POLITICO_SAMPLE: &str = r#"<?xml version="1.0" encoding="UTF-8"?>
<rss version="2.0" xmlns:content="http://purl.org/rss/1.0/modules/content/" xmlns:dc="http://purl.org/dc/elements/1.1/" xmlns:dcterms="http://purl.org/dc/terms/">
  <channel>
    <title>Congress</title>
    <link>https://www.politico.com/congress</link>
    <item>
      <title><![CDATA[ Senate passes the budget ]]></title>
      <link>https://www.politico.com/news/2024/01/01/budget</link>
      <description><![CDATA[The short version.]]></description>
      <content:encoded><![CDATA[<p>The long version.</p>]]></content:encoded>
      <pubDate>Tue, 10 Jun 2003 04:00:00 GMT</pubDate>
      <dc:creator><![CDATA[Jane Doe]]></dc:creator>
      <dc:contributor>John Roe</dc:contributor>
    </item>
    <item>
      <title>House adjourns</title>
      <link>https://www.politico.com/news/2024/01/02/house</link>
      <description>Only a description.</description>
      <content:encoded>   </content:encoded>
      <dcterms:modified>2024-01-01T00:00:00Z</dcterms:modified>
    </item>
    <item>
      <title>No link here</title>
      <pubDate>Tue, 10 Jun 2003 04:00:00 GMT</pubDate>
    </item>
  </channel>
</rss>"#;

const WSJ_SAMPLE: &str = r#"<?xml version="1.0"?>
<rss version="2.0" xmlns:dc="http://purl.org/dc/elements/1.1/">
  <channel>
    <title>WSJ.com: World News</title>
    <item>
      <title><![CDATA[Markets rally]]></title>
      <link>https://www.wsj.com/articles/markets-rally</link>
      <description><![CDATA[ Stocks rose. ]]></description>
      <pubDate>Wed, 03 Jan 2024 12:30:00 GMT</pubDate>
      <dc:creator>A. Writer</dc:creator>
    </item>
    <item>
      <title>Undated story</title>
      <link>https://www.wsj.com/articles/undated</link>
      <description>Should not appear.</description>
    </item>
    <item>
      <title>Odd date</title>
      <link>https://www.wsj.com/articles/odd</link>
      <pubDate>sometime last week</pubDate>
    </item>
  </channel>
</rss>"#;

fn start(name: &str, text: Option<&str>) -> FeedEvent {
    FeedEvent::Start { name: name.to_string(), text: text.map(|t| t.to_string()) }
}

fn ts(secs: i64) -> Timestamp {
    Timestamp { secs, nanos: 0 }
}

#[test]
fn test_politico_congress_feed() {
    let xml = POLITICO_SAMPLE;
    let parser = PoliticoRssParser;
    let items = parser.parse(xml).expect("Failed to parse Politico feed");

    println!("Politico Congress RSS: {} items", items.len());
    for item in items.iter().take(3) {
        println!("TITLE: {}", item.title);
        println!("LINK : {}", item.link);
    }
}

#[test]
fn politico_parse_keeps_items_with_title_and_link() {
    let items = PoliticoRssParser.parse(POLITICO_SAMPLE).unwrap();
    assert_eq!(items.len(), 2);
    assert_eq!(items[0].source, "politico");
    assert_eq!(items[0].title, "Senate passes the budget");
    assert_eq!(items[0].link, "https://www.politico.com/news/2024/01/01/budget");
    assert_eq!(items[0].summary.as_deref(), Some("<p>The long version.</p>"));
    assert_eq!(items[0].published_at, Some(ts(1055217600)));
    assert_eq!(items[1].title, "House adjourns");
    assert_eq!(items[1].summary.as_deref(), Some("Only a description."));
    assert_eq!(items[1].published_at, Some(ts(1704067200)));
}

#[test]
fn politico_ignores_fields_outside_items() {
    let xml = "<rss><channel><title>Only a channel</title><link>x</link></channel></rss>";
    assert_eq!(PoliticoRssParser.parse(xml).unwrap(), Vec::<RssItem>::new());
    assert_eq!(WsjRssParser.parse(xml).unwrap(), Vec::<RssItem>::new());
}

#[test]
fn politico_undated_item_is_dated_now() {
    let before = clock_secs();
    let xml = "<rss><channel><item><title>T</title><link>L</link><pubDate>not a date</pubDate></item></channel></rss>";
    let items = PoliticoRssParser.parse(xml).unwrap();
    let after = clock_secs();
    assert_eq!(items.len(), 1);
    let t = items[0].published_at.unwrap();
    assert!(before <= t.secs && t.secs <= after);
}

#[test]
fn politico_item_without_a_date_is_dropped() {
    let xml = "<rss><channel><item><title>T</title><link>L</link></item>\
               <item><title>U</title><link>M</link><dcterms:modified>2024-01-01T00:00:00Z</dcterms:modified></item></channel></rss>";
    let items = PoliticoRssParser.parse(xml).unwrap();
    assert_eq!(items.len(), 1);
    assert_eq!(items[0].title, "U");
    assert_eq!(items[0].published_at, Some(ts(1704067200)));
}

#[test]
fn politico_parse_date_accepts_both_formats() {
    assert_eq!(PoliticoRssParser::parse_date("Tue, 10 Jun 2003 04:00:00 GMT"), Ok(ts(1055217600)));
    assert_eq!(PoliticoRssParser::parse_date("2024-01-01T00:00:00+01:00"), Ok(ts(1704063600)));
    match PoliticoRssParser::parse_date("yesterday") {
        Err(RssParseError::InvalidDate(message)) => {
            assert!(message.starts_with("Politico date parse failed: yesterday ("));
            assert!(message.ends_with(')'));
        }
        other => panic!("unexpected {:?}", other),
    }
}

#[test]
fn politico_choose_summary_prefers_content() {
    let content = Some("<p>x</p>".to_string());
    let blank = Some(" \n\t ".to_string());
    let description = Some("desc".to_string());
    assert_eq!(PoliticoRssParser::choose_summary(&content, &description), content);
    assert_eq!(PoliticoRssParser::choose_summary(&blank, &description), description);
    assert_eq!(PoliticoRssParser::choose_summary(&None, &description), description);
    assert_eq!(PoliticoRssParser::choose_summary(&None, &None), None);
}

#[test]
fn politico_items_from_events_follow_the_state_machine() {
    let events = vec![
        start("title", Some("outside")),
        start("item", None),
        start("title", Some("<![CDATA[ A ]]>")),
        start("link", Some(" l ")),
        start("pubDate", Some("whenever")),
        start("dc:creator", Some("x")),
        FeedEvent::ItemEnd { now: ts(7) },
        FeedEvent::ItemEnd { now: ts(8) },
        start("item", None),
        start("title", Some("B")),
        FeedEvent::ItemEnd { now: ts(9) },
    ];
    let items = PoliticoRssParser.items_from_events(events);
    assert_eq!(
        items,
        vec![RssItem {
            source: "politico".to_string(),
            title: "A".to_string(),
            link: " l ".to_string(),
            summary: None,
            published_at: Some(ts(7)),
        }]
    );
}

#[test]
fn politico_item_conversion() {
    let item = PoliticoRssItem {
        title: "t".to_string(),
        link: "l".to_string(),
        summary_html: Some("s".to_string()),
        published_at: ts(5),
        creators: vec!["a".to_string()],
        contributors: vec![],
    };
    let rss = item.into_rss_item();
    assert_eq!(rss.source, "politico");
    assert_eq!(rss.summary.as_deref(), Some("s"));
    assert_eq!(rss.published_at, Some(ts(5)));
}

#[test]
fn wsj_parse_requires_a_date() {
    let before = clock_secs();
    let items = WsjRssParser.parse(WSJ_SAMPLE).unwrap();
    assert_eq!(items.len(), 2);
    assert_eq!(items[0].source, "wsj");
    assert_eq!(items[0].title, "Markets rally");
    assert_eq!(items[0].summary.as_deref(), Some("Stocks rose."));
    assert_eq!(items[0].published_at, Some(ts(1704285000)));
    assert_eq!(items[1].title, "Odd date");
    assert_eq!(items[1].summary, None);
    assert!(items[1].published_at.unwrap().secs >= before);
}

#[test]
fn wsj_items_from_events_take_description_only_when_complete() {
    let events = vec![
        start("item", None),
        start("title", Some("T")),
        start("description", Some("D")),
        FeedEvent::ItemEnd { now: ts(1) },
        start("title", Some("late")),
        FeedEvent::Other,
    ];
    assert_eq!(WsjRssParser.items_from_events(events), Vec::<RssItem>::new());
    let events = vec![
        start("item", None),
        start("title", Some("T")),
        start("link", Some("L")),
        start("pubDate", Some("garbage")),
        start("description", Some("D")),
        FeedEvent::ItemEnd { now: ts(3) },
    ];
    let items = WsjRssParser.items_from_events(events);
    assert_eq!(items.len(), 1);
    assert_eq!(items[0].summary.as_deref(), Some("D"));
    assert_eq!(items[0].published_at, Some(ts(3)));
}

#[test]
fn wsj_item_conversion() {
    let item = WsjRssItem {
        title: "t".to_string(),
        link: "l".to_string(),
        description: None,
        published_at: ts(2),
        creators: vec![],
    };
    assert_eq!(item.into_rss_item().source, "wsj");
}

#[test]
fn malformed_xml_is_an_xml_error() {
    let xml = "<rss><channel><item><title>T</title></wrong></channel></rss>";
    match PoliticoRssParser.parse(xml) {
        Err(RssParseError::Xml(_)) => {}
        other => panic!("unexpected {:?}", other),
    }
    match WsjRssParser.parse(xml) {
        Err(RssParseError::Xml(_)) => {}
        other => panic!("unexpected {:?}", other),
    }
}

#[test]
fn strip_cdata_cleans_fields() {
    assert_eq!(strip_cdata("  <![CDATA[ Hello ]]>  "), "Hello");
    assert_eq!(strip_cdata("plain text \n"), "plain text");
    assert_eq!(strip_cdata("<![CDATA[]]>"), "");
    assert_eq!(strip_cdata("<![CDATA[ unterminated"), "<![CDATA[ unterminated");
    assert_eq!(strip_cdata("\u{3000}x\u{a0}"), "x");
}

fn clock_secs() -> i64 {
    let elapsed = std::time::SystemTime::now()
        .duration_since(std::time::UNIX_EPOCH)
        .unwrap();
    elapsed.as_secs() as i64
}

fn at(secs: i64) -> Option<Timestamp> {
    Some(ts(secs))
}

fn item(source: &str, title: &str, link: &str, summary: Option<&str>, published_at: Option<Timestamp>) -> RssItem {
    RssItem::new(source, title.to_string(), link.to_string(), summary.map(|s| s.to_string()), published_at)
}

#[test]
fn politico_prefers_content_and_falls_back_to_modified_date() {
    let xml = "<rss><channel><title>Chan</title><item><title>A</title><link>https://a</link><description>D</description><content:encoded>C</content:encoded><dcterms:modified>2024-01-02T03:04:05Z</dcterms:modified></item></channel></rss>";
    assert_eq!(
        PoliticoRssParser.parse(xml).unwrap(),
        vec![item("politico", "A", "https://a", Some("C"), at(1704164645))]
    );
}

#[test]
fn politico_drops_items_without_a_title() {
    let xml = "<rss><channel><title>Chan</title><item><link>https://x</link></item><item><title>B</title><link>https://b</link><pubDate>Tue, 02 Jan 2024 03:04:05 +0000</pubDate><description>D</description></item></channel></rss>";
    assert_eq!(
        PoliticoRssParser.parse(xml).unwrap(),
        vec![item("politico", "B", "https://b", Some("D"), at(1704164645))]
    );
}

#[test]
fn politico_blank_content_and_pubdate_first() {
    let xml = "<rss><channel><item><title>A</title><link>https://a</link><content:encoded>   </content:encoded><description>D</description><pubDate>Tue, 02 Jan 2024 03:04:05 +0000</pubDate><dcterms:modified>2025-06-01T00:00:00Z</dcterms:modified></item><item><title>B</title><link>https://b</link><pubDate>Wed, 03 Jan 2024 00:00:00 +0000</pubDate></item></channel></rss>";
    assert_eq!(
        PoliticoRssParser.parse(xml).unwrap(),
        vec![
            item("politico", "A", "https://a", Some("D"), at(1704164645)),
            item("politico", "B", "https://b", None, at(1704240000)),
        ]
    );
}

#[test]
fn mismatched_tags_are_xml_errors() {
    assert!(matches!(PoliticoRssParser.parse("<rss><item></rss>"), Err(RssParseError::Xml(_))));
    assert!(matches!(WsjRssParser.parse("<rss><item></rss>"), Err(RssParseError::Xml(_))));
}

#[test]
fn wsj_single_item() {
    let xml = "<rss><channel><title>Chan</title><item><title>A</title><link>https://a</link><description>D</description><pubDate>Tue, 02 Jan 2024 03:04:05 +0000</pubDate><dc:creator>X</dc:creator></item></channel></rss>";
    assert_eq!(
        WsjRssParser.parse(xml).unwrap(),
        vec![item("wsj", "A", "https://a", Some("D"), at(1704164645))]
    );
}

#[test]
fn wsj_undated_item_is_dropped_with_its_description() {
    let xml = "<rss><channel><item><title>A</title><link>https://a</link><description>D1</description></item><item><title>B</title><link>https://b</link><pubDate>Wed, 03 Jan 2024 00:00:00 +0000</pubDate></item></channel></rss>";
    assert_eq!(
        WsjRssParser.parse(xml).unwrap(),
        vec![item("wsj", "B", "https://b", None, at(1704240000))]
    );
}
