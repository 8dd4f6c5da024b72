use sitemaps::attribute::{Attribute, Location, LocationError};
use sitemaps::build::{Builder, BuilderStat, TxtBuilder, XmlBuilder};
use sitemaps::record::extension::{Video, VideoUrl};
use sitemaps::{AutodefRecord, IndexRecord, Record, SitemapRecord};

fn location(link: &str) -> Location {
    Location::parse(link).unwrap()
}

#[test]
fn sitemap_record_is_parsed_from_its_url() {
    let record = SitemapRecord::parse("https://example.com/a b").unwrap();
    assert_eq!(record, SitemapRecord::new(location("https://example.com/a%20b")));
    assert_eq!(
        SitemapRecord::parse("example.com"),
        Err(LocationError(url::ParseError::RelativeUrlWithoutBase))
    );
}

#[test]
fn either_kind_of_record_is_wrapped() {
    let sitemap = SitemapRecord::new(location("https://example.com/"));
    let index = IndexRecord::new(location("https://example.com/sitemap.xml"));
    assert_eq!(AutodefRecord::from_sitemap(sitemap.clone()), AutodefRecord::Sitemap(sitemap));
    assert_eq!(AutodefRecord::from_index(index.clone()), AutodefRecord::Index(index));
}

#[test]
fn video_url_hands_out_what_it_holds() {
    let content = location("https://example.com/video.mp4");
    let player = location("https://example.com/player");
    assert_eq!(VideoUrl::from_content(content.clone()).content(), Some(content.clone()));
    assert_eq!(VideoUrl::from_content(content.clone()).player(), None);
    assert_eq!(VideoUrl::from_player(player.clone()).content(), None);
    assert_eq!(VideoUrl::from_player(player.clone()).player(), Some(player.clone()));
    let both = VideoUrl::from_both(content.clone(), player.clone());
    assert_eq!(both.clone().content(), Some(content));
    assert_eq!(both.clone().player(), Some(player));
    let video = Video::new(String::from("title"), String::from("about"), both.clone());
    assert_eq!(
        video,
        Video { title: String::from("title"), description: String::from("about"), link: both }
    );
}

#[test]
fn drained_bytes_add_up_to_the_document() {
    let mut builder = XmlBuilder::<SitemapRecord>::new(Vec::new()).unwrap();
    let mut passed_on = builder.drain();
    assert!(passed_on.starts_with(&[0xEF, 0xBB, 0xBF]));
    assert_eq!(builder.drain(), Vec::<u8>::new());
    builder.next(&SitemapRecord::new(location("https://a.example/"))).unwrap();
    let unit = builder.drain();
    assert_eq!(unit, b"<url><loc>https://a.example/</loc></url>".to_vec());
    assert_eq!(builder.written_bytes(), unit.len());
    assert_eq!(builder.written_records(), 1);
    passed_on.extend(unit);
    builder.next(&SitemapRecord::new(location("https://b.example/"))).unwrap();
    passed_on.extend(builder.drain());
    passed_on.extend(builder.finalize().unwrap());
    let records = [
        SitemapRecord::new(location("https://a.example/")),
        SitemapRecord::new(location("https://b.example/")),
    ];
    let mut whole = XmlBuilder::<SitemapRecord>::new(Vec::new()).unwrap();
    whole.next(&records[0]).unwrap();
    whole.next(&records[1]).unwrap();
    assert_eq!(passed_on, whole.finalize().unwrap());
    let mut text = TxtBuilder::new(b"x".to_vec()).unwrap();
    assert_eq!(text.drain(), b"x".to_vec());
    text.next(&records[0]).unwrap();
    assert_eq!(text.drain(), b"https://a.example/\n".to_vec());
    assert_eq!(text.written_bytes(), 19);
    assert_eq!(text.finalize().unwrap(), Vec::<u8>::new());
}
