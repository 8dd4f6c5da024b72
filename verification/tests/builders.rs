use sitemaps::attribute::{Attribute, ChangeFrequency, LastModified, Location, Priority};
use sitemaps::build::{
    Builder, BuilderStat, IteratorBuilder, StringBuilder, TxtBuilder, TxtBuilderError, XmlBuilder,
    XmlBuilderError,
};
use sitemaps::limits::{
    assess, bytes_until_limit, over_limit, records_until_limit, until_limit, within_limits,
    Admission, BYTES_LIMIT, RECORDS_LIMIT, RESOURCE_LENGTH_LIMIT,
};
use sitemaps::{IndexRecord, Record, SitemapRecord};

fn record(link: &str) -> SitemapRecord {
    SitemapRecord::new(Location::parse(link).unwrap())
}

fn index_record(link: &str) -> IndexRecord {
    IndexRecord::new(Location::parse(link).unwrap())
}

const BOM: &str = "\u{feff}";
const URLSET: &str = "<urlset xmlns=\"http://www.sitemaps.org/schemas/sitemap/0.9\">";
const SITEMAPINDEX: &str = "<sitemapindex xmlns=\"http://www.sitemaps.org/schemas/sitemap/0.9\">";

#[test]
fn limits_are_those_of_the_protocol() {
    assert_eq!(RECORDS_LIMIT, 50_000);
    assert_eq!(BYTES_LIMIT, 52_428_800);
    assert_eq!(BYTES_LIMIT, 50 * 1024 * 1024);
    assert_eq!(RESOURCE_LENGTH_LIMIT, 2_048);
}

#[test]
fn limit_arithmetic_saturates() {
    assert_eq!(until_limit(10, 3), 7);
    assert_eq!(until_limit(10, 10), 0);
    assert_eq!(until_limit(10, 11), 0);
    assert_eq!(over_limit(10, 3), 0);
    assert_eq!(over_limit(10, 10), 0);
    assert_eq!(over_limit(10, 12), 2);
    assert_eq!(bytes_until_limit(0), BYTES_LIMIT);
    assert_eq!(bytes_until_limit(BYTES_LIMIT - 1), 1);
    assert_eq!(bytes_until_limit(usize::MAX), 0);
    assert_eq!(records_until_limit(49_999), 1);
    assert_eq!(records_until_limit(50_000), 0);
    assert!(within_limits(0, 0));
    assert!(within_limits(BYTES_LIMIT - 1, RECORDS_LIMIT - 1));
    assert!(!within_limits(BYTES_LIMIT, 0));
    assert!(!within_limits(0, RECORDS_LIMIT));
}

#[test]
fn assess_checks_records_first_and_bytes_with_the_unit() {
    assert_eq!(assess(0, 0, 0), Admission::Accepted);
    assert_eq!(assess(0, 0, BYTES_LIMIT), Admission::Accepted);
    assert_eq!(assess(0, 0, BYTES_LIMIT + 1), Admission::TooManyBytes(1));
    assert_eq!(assess(BYTES_LIMIT, 0, 0), Admission::Accepted);
    assert_eq!(assess(BYTES_LIMIT, 0, 7), Admission::TooManyBytes(7));
    assert_eq!(assess(100, RECORDS_LIMIT - 1, 20), Admission::Accepted);
    assert_eq!(assess(100, RECORDS_LIMIT, 20), Admission::TooManyRecords);
    assert_eq!(assess(BYTES_LIMIT, RECORDS_LIMIT, 20), Admission::TooManyRecords);
    assert_eq!(assess(0, 0, usize::MAX), Admission::TooManyBytes(usize::MAX - BYTES_LIMIT));
    assert_eq!(assess(BYTES_LIMIT + 5, 0, 0), Admission::TooManyBytes(5));
    assert_eq!(assess(BYTES_LIMIT + 5, 0, 7), Admission::TooManyBytes(12));
    assert_eq!(assess(usize::MAX, 0, usize::MAX), Admission::TooManyBytes(usize::MAX));
    assert_eq!(assess(usize::MAX, RECORDS_LIMIT, 1), Admission::TooManyRecords);
}

#[test]
fn text_sitemap_of_two_records() {
    let records = vec![record("https://a.example/"), record("https://b.example/")];
    let built = TxtBuilder::build(Vec::new(), &records).unwrap();
    assert_eq!(built, b"https://a.example/\nhttps://b.example/\n".to_vec());
    let text = TxtBuilder::build_string(&records).unwrap();
    assert_eq!(text, "https://a.example/\nhttps://b.example/\n");
}

#[test]
fn text_builder_step_by_step() {
    let mut builder = TxtBuilder::new(b"# kept\n".to_vec()).unwrap();
    assert_eq!(builder.written_bytes(), 0);
    assert_eq!(builder.written_records(), 0);
    assert!(builder.is_ok());
    builder.next(&record("https://example.com/")).unwrap();
    assert_eq!(builder.written_bytes(), 21);
    assert_eq!(builder.written_records(), 1);
    assert_eq!(builder.bytes_until_limit(), BYTES_LIMIT - 21);
    assert_eq!(builder.records_until_limit(), RECORDS_LIMIT - 1);
    builder.next(&record("https://example.com/ä")).unwrap();
    assert_eq!(builder.written_records(), 2);
    let sink = builder.finalize().unwrap();
    assert_eq!(sink, b"# kept\nhttps://example.com/\nhttps://example.com/%C3%A4\n".to_vec());
}

#[test]
fn text_builder_of_nothing_writes_nothing() {
    let none: Vec<SitemapRecord> = Vec::new();
    assert_eq!(TxtBuilder::build(Vec::new(), &none), Ok(Vec::new()));
    assert_eq!(TxtBuilder::build(vec![1, 2, 3], &none), Ok(vec![1, 2, 3]));
    assert_eq!(TxtBuilder::build_string(&none), Ok(String::new()));
}

#[test]
fn text_builder_refuses_the_record_past_the_limit() {
    let one = record("https://a.example/");
    let mut builder = TxtBuilder::new(Vec::new()).unwrap();
    for _ in 0..RECORDS_LIMIT {
        builder.next(&one).unwrap();
    }
    assert_eq!(builder.written_records(), RECORDS_LIMIT);
    assert_eq!(builder.records_until_limit(), 0);
    assert!(!builder.is_ok());
    let bytes = builder.written_bytes();
    assert_eq!(bytes, RECORDS_LIMIT * 19);
    assert_eq!(builder.next(&one), Err(TxtBuilderError::TooManyRecords));
    assert_eq!(builder.next(&one), Err(TxtBuilderError::TooManyRecords));
    assert_eq!(builder.written_records(), RECORDS_LIMIT);
    assert_eq!(builder.written_bytes(), bytes);
    let sink = builder.finalize().unwrap();
    assert_eq!(sink.len(), bytes);
}

#[test]
fn text_build_ends_at_the_first_refusal() {
    let one = record("https://a.example/");
    let records = vec![one; RECORDS_LIMIT + 1];
    assert_eq!(TxtBuilder::build(Vec::new(), &records), Err(TxtBuilderError::TooManyRecords));
    assert!(TxtBuilder::build(Vec::new(), &records[..RECORDS_LIMIT]).is_ok());
}

fn long_record() -> SitemapRecord {
    let mut link = String::from("https://example.com/");
    while link.len() < 2_047 {
        link.push('a');
    }
    record(link.as_str())
}

#[test]
fn text_builder_refuses_the_bytes_past_the_limit() {
    let long = long_record();
    assert_eq!(long.location.as_str().len(), 2_047);
    let mut builder = TxtBuilder::new(Vec::new()).unwrap();
    let fitting = BYTES_LIMIT / 2_048;
    for _ in 0..fitting {
        builder.next(&long).unwrap();
    }
    assert_eq!(builder.written_bytes(), BYTES_LIMIT);
    assert_eq!(builder.bytes_until_limit(), 0);
    assert!(!builder.is_ok());
    assert_eq!(builder.next(&long), Err(TxtBuilderError::TooManyBytes(2_048)));
    assert_eq!(builder.next(&record("https://a.example/")), Err(TxtBuilderError::TooManyBytes(19)));
    assert_eq!(builder.written_bytes(), BYTES_LIMIT);
    assert_eq!(builder.written_records(), fitting);
    assert_eq!(builder.finalize().unwrap().len(), BYTES_LIMIT);
}

#[test]
fn xml_sitemap_of_nothing() {
    let none: Vec<SitemapRecord> = Vec::new();
    let text = XmlBuilder::<SitemapRecord>::build_string(&none).unwrap();
    assert_eq!(text, format!("{BOM}{URLSET}</urlset>"));
    let none: Vec<IndexRecord> = Vec::new();
    let text = XmlBuilder::<IndexRecord>::build_string(&none).unwrap();
    assert_eq!(text, format!("{BOM}{SITEMAPINDEX}</sitemapindex>"));
}

#[test]
fn xml_sitemap_writes_the_attributes_in_order() {
    let mut full = record("https://example.com/?a=1&b=<2>");
    full.with_timestamp(LastModified::parse("2023-01-10T22:11:17.000-05:00").unwrap())
        .with_frequency(ChangeFrequency::parse("daily").unwrap())
        .with_priority(Priority::parse("0.8").unwrap());
    let mut partial = record("https://example.com/it's");
    partial.with_priority(Priority::parse("-1").unwrap());
    let text = XmlBuilder::<SitemapRecord>::build_string(&[full, partial]).unwrap();
    let expected = format!(
        "{BOM}{URLSET}\
         <url><loc>https://example.com/?a=1&amp;b=%3C2%3E</loc>\
         <lastmod>2023-01-10T22:11:17.00-05:00</lastmod>\
         <changefreq>daily</changefreq>\
         <priority>0.8</priority></url>\
         <url><loc>https://example.com/it&apos;s</loc><priority>-1</priority></url>\
         </urlset>"
    );
    assert_eq!(text, expected);
}

#[test]
fn xml_index_writes_location_and_timestamp() {
    let mut dated = index_record("https://example.com/sitemap1.xml");
    dated.with_timestamp(LastModified::parse("2023-01-10").unwrap());
    let plain = index_record("https://example.com/sitemap2.xml");
    let built = XmlBuilder::<IndexRecord>::build(Vec::new(), &[dated, plain]).unwrap();
    let expected = format!(
        "{BOM}{SITEMAPINDEX}\
         <sitemap><loc>https://example.com/sitemap1.xml</loc>\
         <lastmod>2023-01-10T00:00:00.00Z</lastmod></sitemap>\
         <sitemap><loc>https://example.com/sitemap2.xml</loc></sitemap>\
         </sitemapindex>"
    );
    assert_eq!(String::from_utf8(built).unwrap(), expected);
}

#[test]
fn xml_builder_step_by_step() {
    let mut builder = XmlBuilder::<SitemapRecord>::new(b"kept".to_vec()).unwrap();
    assert_eq!(builder.written_bytes(), 0);
    assert_eq!(builder.written_records(), 0);
    builder.next(&record("https://example.com/")).unwrap();
    let unit = "<url><loc>https://example.com/</loc></url>";
    assert_eq!(builder.written_bytes(), unit.len());
    assert_eq!(builder.written_records(), 1);
    assert!(builder.is_ok());
    let sink = builder.finalize().unwrap();
    assert_eq!(String::from_utf8(sink).unwrap(), format!("kept{BOM}{URLSET}{unit}</urlset>"));
}

#[test]
fn xml_builder_refuses_the_record_past_the_limit() {
    let one = record("https://a.example/");
    let mut builder = XmlBuilder::<SitemapRecord>::new(Vec::new()).unwrap();
    for _ in 0..RECORDS_LIMIT {
        builder.next(&one).unwrap();
    }
    let bytes = builder.written_bytes();
    assert_eq!(builder.next(&one), Err(XmlBuilderError::TooManyRecords));
    assert_eq!(builder.written_bytes(), bytes);
    assert_eq!(builder.written_records(), RECORDS_LIMIT);
    let sink = builder.finalize().unwrap();
    assert_eq!(sink.len(), 3 + URLSET.len() + bytes + "</urlset>".len());
    assert!(sink.ends_with(b"<url><loc>https://a.example/</loc></url></urlset>"));
}

#[test]
fn xml_builder_refuses_the_bytes_past_the_limit() {
    let long = long_record();
    let unit = long.location.as_str().len() + "<url><loc></loc></url>".len();
    let mut builder = XmlBuilder::<SitemapRecord>::new(Vec::new()).unwrap();
    let fitting = BYTES_LIMIT / unit;
    for _ in 0..fitting {
        builder.next(&long).unwrap();
    }
    let written = builder.written_bytes();
    assert_eq!(written, fitting * unit);
    let excess = written + unit - BYTES_LIMIT;
    assert_eq!(builder.next(&long), Err(XmlBuilderError::TooManyBytes(excess)));
    assert_eq!(builder.written_bytes(), written);
    assert_eq!(builder.written_records(), fitting);
    let sink = builder.finalize().unwrap();
    assert_eq!(sink.len(), 3 + URLSET.len() + written + "</urlset>".len());
}

#[test]
fn records_are_made_bare_and_filled_in() {
    let location = Location::parse("https://example.com/").unwrap();
    let mut made = SitemapRecord::new(location.clone());
    assert_eq!(made.location, location);
    assert_eq!(made.last_modified, None);
    assert_eq!(made.change_frequency, None);
    assert_eq!(made.priority, None);
    let modified = LastModified::parse("2023-01-10").unwrap();
    made.with_frequency(ChangeFrequency::Weekly).with_timestamp(modified);
    assert_eq!(made.change_frequency, Some(ChangeFrequency::Weekly));
    assert_eq!(made.last_modified, Some(modified));
    assert_eq!(made.priority, None);
    made.with_priority(Priority::highest());
    assert_eq!(made.priority, Some(Priority::highest()));
    let mut index = IndexRecord::new(location.clone());
    assert_eq!(index, IndexRecord { location, last_modified: None });
    index.with_timestamp(modified);
    assert_eq!(index.last_modified, Some(modified));
}
