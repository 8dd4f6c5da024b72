use sitemaps::attribute::{Attribute, ChangeFrequency, LastModified, Location, Priority};
use sitemaps::build::{IteratorBuilder, TxtBuilder, XmlBuilder};
use sitemaps::limits::{BYTES_LIMIT, RECORDS_LIMIT};
use sitemaps::parse::xml::{
    blank, decode_index, decode_sitemap, first_event, names_tag, next_event, read_entry,
    read_text, RawEntry,
};
use sitemaps::parse::{Parser, ParserStat, TxtParser, TxtParserError, XmlParser, XmlParserError};
use sitemaps::xml::XmlEventKind;
use sitemaps::{IndexRecord, Record, SitemapRecord};

fn record(link: &str) -> SitemapRecord {
    SitemapRecord::new(Location::parse(link).unwrap())
}

fn all_text(source: &str) -> Result<Vec<SitemapRecord>, TxtParserError> {
    let mut parser = TxtParser::new(source.as_bytes().to_vec()).unwrap();
    let mut records = Vec::new();
    while let Some(record) = parser.next()? {
        records.push(record);
    }
    assert_eq!(parser.finalize().unwrap(), source.as_bytes());
    Ok(records)
}

fn all_xml(source: &str) -> Result<Vec<SitemapRecord>, XmlParserError> {
    let mut parser = XmlParser::<SitemapRecord>::new(source.as_bytes().to_vec()).unwrap();
    let mut records = Vec::new();
    while let Some(record) = parser.next()? {
        records.push(record);
    }
    assert_eq!(parser.next(), Ok(None));
    assert_eq!(parser.finalize().unwrap(), source.as_bytes());
    Ok(records)
}

fn all_index(source: &str) -> Result<Vec<IndexRecord>, XmlParserError> {
    let mut parser = XmlParser::<IndexRecord>::new(source.as_bytes().to_vec()).unwrap();
    let mut records = Vec::new();
    while let Some(record) = parser.next()? {
        records.push(record);
    }
    Ok(records)
}

#[test]
fn foo() {
    // Pretend it's our reader.
    let buffer = "https://example.com/".as_bytes().to_vec();

    let mut parser = XmlParser::<SitemapRecord>::new(buffer).unwrap();

    while let Some(record) = parser.next().ok().flatten() {
        println!("{}", record.location.to_string());
    }

    parser.finalize().unwrap();
}

#[test]
fn text_parser_skips_the_malformed_line() {
    let records = all_text("https://a.example/\nnot a url\nhttps://b.example/\n").unwrap();
    assert_eq!(records, vec![record("https://a.example/"), record("https://b.example/")]);
}

#[test]
fn text_parser_reads_what_the_builder_wrote() {
    let records = vec![record("https://a.example/"), record("https://b.example/x?y=1&z=2")];
    let built = TxtBuilder::build(Vec::new(), &records).unwrap();
    let read = all_text(std::str::from_utf8(&built).unwrap()).unwrap();
    assert_eq!(read, records);
}

#[test]
fn text_parser_counts_every_unit() {
    let source = "https://a.example/\n\n  \nnope\nhttps://b.example/";
    let mut parser = TxtParser::new(source.as_bytes().to_vec()).unwrap();
    assert_eq!(parser.read_bytes(), 0);
    assert_eq!(parser.read_records(), 0);
    assert_eq!(parser.next().unwrap(), Some(record("https://a.example/")));
    assert_eq!(parser.read_bytes(), 19);
    assert_eq!(parser.read_records(), 1);
    assert_eq!(parser.next().unwrap(), Some(record("https://b.example/")));
    assert_eq!(parser.read_bytes(), source.len());
    assert_eq!(parser.read_records(), 5);
    assert_eq!(parser.next().unwrap(), None);
    assert_eq!(parser.next().unwrap(), None);
    assert_eq!(parser.read_records(), 5);
    assert!(parser.is_ok());
    assert_eq!(parser.bytes_until_limit(), BYTES_LIMIT - source.len());
    assert_eq!(parser.records_until_limit(), RECORDS_LIMIT - 5);
}

#[test]
fn text_parser_try_next_tells_of_the_malformed_line() {
    let source = "nope\r\nhttps://a.example/\r\n\u{00e4}\n";
    let mut parser = TxtParser::new(source.as_bytes().to_vec()).unwrap();
    assert_eq!(parser.try_next(), Err(TxtParserError::IncorrectFormat));
    assert_eq!(parser.read_bytes(), 6);
    assert_eq!(parser.try_next(), Ok(Some(Location::parse("https://a.example/").unwrap())));
    assert_eq!(parser.try_next(), Err(TxtParserError::IncorrectFormat));
    assert_eq!(parser.try_next(), Ok(None));
    assert_eq!(parser.read_records(), 3);
}

#[test]
fn text_parser_of_nothing_finds_nothing() {
    assert_eq!(all_text(""), Ok(Vec::new()));
    assert_eq!(all_text("\n\n\n"), Ok(Vec::new()));
}

#[test]
fn text_parser_passes_over_what_is_no_utf8() {
    let mut source = b"https://a.example/\n".to_vec();
    source.extend_from_slice(&[0xff, 0xfe, b'\n']);
    source.extend_from_slice(b"https://b.example/\n");
    let mut parser = TxtParser::new(source).unwrap();
    assert_eq!(parser.next().unwrap(), Some(record("https://a.example/")));
    assert_eq!(parser.next().unwrap(), Some(record("https://b.example/")));
    assert_eq!(parser.next().unwrap(), None);
    assert_eq!(parser.read_records(), 3);
}

#[test]
fn text_parser_skips_a_line_past_the_length_limit() {
    let mut line = String::from("https://example.com/");
    while line.len() < 5_000 {
        line.push('a');
    }
    let source = format!("{line}\nhttps://b.example/\n");
    let mut parser = TxtParser::new(source.into_bytes()).unwrap();
    assert_eq!(parser.next().unwrap(), Some(record("https://b.example/")));
    assert_eq!(parser.read_records(), 2);
    assert_eq!(parser.read_bytes(), 5_001 + 19);
    assert_eq!(parser.next().unwrap(), None);
    let mut fitting = String::from("https://example.com/");
    while fitting.len() < 2_047 {
        fitting.push('a');
    }
    let source = format!("{fitting}\n{fitting}a\n{fitting}");
    let mut parser = TxtParser::new(source.into_bytes()).unwrap();
    assert_eq!(parser.try_next().unwrap().unwrap().as_str(), fitting.as_str());
    assert_eq!(parser.try_next(), Err(TxtParserError::IncorrectFormat));
    assert_eq!(parser.try_next().unwrap().unwrap().as_str(), fitting.as_str());
    assert_eq!(parser.try_next(), Ok(None));
    assert_eq!(parser.read_records(), 3);
}

#[test]
fn text_parser_stops_at_the_record_limit() {
    let mut source = String::new();
    for _ in 0..RECORDS_LIMIT {
        source.push_str("https://a.example/\n");
    }
    let exact = source.clone();
    source.push_str("https://b.example/\n");
    let mut parser = TxtParser::new(source.into_bytes()).unwrap();
    for _ in 0..RECORDS_LIMIT {
        assert!(parser.next().unwrap().is_some());
    }
    assert_eq!(parser.next(), Err(TxtParserError::TooManyRecords));
    assert_eq!(parser.next(), Err(TxtParserError::TooManyRecords));
    assert_eq!(parser.read_records(), RECORDS_LIMIT);
    assert!(!parser.is_ok());
    assert_eq!(all_text(exact.as_str()).unwrap().len(), RECORDS_LIMIT);
}

#[test]
fn text_parser_stops_at_the_byte_limit() {
    let mut line = String::from("https://example.com/");
    while line.len() < 2_047 {
        line.push('a');
    }
    line.push('\n');
    let fitting = BYTES_LIMIT / 2_048;
    let mut source = line.repeat(fitting);
    source.push_str("https://b.example/\n");
    let mut parser = TxtParser::new(source.into_bytes()).unwrap();
    for _ in 0..fitting {
        assert!(parser.next().unwrap().is_some());
    }
    assert_eq!(parser.read_bytes(), BYTES_LIMIT);
    assert_eq!(parser.next(), Err(TxtParserError::TooManyBytes(19)));
    assert_eq!(parser.read_bytes(), BYTES_LIMIT);
    assert_eq!(parser.read_records(), fitting);
}

fn sample(count: usize) -> Vec<SitemapRecord> {
    let mut records = Vec::new();
    for i in 0..count {
        let mut made = record(format!("https://example.com/page/{i}?a=1&b=2").as_str());
        if i % 2 == 0 {
            made.with_timestamp(
                LastModified::parse(format!("2023-01-{:02}T10:00:00.25+02:00", i % 28 + 1).as_str())
                    .unwrap(),
            );
        }
        if i % 3 == 0 {
            made.with_frequency(ChangeFrequency::Monthly);
        }
        if i % 5 == 0 {
            made.with_priority(Priority::new((i as i32 % 21 - 10) * 100_000).unwrap());
        }
        records.push(made);
    }
    records
}

#[test]
fn xml_round_trip_of_no_record() {
    let built = XmlBuilder::<SitemapRecord>::build(Vec::new(), &[]).unwrap();
    assert_eq!(all_xml(std::str::from_utf8(&built).unwrap()), Ok(Vec::new()));
}

#[test]
fn xml_round_trip_of_one_record() {
    let records = sample(1);
    let built = XmlBuilder::<SitemapRecord>::build(Vec::new(), &records).unwrap();
    assert_eq!(all_xml(std::str::from_utf8(&built).unwrap()), Ok(records));
}

#[test]
fn xml_round_trip_of_a_hundred_records() {
    let records = sample(100);
    let built = XmlBuilder::<SitemapRecord>::build(Vec::new(), &records).unwrap();
    let read = all_xml(std::str::from_utf8(&built).unwrap()).unwrap();
    assert_eq!(read.len(), 100);
    assert_eq!(read, records);
}

#[test]
fn xml_index_round_trip() {
    let mut dated = IndexRecord::new(Location::parse("https://example.com/1.xml").unwrap());
    dated.with_timestamp(LastModified::parse("2004-10-01T18:23:17+00:00").unwrap());
    let plain = IndexRecord::new(Location::parse("https://example.com/2.xml?x='y'").unwrap());
    let records = vec![dated, plain];
    let built = XmlBuilder::<IndexRecord>::build(Vec::new(), &records).unwrap();
    assert_eq!(all_index(std::str::from_utf8(&built).unwrap()), Ok(records));
}

#[test]
fn xml_parser_reads_a_document_as_it_is_written_by_hand() {
    let source = r#"<?xml version="1.0" encoding="UTF-8"?>
        <!-- a sitemap -->
        <urlset xmlns="https://www.sitemaps.org/schemas/sitemap/0.9">
            <url>
                <loc>https://example.com/</loc>
                <lastmod>2023-01-10T22:11:17.000-05:00</lastmod>
                <changefreq>daily</changefreq>
                <priority>0.8</priority>
            </url>
            <url>
                <priority> 0.5 </priority>
                <changefreq>
                    Weekly
                </changefreq>
                <lastmod> 2023-01-11 </lastmod>
                <loc><![CDATA[https://example.com/?a=1&b=2]]></loc>
            </url>
            <url><loc>https://example.com/?a=1&amp;b=2&#38;c=&#x33;</loc></url>
            <url><loc>https://example.com/<!-- inside -->path</loc></url>
        </urlset>
    "#;
    let records = all_xml(source).unwrap();
    assert_eq!(records.len(), 4);
    let mut first = record("https://example.com/");
    first
        .with_timestamp(LastModified::parse("2023-01-10T22:11:17-05:00").unwrap())
        .with_frequency(ChangeFrequency::Daily)
        .with_priority(Priority::new(800_000).unwrap());
    assert_eq!(records[0], first);
    let mut second = record("https://example.com/?a=1&b=2");
    second
        .with_timestamp(LastModified::parse("2023-01-11").unwrap())
        .with_frequency(ChangeFrequency::Weekly)
        .with_priority(Priority::new(500_000).unwrap());
    assert_eq!(records[1], second);
    assert_eq!(records[2], record("https://example.com/?a=1&b=2&c=3"));
    assert_eq!(records[3], record("https://example.com/path"));
}

#[test]
fn xml_parser_skips_the_units_that_stand_for_no_record() {
    let source = "<urlset>\
        <url><loc>https://a.example/</loc></url>\
        <url><loc>not a url</loc></url>\
        <url><loc>https://b.example/</loc><priority>1.5</priority></url>\
        <url><loc>https://c.example/</loc><changefreq>sometimes</changefreq></url>\
        <url><loc>https://d.example/</loc><lastmod>yesterday</lastmod></url>\
        <url><lastmod>2023-01-10</lastmod></url>\
        <url></url>\
        <url/>\
        <url><loc/></url>\
        <url><loc>https://e.example/</loc><priority/></url>\
        <url><loc>https://f.example/</loc></url>\
        </urlset>";
    let mut parser = XmlParser::<SitemapRecord>::new(source.as_bytes().to_vec()).unwrap();
    assert_eq!(parser.next(), Ok(Some(record("https://a.example/"))));
    assert_eq!(parser.read_records(), 1);
    assert_eq!(parser.read_bytes(), "<url><loc>https://a.example/</loc></url>".len());
    assert_eq!(parser.next(), Ok(Some(record("https://f.example/"))));
    assert_eq!(parser.read_records(), 11);
    assert_eq!(parser.next(), Ok(None));
    assert_eq!(parser.read_bytes(), source.len() - "<urlset></urlset>".len());
    assert!(parser.is_ok());
}

#[test]
fn xml_parser_try_next_tells_of_the_skipped_unit() {
    let source = "<urlset><url><loc>nope</loc></url><url><loc>https://a.example/</loc></url></urlset>";
    let mut parser = XmlParser::<SitemapRecord>::new(source.as_bytes().to_vec()).unwrap();
    assert_eq!(parser.try_next(), Err(XmlParserError::IncorrectFormat));
    assert_eq!(parser.read_records(), 1);
    assert_eq!(parser.try_next(), Ok(Some(record("https://a.example/"))));
    assert_eq!(parser.try_next(), Ok(None));
    assert_eq!(parser.try_next(), Ok(None));
    let mut index = XmlParser::<IndexRecord>::new(
        b"<sitemapindex><sitemap><loc>nope</loc></sitemap></sitemapindex>".to_vec(),
    )
    .unwrap();
    assert_eq!(index.try_next(), Err(XmlParserError::IncorrectFormat));
    assert_eq!(index.try_next(), Ok(None));
}

#[test]
fn xml_parser_ends_on_what_is_out_of_place() {
    let malformed = [
        "",
        "   ",
        "https://example.com/",
        "<urlset>",
        "<urlset><url>",
        "<urlset><url><loc>https://a.example/</loc>",
        "<urlset><url><loc>https://a.example/</url></urlset>",
        "<urlset><url><loc>https://a.example/</loc></urlset>",
        "<urlset><url><loc>https://a.example/</loc><loc>https://b.example/</loc></url></urlset>",
        "<urlset><url><loc>https://a.example/</loc><image>x</image></url></urlset>",
        "<urlset><url><loc>https://a.example/<b>x</b></loc></url></urlset>",
        "<urlset><url>text<loc>https://a.example/</loc></url></urlset>",
        "<urlset><sitemap><loc>https://a.example/</loc></sitemap></urlset>",
        "<urlset>text</urlset>",
        "<urlset></urlset><urlset></urlset>",
        "<urlset></urlset>text",
        "<sitemapindex></sitemapindex>",
        "<urlset><url><loc>https://a.example/?a&b;</loc></url></urlset>",
        "<urlset><url><loc>https://a.example/?a& b</loc></url></urlset>",
        "<urlset><url><loc>https://a.example/</loc></url></urlsets>",
        "</urlset>",
        "<urlset",
    ];
    for source in malformed {
        assert_eq!(all_xml(source), Err(XmlParserError::Malformed), "{source}");
    }
    assert_eq!(
        all_index("<sitemapindex><sitemap><loc>https://a.example/</loc><priority>1</priority></sitemap></sitemapindex>"),
        Err(XmlParserError::Malformed)
    );
    assert_eq!(all_index("<urlset></urlset>"), Err(XmlParserError::Malformed));
}

#[test]
fn xml_parser_keeps_the_records_before_what_is_out_of_place() {
    let source = "<urlset><url><loc>https://a.example/</loc></url><oops/></urlset>";
    let mut parser = XmlParser::<SitemapRecord>::new(source.as_bytes().to_vec()).unwrap();
    assert_eq!(parser.next(), Ok(Some(record("https://a.example/"))));
    assert_eq!(parser.next(), Err(XmlParserError::Malformed));
    assert_eq!(parser.next(), Err(XmlParserError::Malformed));
    assert_eq!(parser.read_records(), 1);
}

#[test]
fn xml_parser_takes_an_empty_root() {
    assert_eq!(all_xml("<urlset/>"), Ok(Vec::new()));
    assert_eq!(all_xml("\u{feff}<urlset xmlns=\"x\"></urlset>\n<!-- end -->\n"), Ok(Vec::new()));
    assert_eq!(all_index(" <sitemapindex />"), Ok(Vec::new()));
}

#[test]
fn xml_parser_stops_at_the_record_limit() {
    let one = record("https://a.example/");
    let records = vec![one.clone(); RECORDS_LIMIT];
    let built = XmlBuilder::<SitemapRecord>::build(Vec::new(), &records).unwrap();
    let mut source = String::from_utf8(built).unwrap();
    assert_eq!(all_xml(source.as_str()).unwrap().len(), RECORDS_LIMIT);
    let end = source.len() - "</urlset>".len();
    source.insert_str(end, "<url><loc>https://b.example/</loc></url>");
    let mut parser = XmlParser::<SitemapRecord>::new(source.into_bytes()).unwrap();
    for _ in 0..RECORDS_LIMIT {
        assert_eq!(parser.next(), Ok(Some(one.clone())));
    }
    let bytes = parser.read_bytes();
    assert_eq!(parser.next(), Err(XmlParserError::TooManyRecords));
    assert_eq!(parser.next(), Err(XmlParserError::TooManyRecords));
    assert_eq!(parser.read_records(), RECORDS_LIMIT);
    assert_eq!(parser.read_bytes(), bytes);
}

#[test]
fn xml_parser_stops_at_the_byte_limit() {
    let mut link = String::from("https://example.com/");
    while link.len() < 2_048 - "<url><loc></loc></url>".len() {
        link.push('a');
    }
    let unit = format!("<url><loc>{link}</loc></url>");
    assert_eq!(unit.len(), 2_048);
    let fitting = BYTES_LIMIT / 2_048;
    let source = format!(
        "<urlset>{}<url><loc>https://b.example/</loc></url></urlset>",
        unit.repeat(fitting)
    );
    let mut parser = XmlParser::<SitemapRecord>::new(source.into_bytes()).unwrap();
    for _ in 0..fitting {
        assert!(parser.next().unwrap().is_some());
    }
    assert_eq!(parser.read_bytes(), BYTES_LIMIT);
    let excess = "<url><loc>https://b.example/</loc></url>".len();
    assert_eq!(parser.next(), Err(XmlParserError::TooManyBytes(excess)));
    assert_eq!(parser.read_bytes(), BYTES_LIMIT);
    assert_eq!(parser.read_records(), fitting);
}

#[test]
fn events_are_read_one_by_one() {
    let source = b"<a x=\"1\">t&amp;<![CDATA[c]]><!--k--></a><b/> ";
    let start = next_event(source, 0);
    assert_eq!((start.kind, start.content.as_str(), start.end), (XmlEventKind::Start, "a x=\"1\"", 9));
    let text = next_event(source, 9);
    assert_eq!((text.kind, text.content.as_str(), text.end), (XmlEventKind::Text, "t", 10));
    let reference = next_event(source, 10);
    assert_eq!(
        (reference.kind, reference.content.as_str(), reference.end),
        (XmlEventKind::Reference, "amp", 15)
    );
    let cdata = next_event(source, 15);
    assert_eq!((cdata.kind, cdata.content.as_str(), cdata.end), (XmlEventKind::CData, "c", 28));
    let comment = next_event(source, 28);
    assert_eq!((comment.kind, comment.end), (XmlEventKind::Other, 36));
    let end = next_event(source, 36);
    assert_eq!((end.kind, end.content.as_str(), end.end), (XmlEventKind::End, "a", 40));
    let empty = next_event(source, 40);
    assert_eq!((empty.kind, empty.content.as_str(), empty.end), (XmlEventKind::Empty, "b", 44));
    let blank_text = next_event(source, 44);
    assert_eq!((blank_text.kind, blank_text.end), (XmlEventKind::Text, 45));
    assert_eq!(next_event(source, 45).kind, XmlEventKind::Eof);
    assert_eq!(next_event(b"<a", 0).kind, XmlEventKind::Malformed);
    let (at, found) = first_event(b" <!--x--> \n<a>", 0);
    assert_eq!((at, found.kind, found.end), (11, XmlEventKind::Start, 14));
}

#[test]
fn tags_are_told_by_their_names() {
    assert!(names_tag("url", "url"));
    assert!(names_tag("url a=\"b\"", "url"));
    assert!(names_tag("url\n", "url"));
    assert!(!names_tag("urlset", "url"));
    assert!(!names_tag("ur", "url"));
    assert!(!names_tag("", "url"));
    assert!(!names_tag("Url", "url"));
    assert!(!names_tag("x:url", "url"));
    assert!(blank(""));
    assert!(blank(" \t\r\n"));
    assert!(!blank(" x "));
    assert!(!blank("\u{a0}"));
}

#[test]
fn element_text_is_gathered_up_to_the_end_tag() {
    let source = b"a&lt;b<!--c--><![CDATA[<d>]]></loc>rest";
    assert_eq!(read_text(source, 0, "loc"), Some((String::from("a<b<d>"), 35)));
    assert_eq!(read_text(source, 0, "lastmod"), None);
    assert_eq!(read_text(b"a<b>c</b></loc>", 0, "loc"), None);
    assert_eq!(read_text(b"a&nope;</loc>", 0, "loc"), None);
    assert_eq!(read_text(b"abc", 0, "loc"), None);
    assert_eq!(read_text(b"</loc >", 0, "loc"), Some((String::new(), 7)));
}

#[test]
fn entries_are_read_into_their_texts() {
    let source = b" <loc>l</loc><priority>p</priority><lastmod/></url>";
    let (raw, end) = read_entry(source, 0, "url", false).unwrap();
    assert_eq!(end, source.len());
    assert_eq!(
        raw,
        RawEntry {
            location: Some(String::from("l")),
            last_modified: Some(String::new()),
            change_frequency: None,
            priority: Some(String::from("p")),
        }
    );
    assert_eq!(read_entry(source, 0, "url", true), None);
    assert_eq!(read_entry(source, 0, "sitemap", false), None);
    assert_eq!(read_entry(b"<loc>a</loc><loc>b</loc></url>", 0, "url", false), None);
}

#[test]
fn entries_are_decoded_by_the_attributes() {
    let mut raw = RawEntry::new();
    assert_eq!(decode_sitemap(&raw), None);
    assert_eq!(decode_index(&raw), None);
    raw.location = Some(String::from("https://example.com/"));
    assert_eq!(decode_sitemap(&raw), Some(record("https://example.com/")));
    raw.last_modified = Some(String::from("\n2023-01-10\n"));
    raw.priority = Some(String::from(" 1 "));
    raw.change_frequency = Some(String::from(" NEVER "));
    let decoded = decode_sitemap(&raw).unwrap();
    assert_eq!(decoded.last_modified, Some(LastModified::parse("2023-01-10").unwrap()));
    assert_eq!(decoded.priority, Some(Priority::highest()));
    assert_eq!(decoded.change_frequency, Some(ChangeFrequency::Never));
    assert_eq!(decode_index(&raw).unwrap().last_modified, decoded.last_modified);
    raw.priority = Some(String::from("2"));
    assert_eq!(decode_sitemap(&raw), None);
    assert!(decode_index(&raw).is_some());
}
