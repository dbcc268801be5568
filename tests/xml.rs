use define3::parse_xml::{for_pages, parse_page, PageReader, ReaderPhase, XmlEvent};

fn start(n: &str) -> XmlEvent {
    XmlEvent::Start(n.to_string())
}

fn end(n: &str) -> XmlEvent {
    XmlEvent::End(n.to_string())
}

fn text(t: &str) -> XmlEvent {
    XmlEvent::Text(t.to_string())
}

fn page_events(title: Option<&str>, body: Option<&str>) -> Vec<XmlEvent> {
    let mut v = vec![start("page")];
    if let Some(t) = title {
        v.extend(vec![start("title"), text(t), end("title")]);
    }
    v.extend(vec![start("revision"), start("id"), text("7"), end("id")]);
    if let Some(b) = body {
        v.extend(vec![start("text"), text(b), end("text")]);
    }
    v.extend(vec![end("revision"), end("page")]);
    v
}

#[test]
fn reads_pages_in_order() {
    let mut evs = vec![start("mediawiki"), XmlEvent::Other];
    evs.extend(page_events(Some("cat"), Some("==English==")));
    evs.extend(page_events(Some("dog"), Some("# woof")));
    evs.push(end("mediawiki"));
    evs.push(XmlEvent::Eof);
    let pages = for_pages(&evs);
    assert_eq!(pages.len(), 2);
    assert_eq!(pages[0].title, "cat");
    assert_eq!(pages[0].content, "==English==");
    assert_eq!(pages[1].title, "dog");
    assert_eq!(pages[1].content, "# woof");
}

#[test]
fn skips_pages_without_title_or_body() {
    let mut evs = page_events(None, Some("body"));
    evs.extend(page_events(Some("title only"), None));
    evs.extend(page_events(Some("ok"), Some("yes")));
    let pages = for_pages(&evs);
    assert_eq!(pages.len(), 1);
    assert_eq!(pages[0].title, "ok");
}

#[test]
fn end_of_stream_stops_reading() {
    let mut evs = page_events(Some("a"), Some("x"));
    evs.push(XmlEvent::Eof);
    evs.extend(page_events(Some("b"), Some("y")));
    let pages = for_pages(&evs);
    assert_eq!(pages.len(), 1);
    assert_eq!(pages[0].title, "a");
}

#[test]
fn last_revision_gives_body() {
    let evs = vec![
        start("title"),
        text("t"),
        end("title"),
        start("revision"),
        start("text"),
        text("old"),
        end("text"),
        end("revision"),
        start("revision"),
        start("text"),
        text("new"),
        end("text"),
        end("revision"),
        end("page"),
        start("page"),
    ];
    let p = parse_page(&evs).expect("a page");
    assert_eq!(p.title, "t");
    assert_eq!(p.content, "new");
}

#[test]
fn unfinished_page_yields_nothing() {
    let evs = vec![start("title"), text("t"), end("title")];
    assert!(parse_page(&evs).is_none());
}

#[test]
fn reader_phases() {
    let mut r = PageReader::new();
    assert_eq!(r.phase(), ReaderPhase::Outside);
    assert!(r.feed(start("page")).is_none());
    assert_eq!(r.phase(), ReaderPhase::InPage);
    assert!(r.feed(start("title")).is_none());
    assert_eq!(r.phase(), ReaderPhase::AwaitTitle);
    r.feed(text("x"));
    r.feed(end("title"));
    r.feed(start("revision"));
    assert_eq!(r.phase(), ReaderPhase::InRevision);
    r.feed(start("text"));
    assert_eq!(r.phase(), ReaderPhase::AwaitText);
    r.feed(text("body"));
    r.feed(end("text"));
    r.feed(end("revision"));
    let p = r.feed(end("page")).expect("a page");
    assert_eq!((p.title.as_str(), p.content.as_str()), ("x", "body"));
    assert!(r.feed(XmlEvent::Eof).is_none());
    assert_eq!(r.phase(), ReaderPhase::Finished);
}
