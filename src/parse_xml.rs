use vstd::prelude::*;

use crate::{opt_view, Page};

verus! {

/// An event of the markup stream, as far as the page reader needs it.
#[derive(Debug)]
pub enum XmlEvent {
    /// An opening tag, by name.
    Start(String),
    /// A closing tag, by name.
    End(String),
    /// Text between tags, unescaped.
    Text(String),
    /// The end of the stream.
    Eof,
    /// Anything else: empty elements, comments, declarations.
    Other,
}

/// The view of an [`XmlEvent`].
pub enum XmlEventModel {
    Start(Seq<char>),
    End(Seq<char>),
    Text(Seq<char>),
    Eof,
    Other,
}

impl View for XmlEvent {
    type V = XmlEventModel;

    open spec fn view(&self) -> XmlEventModel {
        match self {
            XmlEvent::Start(n) => XmlEventModel::Start(n@),
            XmlEvent::End(n) => XmlEventModel::End(n@),
            XmlEvent::Text(t) => XmlEventModel::Text(t@),
            XmlEvent::Eof => XmlEventModel::Eof,
            XmlEvent::Other => XmlEventModel::Other,
        }
    }
}

/// A page as the contracts see it: its title and body.
pub type PageModel = (Seq<char>, Seq<char>);

impl View for Page {
    type V = PageModel;

    open spec fn view(&self) -> PageModel {
        (self.title@, self.content@)
    }
}

/// Where the page reader stands in the stream.
#[derive(Debug, Clone, Copy, PartialEq, Eq, Structural)]
pub enum ReaderPhase {
    /// Between pages.
    Outside,
    /// Inside a page, outside its revisions.
    InPage,
    /// Just after a title tag: the next event is the title if it is text.
    AwaitTitle,
    /// Inside a revision.
    InRevision,
    /// Just after a body text tag: the next event is the body if it is text.
    AwaitText,
    /// At the end of the stream.
    Finished,
}

/// The state of the page reader as the contracts see it: its phase, the title
/// and body of the current page so far, and the body of the current revision.
pub struct ReaderModel {
    pub phase: ReaderPhase,
    pub title: Option<Seq<char>>,
    pub content: Option<Seq<char>>,
    pub revision: Option<Seq<char>>,
}

/// A reader in the phase `phase` that has read nothing of a page.
pub open spec fn fresh(phase: ReaderPhase) -> ReaderModel {
    ReaderModel { phase, title: None, content: None, revision: None }
}

/// A reader in the phase `phase` with what it has read of the page kept.
pub open spec fn moved(s: ReaderModel, phase: ReaderPhase) -> ReaderModel {
    ReaderModel { phase, ..s }
}

/// Whether an event is an opening tag named `n`.
pub open spec fn is_start(e: XmlEventModel, n: Seq<char>) -> bool {
    e == XmlEventModel::Start(n)
}

/// Whether an event is a closing tag named `n`.
pub open spec fn is_end(e: XmlEventModel, n: Seq<char>) -> bool {
    e == XmlEventModel::End(n)
}

/// One step of the page reader: its next state, and the page it completes.
/// A page is complete at its closing tag, and yields a record only when it
/// had a title and its last revision had a body. The end of the stream ends
/// reading wherever it comes.
pub open spec fn reader_step(s: ReaderModel, e: XmlEventModel) -> (ReaderModel, Option<PageModel>) {
    if e is Eof || s.phase == ReaderPhase::Finished {
        (fresh(ReaderPhase::Finished), None)
    } else {
        match s.phase {
            ReaderPhase::Outside => if is_start(e, "page"@) {
                (fresh(ReaderPhase::InPage), None)
            } else {
                (s, None)
            },
            ReaderPhase::InPage => if is_start(e, "title"@) {
                (moved(s, ReaderPhase::AwaitTitle), None)
            } else if is_start(e, "revision"@) {
                (ReaderModel { phase: ReaderPhase::InRevision, revision: None, ..s }, None)
            } else if is_end(e, "page"@) {
                (
                    fresh(ReaderPhase::Outside),
                    match (s.title, s.content) {
                        (Some(t), Some(c)) => Some((t, c)),
                        _ => None,
                    },
                )
            } else {
                (s, None)
            },
            ReaderPhase::AwaitTitle => match e {
                XmlEventModel::Text(t) => (ReaderModel { phase: ReaderPhase::InPage, title: Some(t), ..s }, None),
                _ => (moved(s, ReaderPhase::InPage), None),
            },
            ReaderPhase::InRevision => if is_start(e, "text"@) {
                (moved(s, ReaderPhase::AwaitText), None)
            } else if is_end(e, "revision"@) {
                (ReaderModel { phase: ReaderPhase::InPage, content: s.revision, revision: None, ..s }, None)
            } else {
                (s, None)
            },
            ReaderPhase::AwaitText => match e {
                XmlEventModel::Text(t) => (ReaderModel { phase: ReaderPhase::InRevision, revision: Some(t), ..s }, None),
                _ => (moved(s, ReaderPhase::InRevision), None),
            },
            ReaderPhase::Finished => (s, None),
        }
    }
}

/// The pages completed while reading `evs` from index `i` on, from the state `s`.
pub open spec fn pages_from(s: ReaderModel, evs: Seq<XmlEventModel>, i: int) -> Seq<PageModel>
    decreases evs.len() - i,
{
    if i < 0 || i >= evs.len() {
        seq![]
    } else {
        let (s2, out) = reader_step(s, evs[i]);
        match out {
            Some(p) => seq![p] + pages_from(s2, evs, i + 1),
            None => pages_from(s2, evs, i + 1),
        }
    }
}

/// What the page open in the state `s` yields, reading `evs` from index `i`
/// on: the page completed by the step that leaves it, or nothing when the
/// events end first.
pub open spec fn page_from(s: ReaderModel, evs: Seq<XmlEventModel>, i: int) -> Option<PageModel>
    decreases evs.len() - i,
{
    if i < 0 || i >= evs.len() {
        None
    } else {
        let (s2, out) = reader_step(s, evs[i]);
        if s2.phase == ReaderPhase::Outside || s2.phase == ReaderPhase::Finished {
            out
        } else {
            page_from(s2, evs, i + 1)
        }
    }
}

/// The view of an optional page.
pub open spec fn opt_page_view(p: Option<Page>) -> Option<PageModel> {
    match p {
        Some(p) => Some(p@),
        None => None,
    }
}

/// Reads pages out of a stream of markup events, one event at a time, holding
/// only what it has read of the current page.
pub struct PageReader {
    phase: ReaderPhase,
    title: Option<String>,
    content: Option<String>,
    revision: Option<String>,
}

impl View for PageReader {
    type V = ReaderModel;

    closed spec fn view(&self) -> ReaderModel {
        ReaderModel {
            phase: self.phase,
            title: opt_view(self.title),
            content: opt_view(self.content),
            revision: opt_view(self.revision),
        }
    }
}

/// Whether `s` is the name `n`.
fn is_named(s: &String, n: &str) -> (r: bool)
    ensures
        r == (s@ == n@),
{
    *s == n.to_owned()
}

impl PageReader {
    /// A reader at the start of a stream.
    pub fn new() -> (r: PageReader)
        ensures
            r@ == fresh(ReaderPhase::Outside),
    {
        PageReader { phase: ReaderPhase::Outside, title: None, content: None, revision: None }
    }

    /// A reader just inside a page's opening tag.
    pub fn in_page() -> (r: PageReader)
        ensures
            r@ == fresh(ReaderPhase::InPage),
    {
        PageReader { phase: ReaderPhase::InPage, title: None, content: None, revision: None }
    }

    /// Where the reader stands.
    pub fn phase(&self) -> (r: ReaderPhase)
        ensures
            r == self@.phase,
    {
        self.phase
    }

    /// Reads one event, and returns the page that it completes, if any.
    pub fn feed(&mut self, ev: XmlEvent) -> (r: Option<Page>)
        ensures
            (final(self)@, opt_page_view(r)) == reader_step(old(self)@, ev@),
    {
        let ghost e = ev@;
        if let XmlEvent::Eof = ev {
            *self = PageReader { phase: ReaderPhase::Finished, title: None, content: None, revision: None };
            return None;
        }
        match self.phase {
            ReaderPhase::Finished => {
                *self = PageReader { phase: ReaderPhase::Finished, title: None, content: None, revision: None };
                None
            },
            ReaderPhase::Outside => {
                if let XmlEvent::Start(n) = &ev {
                    if is_named(n, "page") {
                        *self = PageReader::in_page();
                    }
                }
                None
            },
            ReaderPhase::InPage => {
                match &ev {
                    XmlEvent::Start(n) => {
                        if is_named(n, "title") {
                            self.phase = ReaderPhase::AwaitTitle;
                        } else if is_named(n, "revision") {
                            self.phase = ReaderPhase::InRevision;
                            self.revision = None;
                        }
                        None
                    },
                    XmlEvent::End(n) => {
                        if is_named(n, "page") {
                            let title = self.title.take();
                            let content = self.content.take();
                            *self = PageReader { phase: ReaderPhase::Outside, title: None, content: None, revision: None };
                            match (title, content) {
                                (Some(title), Some(content)) => Some(Page { title, content }),
                                _ => None,
                            }
                        } else {
                            None
                        }
                    },
                    _ => None,
                }
            },
            ReaderPhase::AwaitTitle => {
                self.phase = ReaderPhase::InPage;
                if let XmlEvent::Text(t) = ev {
                    self.title = Some(t);
                }
                None
            },
            ReaderPhase::InRevision => {
                match &ev {
                    XmlEvent::Start(n) => {
                        if is_named(n, "text") {
                            self.phase = ReaderPhase::AwaitText;
                        }
                        None
                    },
                    XmlEvent::End(n) => {
                        if is_named(n, "revision") {
                            self.phase = ReaderPhase::InPage;
                            self.content = self.revision.take();
                        }
                        None
                    },
                    _ => None,
                }
            },
            ReaderPhase::AwaitText => {
                self.phase = ReaderPhase::InRevision;
                if let XmlEvent::Text(t) = ev {
                    self.revision = Some(t);
                }
                None
            },
        }
    }
}

/// A copy of an event.
fn copy_event(e: &XmlEvent) -> (r: XmlEvent)
    ensures
        r@ == e@,
{
    match e {
        XmlEvent::Start(n) => XmlEvent::Start(n.clone()),
        XmlEvent::End(n) => XmlEvent::End(n.clone()),
        XmlEvent::Text(t) => XmlEvent::Text(t.clone()),
        XmlEvent::Eof => XmlEvent::Eof,
        XmlEvent::Other => XmlEvent::Other,
    }
}

/// Reads the page whose opening tag came just before `events`: the page, when
/// its closing tag comes and it had a title and a body; else nothing.
pub fn parse_page(events: &Vec<XmlEvent>) -> (r: Option<Page>)
    ensures
        opt_page_view(r) == page_from(fresh(ReaderPhase::InPage), events@.map_values(|e: XmlEvent| e@), 0),
{
    let ghost evs = events@.map_values(|e: XmlEvent| e@);
    let mut reader = PageReader::in_page();
    let mut i: usize = 0;
    while i < events.len()
        invariant
            i <= events@.len(),
            evs == events@.map_values(|e: XmlEvent| e@),
            page_from(reader@, evs, i as int) == page_from(fresh(ReaderPhase::InPage), evs, 0),
        decreases events@.len() - i,
    {
        let out = reader.feed(copy_event(&events[i]));
        let phase = reader.phase();
        if phase == ReaderPhase::Outside || phase == ReaderPhase::Finished {
            return out;
        }
        i = i + 1;
    }
    None
}

/// Reads every page of a stream of events, in order: each page that has a
/// title and a body, up to the end of the stream.
pub fn for_pages(events: &Vec<XmlEvent>) -> (r: Vec<Page>)
    ensures
        r@.map_values(|p: Page| p@) == pages_from(fresh(ReaderPhase::Outside), events@.map_values(|e: XmlEvent| e@), 0),
{
    let ghost evs = events@.map_values(|e: XmlEvent| e@);
    let mut reader = PageReader::new();
    let mut pages: Vec<Page> = Vec::new();
    let mut i: usize = 0;
    while i < events.len()
        invariant
            i <= events@.len(),
            evs == events@.map_values(|e: XmlEvent| e@),
            pages@.map_values(|p: Page| p@) + pages_from(reader@, evs, i as int)
                == pages_from(fresh(ReaderPhase::Outside), evs, 0),
        decreases events@.len() - i,
    {
        let ghost before = pages@.map_values(|p: Page| p@);
        let ghost s = reader@;
        let out = reader.feed(copy_event(&events[i]));
        match out {
            Some(p) => {
                pages.push(p);
                proof {
                    assert(pages@.map_values(|p: Page| p@) =~= before.push(p@));
                    assert(before + pages_from(s, evs, i as int) =~= before.push(p@) + pages_from(
                        reader@,
                        evs,
                        i + 1,
                    ));
                }
            },
            None => {},
        }
        i = i + 1;
    }
    pages
}

} // verus!
