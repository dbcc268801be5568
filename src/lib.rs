use vstd::prelude::*;

use crate::lines::{chars_of, slice_chars, string_of};
use crate::parse_wikitext::{meanings_of, parse_wikitext};

pub mod lines;
pub mod parse_wikitext;
pub mod parse_xml;

verus! {

/// The view of a [`Meaning`]: every text as its characters.
pub struct MeaningModel {
    pub language: Seq<char>,
    pub part_of_speech: Seq<char>,
    pub definition: Seq<char>,
    pub gender: Option<Seq<char>>,
}

/// The view of an optional text.
pub open spec fn opt_view(o: Option<String>) -> Option<Seq<char>> {
    match o {
        Some(s) => Some(s@),
        None => None,
    }
}

/// One definition of a word, with the language, part of speech and gender in
/// force where it was read.
#[derive(Debug)]
pub struct Meaning {
    pub language: String,
    pub part_of_speech: String,
    pub definition: String,
    pub gender: Option<String>,
}

impl View for Meaning {
    type V = MeaningModel;

    open spec fn view(&self) -> MeaningModel {
        MeaningModel {
            language: self.language@,
            part_of_speech: self.part_of_speech@,
            definition: self.definition@,
            gender: opt_view(self.gender),
        }
    }
}

/// A page of the dump: its title and the body text of its revision.
#[derive(Debug)]
pub struct Page {
    pub title: String,
    pub content: String,
}

/// An ordinary dictionary entry and the definitions read from its body.
#[derive(Debug)]
pub struct Word {
    pub name: String,
    pub meanings: Vec<Meaning>,
}

/// A page of the template namespace, by its bare name.
#[derive(Debug)]
pub struct Template {
    pub name: String,
    pub content: String,
}

/// A page of the module namespace, by its bare name.
#[derive(Debug)]
pub struct Module {
    pub name: String,
    pub src: String,
}

/// The three kinds of page.
#[derive(Debug)]
pub enum PageContent {
    Word(Word),
    Template(Template),
    Module(Module),
}

/// Whether `s` opens with `p`.
pub open spec fn has_prefix(s: Seq<char>, p: Seq<char>) -> bool {
    p.len() <= s.len() && s.subrange(0, p.len() as int) == p
}

/// `s` without its first `p.len()` characters.
pub open spec fn after_prefix(s: Seq<char>, p: Seq<char>) -> Seq<char> {
    s.subrange(p.len() as int, s.len() as int)
}

/// Whether `s` opens with `p`.
fn starts_with_chars(s: &Vec<char>, p: &Vec<char>) -> (r: bool)
    ensures
        r == has_prefix(s@, p@),
{
    if p.len() > s.len() {
        return false;
    }
    let mut i: usize = 0;
    while i < p.len()
        invariant
            i <= p@.len() <= s@.len(),
            forall|j: int| 0 <= j < i ==> s@[j] == p@[j],
        decreases p@.len() - i,
    {
        if s[i] != p[i] {
            assert(s@.subrange(0, p@.len() as int)[i as int] != p@[i as int]);
            return false;
        }
        i = i + 1;
    }
    assert(s@.subrange(0, p@.len() as int) =~= p@);
    true
}

/// The namespace prefix of template pages.
pub open spec fn template_prefix() -> Seq<char> {
    "Template:"@
}

/// The namespace prefix of module pages.
pub open spec fn module_prefix() -> Seq<char> {
    "Module:"@
}

/// Sorts a page by the namespace of its title: a template or a module under
/// its bare name, else a word with the meanings read from its body.
pub fn classify_page(page: Page, languages: &Vec<String>, parts_of_speech: &Vec<String>) -> (r: PageContent)
    ensures
        match r {
            PageContent::Template(t) => has_prefix(page.title@, template_prefix())
                && t.name@ == after_prefix(page.title@, template_prefix())
                && t.content@ == page.content@,
            PageContent::Module(m) => !has_prefix(page.title@, template_prefix())
                && has_prefix(page.title@, module_prefix())
                && m.name@ == after_prefix(page.title@, module_prefix())
                && m.src@ == page.content@,
            PageContent::Word(w) => !has_prefix(page.title@, template_prefix())
                && !has_prefix(page.title@, module_prefix())
                && w.name@ == page.title@
                && w.meanings@.map_values(|m: Meaning| m@) == meanings_of(page.content@, languages@, parts_of_speech@),
        },
{
    let title = chars_of(page.title.as_str());
    let template = chars_of("Template:");
    let module = chars_of("Module:");
    if starts_with_chars(&title, &template) {
        let name = string_of(&slice_chars(&title, template.len(), title.len()));
        PageContent::Template(Template { name, content: page.content })
    } else if starts_with_chars(&title, &module) {
        let name = string_of(&slice_chars(&title, module.len(), title.len()));
        PageContent::Module(Module { name, src: page.content })
    } else {
        let meanings = parse_wikitext(page.content, languages, parts_of_speech);
        PageContent::Word(Word { name: page.title, meanings })
    }
}

} // verus!
