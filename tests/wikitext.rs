use define3::parse_wikitext::{parse_template, parse_wikitext, template_entries, ContextStack, WikiContext};
use define3::{classify_page, Meaning, Page, PageContent};

fn names(list: &[&str]) -> Vec<String> {
    list.iter().map(|s| s.to_string()).collect()
}

fn languages() -> Vec<String> {
    names(&[
        "Alemannic German",
        "Chinese",
        "English",
        "Esperanto",
        "French",
        "German",
        "Japanese",
        "Korean",
        "Lojban",
    ])
}

fn parts_of_speech() -> Vec<String> {
    names(&[
        "Adjective",
        "Adverb",
        "Brivla",
        "Cmavo",
        "Conjunction",
        "Definitions",
        "Gismu",
        "Hanja",
        "Hanzi",
        "Infix",
        "Initialism",
        "Interjection",
        "Kanji",
        "Noun",
        "Phrase",
        "Proper noun",
        "Rafsi",
        "Romanization",
        "Verb",
    ])
}

fn parse(text: &str) -> Vec<Meaning> {
    parse_wikitext(text.to_string(), &languages(), &parts_of_speech())
}

fn check(m: &Meaning, language: &str, pos: &str, gender: Option<&str>, definition: &str) {
    assert_eq!(m.language, language);
    assert_eq!(m.part_of_speech, pos);
    assert_eq!(m.gender.as_deref(), gender);
    assert_eq!(m.definition, definition);
}

fn precedences(stack: &ContextStack) -> Vec<u32> {
    stack.contexts().iter().map(|c| c.precedence()).collect()
}

#[test]
fn precedence_and_text_of_each_level() {
    let all = vec![
        WikiContext::Heading1("a".to_string()),
        WikiContext::Heading2("b".to_string()),
        WikiContext::Heading3("c".to_string()),
        WikiContext::Heading4("d".to_string()),
        WikiContext::Heading5("e".to_string()),
        WikiContext::Heading6("f".to_string()),
    ];
    let texts = ["a", "b", "c", "d", "e", "f"];
    for (i, c) in all.iter().enumerate() {
        assert_eq!(c.precedence(), i as u32 + 1);
        assert_eq!(c.text(), texts[i]);
    }
}

#[test]
fn new_stack_is_empty() {
    let stack = ContextStack::new();
    assert!(stack.contexts().is_empty());
    assert_eq!(stack.language, None);
    assert_eq!(stack.part_of_speech, None);
    assert_eq!(stack.gender, None);
}

#[test]
fn equal_precedence_replaces_language() {
    let (langs, poss) = (languages(), parts_of_speech());
    let mut stack = ContextStack::new();
    stack.apply(WikiContext::Heading1("German".to_string()), &langs, &poss);
    assert_eq!(stack.language.as_deref(), Some("German"));
    stack.apply(WikiContext::Heading1("French".to_string()), &langs, &poss);
    assert_eq!(stack.language.as_deref(), Some("French"));
    assert_eq!(stack.contexts(), &vec![WikiContext::Heading1("French".to_string())]);
}

#[test]
fn pushing_pops_deeper_or_equal_sections() {
    let (langs, poss) = (languages(), parts_of_speech());
    let mut stack = ContextStack::new();
    stack.apply(WikiContext::Heading2("English".to_string()), &langs, &poss);
    stack.apply(WikiContext::Heading3("Etymology".to_string()), &langs, &poss);
    stack.apply(WikiContext::Heading4("Noun".to_string()), &langs, &poss);
    assert_eq!(precedences(&stack), vec![2, 3, 4]);
    stack.apply(WikiContext::Heading3("Pronunciation".to_string()), &langs, &poss);
    assert_eq!(precedences(&stack), vec![2, 3]);
    assert_eq!(stack.language.as_deref(), Some("English"));
    assert_eq!(stack.part_of_speech, None);
    stack.apply(WikiContext::Heading6("x".to_string()), &langs, &poss);
    stack.apply(WikiContext::Heading1("y".to_string()), &langs, &poss);
    assert_eq!(precedences(&stack), vec![1]);
    assert_eq!(stack.language, None);
}

#[test]
fn english_noun_template_overrides_context() {
    let (langs, poss) = (languages(), parts_of_speech());
    let mut stack = ContextStack::new();
    stack.apply(WikiContext::Heading2("French".to_string()), &langs, &poss);
    stack.apply(WikiContext::Heading3("Verb".to_string()), &langs, &poss);
    stack.apply(WikiContext::Heading6("{{fr-verb}}".to_string()), &langs, &poss);
    stack.apply(WikiContext::Heading6("{{en-noun}}".to_string()), &langs, &poss);
    assert_eq!(stack.language.as_deref(), Some("English"));
    assert_eq!(stack.part_of_speech.as_deref(), Some("Noun"));
    assert_eq!(precedences(&stack), vec![2, 3, 6]);
}

#[test]
fn end_to_end_cat() {
    let body = "==English==\n===Noun===\n# A small domesticated feline.\n# (informal) A cool person.\n==French==\n===Noun===\n{{fr-noun}}\n# Variant spelling error.\n";
    let page = Page { title: "cat".to_string(), content: body.to_string() };
    match classify_page(page, &languages(), &parts_of_speech()) {
        PageContent::Word(w) => {
            assert_eq!(w.name, "cat");
            assert_eq!(w.meanings.len(), 3);
            check(&w.meanings[0], "English", "Noun", None, "A small domesticated feline.");
            check(&w.meanings[1], "English", "Noun", None, "(informal) A cool person.");
            check(&w.meanings[2], "French", "Noun", Some(""), "Variant spelling error.");
        }
        _ => panic!("expected a word"),
    }
}

#[test]
fn empty_body_yields_nothing() {
    assert!(parse("").is_empty());
}

#[test]
fn unknown_template_keeps_context() {
    let ms = parse("==English==\n===Noun===\n{{nonexistent-template}}\n# a thing");
    assert_eq!(ms.len(), 1);
    check(&ms[0], "English", "Noun", None, "a thing");
}

#[test]
fn definitions_need_language_and_part_of_speech() {
    let ms = parse("# before\n==English==\n# language only\n===Noun===\n# both\n==Klingon==\n# unknown language\n");
    assert_eq!(ms.len(), 1);
    check(&ms[0], "English", "Noun", None, "both");
}

#[test]
fn reparsing_gives_same_meanings() {
    let body = "==English==\n===Verb===\n# to run\n{{fr-noun|f}}\n# une chose\n";
    let a = parse(body);
    let b = parse(body);
    assert_eq!(a.len(), b.len());
    assert_eq!(a.len(), 2);
    for (x, y) in a.iter().zip(b.iter()) {
        assert_eq!(x.language, y.language);
        assert_eq!(x.part_of_speech, y.part_of_speech);
        assert_eq!(x.gender, y.gender);
        assert_eq!(x.definition, y.definition);
    }
    check(&a[1], "French", "Noun", Some("f"), "une chose");
}

#[test]
fn gender_survives_closing_sections() {
    let ms = parse("==French==\n===Noun===\n{{fr-noun|m}}\n# un\n==English==\n===Noun===\n# one\n");
    assert_eq!(ms.len(), 2);
    check(&ms[0], "French", "Noun", Some("m"), "un");
    check(&ms[1], "English", "Noun", Some("m"), "one");
}

#[test]
fn closing_section_with_matching_text_clears_language() {
    let ms = parse("==English==\n===Noun===\n====English====\n====Usage====\n# gone\n");
    assert!(ms.is_empty());
}

#[test]
fn carriage_returns_are_dropped() {
    let ms = parse("==English==\r\n===Noun===\r\n# a word\r\n# last");
    assert_eq!(ms.len(), 2);
    check(&ms[0], "English", "Noun", None, "a word");
    check(&ms[1], "English", "Noun", None, "last");
}

#[test]
fn heading_needs_closing_delimiters() {
    let ms = parse("==English==\n===Noun===\n==Klingon\n# still english\n");
    assert_eq!(ms.len(), 1);
    check(&ms[0], "English", "Noun", None, "still english");
}

#[test]
fn widest_delimiters_win() {
    let ms = parse("======English======\n=====Noun=====\n# deep\n");
    assert!(ms.is_empty());
    let ms = parse("=====English=====\n======Noun======\n# deep\n");
    assert_eq!(ms.len(), 1);
    check(&ms[0], "English", "Noun", None, "deep");
}

#[test]
fn template_lookup() {
    let (l, p, g) = parse_template(&"fr-noun|f|plural".chars().collect());
    assert_eq!((l.as_deref(), p.as_deref(), g.as_deref()), (Some("French"), Some("Noun"), Some("f")));
    let (l, p, g) = parse_template(&"fr-noun".chars().collect());
    assert_eq!((l.as_deref(), p.as_deref(), g.as_deref()), (Some("French"), Some("Noun"), Some("")));
    let (l, p, g) = parse_template(&"en-verb|runs".chars().collect());
    assert_eq!((l.as_deref(), p.as_deref(), g.as_deref()), (Some("English"), Some("Verb"), None));
    let (l, p, g) = parse_template(&"nonexistent-template".chars().collect());
    assert_eq!((l, p, g), (None, None, None));
    let (l, p, g) = parse_template(&"".chars().collect());
    assert_eq!((l, p, g), (None, None, None));
}

#[test]
fn template_table_entries() {
    let t = template_entries();
    assert_eq!(t.len(), 38);
    assert_eq!(t[0].id, "en-adj");
    assert_eq!(t[26].id, "fr-noun");
    assert!(t[26].gendered);
}

#[test]
fn classify_template_and_module() {
    let (langs, poss) = (languages(), parts_of_speech());
    let t = Page { title: "Template:en-noun".to_string(), content: "body".to_string() };
    match classify_page(t, &langs, &poss) {
        PageContent::Template(t) => {
            assert_eq!(t.name, "en-noun");
            assert_eq!(t.content, "body");
        }
        _ => panic!("expected a template"),
    }
    let m = Page { title: "Module:utilities".to_string(), content: "return {}".to_string() };
    match classify_page(m, &langs, &poss) {
        PageContent::Module(m) => {
            assert_eq!(m.name, "utilities");
            assert_eq!(m.src, "return {}");
        }
        _ => panic!("expected a module"),
    }
    let w = Page { title: "Templates".to_string(), content: String::new() };
    match classify_page(w, &langs, &poss) {
        PageContent::Word(w) => {
            assert_eq!(w.name, "Templates");
            assert!(w.meanings.is_empty());
        }
        _ => panic!("expected a word"),
    }
}
