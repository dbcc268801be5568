use vstd::prelude::*;

use crate::lines::{chars_of, lines, slice_chars, split_lines, string_of};
use crate::{opt_view, Meaning, MeaningModel};

verus! {

/// An open section of a page: a heading of level one to six, with its text.
/// A line that is a bare template call opens a level-six section whose text
/// is the whole call.
#[derive(Debug, PartialEq)]
pub enum WikiContext {
    Heading1(String),
    Heading2(String),
    Heading3(String),
    Heading4(String),
    Heading5(String),
    Heading6(String),
}

/// A section as the contracts see it: its precedence and its text.
pub type HeadingModel = (int, Seq<char>);

impl WikiContext {
    pub open spec fn spec_precedence(&self) -> int {
        match self {
            WikiContext::Heading1(_) => 1,
            WikiContext::Heading2(_) => 2,
            WikiContext::Heading3(_) => 3,
            WikiContext::Heading4(_) => 4,
            WikiContext::Heading5(_) => 5,
            WikiContext::Heading6(_) => 6,
        }
    }

    pub open spec fn spec_text(&self) -> String {
        match self {
            WikiContext::Heading1(x) => *x,
            WikiContext::Heading2(x) => *x,
            WikiContext::Heading3(x) => *x,
            WikiContext::Heading4(x) => *x,
            WikiContext::Heading5(x) => *x,
            WikiContext::Heading6(x) => *x,
        }
    }

    pub open spec fn model(&self) -> HeadingModel {
        (self.spec_precedence(), self.spec_text()@)
    }

    /// The heading's level: lower is broader.
    pub fn precedence(&self) -> (r: u32)
        ensures
            r as int == self.spec_precedence(),
            1 <= r <= 6,
    {
        match self {
            WikiContext::Heading1(_) => 1,
            WikiContext::Heading2(_) => 2,
            WikiContext::Heading3(_) => 3,
            WikiContext::Heading4(_) => 4,
            WikiContext::Heading5(_) => 5,
            WikiContext::Heading6(_) => 6,
        }
    }

    /// The heading's text.
    pub fn text(&self) -> (r: &String)
        ensures
            *r == self.spec_text(),
    {
        match self {
            WikiContext::Heading1(x) => x,
            WikiContext::Heading2(x) => x,
            WikiContext::Heading3(x) => x,
            WikiContext::Heading4(x) => x,
            WikiContext::Heading5(x) => x,
            WikiContext::Heading6(x) => x,
        }
    }
}

/// The state of the interpreter as the contracts see it: the open sections,
/// outermost first, and the language, part of speech and gender in force.
pub struct ScopeState {
    pub headings: Seq<HeadingModel>,
    pub language: Option<Seq<char>>,
    pub part_of_speech: Option<Seq<char>>,
    pub gender: Option<Seq<char>>,
}

/// The state at the start of a page: nothing open, nothing in force.
pub open spec fn initial_state() -> ScopeState {
    ScopeState { headings: seq![], language: None, part_of_speech: None, gender: None }
}

/// The precedences of the open sections rise strictly from the outermost up,
/// and each lies between one and six: no two open sections share one.
pub open spec fn headings_wf(hs: Seq<HeadingModel>) -> bool {
    &&& forall|i: int| 0 <= i < hs.len() ==> 1 <= #[trigger] hs[i].0 <= 6
    &&& forall|i: int, j: int| 0 <= i < j < hs.len() ==> hs[i].0 < hs[j].0
}

/// How many sections stay open when one of precedence `p` opens: those below
/// the topmost one whose precedence is under `p`, that one included.
pub open spec fn kept_len(hs: Seq<HeadingModel>, p: int) -> nat
    decreases hs.len(),
{
    if hs.len() > 0 && hs.last().0 >= p {
        kept_len(hs.drop_last(), p)
    } else {
        hs.len()
    }
}

/// Whether one of the sections `hs` has the text `t`.
pub open spec fn mentions(hs: Seq<HeadingModel>, t: Seq<char>) -> bool {
    exists|j: int| 0 <= j < hs.len() && #[trigger] hs[j].1 == t
}

/// A value in force after the sections `closed` are closed: it falls out of
/// force when one of them has it as its text.
pub open spec fn after_close(v: Option<Seq<char>>, closed: Seq<HeadingModel>) -> Option<Seq<char>> {
    match v {
        Some(t) => if mentions(closed, t) { None } else { v },
        None => None,
    }
}

/// Whether a list of names holds the text `t`.
pub open spec fn listed(names: Seq<String>, t: Seq<char>) -> bool {
    exists|i: int| 0 <= i < names.len() && #[trigger] names[i]@ == t
}

/// Whether a text is a template call: it opens with two braces and closes with two.
pub open spec fn is_template_call(t: Seq<char>) -> bool {
    &&& t.len() >= 2
    &&& t[0] == '{' && t[1] == '{'
    &&& t[t.len() - 2] == '}' && t[t.len() - 1] == '}'
}

/// `b` when it holds a value, else `a`.
pub open spec fn overwrite(a: Option<Seq<char>>, b: Option<Seq<char>>) -> Option<Seq<char>> {
    if b is Some { b } else { a }
}

/// The state after the section `h` opens: the sections of precedence `h.0` or
/// more close, taking their texts out of force; a known language or part of
/// speech as text comes into force; a template call sets what its entry gives;
/// and `h` is pushed.
pub open spec fn open_section(
    st: ScopeState,
    h: HeadingModel,
    langs: Seq<String>,
    poss: Seq<String>,
) -> ScopeState {
    let k = kept_len(st.headings, h.0);
    let closed = st.headings.subrange(k as int, st.headings.len() as int);
    let t = h.1;
    let lang = if listed(langs, t) { Some(t) } else { after_close(st.language, closed) };
    let pos = if listed(poss, t) { Some(t) } else { after_close(st.part_of_speech, closed) };
    let (tl, tp, tg) = if is_template_call(t) {
        template_context(t.subrange(2, t.len() - 2))
    } else {
        (None, None, None)
    };
    ScopeState {
        headings: st.headings.subrange(0, k as int).push(h),
        language: overwrite(lang, tl),
        part_of_speech: overwrite(pos, tp),
        gender: overwrite(st.gender, tg),
    }
}

/// The stack of open sections of a page, with the language, part of speech
/// and gender in force.
pub struct ContextStack {
    contexts: Vec<WikiContext>,
    pub language: Option<String>,
    pub part_of_speech: Option<String>,
    pub gender: Option<String>,
}

impl View for ContextStack {
    type V = ScopeState;

    closed spec fn view(&self) -> ScopeState {
        ScopeState {
            headings: self.contexts@.map_values(|c: WikiContext| c.model()),
            language: opt_view(self.language),
            part_of_speech: opt_view(self.part_of_speech),
            gender: opt_view(self.gender),
        }
    }
}

/// Whether `names` holds a string equal to `t`.
fn is_listed(names: &Vec<String>, t: &String) -> (r: bool)
    ensures
        r == listed(names@, t@),
{
    let mut i: usize = 0;
    while i < names.len()
        invariant
            i <= names@.len(),
            forall|j: int| 0 <= j < i ==> names@[j]@ != t@,
        decreases names@.len() - i,
    {
        if names[i] == *t {
            return true;
        }
        i = i + 1;
    }
    false
}

impl ContextStack {
    pub closed spec fn wf(&self) -> bool {
        headings_wf(self@.headings)
    }

    /// The open sections, outermost first.
    pub fn contexts(&self) -> (r: &Vec<WikiContext>)
        ensures
            r@.map_values(|c: WikiContext| c.model()) == self@.headings,
    {
        &self.contexts
    }

    /// Opens the section `context`: closes every open section of the same
    /// precedence or more, then brings into force what its text names.
    pub fn apply(&mut self, context: WikiContext, languages: &Vec<String>, parts_of_speech: &Vec<String>)
        requires
            old(self).wf(),
        ensures
            final(self).wf(),
            final(self)@ == open_section(old(self)@, context.model(), languages@, parts_of_speech@),
    {
        let new_prec = context.precedence();
        let ghost old_hs = self@.headings;
        let ghost old_lang = self@.language;
        let ghost old_pos = self@.part_of_speech;
        loop
            invariant
                self.wf(),
                self@.headings.len() == self.contexts@.len() <= old_hs.len(),
                self@.gender == old(self)@.gender,
                self@.headings == old_hs.subrange(0, self@.headings.len() as int),
                kept_len(self@.headings, new_prec as int) == kept_len(old_hs, new_prec as int),
                forall|j: int| self@.headings.len() <= j < old_hs.len() ==> old_hs[j].0 >= new_prec,
                self@.language == after_close(old_lang, old_hs.subrange(self@.headings.len() as int, old_hs.len() as int)),
                self@.part_of_speech == after_close(old_pos, old_hs.subrange(self@.headings.len() as int, old_hs.len() as int)),
            ensures
                self@.headings.len() == 0 || self@.headings.last().0 < new_prec,
            decreases self.contexts@.len(),
        {
            let n = self.contexts.len();
            if n == 0 {
                break;
            }
            if self.contexts[n - 1].precedence() < new_prec {
                assert(self@.headings[n - 1] == self.contexts@[n - 1].model());
                break;
            }
            let ghost before = self@.headings;
            let ghost before_c = self.contexts@;
            let top = self.contexts.pop().unwrap();
            proof {
                assert(top == before_c.last());
                assert(self@.headings =~= before.drop_last());
                assert(before[n - 1] == before_c[n - 1].model());
                assert(old_hs[n - 1] == before[n - 1]);
            }
            let lang_hit = match &self.language {
                Some(l) => *l == *top.text(),
                None => false,
            };
            if lang_hit {
                self.language = None;
            }
            let pos_hit = match &self.part_of_speech {
                Some(l) => *l == *top.text(),
                None => false,
            };
            if pos_hit {
                self.part_of_speech = None;
            }
            proof {
                let m = self@.headings.len() as int;
                let rest = old_hs.subrange(m + 1, old_hs.len() as int);
                let now = old_hs.subrange(m, old_hs.len() as int);
                assert(now =~= seq![old_hs[m]] + rest);
                assert(old_hs[m] == top.model());
                assert forall|t: Seq<char>| mentions(now, t) == (old_hs[m].1 == t || mentions(rest, t)) by {
                    if mentions(rest, t) {
                        let j = choose|j: int| 0 <= j < rest.len() && #[trigger] rest[j].1 == t;
                        assert(now[j + 1] == rest[j]);
                    }
                    if old_hs[m].1 == t {
                        assert(now[0] == old_hs[m]);
                    }
                    if mentions(now, t) {
                        let j = choose|j: int| 0 <= j < now.len() && #[trigger] now[j].1 == t;
                        if j > 0 {
                            assert(rest[j - 1] == now[j]);
                        }
                    }
                }
            }
        }
        let text = context.text();
        let m = self.contexts.len();
        if is_listed(languages, text) {
            self.language = Some(text.clone());
        }
        if is_listed(parts_of_speech, text) {
            self.part_of_speech = Some(text.clone());
        }
        let chars = chars_of(text.as_str());
        let n = chars.len();
        if n >= 2 && chars[0] == '{' && chars[1] == '{' && chars[n - 2] == '}' && chars[n - 1] == '}' {
            let inner = slice_chars(&chars, 2, n - 2);
            let (lang, pos, gender) = parse_template(&inner);
            if let Some(s) = lang {
                self.language = Some(s);
            }
            if let Some(s) = pos {
                self.part_of_speech = Some(s);
            }
            if let Some(s) = gender {
                self.gender = Some(s);
            }
        }
        let ghost kept = self@.headings;
        proof {
            if m > 0 {
                assert(kept[m - 1].0 < new_prec);
            }
            assert(kept_len(kept, new_prec as int) == m);
        }
        self.contexts.push(context);
        proof {
            assert(self@.headings =~= kept.push(context.model()));
            assert(old_hs.subrange(0, kept_len(old_hs, new_prec as int) as int) =~= kept);
        }
    }

    /// A stack for a new page: nothing open, nothing in force.
    pub fn new() -> (r: ContextStack)
        ensures
            r.wf(),
            r@ == initial_state(),
    {
        let r = ContextStack { contexts: Vec::new(), language: None, part_of_speech: None, gender: None };
        proof {
            assert(r@.headings =~= seq![]);
        }
        r
    }
}

/// An entry of the template table as the contracts see it: the template's
/// name, the language and part of speech it sets, and whether its first
/// argument gives the gender.
pub type TemplateEntryModel = (Seq<char>, Seq<char>, Seq<char>, bool);

/// The templates whose call sets the language and part of speech.
pub open spec fn template_table() -> Seq<TemplateEntryModel> {
    seq![
        ("en-adj"@, "English"@, "Adjective"@, false),
        ("en-adv"@, "English"@, "Adverb"@, false),
        ("en-con"@, "English"@, "Conjuction"@, false),
        ("en-det"@, "English"@, "Determiner"@, false),
        ("en-interj"@, "English"@, "Interjection"@, false),
        ("en-noun"@, "English"@, "Noun"@, false),
        ("en-part"@, "English"@, "Particle"@, false),
        ("en-prefix"@, "English"@, "Prefix"@, false),
        ("en-prep"@, "English"@, "Preposition"@, false),
        ("en-prep phrase"@, "English"@, "Prepositional Phrase"@, false),
        ("en-pron"@, "English"@, "Pronoun"@, false),
        ("en-proper noun"@, "English"@, "Proper Noun"@, false),
        ("en-proverb"@, "English"@, "Proverb"@, false),
        ("en-suffix"@, "English"@, "Suffix"@, false),
        ("en-symbol"@, "English"@, "Symbol"@, false),
        ("en-verb"@, "English"@, "Verb"@, false),
        ("fr-adjective"@, "French"@, "Adjective"@, false),
        ("fr-adverb"@, "French"@, "Adverb"@, false),
        ("fr-card-adj"@, "French"@, "Cardinal Adjective"@, false),
        ("fr-card-inv"@, "French"@, "card-inv"@, false),
        ("fr-card-noun"@, "French"@, "Cardinal Noun"@, true),
        ("fr-conjunction"@, "French"@, "Conjuction"@, false),
        ("fr-det"@, "French"@, "Determiner"@, false),
        ("fr-diacretical mark"@, "French"@, "Diacretical Mark"@, false),
        ("fr-interj"@, "French"@, "Interjection"@, false),
        ("fr-letter"@, "French"@, "Letter"@, false),
        ("fr-noun"@, "French"@, "Noun"@, true),
        ("fr-past participle"@, "French"@, "Past Participle"@, false),
        ("fr-phrase"@, "French"@, "Phrase"@, false),
        ("fr-prefix"@, "French"@, "Prefix"@, false),
        ("fr-postposition"@, "French"@, "Postposition"@, false),
        ("fr-preposition"@, "French"@, "Preposition"@, false),
        ("fr-pronoun"@, "French"@, "Pronoun"@, false),
        ("fr-proper noun"@, "French"@, "Proper Noun"@, true),
        ("fr-punctuation mark"@, "French"@, "Punctuation Mark"@, false),
        ("fr-proverb"@, "French"@, "Proverb"@, false),
        ("fr-suffix"@, "French"@, "Suffix"@, false),
        ("fr-verb"@, "French"@, "Verb"@, false)
    ]
}

/// The first entry of `tab`, from index `i` on, that is named `id`.
pub open spec fn find_entry(tab: Seq<TemplateEntryModel>, id: Seq<char>, i: int) -> Option<TemplateEntryModel>
    decreases tab.len() - i,
{
    if i < 0 || i >= tab.len() {
        None
    } else if tab[i].0 == id {
        Some(tab[i])
    } else {
        find_entry(tab, id, i + 1)
    }
}

/// Where the argument of `s` that starts at `i` ends: at the first bar from
/// `i` on, or at the end.
pub open spec fn token_end(s: Seq<char>, i: int) -> int
    decreases s.len() - i,
{
    if i < 0 || i >= s.len() || s[i] == '|' {
        i
    } else {
        token_end(s, i + 1)
    }
}

/// The first bar-separated part of a template call's interior: its name.
pub open spec fn first_token(s: Seq<char>) -> Seq<char> {
    s.subrange(0, token_end(s, 0))
}

/// The second bar-separated part, when there is one.
pub open spec fn second_token(s: Seq<char>) -> Option<Seq<char>> {
    let e = token_end(s, 0);
    if e < s.len() {
        let rest = s.subrange(e + 1, s.len() as int);
        Some(rest.subrange(0, token_end(rest, 0)))
    } else {
        None
    }
}

/// What the interior `s` of a template call sets: nothing when its name is
/// not in the table; else the entry's language and part of speech, and for an
/// entry with a gender, the second part of the call, or the empty text when
/// the call has none.
pub open spec fn template_context(s: Seq<char>) -> (Option<Seq<char>>, Option<Seq<char>>, Option<Seq<char>>) {
    match find_entry(template_table(), first_token(s), 0) {
        None => (None, None, None),
        Some(e) => (
            Some(e.1),
            Some(e.2),
            if e.3 {
                match second_token(s) {
                    Some(g) => Some(g),
                    None => Some(Seq::<char>::empty()),
                }
            } else {
                None
            },
        ),
    }
}

/// An entry of the template table.
pub struct TemplateEntry {
    pub id: String,
    pub language: String,
    pub part_of_speech: String,
    pub gendered: bool,
}

impl View for TemplateEntry {
    type V = TemplateEntryModel;

    open spec fn view(&self) -> TemplateEntryModel {
        (self.id@, self.language@, self.part_of_speech@, self.gendered)
    }
}

fn entry(id: &str, language: &str, part_of_speech: &str, gendered: bool) -> (r: TemplateEntry)
    ensures
        r@ == (id@, language@, part_of_speech@, gendered),
{
    TemplateEntry {
        id: id.to_owned(),
        language: language.to_owned(),
        part_of_speech: part_of_speech.to_owned(),
        gendered,
    }
}

/// The template table.
pub fn template_entries() -> (r: Vec<TemplateEntry>)
    ensures
        r@.map_values(|e: TemplateEntry| e@) == template_table(),
{
    let mut t: Vec<TemplateEntry> = Vec::new();
    t.push(entry("en-adj", "English", "Adjective", false));
    t.push(entry("en-adv", "English", "Adverb", false));
    t.push(entry("en-con", "English", "Conjuction", false));
    t.push(entry("en-det", "English", "Determiner", false));
    t.push(entry("en-interj", "English", "Interjection", false));
    t.push(entry("en-noun", "English", "Noun", false));
    t.push(entry("en-part", "English", "Particle", false));
    t.push(entry("en-prefix", "English", "Prefix", false));
    t.push(entry("en-prep", "English", "Preposition", false));
    t.push(entry("en-prep phrase", "English", "Prepositional Phrase", false));
    t.push(entry("en-pron", "English", "Pronoun", false));
    t.push(entry("en-proper noun", "English", "Proper Noun", false));
    t.push(entry("en-proverb", "English", "Proverb", false));
    t.push(entry("en-suffix", "English", "Suffix", false));
    t.push(entry("en-symbol", "English", "Symbol", false));
    t.push(entry("en-verb", "English", "Verb", false));
    t.push(entry("fr-adjective", "French", "Adjective", false));
    t.push(entry("fr-adverb", "French", "Adverb", false));
    t.push(entry("fr-card-adj", "French", "Cardinal Adjective", false));
    t.push(entry("fr-card-inv", "French", "card-inv", false));
    t.push(entry("fr-card-noun", "French", "Cardinal Noun", true));
    t.push(entry("fr-conjunction", "French", "Conjuction", false));
    t.push(entry("fr-det", "French", "Determiner", false));
    t.push(entry("fr-diacretical mark", "French", "Diacretical Mark", false));
    t.push(entry("fr-interj", "French", "Interjection", false));
    t.push(entry("fr-letter", "French", "Letter", false));
    t.push(entry("fr-noun", "French", "Noun", true));
    t.push(entry("fr-past participle", "French", "Past Participle", false));
    t.push(entry("fr-phrase", "French", "Phrase", false));
    t.push(entry("fr-prefix", "French", "Prefix", false));
    t.push(entry("fr-postposition", "French", "Postposition", false));
    t.push(entry("fr-preposition", "French", "Preposition", false));
    t.push(entry("fr-pronoun", "French", "Pronoun", false));
    t.push(entry("fr-proper noun", "French", "Proper Noun", true));
    t.push(entry("fr-punctuation mark", "French", "Punctuation Mark", false));
    t.push(entry("fr-proverb", "French", "Proverb", false));
    t.push(entry("fr-suffix", "French", "Suffix", false));
    t.push(entry("fr-verb", "French", "Verb", false));
    proof {
        assert(t@.map_values(|e: TemplateEntry| e@) =~= template_table());
    }
    t
}

/// Where the argument of `s` that starts at `from` ends.
fn token_end_at(s: &Vec<char>, from: usize) -> (r: usize)
    requires
        from <= s@.len(),
    ensures
        r as int == token_end(s@, from as int),
        from <= r <= s@.len(),
{
    let mut i: usize = from;
    while i < s.len() && s[i] != '|'
        invariant
            from <= i <= s@.len(),
            token_end(s@, i as int) == token_end(s@, from as int),
        decreases s@.len() - i,
    {
        i = i + 1;
    }
    i
}

/// Reads the interior of a template call: the language, part of speech and
/// gender that the call sets, each when it sets one.
pub fn parse_template(line: &Vec<char>) -> (r: (Option<String>, Option<String>, Option<String>))
    ensures
        (opt_view(r.0), opt_view(r.1), opt_view(r.2)) == template_context(line@),
{
    let e = token_end_at(line, 0);
    let id = string_of(&slice_chars(line, 0, e));
    let table = template_entries();
    let ghost tab = table@.map_values(|x: TemplateEntry| x@);
    let mut i: usize = 0;
    while i < table.len()
        invariant
            i <= table@.len(),
            tab == table@.map_values(|x: TemplateEntry| x@),
            tab == template_table(),
            id@ == first_token(line@),
            e as int == token_end(line@, 0),
            e <= line@.len(),
            find_entry(tab, id@, i as int) == find_entry(tab, id@, 0),
        decreases table@.len() - i,
    {
        if table[i].id == id {
            assert(tab[i as int] == table@[i as int]@);
            let lang = table[i].language.clone();
            let pos = table[i].part_of_speech.clone();
            if table[i].gendered {
                let gender = if e < line.len() {
                    let rest = slice_chars(line, e + 1, line.len());
                    let e2 = token_end_at(&rest, 0);
                    string_of(&slice_chars(&rest, 0, e2))
                } else {
                    string_of(&Vec::new())
                };
                proof {
                    if e < line@.len() {
                        assert(token_end(line@, 0) < line@.len());
                        assert(second_token(line@) == Some(gender@));
                    } else {
                        assert(second_token(line@) is None);
                    }
                }
                return (Some(lang), Some(pos), Some(gender));
            }
            return (Some(lang), Some(pos), None);
        }
        assert(tab[i as int] == table@[i as int]@);
        i = i + 1;
    }
    (None, None, None)
}

/// What a line of a page body is.
pub enum LineKind {
    /// A heading, or a bare template call read as a level-six heading: its
    /// precedence and text.
    Heading(int, Seq<char>),
    /// A definition: the text after its marker.
    Definition(Seq<char>),
    /// Anything else.
    Other,
}

/// Whether the `k`-th character from each end of a line is an equals sign.
pub open spec fn equals_at_both_ends(l: Seq<char>, k: int) -> bool {
    l[k] == '=' && l[l.len() - 1 - k] == '='
}

/// Whether a line opens and closes with `n` equals signs and has text between them.
pub open spec fn delimited(l: Seq<char>, n: int) -> bool {
    &&& l.len() > 2 * n
    &&& forall|k: int| 0 <= k < n ==> #[trigger] equals_at_both_ends(l, k)
}

/// The level of the widest heading delimiters a line has, or zero.
pub open spec fn heading_level(l: Seq<char>) -> int {
    if delimited(l, 6) {
        6
    } else if delimited(l, 5) {
        5
    } else if delimited(l, 4) {
        4
    } else if delimited(l, 3) {
        3
    } else if delimited(l, 2) {
        2
    } else if delimited(l, 1) {
        1
    } else {
        0
    }
}

/// Whether a line is a definition: it opens with a number sign and a space.
pub open spec fn is_definition(l: Seq<char>) -> bool {
    l.len() >= 2 && l[0] == '#' && l[1] == ' '
}

/// How a line is read; the first rule that fits wins.
pub open spec fn line_kind(l: Seq<char>) -> LineKind {
    let n = heading_level(l);
    if n > 0 {
        LineKind::Heading(n, l.subrange(n, l.len() - n))
    } else if is_template_call(l) {
        LineKind::Heading(6, l)
    } else if is_definition(l) {
        LineKind::Definition(l.subrange(2, l.len() as int))
    } else {
        LineKind::Other
    }
}

/// The meaning that a definition with text `d` yields in the state `st`: one
/// exactly when a language and a part of speech are both in force.
pub open spec fn meaning_at(st: ScopeState, d: Seq<char>) -> Option<MeaningModel> {
    match (st.language, st.part_of_speech) {
        (Some(lang), Some(pos)) => Some(
            MeaningModel { language: lang, part_of_speech: pos, definition: d, gender: st.gender },
        ),
        _ => None,
    }
}

/// The state and the meanings found so far after reading the line `l`.
pub open spec fn scan_line(
    st: ScopeState,
    out: Seq<MeaningModel>,
    l: Seq<char>,
    langs: Seq<String>,
    poss: Seq<String>,
) -> (ScopeState, Seq<MeaningModel>) {
    match line_kind(l) {
        LineKind::Heading(n, t) => (open_section(st, (n, t), langs, poss), out),
        LineKind::Definition(d) => match meaning_at(st, d) {
            Some(m) => (st, out.push(m)),
            None => (st, out),
        },
        LineKind::Other => (st, out),
    }
}

/// The state and the meanings found after reading the first `n` lines of `ls`
/// from the initial state.
pub open spec fn scan_lines(ls: Seq<Seq<char>>, n: nat, langs: Seq<String>, poss: Seq<String>) -> (ScopeState, Seq<MeaningModel>)
    decreases n,
{
    if n == 0 || n > ls.len() {
        (initial_state(), seq![])
    } else {
        let (st, out) = scan_lines(ls, (n - 1) as nat, langs, poss);
        scan_line(st, out, ls[n - 1], langs, poss)
    }
}

/// The meanings that a page body yields.
pub open spec fn meanings_of(text: Seq<char>, langs: Seq<String>, poss: Seq<String>) -> Seq<MeaningModel> {
    scan_lines(lines(text), lines(text).len(), langs, poss).1
}

/// Whether `l` opens and closes with `n` equals signs and has text between them.
fn is_delimited(l: &Vec<char>, n: usize) -> (r: bool)
    requires
        n <= 6,
    ensures
        r == delimited(l@, n as int),
{
    if l.len() <= 2 * n {
        return false;
    }
    let len = l.len();
    let mut k: usize = 0;
    while k < n
        invariant
            k <= n <= 6,
            len == l@.len() > 2 * n,
            forall|j: int| 0 <= j < k ==> #[trigger] equals_at_both_ends(l@, j),
        decreases n - k,
    {
        let a = l[k];
        let b = l[len - 1 - k];
        if a != '=' || b != '=' {
            assert(!equals_at_both_ends(l@, k as int));
            return false;
        }
        assert(equals_at_both_ends(l@, k as int));
        k = k + 1;
    }
    true
}

fn line_heading_level(l: &Vec<char>) -> (r: usize)
    ensures
        r as int == heading_level(l@),
        r <= 6,
{
    if is_delimited(l, 6) {
        6
    } else if is_delimited(l, 5) {
        5
    } else if is_delimited(l, 4) {
        4
    } else if is_delimited(l, 3) {
        3
    } else if is_delimited(l, 2) {
        2
    } else if is_delimited(l, 1) {
        1
    } else {
        0
    }
}

fn heading_of(n: usize, text: String) -> (r: WikiContext)
    requires
        1 <= n <= 6,
    ensures
        r.model() == (n as int, text@),
{
    if n == 1 {
        WikiContext::Heading1(text)
    } else if n == 2 {
        WikiContext::Heading2(text)
    } else if n == 3 {
        WikiContext::Heading3(text)
    } else if n == 4 {
        WikiContext::Heading4(text)
    } else if n == 5 {
        WikiContext::Heading5(text)
    } else {
        WikiContext::Heading6(text)
    }
}

fn clone_opt(o: &Option<String>) -> (r: Option<String>)
    ensures
        opt_view(r) == opt_view(*o),
{
    match o {
        Some(s) => Some(s.clone()),
        None => None,
    }
}

/// Reads a page body line by line and returns a meaning for each definition
/// read while a language and a part of speech are in force.
pub fn parse_wikitext(text: String, languages: &Vec<String>, parts_of_speech: &Vec<String>) -> (r: Vec<Meaning>)
    ensures
        r@.map_values(|m: Meaning| m@) == meanings_of(text@, languages@, parts_of_speech@),
{
    let ls = split_lines(&chars_of(text.as_str()));
    let ghost lsv = ls@.map_values(|l: Vec<char>| l@);
    let mut result: Vec<Meaning> = Vec::new();
    let mut stack = ContextStack::new();
    let mut i: usize = 0;
    while i < ls.len()
        invariant
            i <= ls@.len(),
            lsv == ls@.map_values(|l: Vec<char>| l@),
            lsv == lines(text@),
            stack.wf(),
            (stack@, result@.map_values(|m: Meaning| m@)) == scan_lines(lsv, i as nat, languages@, parts_of_speech@),
        decreases ls@.len() - i,
    {
        let line = &ls[i];
        assert(line@ == lsv[i as int]);
        let ghost before = result@.map_values(|m: Meaning| m@);
        let len = line.len();
        let n = line_heading_level(line);
        if n > 0 {
            let t = string_of(&slice_chars(line, n, len - n));
            stack.apply(heading_of(n, t), languages, parts_of_speech);
        } else if len >= 2 && line[0] == '{' && line[1] == '{' && line[len - 2] == '}' && line[len - 1] == '}' {
            let t = string_of(line);
            stack.apply(heading_of(6, t), languages, parts_of_speech);
        } else if len >= 2 && line[0] == '#' && line[1] == ' ' {
            let d = string_of(&slice_chars(line, 2, len));
            match (&stack.language, &stack.part_of_speech) {
                (Some(lang), Some(pos)) => {
                    let m = Meaning {
                        language: lang.clone(),
                        part_of_speech: pos.clone(),
                        definition: d,
                        gender: clone_opt(&stack.gender),
                    };
                    result.push(m);
                    proof {
                        assert(result@.map_values(|m: Meaning| m@) =~= before.push(m@));
                    }
                },
                _ => {},
            }
        }
        i = i + 1;
    }
    result
}

/// The sections that stay open when one of precedence `p` opens are a prefix
/// of the open ones; every section above them has precedence `p` or more,
/// and in a well-formed stack every one of them has less.
pub proof fn lemma_kept_len(hs: Seq<HeadingModel>, p: int)
    ensures
        kept_len(hs, p) <= hs.len(),
        forall|j: int| kept_len(hs, p) <= j < hs.len() ==> #[trigger] hs[j].0 >= p,
        headings_wf(hs) ==> forall|j: int| 0 <= j < kept_len(hs, p) ==> #[trigger] hs[j].0 < p,
    decreases hs.len(),
{
    if hs.len() > 0 && hs.last().0 >= p {
        let init = hs.drop_last();
        lemma_kept_len(init, p);
        assert forall|j: int| kept_len(hs, p) <= j < hs.len() implies #[trigger] hs[j].0 >= p by {
            if j < hs.len() - 1 {
                assert(hs[j] == init[j]);
            }
        }
        if headings_wf(hs) {
            assert(headings_wf(init));
            assert forall|j: int| 0 <= j < kept_len(hs, p) implies #[trigger] hs[j].0 < p by {
                assert(hs[j] == init[j]);
            }
        }
    } else if hs.len() > 0 && headings_wf(hs) {
        assert forall|j: int| 0 <= j < kept_len(hs, p) implies #[trigger] hs[j].0 < p by {
            if j < hs.len() - 1 {
                assert(hs[j].0 < hs[hs.len() - 1].0);
            }
        }
    }
}

/// Opening a section of precedence `p` first closes every open section of
/// precedence `p` or more, and only those; the section then sits on top, above
/// sections of lower precedence alone, so no two open sections ever share a
/// precedence.
pub proof fn lemma_open_section_stack(st: ScopeState, h: HeadingModel, langs: Seq<String>, poss: Seq<String>)
    requires
        headings_wf(st.headings),
        1 <= h.0 <= 6,
    ensures
        ({
            let hs = open_section(st, h, langs, poss).headings;
            &&& headings_wf(hs)
            &&& hs.len() >= 1
            &&& hs.last() == h
            &&& forall|i: int| 0 <= i < hs.len() - 1 ==> hs[i] == st.headings[i] && #[trigger] hs[i].0 < h.0
            &&& forall|j: int| hs.len() - 1 <= j < st.headings.len() ==> #[trigger] st.headings[j].0 >= h.0
        }),
{
    lemma_kept_len(st.headings, h.0);
    let hs = open_section(st, h, langs, poss).headings;
    let k = kept_len(st.headings, h.0) as int;
    assert(hs =~= st.headings.subrange(0, k).push(h));
    assert forall|i: int, j: int| 0 <= i < j < hs.len() implies hs[i].0 < hs[j].0 by {
        if j < k {
            assert(st.headings[i].0 < st.headings[j].0);
        }
    }
}

/// Every state that reading lines reaches has open sections of strictly rising
/// precedence, each between one and six.
pub proof fn lemma_scan_keeps_order(ls: Seq<Seq<char>>, n: nat, langs: Seq<String>, poss: Seq<String>)
    ensures
        headings_wf(scan_lines(ls, n, langs, poss).0.headings),
    decreases n,
{
    if n == 0 || n > ls.len() {
        assert(headings_wf(initial_state().headings));
    } else {
        lemma_scan_keeps_order(ls, (n - 1) as nat, langs, poss);
        let st = scan_lines(ls, (n - 1) as nat, langs, poss).0;
        match line_kind(ls[n - 1]) {
            LineKind::Heading(p, t) => {
                lemma_open_section_stack(st, (p, t), langs, poss);
            },
            _ => {},
        }
    }
}

/// Reading the same page body twice, each time from a fresh state, yields the
/// same meanings.
pub proof fn lemma_rescan_same(
    text: Seq<char>,
    langs: Seq<String>,
    poss: Seq<String>,
    first: Seq<MeaningModel>,
    second: Seq<MeaningModel>,
)
    requires
        first == meanings_of(text, langs, poss),
        second == meanings_of(text, langs, poss),
    ensures
        first == second,
{
}

/// A line that opens with a number sign and a space is a definition, and
/// yields a meaning exactly when a language and a part of speech are in
/// force; it changes nothing else.
pub proof fn lemma_definition_needs_context(
    st: ScopeState,
    out: Seq<MeaningModel>,
    l: Seq<char>,
    langs: Seq<String>,
    poss: Seq<String>,
)
    requires
        is_definition(l),
    ensures
        scan_line(st, out, l, langs, poss).0 == st,
        (scan_line(st, out, l, langs, poss).1.len() == out.len() + 1) <==> (st.language is Some
            && st.part_of_speech is Some),
        scan_line(st, out, l, langs, poss).1.len() != out.len() + 1 ==> scan_line(st, out, l, langs, poss).1 == out,
        scan_line(st, out, l, langs, poss).1.len() == out.len() + 1 ==> scan_line(st, out, l, langs, poss).1.last()
            == (MeaningModel {
            language: st.language->0,
            part_of_speech: st.part_of_speech->0,
            definition: l.subrange(2, l.len() as int),
            gender: st.gender,
        }),
{
    assert(!equals_at_both_ends(l, 0));
    assert(heading_level(l) == 0);
}

/// A page without a body yields no meaning.
pub proof fn lemma_empty_body(langs: Seq<String>, poss: Seq<String>)
    ensures
        meanings_of(Seq::<char>::empty(), langs, poss) == Seq::<MeaningModel>::empty(),
{
    assert(lines(Seq::<char>::empty()) =~= Seq::<Seq<char>>::empty());
}

/// A bare template call whose name the table does not hold leaves the
/// language and part of speech as they were, as long as its own text names
/// neither a language nor a part of speech, and the open level-six section
/// that it closes does not hold the text of either.
pub proof fn lemma_unknown_template_keeps_context(
    st: ScopeState,
    out: Seq<MeaningModel>,
    l: Seq<char>,
    langs: Seq<String>,
    poss: Seq<String>,
)
    requires
        headings_wf(st.headings),
        is_template_call(l),
        find_entry(template_table(), first_token(l.subrange(2, l.len() - 2)), 0) is None,
        !listed(langs, l),
        !listed(poss, l),
        forall|j: int|
            0 <= j < st.headings.len() && #[trigger] st.headings[j].0 == 6 ==> Some(st.headings[j].1)
                != st.language && Some(st.headings[j].1) != st.part_of_speech,
    ensures
        scan_line(st, out, l, langs, poss).0.language == st.language,
        scan_line(st, out, l, langs, poss).0.part_of_speech == st.part_of_speech,
        scan_line(st, out, l, langs, poss).1 == out,
{
    assert(!equals_at_both_ends(l, 0));
    assert(heading_level(l) == 0);
    lemma_kept_len(st.headings, 6);
    let k = kept_len(st.headings, 6) as int;
    let closed = st.headings.subrange(k, st.headings.len() as int);
    assert forall|t: Seq<char>| Some(t) == st.language || Some(t) == st.part_of_speech implies !mentions(closed, t) by {
        if mentions(closed, t) {
            let j = choose|j: int| 0 <= j < closed.len() && #[trigger] closed[j].1 == t;
            assert(closed[j] == st.headings[k + j]);
            assert(st.headings[k + j].0 == 6);
        }
    }
}

/// A bare call of the English noun template puts English and Noun in force,
/// whatever was in force and open before it.
pub proof fn lemma_english_noun_template(
    st: ScopeState,
    out: Seq<MeaningModel>,
    langs: Seq<String>,
    poss: Seq<String>,
)
    ensures
        scan_line(st, out, "{{en-noun}}"@, langs, poss).0.language == Some("English"@),
        scan_line(st, out, "{{en-noun}}"@, langs, poss).0.part_of_speech == Some("Noun"@),
{
    let l = "{{en-noun}}"@;
    reveal_strlit("{{en-noun}}");
    reveal_strlit("en-noun");
    reveal_strlit("en-adj");
    reveal_strlit("en-adv");
    reveal_strlit("en-con");
    reveal_strlit("en-det");
    reveal_strlit("en-interj");
    assert(!equals_at_both_ends(l, 0));
    assert(heading_level(l) == 0);
    assert(is_template_call(l));
    let inner = l.subrange(2, l.len() - 2);
    assert(inner =~= "en-noun"@);
    reveal_with_fuel(token_end, 9);
    assert(token_end(inner, 0) == 7);
    assert(first_token(inner) =~= "en-noun"@);
    reveal_with_fuel(find_entry, 7);
    assert(find_entry(template_table(), "en-noun"@, 0) == Some(template_table()[5]));
}

} // verus!
