//! Markup tokens, and the tokenizer that produces them from text through quick_xml.

use quick_xml::events::attributes::Attributes;
use quick_xml::events::BytesStart;
use quick_xml::events::Event::{Empty, End, Eof, Start, Text};
use quick_xml::Reader;
use RawToken::Other;
use XmlFault::Syntax;
use vstd::prelude::*;

verus! {

/// One attribute of an element, its value unescaped.
#[derive(Debug, Clone)]
pub struct Attr {
    pub key: String,
    pub value: String,
}

/// An element's name and attributes, in the order written, up to the first
/// malformed attribute, whose fault is kept.
#[derive(Debug, Clone)]
pub struct Tag {
    pub name: String,
    pub attrs: Vec<Attr>,
    pub fault: Option<XmlFault>,
}

/// A structural event of the markup.
#[derive(Debug, Clone)]
pub enum Token {
    /// `<name ...>`
    Start(Tag),
    /// `<name .../>`
    Empty(Tag),
    /// `</name>`
    End(String),
    /// Character data between elements, decoded.
    Text(String),
    /// A CDATA section's content.
    CData(String),
    /// A comment, processing instruction, declaration or entity reference.
    Other,
}

pub struct TagView {
    pub name: Seq<char>,
    pub attrs: Seq<(Seq<char>, Seq<char>)>,
    pub fault: Option<XmlFault>,
}

pub enum TokenView {
    Start(TagView),
    Empty(TagView),
    End(Seq<char>),
    Text(Seq<char>),
    CData(Seq<char>),
    Other,
}

pub open spec fn attrs_view(a: Seq<Attr>) -> Seq<(Seq<char>, Seq<char>)> {
    a.map_values(|x: Attr| (x.key@, x.value@))
}

impl View for Tag {
    type V = TagView;

    open spec fn view(&self) -> TagView {
        TagView { name: self.name@, attrs: attrs_view(self.attrs@), fault: self.fault }
    }
}

impl View for Token {
    type V = TokenView;

    open spec fn view(&self) -> TokenView {
        match self {
            Token::Start(t) => TokenView::Start(t@),
            Token::Empty(t) => TokenView::Empty(t@),
            Token::End(n) => TokenView::End(n@),
            Token::Text(s) => TokenView::Text(s@),
            Token::CData(s) => TokenView::CData(s@),
            Token::Other => TokenView::Other,
        }
    }
}

pub open spec fn tokens_view(s: Seq<Token>) -> Seq<TokenView> {
    s.map_values(|t: Token| t@)
}

/// Why the tokenizer stopped.
#[derive(Debug, Clone, Copy, PartialEq, Eq, Structural)]
pub enum XmlFault {
    /// The markup is not well-formed.
    Syntax,
    /// An attribute is malformed.
    Attribute,
}

/// A token as the reader hands it out, an element's attributes not yet read.
pub enum RawToken {
    /// `<name attrs>`: the name, and the markup of the attributes.
    Start((String, String)),
    /// `<name attrs/>`: the name, and the markup of the attributes.
    Empty((String, String)),
    End(String),
    Text(String),
    /// Anything else: a comment, CDATA section, processing instruction,
    /// declaration or entity reference.
    Other,
}

pub enum RawTokenView {
    Start(Seq<char>, Seq<char>),
    Empty(Seq<char>, Seq<char>),
    End(Seq<char>),
    Text(Seq<char>),
    Other,
}

impl View for RawToken {
    type V = RawTokenView;

    open spec fn view(&self) -> RawTokenView {
        match self {
            RawToken::Start(t) => RawTokenView::Start(t.0@, t.1@),
            RawToken::Empty(t) => RawTokenView::Empty(t.0@, t.1@),
            RawToken::End(n) => RawTokenView::End(n@),
            RawToken::Text(s) => RawTokenView::Text(s@),
            RawToken::Other => RawTokenView::Other,
        }
    }
}

/// The tokens that quick_xml's reader hands out
/// for `xml`, in document order, and its error where it stopped on one.
pub uninterp spec fn xml_events(xml: Seq<char>) -> (Seq<RawTokenView>, Option<XmlFault>);

/// The attributes that quick_xml reads from an element's attribute markup, values
/// unescaped, up to the first malformed one, and that one's fault.
pub uninterp spec fn attrs_of(raw: Seq<char>) -> (Seq<(Seq<char>, Seq<char>)>, Option<XmlFault>);

/// Relies on `quick_xml::Reader::from_str` and on `Reader::read_event` until the end
/// or the first error: every event of `xml`, an element with its name
/// (`BytesStart::name`) and attribute markup (`BytesStart::attributes_raw`), a
/// closing tag with its name (`BytesEnd`'s contents).
#[verifier::external_body]
fn read_events(xml: &str) -> (r: (Vec<RawToken>, Option<XmlFault>))
    ensures
        r.0@.map_values(|t: RawToken| t@) == xml_events(xml@).0,
        r.1 == xml_events(xml@).1,
{
    let text = |b: &[u8]| String::from_utf8_lossy(b).into_owned();
    let tag = |e: BytesStart| (text(e.name().0), text(e.attributes_raw()));
    let (mut reader, mut toks) = (Reader::from_str(xml), vec![]);
    loop {
        toks.push(match reader.read_event() {
            Ok(Start(e)) => RawToken::Start(tag(e)),
            Ok(Empty(e)) => RawToken::Empty(tag(e)),
            Ok(End(e)) => RawToken::End(text(&e)),
            Ok(Text(t)) => RawToken::Text(text(&t)),
            Ok(Eof) => return (toks, None),
            Ok(_) => Other,
            Err(_) => return (toks, Some(Syntax)),
        });
    }
}

/// Relies on `quick_xml::events::attributes::Attributes::new` (repeated keys allowed)
/// and `Attribute::unescape_value`: the attributes in `raw`.
#[verifier::external_body]
fn read_attrs(raw: &str) -> (r: (Vec<Attr>, Option<XmlFault>))
    ensures
        attrs_view(r.0@) == attrs_of(raw@).0,
        r.1 == attrs_of(raw@).1,
{
    let mut out = Vec::new();
    for a in Attributes::new(raw, 0).with_checks(false) {
        let Ok(a) = a else { return (out, Some(XmlFault::Attribute)) };
        let Ok(v) = a.unescape_value() else { return (out, Some(XmlFault::Syntax)) };
        out.push(Attr { key: String::from_utf8_lossy(a.key.0).into_owned(), value: v.into_owned() });
    }
    (out, None)
}

/// The token a raw token stands for, its attributes read.
pub open spec fn cook(t: RawTokenView) -> TokenView {
    match t {
        RawTokenView::Start(n, a) => TokenView::Start(TagView { name: n, attrs: attrs_of(a).0, fault: attrs_of(a).1 }),
        RawTokenView::Empty(n, a) => TokenView::Empty(TagView { name: n, attrs: attrs_of(a).0, fault: attrs_of(a).1 }),
        RawTokenView::End(n) => TokenView::End(n),
        RawTokenView::Text(s) => TokenView::Text(s),
        RawTokenView::Other => TokenView::Other,
    }
}

/// The tokens of `xml`.
pub open spec fn text_tokens(xml: Seq<char>) -> Seq<TokenView> {
    xml_events(xml).0.map_values(|t: RawTokenView| cook(t))
}

/// Where the tokenizer stopped on an error in `xml`, that error.
pub open spec fn text_fault(xml: Seq<char>) -> Option<XmlFault> {
    xml_events(xml).1
}

fn cook_token(t: RawToken) -> (r: Token)
    ensures
        r@ == cook(t@),
{
    match t {
        RawToken::Start((n, a)) => {
            let (attrs, fault) = read_attrs(a.as_str());
            Token::Start(Tag { name: n, attrs, fault })
        },
        RawToken::Empty((n, a)) => {
            let (attrs, fault) = read_attrs(a.as_str());
            Token::Empty(Tag { name: n, attrs, fault })
        },
        RawToken::End(n) => Token::End(n),
        RawToken::Text(s) => Token::Text(s),
        RawToken::Other => Token::Other,
    }
}

/// Every token of `xml` in document order, and the tokenizer's error where it
/// stopped on one.
pub fn tokenize(xml: &str) -> (r: (Vec<Token>, Option<XmlFault>))
    ensures
        tokens_view(r.0@) == text_tokens(xml@),
        r.1 == text_fault(xml@),
{
    let (mut raw, fault) = read_events(xml);
    let ghost all = raw@.map_values(|t: RawToken| t@);
    let ghost n = raw@.len();
    let mut rev: Vec<Token> = Vec::new();
    while raw.len() > 0
        invariant
            all == xml_events(xml@).0,
            n == all.len(),
            raw@.len() + rev@.len() == n,
            forall|i: int| 0 <= i < raw@.len() ==> (#[trigger] raw@[i])@ == all[i],
            forall|j: int| 0 <= j < rev@.len() ==> (#[trigger] rev@[j])@ == cook(all[n - 1 - j]),
        decreases raw.len(),
    {
        let t = raw.pop().unwrap();
        rev.push(cook_token(t));
    }
    let mut out: Vec<Token> = Vec::new();
    while rev.len() > 0
        invariant
            rev@.len() + out@.len() == n,
            forall|j: int| 0 <= j < rev@.len() ==> (#[trigger] rev@[j])@ == cook(all[n - 1 - j]),
            forall|i: int| 0 <= i < out@.len() ==> (#[trigger] out@[i])@ == cook(all[i]),
        decreases rev.len(),
    {
        let t = rev.pop().unwrap();
        out.push(t);
    }
    assert(tokens_view(out@) =~= text_tokens(xml@));
    (out, fault)
}

} // verus!
