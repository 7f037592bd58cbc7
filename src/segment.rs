//! The document segmenter: finds each top-level `<iati-activity>` of a document,
//! gathers its tokens and hands them to the activity parser.

use crate::activity::{Activity, ActivityView};
use crate::parser::{activity_spec, parse_activity_tokens, ParseError};
use crate::text::is_named;
use crate::token::{tokenize, tokens_view, text_fault, text_tokens, Attr, Tag, Token, TokenView};
use vstd::prelude::*;

verus! {

/// The segmenter's state between two tokens.
pub struct SegView {
    /// Names of the elements open inside the activity being gathered; empty
    /// where none is.
    pub stack: Seq<Seq<char>>,
    /// The tokens of the activity being gathered.
    pub buffer: Seq<TokenView>,
    /// The activities read so far, in document order.
    pub out: Seq<ActivityView>,
}

pub open spec fn seg_init() -> SegView {
    SegView { stack: Seq::empty(), buffer: Seq::empty(), out: Seq::empty() }
}

/// The gathered tokens, once closed, read as one more activity.
pub open spec fn seal_spec(s: SegView, buf: Seq<TokenView>) -> Result<SegView, ParseError> {
    match activity_spec(buf) {
        Err(e) => Err(e),
        Ok(a) => Ok(SegView { stack: Seq::empty(), buffer: Seq::empty(), out: s.out.push(a) }),
    }
}

/// One token applied to the segmenter's state.
pub open spec fn seg_step(s: SegView, t: TokenView) -> Result<SegView, ParseError> {
    if s.stack.len() == 0 {
        match t {
            TokenView::Start(tag) => if tag.name == "iati-activity"@ {
                Ok(SegView { stack: seq![tag.name], buffer: seq![t], ..s })
            } else {
                Ok(s)
            },
            TokenView::Empty(tag) => if tag.name == "iati-activity"@ {
                seal_spec(s, seq![t])
            } else {
                Ok(s)
            },
            _ => Ok(s),
        }
    } else {
        let buf = s.buffer.push(t);
        match t {
            TokenView::Start(tag) => Ok(
                SegView { stack: s.stack.push(tag.name), buffer: buf, ..s },
            ),
            TokenView::End(n) => if n == s.stack.last() {
                if s.stack.len() == 1 {
                    seal_spec(s, buf)
                } else {
                    Ok(SegView { stack: s.stack.drop_last(), buffer: buf, ..s })
                }
            } else {
                Ok(SegView { buffer: buf, ..s })
            },
            _ => Ok(SegView { buffer: buf, ..s }),
        }
    }
}

/// The state after a run of tokens, or the first error.
pub open spec fn seg_run(toks: Seq<TokenView>) -> Result<SegView, ParseError>
    decreases toks.len(),
{
    if toks.len() == 0 {
        Ok(seg_init())
    } else {
        match seg_run(toks.drop_last()) {
            Err(e) => Err(e),
            Ok(s) => seg_step(s, toks.last()),
        }
    }
}

/// The activities of a document's token stream, in order, or the first error.
pub open spec fn activities_spec(toks: Seq<TokenView>) -> Result<Seq<ActivityView>, ParseError> {
    match seg_run(toks) {
        Err(e) => Err(e),
        Ok(s) => Ok(s.out),
    }
}

pub open spec fn activities_view(v: Seq<Activity>) -> Seq<ActivityView> {
    v.map_values(|a: Activity| a@)
}

/// `r` is what `spec` gives, with activities compared by their views.
pub open spec fn activities_result_is(
    r: Result<Vec<Activity>, ParseError>,
    spec: Result<Seq<ActivityView>, ParseError>,
) -> bool {
    match spec {
        Ok(v) => r matches Ok(x) && activities_view(x@) == v,
        Err(e) => r == Err::<Vec<Activity>, ParseError>(e),
    }
}

pub(crate) proof fn lemma_seg_push(toks: Seq<TokenView>, t: TokenView)
    ensures
        seg_run(toks.push(t)) == match seg_run(toks) {
            Err(e) => Err(e),
            Ok(s) => seg_step(s, t),
        },
{
    assert(toks.push(t).drop_last() =~= toks);
}

proof fn lemma_seg_err_prefix(toks: Seq<TokenView>, i: int)
    requires
        0 <= i <= toks.len(),
        seg_run(toks.take(i)) is Err,
    ensures
        seg_run(toks) == seg_run(toks.take(i)),
    decreases toks.len() - i,
{
    if i < toks.len() {
        assert(toks.take(i + 1) =~= toks.take(i).push(toks[i]));
        lemma_seg_push(toks.take(i), toks[i]);
        lemma_seg_err_prefix(toks, i + 1);
    } else {
        assert(toks.take(i) =~= toks);
    }
}

/// A copy of `t`.
fn copy_text(t: &String) -> (r: String)
    ensures
        r@ == t@,
{
    t.clone()
}

/// A copy of a token.
pub fn copy_token(t: &Token) -> (r: Token)
    ensures
        r@ == t@,
{
    match t {
        Token::Start(tag) => Token::Start(copy_tag(tag)),
        Token::Empty(tag) => Token::Empty(copy_tag(tag)),
        Token::End(n) => Token::End(copy_text(n)),
        Token::Text(s) => Token::Text(copy_text(s)),
        Token::CData(s) => Token::CData(copy_text(s)),
        Token::Other => Token::Other,
    }
}

fn copy_tag(tag: &Tag) -> (r: Tag)
    ensures
        r@ == tag@,
{
    let mut attrs: Vec<Attr> = Vec::new();
    let mut i: usize = 0;
    while i < tag.attrs.len()
        invariant
            0 <= i <= tag.attrs@.len(),
            attrs@.len() == i,
            forall|j: int|
                0 <= j < i ==> (#[trigger] attrs@[j]).key@ == tag.attrs@[j].key@
                    && attrs@[j].value@ == tag.attrs@[j].value@,
        decreases tag.attrs.len() - i,
    {
        let a = &tag.attrs[i];
        attrs.push(Attr { key: copy_text(&a.key), value: copy_text(&a.value) });
        i = i + 1;
    }
    let r = Tag { name: copy_text(&tag.name), attrs, fault: tag.fault };
    assert(r@.attrs =~= tag@.attrs);
    r
}

/// Splits a document's tokens into activities and reads each one.
pub struct Segmenter {
    stack: Vec<String>,
    buffer: Vec<Token>,
    out: Vec<Activity>,
}

pub open spec fn names_view(v: Seq<String>) -> Seq<Seq<char>> {
    v.map_values(|s: String| s@)
}

impl View for Segmenter {
    type V = SegView;

    closed spec fn view(&self) -> SegView {
        SegView {
            stack: names_view(self.stack@),
            buffer: tokens_view(self.buffer@),
            out: activities_view(self.out@),
        }
    }
}

/// `r` is `Ok` with state `s` where `spec` is `Ok(s)`, and `spec`'s error otherwise.
pub open spec fn seg_result_is(
    r: Result<(), ParseError>,
    after: SegView,
    spec: Result<SegView, ParseError>,
) -> bool {
    match spec {
        Ok(s) => r is Ok && after == s,
        Err(e) => r == Err::<(), ParseError>(e),
    }
}

impl Segmenter {
    pub fn new() -> (r: Segmenter)
        ensures
            r@ == seg_init(),
    {
        let r = Segmenter { stack: Vec::new(), buffer: Vec::new(), out: Vec::new() };
        assert(r@.stack =~= Seq::<Seq<char>>::empty());
        assert(r@.buffer =~= Seq::<TokenView>::empty());
        assert(r@.out =~= Seq::<ActivityView>::empty());
        r
    }

    /// Reads the tokens in `buf` as one activity and appends it.
    fn seal(&mut self, buf: &Vec<Token>) -> (r: Result<(), ParseError>)
        ensures
            seg_result_is(r, final(self)@, seal_spec(old(self)@, tokens_view(buf@))),
    {
        match parse_activity_tokens(buf) {
            Err(e) => Err(e),
            Ok(a) => {
                let ghost before = self.out@;
                self.out.push(a);
                assert(activities_view(self.out@) =~= activities_view(before).push(a@));
                self.stack = Vec::new();
                self.buffer = Vec::new();
                assert(self@.stack =~= Seq::<Seq<char>>::empty());
                assert(self@.buffer =~= Seq::<TokenView>::empty());
                Ok(())
            },
        }
    }

    /// Applies one token.
    pub fn step(&mut self, tok: &Token) -> (r: Result<(), ParseError>)
        ensures
            seg_result_is(r, final(self)@, seg_step(old(self)@, tok@)),
    {
        let ghost s = self@;
        if self.stack.len() == 0 {
            match tok {
                Token::Start(tag) => {
                    if is_named(&tag.name, "iati-activity") {
                        let mut b: Vec<Token> = Vec::new();
                        b.push(copy_token(tok));
                        let mut st: Vec<String> = Vec::new();
                        st.push(copy_text(&tag.name));
                        self.stack = st;
                        self.buffer = b;
                        assert(self@.stack =~= seq![tag.name@]);
                        assert(self@.buffer =~= seq![tok@]);
                    }
                    Ok(())
                },
                Token::Empty(tag) => {
                    if is_named(&tag.name, "iati-activity") {
                        let mut b: Vec<Token> = Vec::new();
                        b.push(copy_token(tok));
                        assert(tokens_view(b@) =~= seq![tok@]);
                        self.seal(&b)
                    } else {
                        Ok(())
                    }
                },
                _ => Ok(()),
            }
        } else {
            let ghost buf = s.buffer.push(tok@);
            let ghost before = self.buffer@;
            self.buffer.push(copy_token(tok));
            assert(tokens_view(self.buffer@) =~= buf);
            match tok {
                Token::Start(tag) => {
                    let ghost st = self.stack@;
                    self.stack.push(copy_text(&tag.name));
                    assert(names_view(self.stack@) =~= names_view(st).push(tag.name@));
                    Ok(())
                },
                Token::End(n) => {
                    let last = self.stack.len() - 1;
                    if is_named(n, self.stack[last].as_str()) {
                        if self.stack.len() == 1 {
                            let mut b: Vec<Token> = Vec::new();
                            std::mem::swap(&mut b, &mut self.buffer);
                            self.seal(&b)
                        } else {
                            let ghost st = self.stack@;
                            self.stack.pop();
                            assert(names_view(self.stack@) =~= names_view(st).drop_last());
                            Ok(())
                        }
                    } else {
                        Ok(())
                    }
                },
                _ => Ok(()),
            }
        }
    }

    /// The activities read.
    pub fn into_activities(self) -> (r: Vec<Activity>)
        ensures
            activities_view(r@) == self@.out,
    {
        self.out
    }
}

/// Reads every top-level activity of a document from its tokens.
pub fn parse_activities_tokens(tokens: &Vec<Token>) -> (r: Result<Vec<Activity>, ParseError>)
    ensures
        activities_result_is(r, activities_spec(tokens_view(tokens@))),
{
    match run_segmenter(tokens) {
        Err(e) => Err(e),
        Ok(g) => Ok(g.into_activities()),
    }
}

/// Every activity the segmenter reads has a non-empty identifier.
pub proof fn lemma_identifiers_nonempty(toks: Seq<TokenView>)
    ensures
        seg_run(toks) matches Ok(s) ==> forall|i: int|
            0 <= i < s.out.len() ==> (#[trigger] s.out[i]).iati_identifier.len() > 0,
    decreases toks.len(),
{
    if toks.len() > 0 {
        let p = toks.drop_last();
        let t = toks.last();
        lemma_seg_push(p, t);
        assert(p.push(t) =~= toks);
        lemma_identifiers_nonempty(p);
        if let Ok(s) = seg_run(p) {
            if s.stack.len() == 0 {
                crate::parser::lemma_identifier_nonempty(seq![t]);
            } else {
                crate::parser::lemma_identifier_nonempty(s.buffer.push(t));
            }
        }
    }
}

/// The activities that a document's text describes: its tokens run through the
/// segmenter; where the tokenizer stopped on an error that the tokens before it
/// did not already give, that error.
pub open spec fn activities_of_text(xml: Seq<char>) -> Result<Seq<ActivityView>, ParseError> {
    match seg_run(text_tokens(xml)) {
        Err(e) => Err(e),
        Ok(s) => match text_fault(xml) {
            Some(f) => Err(ParseError::MalformedToken(f)),
            None => Ok(s.out),
        },
    }
}

/// Runs the segmenter over `tokens`, stopping at the first error.
fn run_segmenter(tokens: &Vec<Token>) -> (r: Result<Segmenter, ParseError>)
    ensures
        match seg_run(tokens_view(tokens@)) {
            Ok(s) => r matches Ok(g) && g@ == s,
            Err(e) => r matches Err(x) && x == e,
        },
{
    let ghost all = tokens_view(tokens@);
    let mut g = Segmenter::new();
    let mut i: usize = 0;
    assert(all.take(0) =~= Seq::<TokenView>::empty());
    while i < tokens.len()
        invariant
            0 <= i <= tokens@.len(),
            all == tokens_view(tokens@),
            seg_run(all.take(i as int)) == Ok::<SegView, ParseError>(g@),
        decreases tokens.len() - i,
    {
        assert(all.take(i + 1) =~= all.take(i as int).push(tokens@[i as int]@));
        proof {
            lemma_seg_push(all.take(i as int), tokens@[i as int]@);
        }
        match g.step(&tokens[i]) {
            Err(e) => {
                proof {
                    lemma_seg_err_prefix(all, i + 1);
                }
                return Err(e);
            },
            Ok(()) => {},
        }
        i = i + 1;
    }
    assert(all.take(i as int) =~= all);
    Ok(g)
}

/// Reads a whole document: one activity per top-level `<iati-activity>`, in order.
pub fn parse_activities(xml: &str) -> (r: Result<Vec<Activity>, ParseError>)
    ensures
        activities_result_is(r, activities_of_text(xml@)),
        r matches Ok(v) ==> forall|i: int|
            0 <= i < v@.len() ==> (#[trigger] v@[i]).iati_identifier@.len() > 0,
{
    let (tokens, fault) = tokenize(xml);
    proof {
        lemma_identifiers_nonempty(tokens_view(tokens@));
    }
    match run_segmenter(&tokens) {
        Err(e) => Err(e),
        Ok(g) => match fault {
            Some(f) => Err(ParseError::MalformedToken(f)),
            None => {
                let v = g.into_activities();
                proof {
                    assert forall|i: int| 0 <= i < v@.len() implies (#[trigger] v@[i]).iati_identifier@.len() > 0 by {
                        assert(activities_view(v@)[i] == v@[i]@);
                    }
                }
                Ok(v)
            },
        },
    }
}

} // verus!
