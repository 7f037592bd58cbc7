//! The activity parser: a state machine over the tokens of one `<iati-activity>`.

use crate::activity::{transactions_view, Activity, ActivityView};
use crate::money::{currency_view, Amount, CurrencyCode, Date, Money, MoneyView};
use crate::scalar::{amount_spec, date_spec, parse_amount, parse_date};
use crate::text::{is_named, parse_u16, trim_spec, trim_text, u16_spec, upper_spec};
use crate::token::{tokenize, tokens_view, text_fault, text_tokens, Attr, Tag, TagView, Token, TokenView, XmlFault};
use crate::tx::{tx_type_of, Transaction, TransactionView, TxType};
use vstd::prelude::*;

verus! {

/// A required element or attribute.
#[derive(Debug, Clone, Copy, PartialEq, Eq, Structural)]
pub enum Field {
    /// `iati-identifier`
    Identifier,
    /// `transaction-type`
    TransactionType,
    /// `transaction-type/@code`
    TransactionTypeCode,
    /// `transaction-date/@iso-date`
    TransactionDate,
    /// `value`
    Value,
}

/// The path of a required element or attribute in the markup.
pub open spec fn field_name(f: Field) -> Seq<char> {
    match f {
        Field::Identifier => "iati-identifier"@,
        Field::TransactionType => "transaction-type"@,
        Field::TransactionTypeCode => "transaction-type/@code"@,
        Field::TransactionDate => "transaction-date/@iso-date"@,
        Field::Value => "value"@,
    }
}

impl Field {
    /// The path of the element or attribute in the markup.
    pub fn name(self) -> (r: &'static str)
        ensures
            r@ == field_name(self),
    {
        match self {
            Field::Identifier => "iati-identifier",
            Field::TransactionType => "transaction-type",
            Field::TransactionTypeCode => "transaction-type/@code",
            Field::TransactionDate => "transaction-date/@iso-date",
            Field::Value => "value",
        }
    }
}

/// Why markup could not be read as activities.
#[derive(Debug, Clone, Copy, PartialEq, Eq, Structural)]
pub enum ParseError {
    /// The tokenizer refused the markup.
    MalformedToken(XmlFault),
    /// A required element or attribute is absent or empty.
    MissingField(Field),
    /// A transaction-type code is no `u16`.
    InvalidInteger,
    /// A value's text is no decimal number.
    InvalidDecimal,
    /// A date is not in `YYYY-MM-DD` form.
    InvalidDate,
}

/// The value of the first attribute named `key`.
pub open spec fn attr_lookup(attrs: Seq<(Seq<char>, Seq<char>)>, key: Seq<char>) -> Option<
    Seq<char>,
>
    decreases attrs.len(),
{
    if attrs.len() == 0 {
        None
    } else if attrs[0].0 == key {
        Some(attrs[0].1)
    } else {
        attr_lookup(attrs.drop_first(), key)
    }
}

/// The value of the first attribute of `attrs` named `key`.
pub fn find_attr<'a>(attrs: &'a Vec<Attr>, key: &str) -> (r: Option<&'a String>)
    ensures
        match attr_lookup(crate::token::attrs_view(attrs@), key@) {
            Some(v) => r matches Some(x) && x@ == v,
            None => r is None,
        },
{
    let ghost all = crate::token::attrs_view(attrs@);
    let mut i: usize = 0;
    assert(all.subrange(0, all.len() as int) =~= all);
    while i < attrs.len()
        invariant
            0 <= i <= attrs@.len(),
            all == crate::token::attrs_view(attrs@),
            attr_lookup(all, key@) == attr_lookup(all.subrange(i as int, all.len() as int), key@),
        decreases attrs.len() - i,
    {
        assert(all.subrange(i as int, all.len() as int).drop_first() =~= all.subrange(
            i + 1,
            all.len() as int,
        ));
        if is_named(&attrs[i].key, key) {
            return Some(&attrs[i].value);
        }
        i = i + 1;
    }
    assert(all.subrange(i as int, all.len() as int) =~= Seq::<(Seq<char>, Seq<char>)>::empty());
    None
}

/// The fields of a `<transaction>` read so far.
pub struct TxBuild {
    pub tx_type: Option<TxType>,
    pub date: Option<Date>,
    pub amount: Option<Amount>,
    pub value_currency: Option<CurrencyCode>,
    pub value_date: Option<Date>,
}

pub struct BuildView {
    pub tx_type: Option<TxType>,
    pub date: Option<Date>,
    pub amount: Option<Amount>,
    pub value_currency: Option<Seq<char>>,
    pub value_date: Option<Date>,
}

impl View for TxBuild {
    type V = BuildView;

    open spec fn view(&self) -> BuildView {
        BuildView {
            tx_type: self.tx_type,
            date: self.date,
            amount: self.amount,
            value_currency: currency_view(self.value_currency),
            value_date: self.value_date,
        }
    }
}

pub open spec fn empty_build() -> BuildView {
    BuildView { tx_type: None, date: None, amount: None, value_currency: None, value_date: None }
}

pub open spec fn build_view(b: Option<TxBuild>) -> Option<BuildView> {
    match b {
        Some(b) => Some(b@),
        None => None,
    }
}

pub open spec fn text_opt(s: Option<String>) -> Option<Seq<char>> {
    match s {
        Some(s) => Some(s@),
        None => None,
    }
}

/// The state of the parser between two tokens.
pub struct ParserView {
    pub default_currency: Option<Seq<char>>,
    pub identifier: Option<Seq<char>>,
    pub transactions: Seq<TransactionView>,
    /// The transaction being read, if one is open.
    pub builder: Option<BuildView>,
    /// Text gathered for the leaf element being read, if any.
    pub capture: Option<Seq<char>>,
}

pub open spec fn init_spec() -> ParserView {
    ParserView {
        default_currency: None,
        identifier: None,
        transactions: Seq::empty(),
        builder: None,
        capture: None,
    }
}

/// The transaction that a complete builder seals into.
pub open spec fn seal_spec(b: BuildView) -> TransactionView {
    TransactionView {
        tx_type: b.tx_type.unwrap(),
        date: b.date.unwrap(),
        value: MoneyView { amount: b.amount.unwrap(), currency: b.value_currency, value_date: b.value_date },
        provider_org: None,
        receiver_org: None,
        currency_hint: None,
    }
}

/// A `<value>`'s attributes applied to the builder.
pub open spec fn value_attrs_spec(b: BuildView, attrs: Seq<(Seq<char>, Seq<char>)>) -> Result<
    BuildView,
    ParseError,
> {
    let b1 = match attr_lookup(attrs, "currency"@) {
        Some(c) => BuildView { value_currency: Some(upper_spec(c)), ..b },
        None => b,
    };
    match attr_lookup(attrs, "value-date"@) {
        None => Ok(b1),
        Some(v) => match date_spec(v) {
            None => Err(ParseError::InvalidDate),
            Some(d) => Ok(BuildView { value_date: Some(d), ..b1 }),
        },
    }
}

/// The elements the parser reads.
pub open spec fn is_known(name: Seq<char>) -> bool {
    name == "iati-activity"@ || name == "iati-identifier"@ || name == "transaction"@ || name
        == "transaction-type"@ || name == "transaction-date"@ || name == "value"@
}

/// An element opened, by `<name ...>` (`is_start`) or `<name .../>`. A malformed
/// attribute is an error on the elements the parser reads, and ignored elsewhere.
pub open spec fn open_spec(s: ParserView, tag: TagView, is_start: bool) -> Result<ParserView, ParseError> {
    match tag.fault {
        Some(f) => if is_known(tag.name) {
            Err(ParseError::MalformedToken(f))
        } else {
            Ok(s)
        },
        None => open_fields_spec(s, tag, is_start),
    }
}

/// An element with well-formed attributes opened.
pub open spec fn open_fields_spec(s: ParserView, tag: TagView, is_start: bool) -> Result<ParserView, ParseError> {
    if tag.name == "iati-activity"@ {
        Ok(
            match attr_lookup(tag.attrs, "default-currency"@) {
                Some(v) => ParserView { default_currency: Some(upper_spec(v)), ..s },
                None => s,
            },
        )
    } else if tag.name == "iati-identifier"@ {
        Ok(
            if is_start {
                ParserView { capture: Some(Seq::empty()), ..s }
            } else {
                s
            },
        )
    } else if tag.name == "transaction"@ {
        Ok(
            if is_start {
                ParserView { builder: Some(empty_build()), ..s }
            } else {
                s
            },
        )
    } else if tag.name == "transaction-type"@ {
        match s.builder {
            None => Ok(s),
            Some(b) => match attr_lookup(tag.attrs, "code"@) {
                None => Err(ParseError::MissingField(Field::TransactionTypeCode)),
                Some(v) => match u16_spec(v) {
                    None => Err(ParseError::InvalidInteger),
                    Some(n) => Ok(
                        ParserView {
                            builder: Some(BuildView { tx_type: Some(tx_type_of(n)), ..b }),
                            ..s
                        },
                    ),
                },
            },
        }
    } else if tag.name == "transaction-date"@ {
        match s.builder {
            None => Ok(s),
            Some(b) => match attr_lookup(tag.attrs, "iso-date"@) {
                None => Err(ParseError::MissingField(Field::TransactionDate)),
                Some(v) => match date_spec(v) {
                    None => Err(ParseError::InvalidDate),
                    Some(d) => Ok(
                        ParserView { builder: Some(BuildView { date: Some(d), ..b }), ..s },
                    ),
                },
            },
        }
    } else if tag.name == "value"@ {
        let s1 = match s.builder {
            None => Ok(s),
            Some(b) => match value_attrs_spec(b, tag.attrs) {
                Err(e) => Err(e),
                Ok(b2) => Ok(ParserView { builder: Some(b2), ..s }),
            },
        };
        match s1 {
            Err(e) => Err(e),
            Ok(s2) => Ok(
                if is_start {
                    ParserView { capture: Some(Seq::empty()), ..s2 }
                } else {
                    s2
                },
            ),
        }
    } else {
        Ok(s)
    }
}

/// The gathered text, or nothing.
pub open spec fn captured(c: Option<Seq<char>>) -> Seq<char> {
    match c {
        Some(t) => t,
        None => Seq::empty(),
    }
}

/// An element closed by `</name>`.
pub open spec fn close_spec(s: ParserView, name: Seq<char>) -> Result<ParserView, ParseError> {
    if name == "iati-identifier"@ {
        let t = trim_spec(captured(s.capture));
        if t.len() == 0 {
            Err(ParseError::MissingField(Field::Identifier))
        } else {
            Ok(ParserView { identifier: Some(t), capture: None, ..s })
        }
    } else if name == "value"@ {
        let s1 = ParserView { capture: None, ..s };
        match s.builder {
            None => Ok(s1),
            Some(b) => {
                let t = trim_spec(captured(s.capture));
                if t.len() == 0 {
                    Err(ParseError::MissingField(Field::Value))
                } else {
                    match amount_spec(t) {
                        None => Err(ParseError::InvalidDecimal),
                        Some(a) => Ok(
                            ParserView { builder: Some(BuildView { amount: Some(a), ..b }), ..s1 },
                        ),
                    }
                }
            },
        }
    } else if name == "transaction"@ {
        match s.builder {
            None => Ok(s),
            Some(b) => if b.tx_type is None {
                Err(ParseError::MissingField(Field::TransactionType))
            } else if b.date is None {
                Err(ParseError::MissingField(Field::TransactionDate))
            } else if b.amount is None {
                Err(ParseError::MissingField(Field::Value))
            } else {
                Ok(
                    ParserView {
                        transactions: s.transactions.push(seal_spec(b)),
                        builder: None,
                        ..s
                    },
                )
            },
        }
    } else {
        Ok(s)
    }
}

/// One token applied to the parser's state.
pub open spec fn step_spec(s: ParserView, t: TokenView) -> Result<ParserView, ParseError> {
    match t {
        TokenView::Start(tag) => open_spec(s, tag, true),
        TokenView::Empty(tag) => open_spec(s, tag, false),
        TokenView::End(name) => close_spec(s, name),
        TokenView::Text(x) => Ok(
            match s.capture {
                Some(c) => ParserView { capture: Some(c + x), ..s },
                None => s,
            },
        ),
        _ => Ok(s),
    }
}

/// The state after a run of tokens, or the first error.
pub open spec fn run_spec(toks: Seq<TokenView>) -> Result<ParserView, ParseError>
    decreases toks.len(),
{
    if toks.len() == 0 {
        Ok(init_spec())
    } else {
        match run_spec(toks.drop_last()) {
            Err(e) => Err(e),
            Ok(s) => step_spec(s, toks.last()),
        }
    }
}

/// The activity a final state describes.
pub open spec fn finish_spec(s: ParserView) -> Result<ActivityView, ParseError> {
    match s.identifier {
        None => Err(ParseError::MissingField(Field::Identifier)),
        Some(id) => Ok(
            ActivityView {
                iati_identifier: id,
                default_currency: s.default_currency,
                transactions: s.transactions,
                reporting_org: None,
                activity_start: None,
                activity_end: None,
            },
        ),
    }
}

/// The activity that a token stream describes, or the first error in it.
pub open spec fn activity_spec(toks: Seq<TokenView>) -> Result<ActivityView, ParseError> {
    match run_spec(toks) {
        Err(e) => Err(e),
        Ok(s) => finish_spec(s),
    }
}

/// `r` is what `spec` gives, with activities compared by their views.
pub open spec fn activity_result_is(
    r: Result<Activity, ParseError>,
    spec: Result<ActivityView, ParseError>,
) -> bool {
    match spec {
        Ok(a) => r matches Ok(x) && x@ == a,
        Err(e) => r == Err::<Activity, ParseError>(e),
    }
}

/// `run_spec` on one more token.
pub(crate) proof fn lemma_run_push(toks: Seq<TokenView>, t: TokenView)
    ensures
        run_spec(toks.push(t)) == match run_spec(toks) {
            Err(e) => Err(e),
            Ok(s) => step_spec(s, t),
        },
{
    assert(toks.push(t).drop_last() =~= toks);
}

/// Once a run has failed, no later token changes its outcome.
pub(crate) proof fn lemma_run_err_prefix(toks: Seq<TokenView>, i: int)
    requires
        0 <= i <= toks.len(),
        run_spec(toks.take(i)) is Err,
    ensures
        run_spec(toks) == run_spec(toks.take(i)),
    decreases toks.len() - i,
{
    if i < toks.len() {
        assert(toks.take(i + 1) =~= toks.take(i).push(toks[i]));
        lemma_run_push(toks.take(i), toks[i]);
        lemma_run_err_prefix(toks, i + 1);
    } else {
        assert(toks.take(i) =~= toks);
    }
}

impl TxBuild {
    pub fn new() -> (r: TxBuild)
        ensures
            r@ == empty_build(),
    {
        TxBuild { tx_type: None, date: None, amount: None, value_currency: None, value_date: None }
    }
}

/// Reads the tokens of one activity, one at a time, into an `Activity`.
pub struct ActivityParser {
    default_currency: Option<CurrencyCode>,
    identifier: Option<String>,
    transactions: Vec<Transaction>,
    builder: Option<TxBuild>,
    capture: Option<String>,
}

impl View for ActivityParser {
    type V = ParserView;

    closed spec fn view(&self) -> ParserView {
        ParserView {
            default_currency: currency_view(self.default_currency),
            identifier: text_opt(self.identifier),
            transactions: transactions_view(self.transactions@),
            builder: build_view(self.builder),
            capture: text_opt(self.capture),
        }
    }
}

/// `r` is `Ok` with state `s` where `spec` is `Ok(s)`; otherwise `spec`'s error,
/// the state left as it was.
pub open spec fn step_result_is(
    r: Result<(), ParseError>,
    before: ParserView,
    after: ParserView,
    spec: Result<ParserView, ParseError>,
) -> bool {
    match spec {
        Ok(s) => r is Ok && after == s,
        Err(e) => r == Err::<(), ParseError>(e) && after == before,
    }
}

impl ActivityParser {
    pub fn new() -> (r: ActivityParser)
        ensures
            r@ == init_spec(),
    {
        let r = ActivityParser {
            default_currency: None,
            identifier: None,
            transactions: Vec::new(),
            builder: None,
            capture: None,
        };
        assert(r@.transactions =~= Seq::<TransactionView>::empty());
        r
    }

    /// The value of attribute `key` of `tag`, read as a date.
    fn date_attr(tag: &Tag, key: &str, missing: ParseError) -> (r: Result<Date, ParseError>)
        ensures
            match attr_lookup(tag@.attrs, key@) {
                None => r == Err::<Date, ParseError>(missing),
                Some(v) => match date_spec(v) {
                    None => r == Err::<Date, ParseError>(ParseError::InvalidDate),
                    Some(d) => r == Ok::<Date, ParseError>(d),
                },
            },
    {
        match find_attr(&tag.attrs, key) {
            None => Err(missing),
            Some(v) => match parse_date(v.as_str()) {
                None => Err(ParseError::InvalidDate),
                Some(d) => Ok(d),
            },
        }
    }

    fn open(&mut self, tag: &Tag, is_start: bool) -> (r: Result<(), ParseError>)
        ensures
            step_result_is(r, old(self)@, final(self)@, open_spec(old(self)@, tag@, is_start)),
    {
        match tag.fault {
            Some(f) => {
                if is_named(&tag.name, "iati-activity") || is_named(&tag.name, "iati-identifier")
                    || is_named(&tag.name, "transaction") || is_named(&tag.name, "transaction-type")
                    || is_named(&tag.name, "transaction-date") || is_named(&tag.name, "value") {
                    return Err(ParseError::MalformedToken(f));
                }
                return Ok(());
            },
            None => {},
        }
        if is_named(&tag.name, "iati-activity") {
            match find_attr(&tag.attrs, "default-currency") {
                Some(v) => {
                    self.default_currency = Some(CurrencyCode::new(v.as_str()));
                },
                None => {},
            }
            Ok(())
        } else if is_named(&tag.name, "iati-identifier") {
            if is_start {
                self.capture = Some(String::new());
            }
            Ok(())
        } else if is_named(&tag.name, "transaction") {
            if is_start {
                self.builder = Some(TxBuild::new());
            }
            Ok(())
        } else if is_named(&tag.name, "transaction-type") {
            if self.builder.is_none() {
                return Ok(());
            }
            let n = match find_attr(&tag.attrs, "code") {
                None => {
                    return Err(ParseError::MissingField(Field::TransactionTypeCode));
                },
                Some(v) => match parse_u16(v.as_str()) {
                    None => {
                        return Err(ParseError::InvalidInteger);
                    },
                    Some(n) => n,
                },
            };
            let mut b = self.builder.take().unwrap();
            b.tx_type = Some(TxType::from_code(n));
            self.builder = Some(b);
            Ok(())
        } else if is_named(&tag.name, "transaction-date") {
            if self.builder.is_none() {
                return Ok(());
            }
            let d = match Self::date_attr(tag, "iso-date", ParseError::MissingField(Field::TransactionDate)) {
                Err(e) => {
                    return Err(e);
                },
                Ok(d) => d,
            };
            let mut b = self.builder.take().unwrap();
            b.date = Some(d);
            self.builder = Some(b);
            Ok(())
        } else if is_named(&tag.name, "value") {
            if self.builder.is_some() {
                let vd = match find_attr(&tag.attrs, "value-date") {
                    None => None,
                    Some(v) => match parse_date(v.as_str()) {
                        None => {
                            return Err(ParseError::InvalidDate);
                        },
                        Some(d) => Some(d),
                    },
                };
                let mut b = self.builder.take().unwrap();
                match find_attr(&tag.attrs, "currency") {
                    Some(c) => {
                        b.value_currency = Some(CurrencyCode::new(c.as_str()));
                    },
                    None => {},
                }
                if vd.is_some() {
                    b.value_date = vd;
                }
                self.builder = Some(b);
            }
            if is_start {
                self.capture = Some(String::new());
            }
            Ok(())
        } else {
            Ok(())
        }
    }

    /// The gathered text, trimmed.
    fn captured_trimmed(&self) -> (r: String)
        ensures
            r@ == trim_spec(captured(self@.capture)),
    {
        match &self.capture {
            Some(t) => trim_text(t.as_str()),
            None => {
                assert(trim_spec(Seq::<char>::empty()) == Seq::<char>::empty());
                String::new()
            },
        }
    }

    fn close(&mut self, name: &String) -> (r: Result<(), ParseError>)
        ensures
            step_result_is(r, old(self)@, final(self)@, close_spec(old(self)@, name@)),
    {
        if is_named(name, "iati-identifier") {
            let t = self.captured_trimmed();
            if t.as_str().is_empty() {
                return Err(ParseError::MissingField(Field::Identifier));
            }
            self.identifier = Some(t);
            self.capture = None;
            Ok(())
        } else if is_named(name, "value") {
            if self.builder.is_none() {
                self.capture = None;
                return Ok(());
            }
            let t = self.captured_trimmed();
            if t.as_str().is_empty() {
                return Err(ParseError::MissingField(Field::Value));
            }
            let a = match parse_amount(t.as_str()) {
                None => {
                    return Err(ParseError::InvalidDecimal);
                },
                Some(a) => a,
            };
            let mut b = self.builder.take().unwrap();
            b.amount = Some(a);
            self.builder = Some(b);
            self.capture = None;
            Ok(())
        } else if is_named(name, "transaction") {
            match &self.builder {
                None => Ok(()),
                Some(b) => {
                    let tx_type = match b.tx_type {
                        None => {
                            return Err(ParseError::MissingField(Field::TransactionType));
                        },
                        Some(t) => t,
                    };
                    let date = match b.date {
                        None => {
                            return Err(ParseError::MissingField(Field::TransactionDate));
                        },
                        Some(d) => d,
                    };
                    let amount = match b.amount {
                        None => {
                            return Err(ParseError::MissingField(Field::Value));
                        },
                        Some(a) => a,
                    };
                    let b = self.builder.take().unwrap();
                    let mut money = Money::new(amount);
                    money.currency = b.value_currency;
                    money.value_date = b.value_date;
                    let tx = Transaction::new(tx_type, date, money);
                    let ghost before = self.transactions@;
                    self.transactions.push(tx);
                    assert(transactions_view(self.transactions@) =~= transactions_view(before).push(
                        tx@,
                    ));
                    Ok(())
                },
            }
        } else {
            Ok(())
        }
    }

    /// Applies one token; on an error the parser is left as it was.
    pub fn step(&mut self, tok: &Token) -> (r: Result<(), ParseError>)
        ensures
            step_result_is(r, old(self)@, final(self)@, step_spec(old(self)@, tok@)),
    {
        match tok {
            Token::Start(tag) => self.open(tag, true),
            Token::Empty(tag) => self.open(tag, false),
            Token::End(name) => self.close(name),
            Token::Text(x) => {
                match self.capture.take() {
                    Some(mut c) => {
                        c.append(x.as_str());
                        self.capture = Some(c);
                    },
                    None => {},
                }
                Ok(())
            },
            _ => Ok(()),
        }
    }

    /// The activity read, once every token has been applied.
    pub fn finish(self) -> (r: Result<Activity, ParseError>)
        ensures
            activity_result_is(r, finish_spec(self@)),
    {
        match self.identifier {
            None => Err(ParseError::MissingField(Field::Identifier)),
            Some(id) => {
                let a = Activity {
                    iati_identifier: id,
                    default_currency: self.default_currency,
                    transactions: self.transactions,
                    reporting_org: None,
                    activity_start: None,
                    activity_end: None,
                };
                Ok(a)
            },
        }
    }
}

/// Runs the parser over `tokens`, stopping at the first error.
fn run_tokens(tokens: &Vec<Token>) -> (r: Result<ActivityParser, ParseError>)
    ensures
        match run_spec(tokens_view(tokens@)) {
            Ok(s) => r matches Ok(p) && p@ == s,
            Err(e) => r matches Err(x) && x == e,
        },
{
    let ghost all = tokens_view(tokens@);
    let mut p = ActivityParser::new();
    let mut i: usize = 0;
    assert(all.take(0) =~= Seq::<TokenView>::empty());
    while i < tokens.len()
        invariant
            0 <= i <= tokens@.len(),
            all == tokens_view(tokens@),
            run_spec(all.take(i as int)) == Ok::<ParserView, ParseError>(p@),
        decreases tokens.len() - i,
    {
        assert(all.take(i + 1) =~= all.take(i as int).push(tokens@[i as int]@));
        proof {
            lemma_run_push(all.take(i as int), tokens@[i as int]@);
        }
        match p.step(&tokens[i]) {
            Err(e) => {
                proof {
                    lemma_run_err_prefix(all, i + 1);
                }
                return Err(e);
            },
            Ok(()) => {},
        }
        i = i + 1;
    }
    assert(all.take(i as int) =~= all);
    Ok(p)
}

/// Reads one activity from its tokens.
pub fn parse_activity_tokens(tokens: &Vec<Token>) -> (r: Result<Activity, ParseError>)
    ensures
        activity_result_is(r, activity_spec(tokens_view(tokens@))),
{
    match run_tokens(tokens) {
        Err(e) => Err(e),
        Ok(p) => p.finish(),
    }
}

/// The parser never holds an empty identifier.
pub proof fn lemma_identifier_nonempty(toks: Seq<TokenView>)
    ensures
        run_spec(toks) matches Ok(s) ==> (s.identifier matches Some(id) ==> id.len() > 0),
        activity_spec(toks) matches Ok(a) ==> a.iati_identifier.len() > 0,
    decreases toks.len(),
{
    if toks.len() > 0 {
        lemma_run_push(toks.drop_last(), toks.last());
        assert(toks.drop_last().push(toks.last()) =~= toks);
        lemma_identifier_nonempty(toks.drop_last());
    }
}

/// The activity that a fragment's text describes: its tokens run through the
/// parser; where the tokenizer stopped on an error that the tokens before it did
/// not already give, that error.
pub open spec fn activity_of_text(xml: Seq<char>) -> Result<ActivityView, ParseError> {
    match run_spec(text_tokens(xml)) {
        Err(e) => Err(e),
        Ok(s) => match text_fault(xml) {
            Some(f) => Err(ParseError::MalformedToken(f)),
            None => finish_spec(s),
        },
    }
}

/// Reads a single `<iati-activity>` fragment.
pub fn parse_activity(xml: &str) -> (r: Result<Activity, ParseError>)
    ensures
        activity_result_is(r, activity_of_text(xml@)),
        r matches Ok(a) ==> a.iati_identifier@.len() > 0,
{
    let (tokens, fault) = tokenize(xml);
    proof {
        lemma_identifier_nonempty(tokens_view(tokens@));
    }
    match run_tokens(&tokens) {
        Err(e) => Err(e),
        Ok(p) => match fault {
            Some(f) => Err(ParseError::MalformedToken(f)),
            None => p.finish(),
        },
    }
}

} // verus!
