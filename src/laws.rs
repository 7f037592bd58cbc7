//! Laws of the parser, proved over its specification.

use crate::activity::ActivityView;
use crate::money::MoneyView;
use crate::parser::{
    activity_of_text, activity_spec, attr_lookup, empty_build, init_spec, run_spec, step_spec, BuildView, Field,
    ParseError, ParserView,
};
use crate::scalar::{amount_spec, date_spec};
use crate::segment::{activities_of_text, activities_spec, seg_init, seg_run, seg_step, SegView};
use crate::text::{
    all_digits, is_digit, is_ws, trim_spec, trim_start_spec, u16_spec, unsigned_digits, upper_spec,
};
use crate::token::{text_fault, text_tokens, TagView, TokenView};
use crate::tx::{code_of, tx_type_from_text, tx_type_of, TransactionView};
use vstd::prelude::*;

verus! {

/// Reading the code back from the transaction type built from a code gives that
/// code, for listed and unlisted codes alike.
pub proof fn lemma_code_round_trip(c: u16)
    ensures
        code_of(tx_type_of(c)) == c,
{
}

/// Text that `u16::from_str` accepts has no whitespace to trim.
proof fn lemma_trim_number(s: Seq<char>)
    requires
        u16_spec(s) is Some,
    ensures
        trim_spec(s) == s,
{
    assert(unsigned_digits(s) is Some);
    let d = unsigned_digits(s).unwrap();
    assert(all_digits(d));
    if s[0] == '+' {
        assert(d =~= s.drop_first());
        assert(d.last() == s.last());
    } else {
        assert(d == s);
    }
    assert(is_digit(d[0]));
    assert(is_digit(d[d.len() - 1]));
    assert(!is_ws(s[0]));
    assert(trim_start_spec(s) == s);
    assert(!is_ws(s.last()));
}

/// The transaction type built from a code, written as text and read back, is the
/// same transaction type.
pub proof fn lemma_text_round_trip(c: u16, s: Seq<char>)
    requires
        u16_spec(s) == Some(code_of(tx_type_of(c))),
    ensures
        tx_type_from_text(s) == Some(tx_type_of(c)),
{
    lemma_trim_number(s);
}

pub open spec fn tag(name: Seq<char>, attrs: Seq<(Seq<char>, Seq<char>)>) -> TagView {
    TagView { name, attrs, fault: None }
}

/// The tokens of `<iati-activity/>` with the given attributes.
pub open spec fn bare_activity(attrs: Seq<(Seq<char>, Seq<char>)>) -> Seq<TokenView> {
    seq![TokenView::Empty(tag("iati-activity"@, attrs))]
}

/// A self-closed activity has no identifier, on its own and inside a document.
pub proof fn lemma_bare_activity_fails(attrs: Seq<(Seq<char>, Seq<char>)>)
    ensures
        activity_spec(bare_activity(attrs)) == Err::<ActivityView, ParseError>(
            ParseError::MissingField(Field::Identifier),
        ),
        activities_spec(bare_activity(attrs)) == Err::<Seq<ActivityView>, ParseError>(
            ParseError::MissingField(Field::Identifier),
        ),
{
    let toks = bare_activity(attrs);
    assert(toks.drop_last() =~= Seq::<TokenView>::empty());
    reveal_with_fuel(run_spec, 2);
    reveal_with_fuel(seg_run, 2);
}

/// The element names the parser knows are pairwise different, and so are the
/// attribute names of `<value>`.
proof fn lemma_names_differ()
    ensures
        "iati-activity"@ != "iati-identifier"@,
        "iati-activity"@ != "transaction"@,
        "iati-activity"@ != "transaction-type"@,
        "iati-activity"@ != "transaction-date"@,
        "iati-activity"@ != "value"@,
        "iati-identifier"@ != "transaction"@,
        "iati-identifier"@ != "transaction-type"@,
        "iati-identifier"@ != "transaction-date"@,
        "iati-identifier"@ != "value"@,
        "transaction"@ != "transaction-type"@,
        "transaction"@ != "transaction-date"@,
        "transaction"@ != "value"@,
        "transaction-type"@ != "transaction-date"@,
        "transaction-type"@ != "value"@,
        "transaction-date"@ != "value"@,
        "currency"@ != "value-date"@,
{
    reveal_strlit("iati-activity");
    reveal_strlit("iati-identifier");
    reveal_strlit("transaction");
    reveal_strlit("transaction-type");
    reveal_strlit("transaction-date");
    reveal_strlit("value");
    reveal_strlit("currency");
    reveal_strlit("value-date");
    assert("iati-activity"@.len() == 13);
    assert("iati-identifier"@.len() == 15);
    assert("transaction"@.len() == 11);
    assert("transaction-type"@.len() == 16);
    assert("transaction-date"@.len() == 16);
    assert("value"@.len() == 5);
    assert("currency"@.len() == 8);
    assert("value-date"@.len() == 10);
    assert("transaction-type"@[12] != "transaction-date"@[12]);
}

/// The tokens of an activity up to, and with, the opening of its one transaction:
/// `<iati-activity default-currency=cur><iati-identifier>id</iati-identifier>
/// <transaction><transaction-type code=code/><transaction-date iso-date=date/>`.
pub open spec fn tx_head(
    id: Seq<char>,
    cur: Seq<char>,
    code: Seq<char>,
    date: Seq<char>,
) -> Seq<TokenView> {
    seq![
        TokenView::Start(tag("iati-activity"@, seq![("default-currency"@, cur)])),
        TokenView::Start(tag("iati-identifier"@, seq![])),
        TokenView::Text(id),
        TokenView::End("iati-identifier"@),
        TokenView::Start(tag("transaction"@, seq![])),
        TokenView::Empty(tag("transaction-type"@, seq![("code"@, code)])),
        TokenView::Empty(tag("transaction-date"@, seq![("iso-date"@, date)])),
    ]
}

/// The attributes `currency=vcur value-date=vdate`.
pub open spec fn value_attrs(vcur: Seq<char>, vdate: Seq<char>) -> Seq<(Seq<char>, Seq<char>)> {
    seq![("currency"@, vcur), ("value-date"@, vdate)]
}

/// A fragment with one transaction whose five fields are all given:
/// `tx_head`, then `<value currency=vcur value-date=vdate>amount</value>
/// </transaction></iati-activity>`.
pub open spec fn one_tx_fragment(
    id: Seq<char>,
    cur: Seq<char>,
    code: Seq<char>,
    date: Seq<char>,
    amount: Seq<char>,
    vcur: Seq<char>,
    vdate: Seq<char>,
) -> Seq<TokenView> {
    tx_head(id, cur, code, date) + seq![
        TokenView::Start(tag("value"@, value_attrs(vcur, vdate))),
        TokenView::Text(amount),
        TokenView::End("value"@),
        TokenView::End("transaction"@),
        TokenView::End("iati-activity"@),
    ]
}

/// The same fragment with a self-closed `<value currency=vcur value-date=vdate/>`.
pub open spec fn empty_value_fragment(
    id: Seq<char>,
    cur: Seq<char>,
    code: Seq<char>,
    date: Seq<char>,
    vcur: Seq<char>,
    vdate: Seq<char>,
) -> Seq<TokenView> {
    tx_head(id, cur, code, date) + seq![
        TokenView::Empty(tag("value"@, value_attrs(vcur, vdate))),
        TokenView::End("transaction"@),
        TokenView::End("iati-activity"@),
    ]
}

/// Both attributes of `value_attrs` are found.
proof fn lemma_value_attrs(vcur: Seq<char>, vdate: Seq<char>)
    ensures
        attr_lookup(value_attrs(vcur, vdate), "currency"@) == Some(vcur),
        attr_lookup(value_attrs(vcur, vdate), "value-date"@) == Some(vdate),
{
    lemma_names_differ();
    let a = value_attrs(vcur, vdate);
    assert(a.drop_first() =~= seq![("value-date"@, vdate)]);
    assert(attr_lookup(a.drop_first(), "value-date"@) == Some(vdate));
}

/// The parser's state after `tx_head`.
pub open spec fn head_state(id: Seq<char>, cur: Seq<char>, code: Seq<char>, date: Seq<char>) -> ParserView {
    ParserView {
        default_currency: Some(upper_spec(cur)),
        identifier: Some(trim_spec(id)),
        transactions: Seq::empty(),
        builder: Some(
            BuildView {
                tx_type: Some(tx_type_of(u16_spec(code).unwrap())),
                date: Some(date_spec(date).unwrap()),
                amount: None,
                value_currency: None,
                value_date: None,
            },
        ),
        capture: None,
    }
}

proof fn lemma_head(id: Seq<char>, cur: Seq<char>, code: Seq<char>, date: Seq<char>)
    requires
        trim_spec(id).len() > 0,
        u16_spec(code) is Some,
        date_spec(date) is Some,
    ensures
        run_spec(tx_head(id, cur, code, date)) == Ok::<ParserView, ParseError>(
            head_state(id, cur, code, date),
        ),
{
    lemma_names_differ();
    let h = tx_head(id, cur, code, date);
    let s0 = init_spec();
    lemma_prefix(h, 0);
    let s1 = ParserView { default_currency: Some(upper_spec(cur)), ..s0 };
    assert(run_spec(h.take(1)) == Ok::<ParserView, ParseError>(s1));
    lemma_prefix(h, 1);
    let s2 = ParserView { capture: Some(Seq::empty()), ..s1 };
    assert(run_spec(h.take(2)) == Ok::<ParserView, ParseError>(s2));
    lemma_prefix(h, 2);
    assert(Seq::<char>::empty() + id =~= id);
    let s3 = ParserView { capture: Some(id), ..s1 };
    assert(run_spec(h.take(3)) == Ok::<ParserView, ParseError>(s3));
    lemma_prefix(h, 3);
    let s4 = ParserView { identifier: Some(trim_spec(id)), ..s1 };
    assert(run_spec(h.take(4)) == Ok::<ParserView, ParseError>(s4));
    lemma_prefix(h, 4);
    let s5 = ParserView { builder: Some(empty_build()), ..s4 };
    assert(run_spec(h.take(5)) == Ok::<ParserView, ParseError>(s5));
    lemma_prefix(h, 5);
    let b6 = BuildView { tx_type: Some(tx_type_of(u16_spec(code).unwrap())), ..empty_build() };
    let s6 = ParserView { builder: Some(b6), ..s4 };
    assert(run_spec(h.take(6)) == Ok::<ParserView, ParseError>(s6));
    lemma_prefix(h, 6);
    assert(h.take(7) =~= h);
}

/// The transaction that `one_tx_fragment` describes.
pub open spec fn expected_tx(
    code: Seq<char>,
    date: Seq<char>,
    amount: Seq<char>,
    vcur: Seq<char>,
    vdate: Seq<char>,
) -> TransactionView {
    TransactionView {
        tx_type: tx_type_of(u16_spec(code).unwrap()),
        date: date_spec(date).unwrap(),
        value: MoneyView {
            amount: amount_spec(trim_spec(amount)).unwrap(),
            currency: Some(upper_spec(vcur)),
            value_date: Some(date_spec(vdate).unwrap()),
        },
        provider_org: None,
        receiver_org: None,
        currency_hint: None,
    }
}

/// A fragment with one transaction whose five fields are all given reads as an
/// activity with the identifier and default currency written, and one transaction
/// with the type, date, amount, currency and value date written. Codes are compared
/// in their upper-cased form; text is compared trimmed.
pub proof fn lemma_one_transaction(
    id: Seq<char>,
    cur: Seq<char>,
    code: Seq<char>,
    date: Seq<char>,
    amount: Seq<char>,
    vcur: Seq<char>,
    vdate: Seq<char>,
)
    requires
        trim_spec(id).len() > 0,
        u16_spec(code) is Some,
        date_spec(date) is Some,
        trim_spec(amount).len() > 0,
        amount_spec(trim_spec(amount)) is Some,
        date_spec(vdate) is Some,
    ensures
        activity_spec(one_tx_fragment(id, cur, code, date, amount, vcur, vdate)) == Ok::<
            ActivityView,
            ParseError,
        >(
            ActivityView {
                iati_identifier: trim_spec(id),
                default_currency: Some(upper_spec(cur)),
                transactions: seq![expected_tx(code, date, amount, vcur, vdate)],
                reporting_org: None,
                activity_start: None,
                activity_end: None,
            },
        ),
{
    lemma_names_differ();
    let h = tx_head(id, cur, code, date);
    let f = one_tx_fragment(id, cur, code, date, amount, vcur, vdate);
    lemma_head(id, cur, code, date);
    assert(f.take(7) =~= h);
    let s7 = head_state(id, cur, code, date);
    let b7 = s7.builder.unwrap();
    lemma_value_attrs(vcur, vdate);
    lemma_prefix(f, 7);
    let b8 = BuildView {
        value_currency: Some(upper_spec(vcur)),
        value_date: Some(date_spec(vdate).unwrap()),
        ..b7
    };
    let s8 = ParserView { builder: Some(b8), capture: Some(Seq::empty()), ..s7 };
    assert(run_spec(f.take(8)) == Ok::<ParserView, ParseError>(s8));
    lemma_prefix(f, 8);
    assert(Seq::<char>::empty() + amount =~= amount);
    let s9 = ParserView { capture: Some(amount), ..s8 };
    assert(run_spec(f.take(9)) == Ok::<ParserView, ParseError>(s9));
    lemma_prefix(f, 9);
    let b10 = BuildView { amount: Some(amount_spec(trim_spec(amount)).unwrap()), ..b8 };
    let s10 = ParserView { builder: Some(b10), capture: None, ..s8 };
    assert(run_spec(f.take(10)) == Ok::<ParserView, ParseError>(s10));
    lemma_prefix(f, 10);
    let s11 = ParserView {
        transactions: seq![expected_tx(code, date, amount, vcur, vdate)],
        builder: None,
        ..s10
    };
    assert(Seq::<TransactionView>::empty().push(expected_tx(code, date, amount, vcur, vdate))
        =~= seq![expected_tx(code, date, amount, vcur, vdate)]);
    assert(run_spec(f.take(11)) == Ok::<ParserView, ParseError>(s11));
    lemma_prefix(f, 11);
    assert(f.take(12) =~= f);
}

/// A self-closed `<value/>` gives no amount, whatever its attributes: the
/// transaction it stands in fails for want of a value.
pub proof fn lemma_empty_value(
    id: Seq<char>,
    cur: Seq<char>,
    code: Seq<char>,
    date: Seq<char>,
    vcur: Seq<char>,
    vdate: Seq<char>,
)
    requires
        trim_spec(id).len() > 0,
        u16_spec(code) is Some,
        date_spec(date) is Some,
        date_spec(vdate) is Some,
    ensures
        activity_spec(empty_value_fragment(id, cur, code, date, vcur, vdate)) == Err::<
            ActivityView,
            ParseError,
        >(ParseError::MissingField(Field::Value)),
{
    lemma_names_differ();
    let h = tx_head(id, cur, code, date);
    let f = empty_value_fragment(id, cur, code, date, vcur, vdate);
    lemma_head(id, cur, code, date);
    assert(f.take(7) =~= h);
    lemma_value_attrs(vcur, vdate);
    lemma_prefix(f, 7);
    lemma_prefix(f, 8);
    assert(run_spec(f.take(9)) is Err);
    crate::parser::lemma_run_err_prefix(f, 9);
}

/// `run_spec` over one more token of `h`.
proof fn lemma_prefix(h: Seq<TokenView>, k: int)
    requires
        0 <= k < h.len(),
    ensures
        run_spec(h.take(k + 1)) == match run_spec(h.take(k)) {
            Err(e) => Err(e),
            Ok(s) => step_spec(s, h[k]),
        },
{
    assert(h.take(k + 1) =~= h.take(k).push(h[k]));
    crate::parser::lemma_run_push(h.take(k), h[k]);
}

/// The segmenter run from state `s` over `toks`.
pub open spec fn seg_fold(s: SegView, toks: Seq<TokenView>) -> Result<SegView, ParseError>
    decreases toks.len(),
{
    if toks.len() == 0 {
        Ok(s)
    } else {
        match seg_fold(s, toks.drop_last()) {
            Err(e) => Err(e),
            Ok(x) => seg_step(x, toks.last()),
        }
    }
}

proof fn lemma_seg_run_fold(toks: Seq<TokenView>)
    ensures
        seg_run(toks) == seg_fold(seg_init(), toks),
    decreases toks.len(),
{
    if toks.len() > 0 {
        lemma_seg_run_fold(toks.drop_last());
    }
}

proof fn lemma_seg_fold_concat(s: SegView, a: Seq<TokenView>, b: Seq<TokenView>)
    ensures
        seg_fold(s, a + b) == match seg_fold(s, a) {
            Err(e) => Err(e),
            Ok(x) => seg_fold(x, b),
        },
    decreases b.len(),
{
    if b.len() == 0 {
        assert(a + b =~= a);
    } else {
        assert((a + b).drop_last() =~= a + b.drop_last());
        assert((a + b).last() == b.last());
        lemma_seg_fold_concat(s, a, b.drop_last());
    }
}

/// A token that the segmenter passes over outside an activity: anything but the
/// opening of an `iati-activity`.
pub open spec fn is_filler(t: TokenView) -> bool {
    match t {
        TokenView::Start(tag) => tag.name != "iati-activity"@,
        TokenView::Empty(tag) => tag.name != "iati-activity"@,
        _ => true,
    }
}

pub open spec fn all_filler(toks: Seq<TokenView>) -> bool {
    forall|i: int| 0 <= i < toks.len() ==> is_filler(#[trigger] toks[i])
}

proof fn lemma_filler(s: SegView, toks: Seq<TokenView>)
    requires
        s.stack.len() == 0,
        all_filler(toks),
    ensures
        seg_fold(s, toks) == Ok::<SegView, ParseError>(s),
    decreases toks.len(),
{
    if toks.len() > 0 {
        assert(is_filler(toks[toks.len() - 1]));
        lemma_filler(s, toks.drop_last());
    }
}

/// How the names of open elements change with one token inside an activity.
pub open spec fn name_step(st: Seq<Seq<char>>, t: TokenView) -> Seq<Seq<char>> {
    match t {
        TokenView::Start(tag) => st.push(tag.name),
        TokenView::End(n) => if n == st.last() {
            st.drop_last()
        } else {
            st
        },
        _ => st,
    }
}

pub open spec fn name_fold(st: Seq<Seq<char>>, toks: Seq<TokenView>) -> Seq<Seq<char>>
    decreases toks.len(),
{
    if toks.len() == 0 {
        st
    } else {
        name_step(name_fold(st, toks.drop_last()), toks.last())
    }
}

/// One whole activity: it opens with `<iati-activity ...>`, and the element it opens
/// is closed by its last token and not before.
pub open spec fn is_block(b: Seq<TokenView>) -> bool {
    b.len() > 0 && b[0] is Start && b[0]->Start_0.name == "iati-activity"@ && (forall|k: int|
        1 <= k < b.len() ==> (#[trigger] name_fold(seq![b[0]->Start_0.name], b.subrange(1, k))).len()
            > 0) && name_fold(seq![b[0]->Start_0.name], b.subrange(1, b.len() as int)).len() == 0
}

/// The segmenter's state partway through a block.
pub open spec fn inside_block(s: SegView, b: Seq<TokenView>, k: int) -> SegView {
    SegView {
        stack: name_fold(seq![b[0]->Start_0.name], b.subrange(1, k)),
        buffer: b.take(k),
        out: s.out,
    }
}

proof fn lemma_block_prefix(s: SegView, b: Seq<TokenView>, k: int)
    requires
        s.stack.len() == 0,
        is_block(b),
        1 <= k < b.len(),
    ensures
        seg_fold(s, b.take(k)) == Ok::<SegView, ParseError>(inside_block(s, b, k)),
    decreases k,
{
    let n = b[0]->Start_0.name;
    if k == 1 {
        assert(b.take(1) =~= seq![b[0]]);
        assert(b.take(1).drop_last() =~= Seq::<TokenView>::empty());
        assert(seg_fold(s, Seq::<TokenView>::empty()) == Ok::<SegView, ParseError>(s));
        assert(seg_fold(s, b.take(1)) == seg_step(s, b[0]));
        assert(name_fold(seq![n], b.subrange(1, 1)) == seq![n]);
        assert(seq![b[0]].drop_last() =~= Seq::<TokenView>::empty());
        assert(b.subrange(1, 1) =~= Seq::<TokenView>::empty());
    } else {
        lemma_block_prefix(s, b, k - 1);
        assert(b.take(k).drop_last() =~= b.take(k - 1));
        assert(b.subrange(1, k).drop_last() =~= b.subrange(1, k - 1));
        let st = name_fold(seq![n], b.subrange(1, k - 1));
        if k - 1 > 1 {
            assert(name_fold(seq![n], b.subrange(1, k - 1)).len() > 0);
        } else {
            assert(b.subrange(1, 1) =~= Seq::<TokenView>::empty());
        }
        assert(st.len() > 0);
        assert(name_fold(seq![n], b.subrange(1, k)).len() > 0);
        assert(b.take(k).last() == b[k - 1]);
        assert(b.subrange(1, k).last() == b[k - 1]);
        assert(name_fold(seq![n], b.subrange(1, k)) == name_step(st, b[k - 1]));
        assert(b.take(k - 1).push(b[k - 1]) =~= b.take(k));
        let prev = inside_block(s, b, k - 1);
        assert(seg_fold(s, b.take(k)) == seg_step(prev, b[k - 1]));
        assert(seg_step(prev, b[k - 1]) == Ok::<SegView, ParseError>(inside_block(s, b, k)));
    }
}

/// A whole activity, read from outside any activity, adds its activity to the
/// output and leaves the segmenter outside again.
proof fn lemma_block(s: SegView, b: Seq<TokenView>)
    requires
        s.stack.len() == 0,
        is_block(b),
        activity_spec(b) is Ok,
    ensures
        seg_fold(s, b) == Ok::<SegView, ParseError>(
            SegView { stack: Seq::empty(), buffer: Seq::empty(), out: s.out.push(activity_spec(b).unwrap()) },
        ),
{
    let n = b[0]->Start_0.name;
    let k = b.len() - 1;
    if k == 0 {
        assert(b.subrange(1, 1) =~= Seq::<TokenView>::empty());
    } else {
        lemma_block_prefix(s, b, k);
        assert(b.drop_last() =~= b.take(k));
        assert(b.subrange(1, k + 1).drop_last() =~= b.subrange(1, k));
        assert(b.take(k).push(b[k]) =~= b);
        if k > 1 {
            assert(name_fold(seq![n], b.subrange(1, k)).len() > 0);
        } else {
            assert(b.subrange(1, 1) =~= Seq::<TokenView>::empty());
        }
    }
}

/// The document made of `fills[i] + blocks[i]` for each `i` in order.
pub open spec fn interleave(fills: Seq<Seq<TokenView>>, blocks: Seq<Seq<TokenView>>) -> Seq<TokenView>
    decreases blocks.len(),
{
    if blocks.len() == 0 || fills.len() == 0 {
        Seq::empty()
    } else {
        interleave(fills.drop_last(), blocks.drop_last()) + fills.last() + blocks.last()
    }
}

/// The activities that the blocks describe, in order.
pub open spec fn block_activities(blocks: Seq<Seq<TokenView>>) -> Seq<ActivityView> {
    blocks.map_values(|b: Seq<TokenView>| activity_spec(b).unwrap())
}

proof fn lemma_interleave(fills: Seq<Seq<TokenView>>, blocks: Seq<Seq<TokenView>>)
    requires
        fills.len() == blocks.len(),
        forall|i: int| 0 <= i < fills.len() ==> all_filler(#[trigger] fills[i]),
        forall|i: int| 0 <= i < blocks.len() ==> is_block(#[trigger] blocks[i]),
        forall|i: int| 0 <= i < blocks.len() ==> (#[trigger] activity_spec(blocks[i])) is Ok,
    ensures
        seg_fold(seg_init(), interleave(fills, blocks)) == Ok::<SegView, ParseError>(
            SegView { stack: Seq::empty(), buffer: Seq::empty(), out: block_activities(blocks) },
        ),
    decreases blocks.len(),
{
    if blocks.len() == 0 {
        assert(block_activities(blocks) =~= Seq::<ActivityView>::empty());
    } else {
        let f0 = fills.drop_last();
        let b0 = blocks.drop_last();
        lemma_interleave(f0, b0);
        let pre = interleave(f0, b0);
        let mid = SegView { stack: Seq::empty(), buffer: Seq::empty(), out: block_activities(b0) };
        let last_b = blocks.last();
        assert(all_filler(fills[fills.len() - 1]));
        assert(is_block(blocks[blocks.len() - 1]));
        assert(activity_spec(blocks[blocks.len() - 1]) is Ok);
        lemma_seg_fold_concat(seg_init(), pre, fills.last());
        lemma_filler(mid, fills.last());
        lemma_seg_fold_concat(seg_init(), pre + fills.last(), last_b);
        lemma_block(mid, last_b);
        assert(block_activities(blocks) =~= block_activities(b0).push(activity_spec(last_b).unwrap()));
    }
}

/// Segmenting keeps count and order: a document of `N` whole activities, each
/// before it and the last followed by tokens that open no activity (whitespace,
/// comments, wrapper elements), reads as exactly the `N` activities, in order.
pub proof fn lemma_segments_in_order(
    fills: Seq<Seq<TokenView>>,
    blocks: Seq<Seq<TokenView>>,
    trailer: Seq<TokenView>,
)
    requires
        fills.len() == blocks.len(),
        forall|i: int| 0 <= i < fills.len() ==> all_filler(#[trigger] fills[i]),
        all_filler(trailer),
        forall|i: int| 0 <= i < blocks.len() ==> is_block(#[trigger] blocks[i]),
        forall|i: int| 0 <= i < blocks.len() ==> (#[trigger] activity_spec(blocks[i])) is Ok,
    ensures
        activities_spec(interleave(fills, blocks) + trailer) == Ok::<Seq<ActivityView>, ParseError>(
            block_activities(blocks),
        ),
        block_activities(blocks).len() == blocks.len(),
{
    let doc = interleave(fills, blocks) + trailer;
    lemma_interleave(fills, blocks);
    lemma_seg_fold_concat(seg_init(), interleave(fills, blocks), trailer);
    lemma_filler(
        SegView { stack: Seq::empty(), buffer: Seq::empty(), out: block_activities(blocks) },
        trailer,
    );
    lemma_seg_run_fold(doc);
}

/// The text of a fragment with one fully given transaction: where the tokenizer
/// reads it, without error, as `one_tx_fragment`, the activity of the text (what
/// `parse_activity` returns) has the fields written there.
pub proof fn lemma_one_transaction_text(
    xml: Seq<char>,
    id: Seq<char>,
    cur: Seq<char>,
    code: Seq<char>,
    date: Seq<char>,
    amount: Seq<char>,
    vcur: Seq<char>,
    vdate: Seq<char>,
)
    requires
        text_tokens(xml) == one_tx_fragment(id, cur, code, date, amount, vcur, vdate),
        text_fault(xml) is None,
        trim_spec(id).len() > 0,
        u16_spec(code) is Some,
        date_spec(date) is Some,
        trim_spec(amount).len() > 0,
        amount_spec(trim_spec(amount)) is Some,
        date_spec(vdate) is Some,
    ensures
        activity_of_text(xml) == activity_spec(one_tx_fragment(id, cur, code, date, amount, vcur, vdate)),
        activity_of_text(xml) is Ok,
        activity_of_text(xml)->Ok_0.transactions == seq![expected_tx(code, date, amount, vcur, vdate)],
{
    lemma_one_transaction(id, cur, code, date, amount, vcur, vdate);
}

/// The text of a document of whole activities: where the tokenizer reads it,
/// without error, as those activities separated by tokens that open none, the
/// activities of the text (what `parse_activities` returns) are those activities,
/// as many and in the same order.
pub proof fn lemma_segments_in_order_text(
    xml: Seq<char>,
    fills: Seq<Seq<TokenView>>,
    blocks: Seq<Seq<TokenView>>,
    trailer: Seq<TokenView>,
)
    requires
        text_tokens(xml) == interleave(fills, blocks) + trailer,
        text_fault(xml) is None,
        fills.len() == blocks.len(),
        forall|i: int| 0 <= i < fills.len() ==> all_filler(#[trigger] fills[i]),
        all_filler(trailer),
        forall|i: int| 0 <= i < blocks.len() ==> is_block(#[trigger] blocks[i]),
        forall|i: int| 0 <= i < blocks.len() ==> (#[trigger] activity_spec(blocks[i])) is Ok,
    ensures
        activities_of_text(xml) == Ok::<Seq<ActivityView>, ParseError>(block_activities(blocks)),
        block_activities(blocks).len() == blocks.len(),
{
    lemma_segments_in_order(fills, blocks, trailer);
}

} // verus!
