//! Rollups: sums of transaction values by type and currency, and by year, type
//! and currency, over many activities.

use crate::activity::{Activity, ActivityView};
use crate::fx::source_currency_spec;
use crate::money::{currency_view, Amount, CurrencyCode};
use crate::scalar::{add_amounts, decimal_sum};
use crate::text::is_named;
use crate::tx::{TransactionView, TxType};
use vstd::prelude::*;

verus! {

/// Why a rollup failed.
#[derive(Debug, Clone, Copy, PartialEq, Eq, Structural)]
pub enum TransformError {
    /// A transaction has no currency of its own and its activity no default.
    MissingCurrency,
    /// A sum overflows.
    Overflow,
}

/// The currency the sums are kept in.
#[derive(Debug, Clone)]
pub enum FxCurrency {
    /// Each transaction's own currency (its value's, else its activity's default).
    Native,
    /// One currency for all, at a rate of one to one.
    Fixed { target: CurrencyCode },
}

impl View for FxCurrency {
    type V = Option<Seq<char>>;

    open spec fn view(&self) -> Option<Seq<char>> {
        match self {
            FxCurrency::Native => None,
            FxCurrency::Fixed { target } => Some(target@),
        }
    }
}

/// The index of the first entry of `e` with key `k`; `e.len()` where there is none.
pub open spec fn first_match<K>(e: Seq<(K, Amount)>, k: K) -> int
    decreases e.len(),
{
    if e.len() == 0 {
        0
    } else if e[0].0 == k {
        0
    } else {
        1 + first_match(e.drop_first(), k)
    }
}

/// The total kept under key `k`.
pub open spec fn total_in<K>(e: Seq<(K, Amount)>, k: K) -> Option<Amount> {
    let i = first_match(e, k);
    if i < e.len() {
        Some(e[i].1)
    } else {
        None
    }
}

/// `a` added to the total under `k`: a new entry where there is none; `None`
/// where the sum overflows.
pub open spec fn add_entry<K>(e: Seq<(K, Amount)>, k: K, a: Amount) -> Option<Seq<(K, Amount)>> {
    let i = first_match(e, k);
    if i < e.len() {
        match decimal_sum(e[i].1, a) {
            None => None,
            Some(s) => Some(e.update(i, (k, s))),
        }
    } else {
        Some(e.push((k, a)))
    }
}

proof fn lemma_first_match_bounds<K>(e: Seq<(K, Amount)>, k: K)
    ensures
        0 <= first_match(e, k) <= e.len(),
        first_match(e, k) < e.len() ==> e[first_match(e, k)].0 == k,
        forall|j: int| 0 <= j < first_match(e, k) ==> e[j].0 != k,
    decreases e.len(),
{
    if e.len() > 0 && e[0].0 != k {
        lemma_first_match_bounds(e.drop_first(), k);
        assert forall|j: int| 0 <= j < first_match(e, k) implies e[j].0 != k by {
            if j > 0 {
                assert(e[j] == e.drop_first()[j - 1]);
            }
        }
    }
}

proof fn lemma_first_match_is<K>(e: Seq<(K, Amount)>, k: K, i: int)
    requires
        0 <= i <= e.len(),
        i < e.len() ==> e[i].0 == k,
        forall|j: int| 0 <= j < i ==> e[j].0 != k,
    ensures
        first_match(e, k) == i,
    decreases e.len(),
{
    if e.len() > 0 && i > 0 {
        assert forall|j: int| 0 <= j < i - 1 implies e.drop_first()[j].0 != k by {
            assert(e.drop_first()[j] == e[j + 1]);
        }
        lemma_first_match_is(e.drop_first(), k, i - 1);
    }
}

/// Adding to one total leaves every other total as it was and sets that one to the
/// sum (or to the amount, where it was absent).
pub proof fn lemma_add_entry<K>(e: Seq<(K, Amount)>, k: K, a: Amount, k2: K)
    requires
        add_entry(e, k, a) is Some,
    ensures
        total_in(add_entry(e, k, a).unwrap(), k2) == if k2 == k {
            match total_in(e, k) {
                None => Some(a),
                Some(t) => decimal_sum(t, a),
            }
        } else {
            total_in(e, k2)
        },
{
    let n = add_entry(e, k, a).unwrap();
    lemma_first_match_bounds(e, k);
    lemma_first_match_bounds(e, k2);
    let i = first_match(e, k);
    let i2 = first_match(e, k2);
    if k2 == k {
        lemma_first_match_is(n, k, i);
    } else {
        if i < e.len() {
            lemma_first_match_is(n, k2, i2);
        } else {
            if i2 < e.len() {
                lemma_first_match_is(n, k2, i2);
            } else {
                lemma_first_match_is(n, k2, e.len() + 1int);
            }
        }
    }
}

/// No key occurs twice.
pub open spec fn keys_unique<K>(e: Seq<(K, Amount)>) -> bool {
    forall|i: int, j: int| 0 <= i < j < e.len() ==> #[trigger] e[i].0 != #[trigger] e[j].0
}

/// Adding to a total keeps one entry per key.
pub proof fn lemma_add_entry_unique<K>(e: Seq<(K, Amount)>, k: K, a: Amount)
    requires
        keys_unique(e),
        add_entry(e, k, a) is Some,
    ensures
        keys_unique(add_entry(e, k, a).unwrap()),
{
    lemma_first_match_bounds(e, k);
    let n = add_entry(e, k, a).unwrap();
    let m = first_match(e, k);
    assert forall|i: int, j: int| 0 <= i < j < n.len() implies #[trigger] n[i].0 != #[trigger] n[j].0 by {
        if m == e.len() {
            if j == e.len() {
                assert(n[i].0 == e[i].0);
            } else {
                assert(n[i] == e[i] && n[j] == e[j]);
            }
        } else {
            assert(n[i].0 == e[i].0 && n[j].0 == e[j].0);
        }
    }
}

/// One total: a type, a currency and the sum of the amounts.
pub struct TypeTotal {
    pub tx_type: TxType,
    pub currency: CurrencyCode,
    pub amount: Amount,
}

/// Sums by transaction type and currency, one entry per pair.
pub struct ByTypeAndCurrency {
    pub sums: Vec<TypeTotal>,
}

pub open spec fn type_totals_view(v: Seq<TypeTotal>) -> Seq<((TxType, Seq<char>), Amount)> {
    v.map_values(|t: TypeTotal| ((t.tx_type, t.currency@), t.amount))
}

impl View for ByTypeAndCurrency {
    type V = Seq<((TxType, Seq<char>), Amount)>;

    open spec fn view(&self) -> Seq<((TxType, Seq<char>), Amount)> {
        type_totals_view(self.sums@)
    }
}

impl ByTypeAndCurrency {
    /// No sums.
    pub fn new() -> (r: ByTypeAndCurrency)
        ensures
            r@ == Seq::<((TxType, Seq<char>), Amount)>::empty(),
    {
        let r = ByTypeAndCurrency { sums: Vec::new() };
        assert(r@ =~= Seq::<((TxType, Seq<char>), Amount)>::empty());
        r
    }

    /// The index of the total for `tx_type` and `currency`, or the number of totals.
    fn position(&self, tx_type: TxType, currency: &CurrencyCode) -> (r: usize)
        ensures
            r == first_match(self@, (tx_type, currency@)),
    {
        let ghost e = self@;
        let ghost k = (tx_type, currency@);
        let mut i: usize = 0;
        while i < self.sums.len()
            invariant
                0 <= i <= self.sums@.len(),
                e == self@,
                k == (tx_type, currency@),
                e.len() == self.sums@.len(),
                forall|j: int| 0 <= j < i ==> e[j].0 != k,
            decreases self.sums.len() - i,
        {
            let t = &self.sums[i];
            assert(e[i as int] == ((t.tx_type, t.currency@), t.amount));
            if t.tx_type == tx_type && is_named(&t.currency.0, currency.as_str()) {
                proof {
                    lemma_first_match_is(e, k, i as int);
                }
                return i;
            }
            i = i + 1;
        }
        proof {
            lemma_first_match_is(e, k, i as int);
        }
        i
    }

    /// Adds `amount` to the total for `tx_type` and `currency`; fails, changing
    /// nothing, where the sum overflows.
    pub fn add(&mut self, tx_type: TxType, currency: CurrencyCode, amount: Amount) -> (r: Result<
        (),
        TransformError,
    >)
        ensures
            match add_entry(old(self)@, (tx_type, currency@), amount) {
                Some(n) => r is Ok && final(self)@ == n,
                None => r == Err::<(), TransformError>(TransformError::Overflow) && final(self)@ == old(
                    self,
                )@,
            },
    {
        let i = self.position(tx_type, &currency);
        proof {
            lemma_first_match_bounds(old(self)@, (tx_type, currency@));
        }
        if i < self.sums.len() {
            match add_amounts(self.sums[i].amount, amount) {
                None => Err(TransformError::Overflow),
                Some(s) => {
                    let ghost before = self.sums@;
                    self.sums.set(i, TypeTotal { tx_type, currency, amount: s });
                    assert(self@ =~= type_totals_view(before).update(i as int, ((tx_type, currency@), s)));
                    Ok(())
                },
            }
        } else {
            let ghost before = self.sums@;
            let ghost key = (tx_type, currency@);
            self.sums.push(TypeTotal { tx_type, currency, amount });
            assert(self@ =~= type_totals_view(before).push((key, amount)));
            Ok(())
        }
    }

    /// The total for `tx_type` and `currency`, if any amount was added to it.
    pub fn total_for(&self, tx_type: TxType, currency: &CurrencyCode) -> (r: Option<Amount>)
        ensures
            r == total_in(self@, (tx_type, currency@)),
    {
        let i = self.position(tx_type, currency);
        if i < self.sums.len() {
            Some(self.sums[i].amount)
        } else {
            None
        }
    }
}

/// One total: a year, a type, a currency and the sum of the amounts.
pub struct YearTotal {
    pub year: i32,
    pub tx_type: TxType,
    pub currency: CurrencyCode,
    pub amount: Amount,
}

/// Sums by calendar year of the transaction's date, transaction type and currency,
/// one entry per triple.
pub struct ByYearTypeAndCurrency {
    pub sums: Vec<YearTotal>,
}

pub open spec fn year_totals_view(v: Seq<YearTotal>) -> Seq<((i32, TxType, Seq<char>), Amount)> {
    v.map_values(|t: YearTotal| ((t.year, t.tx_type, t.currency@), t.amount))
}

impl View for ByYearTypeAndCurrency {
    type V = Seq<((i32, TxType, Seq<char>), Amount)>;

    open spec fn view(&self) -> Seq<((i32, TxType, Seq<char>), Amount)> {
        year_totals_view(self.sums@)
    }
}

impl ByYearTypeAndCurrency {
    /// No sums.
    pub fn new() -> (r: ByYearTypeAndCurrency)
        ensures
            r@ == Seq::<((i32, TxType, Seq<char>), Amount)>::empty(),
    {
        let r = ByYearTypeAndCurrency { sums: Vec::new() };
        assert(r@ =~= Seq::<((i32, TxType, Seq<char>), Amount)>::empty());
        r
    }

    /// The index of the total for `year`, `tx_type` and `currency`, or the number
    /// of totals.
    fn position(&self, year: i32, tx_type: TxType, currency: &CurrencyCode) -> (r: usize)
        ensures
            r == first_match(self@, (year, tx_type, currency@)),
    {
        let ghost e = self@;
        let ghost k = (year, tx_type, currency@);
        let mut i: usize = 0;
        while i < self.sums.len()
            invariant
                0 <= i <= self.sums@.len(),
                e == self@,
                k == (year, tx_type, currency@),
                e.len() == self.sums@.len(),
                forall|j: int| 0 <= j < i ==> e[j].0 != k,
            decreases self.sums.len() - i,
        {
            let t = &self.sums[i];
            assert(e[i as int] == ((t.year, t.tx_type, t.currency@), t.amount));
            if t.year == year && t.tx_type == tx_type && is_named(&t.currency.0, currency.as_str()) {
                proof {
                    lemma_first_match_is(e, k, i as int);
                }
                return i;
            }
            i = i + 1;
        }
        proof {
            lemma_first_match_is(e, k, i as int);
        }
        i
    }

    /// Adds `amount` to the total for `year`, `tx_type` and `currency`; fails,
    /// changing nothing, where the sum overflows.
    pub fn add(&mut self, year: i32, tx_type: TxType, currency: CurrencyCode, amount: Amount) -> (r:
        Result<(), TransformError>)
        ensures
            match add_entry(old(self)@, (year, tx_type, currency@), amount) {
                Some(n) => r is Ok && final(self)@ == n,
                None => r == Err::<(), TransformError>(TransformError::Overflow) && final(self)@ == old(
                    self,
                )@,
            },
    {
        let i = self.position(year, tx_type, &currency);
        proof {
            lemma_first_match_bounds(old(self)@, (year, tx_type, currency@));
        }
        if i < self.sums.len() {
            match add_amounts(self.sums[i].amount, amount) {
                None => Err(TransformError::Overflow),
                Some(s) => {
                    let ghost before = self.sums@;
                    self.sums.set(i, YearTotal { year, tx_type, currency, amount: s });
                    assert(self@ =~= year_totals_view(before).update(
                        i as int,
                        ((year, tx_type, currency@), s),
                    ));
                    Ok(())
                },
            }
        } else {
            let ghost before = self.sums@;
            let ghost key = (year, tx_type, currency@);
            self.sums.push(YearTotal { year, tx_type, currency, amount });
            assert(self@ =~= year_totals_view(before).push((key, amount)));
            Ok(())
        }
    }

    /// The total for `year`, `tx_type` and `currency`, if any amount was added to it.
    pub fn total_for(&self, year: i32, tx_type: TxType, currency: &CurrencyCode) -> (r: Option<Amount>)
        ensures
            r == total_in(self@, (year, tx_type, currency@)),
    {
        let i = self.position(year, tx_type, currency);
        if i < self.sums.len() {
            Some(self.sums[i].amount)
        } else {
            None
        }
    }
}

/// The currency a transaction's value is in, within `act`: the value's own, else
/// the activity's default.
fn resolve_currency(act: &Activity, currency: &Option<CurrencyCode>) -> (r: Result<
    CurrencyCode,
    TransformError,
>)
    ensures
        match source_currency_spec(currency_view(*currency), act@.default_currency) {
            Some(c) => r matches Ok(x) && x@ == c,
            None => r == Err::<CurrencyCode, TransformError>(TransformError::MissingCurrency),
        },
{
    let c = match currency {
        Some(c) => c,
        None => match &act.default_currency {
            Some(d) => d,
            None => {
                return Err(TransformError::MissingCurrency);
            },
        },
    };
    Ok(CurrencyCode(c.0.clone()))
}

/// The currency a sum goes under: `from`, or the fixed target.
pub open spec fn fx_currency_spec(fx: Option<Seq<char>>, from: Seq<char>) -> Seq<char> {
    match fx {
        Some(t) => t,
        None => from,
    }
}

/// `amount` in `from`, under the policy `fx`: the same amount, in `from` or in
/// the fixed target at one to one.
fn apply_fx(amount: Amount, from: CurrencyCode, fx: &FxCurrency) -> (r: (Amount, CurrencyCode))
    ensures
        r.0 == amount,
        r.1@ == fx_currency_spec(fx@, from@),
{
    match fx {
        FxCurrency::Native => (amount, from),
        FxCurrency::Fixed { target } => (amount, CurrencyCode(target.0.clone())),
    }
}

/// The key and amount a transaction of `act` adds under policy `fx`; `None` for a
/// transaction whose currency cannot be resolved, which is skipped.
pub open spec fn contribution<K>(
    act: ActivityView,
    tx: TransactionView,
    fx: Option<Seq<char>>,
    key: spec_fn(TransactionView, Seq<char>) -> K,
) -> Option<(K, Amount)> {
    match source_currency_spec(tx.value.currency, act.default_currency) {
        None => None,
        Some(c) => Some((key(tx, fx_currency_spec(fx, c)), tx.value.amount)),
    }
}

/// The totals `e` after the transactions `txs` of `act`, or `None` on overflow.
pub open spec fn rollup_txs<K>(
    e: Seq<(K, Amount)>,
    act: ActivityView,
    txs: Seq<TransactionView>,
    fx: Option<Seq<char>>,
    key: spec_fn(TransactionView, Seq<char>) -> K,
) -> Option<Seq<(K, Amount)>>
    decreases txs.len(),
{
    if txs.len() == 0 {
        Some(e)
    } else {
        match rollup_txs(e, act, txs.drop_last(), fx, key) {
            None => None,
            Some(e2) => match contribution(act, txs.last(), fx, key) {
                None => Some(e2),
                Some(x) => add_entry(e2, x.0, x.1),
            },
        }
    }
}

/// The totals over every transaction of `acts` in order, or `None` on overflow.
pub open spec fn rollup<K>(
    acts: Seq<ActivityView>,
    fx: Option<Seq<char>>,
    key: spec_fn(TransactionView, Seq<char>) -> K,
) -> Option<Seq<(K, Amount)>>
    decreases acts.len(),
{
    if acts.len() == 0 {
        Some(Seq::empty())
    } else {
        match rollup(acts.drop_last(), fx, key) {
            None => None,
            Some(e) => rollup_txs(e, acts.last(), acts.last().transactions, fx, key),
        }
    }
}

proof fn lemma_rollup_txs_none<K>(
    e: Seq<(K, Amount)>,
    act: ActivityView,
    txs: Seq<TransactionView>,
    fx: Option<Seq<char>>,
    key: spec_fn(TransactionView, Seq<char>) -> K,
    j: int,
)
    requires
        0 <= j <= txs.len(),
        rollup_txs(e, act, txs.take(j), fx, key) is None,
    ensures
        rollup_txs(e, act, txs, fx, key) is None,
    decreases txs.len() - j,
{
    if j < txs.len() {
        assert(txs.take(j + 1).drop_last() =~= txs.take(j));
        lemma_rollup_txs_none(e, act, txs, fx, key, j + 1);
    } else {
        assert(txs.take(j) =~= txs);
    }
}

proof fn lemma_rollup_none<K>(
    acts: Seq<ActivityView>,
    fx: Option<Seq<char>>,
    key: spec_fn(TransactionView, Seq<char>) -> K,
    i: int,
)
    requires
        0 <= i <= acts.len(),
        rollup(acts.take(i), fx, key) is None,
    ensures
        rollup(acts, fx, key) is None,
    decreases acts.len() - i,
{
    if i < acts.len() {
        assert(acts.take(i + 1).drop_last() =~= acts.take(i));
        lemma_rollup_none(acts, fx, key, i + 1);
    } else {
        assert(acts.take(i) =~= acts);
    }
}

proof fn lemma_rollup_txs_unique<K>(
    e: Seq<(K, Amount)>,
    act: ActivityView,
    txs: Seq<TransactionView>,
    fx: Option<Seq<char>>,
    key: spec_fn(TransactionView, Seq<char>) -> K,
)
    requires
        keys_unique(e),
    ensures
        rollup_txs(e, act, txs, fx, key) matches Some(n) ==> keys_unique(n),
    decreases txs.len(),
{
    if txs.len() > 0 {
        lemma_rollup_txs_unique(e, act, txs.drop_last(), fx, key);
        if let Some(e2) = rollup_txs(e, act, txs.drop_last(), fx, key) {
            if let Some(x) = contribution(act, txs.last(), fx, key) {
                if add_entry(e2, x.0, x.1) is Some {
                    lemma_add_entry_unique(e2, x.0, x.1);
                }
            }
        }
    }
}

/// A rollup keeps one entry per key.
pub proof fn lemma_rollup_unique<K>(
    acts: Seq<ActivityView>,
    fx: Option<Seq<char>>,
    key: spec_fn(TransactionView, Seq<char>) -> K,
)
    ensures
        rollup(acts, fx, key) matches Some(e) ==> keys_unique(e),
    decreases acts.len(),
{
    if acts.len() > 0 {
        lemma_rollup_unique(acts.drop_last(), fx, key);
        if let Some(e) = rollup(acts.drop_last(), fx, key) {
            lemma_rollup_txs_unique(e, acts.last(), acts.last().transactions, fx, key);
        }
    }
}

pub open spec fn activities_views(v: Seq<Activity>) -> Seq<ActivityView> {
    v.map_values(|a: Activity| a@)
}

/// Keys sums by type and currency.
pub open spec fn type_key() -> spec_fn(TransactionView, Seq<char>) -> (TxType, Seq<char>) {
    |tx: TransactionView, c: Seq<char>| (tx.tx_type, c)
}

/// Keys sums by year of the transaction's date, type and currency.
pub open spec fn year_key() -> spec_fn(TransactionView, Seq<char>) -> (i32, TxType, Seq<char>) {
    |tx: TransactionView, c: Seq<char>| (tx.date.year, tx.tx_type, c)
}

/// Sums every transaction's amount by type and currency, over all activities.
/// A transaction's currency is its value's, else its activity's default; with
/// none it is skipped. Fails only where a sum overflows.
pub fn aggregate_by_type(activities: &[Activity], fx: FxCurrency) -> (r: Result<
    ByTypeAndCurrency,
    TransformError,
>)
    ensures
        match rollup(activities_views(activities@), fx@, type_key()) {
            Some(e) => r matches Ok(x) && x@ == e,
            None => r matches Err(TransformError::Overflow),
        },
        r matches Ok(x) ==> keys_unique(x@),
{
    let ghost acts = activities_views(activities@);
    proof {
        lemma_rollup_unique(acts, fx@, type_key());
    }
    let mut out = ByTypeAndCurrency::new();
    let mut i: usize = 0;
    assert(acts.take(0) =~= Seq::<ActivityView>::empty());
    while i < activities.len()
        invariant
            0 <= i <= activities@.len(),
            acts == activities_views(activities@),
            rollup(acts.take(i as int), fx@, type_key()) == Some(out@),
        decreases activities.len() - i,
    {
        let act = &activities[i];
        let ghost start = out@;
        let ghost txs = act@.transactions;
        let mut j: usize = 0;
        assert(txs.take(0) =~= Seq::<TransactionView>::empty());
        assert(acts.take(i + 1).drop_last() =~= acts.take(i as int));
        while j < act.transactions.len()
            invariant
                0 <= j <= act.transactions@.len(),
                i < activities@.len(),
                acts == activities_views(activities@),
                act == &activities@[i as int],
                txs == act@.transactions,
                txs.len() == act.transactions@.len(),
                rollup(acts.take(i as int), fx@, type_key()) == Some(start),
                rollup_txs(start, act@, txs.take(j as int), fx@, type_key()) == Some(out@),
            decreases act.transactions.len() - j,
        {
            let tx = &act.transactions[j];
            assert(txs.take(j + 1).drop_last() =~= txs.take(j as int));
            assert(txs[j as int] == tx@);
            match resolve_currency(act, &tx.value.currency) {
                Err(_) => {},
                Ok(c) => {
                    let (amt, cur) = apply_fx(tx.value.amount, c, &fx);
                    match out.add(tx.tx_type, cur, amt) {
                        Err(e) => {
                            proof {
                                lemma_rollup_txs_none(start, act@, txs, fx@, type_key(), j + 1);
                                assert(acts.take(i + 1).drop_last() =~= acts.take(i as int));
                                assert(acts.take(i + 1).last() == act@);
                                lemma_rollup_none(acts, fx@, type_key(), i + 1);
                            }
                            return Err(e);
                        },
                        Ok(()) => {},
                    }
                },
            }
            j = j + 1;
        }
        assert(txs.take(j as int) =~= txs);
        assert(acts.take(i + 1).last() == act@);
        i = i + 1;
    }
    assert(acts.take(i as int) =~= acts);
    Ok(out)
}

/// Sums every transaction's amount by the year of its date, type and currency,
/// over all activities.
/// A transaction's currency is its value's, else its activity's default; with
/// none it is skipped. Fails only where a sum overflows.
pub fn aggregate_by_year_and_type(activities: &[Activity], fx: FxCurrency) -> (r: Result<
    ByYearTypeAndCurrency,
    TransformError,
>)
    ensures
        match rollup(activities_views(activities@), fx@, year_key()) {
            Some(e) => r matches Ok(x) && x@ == e,
            None => r matches Err(TransformError::Overflow),
        },
        r matches Ok(x) ==> keys_unique(x@),
{
    let ghost acts = activities_views(activities@);
    proof {
        lemma_rollup_unique(acts, fx@, year_key());
    }
    let mut out = ByYearTypeAndCurrency::new();
    let mut i: usize = 0;
    assert(acts.take(0) =~= Seq::<ActivityView>::empty());
    while i < activities.len()
        invariant
            0 <= i <= activities@.len(),
            acts == activities_views(activities@),
            rollup(acts.take(i as int), fx@, year_key()) == Some(out@),
        decreases activities.len() - i,
    {
        let act = &activities[i];
        let ghost start = out@;
        let ghost txs = act@.transactions;
        let mut j: usize = 0;
        assert(txs.take(0) =~= Seq::<TransactionView>::empty());
        assert(acts.take(i + 1).drop_last() =~= acts.take(i as int));
        while j < act.transactions.len()
            invariant
                0 <= j <= act.transactions@.len(),
                i < activities@.len(),
                acts == activities_views(activities@),
                act == &activities@[i as int],
                txs == act@.transactions,
                txs.len() == act.transactions@.len(),
                rollup(acts.take(i as int), fx@, year_key()) == Some(start),
                rollup_txs(start, act@, txs.take(j as int), fx@, year_key()) == Some(out@),
            decreases act.transactions.len() - j,
        {
            let tx = &act.transactions[j];
            assert(txs.take(j + 1).drop_last() =~= txs.take(j as int));
            assert(txs[j as int] == tx@);
            match resolve_currency(act, &tx.value.currency) {
                Err(_) => {},
                Ok(c) => {
                    let (amt, cur) = apply_fx(tx.value.amount, c, &fx);
                    match out.add(tx.date.year, tx.tx_type, cur, amt) {
                        Err(e) => {
                            proof {
                                lemma_rollup_txs_none(start, act@, txs, fx@, year_key(), j + 1);
                                assert(acts.take(i + 1).drop_last() =~= acts.take(i as int));
                                assert(acts.take(i + 1).last() == act@);
                                lemma_rollup_none(acts, fx@, year_key(), i + 1);
                            }
                            return Err(e);
                        },
                        Ok(()) => {},
                    }
                },
            }
            j = j + 1;
        }
        assert(txs.take(j as int) =~= txs);
        assert(acts.take(i + 1).last() == act@);
        i = i + 1;
    }
    assert(acts.take(i as int) =~= acts);
    Ok(out)
}

} // verus!
