//! The activity record.

use crate::money::{currency_view, CurrencyCode, Date};
use crate::tx::{org_view, OrgRef, OrgRefView, Transaction, TransactionView};
use vstd::prelude::*;

verus! {

/// One aid activity with its transactions in document order.
#[derive(Debug, Clone)]
pub struct Activity {
    /// The activity's unique identifier.
    pub iati_identifier: String,
    /// Currency of values that carry none of their own.
    pub default_currency: Option<CurrencyCode>,
    pub transactions: Vec<Transaction>,
    /// Organisation that publishes the activity.
    pub reporting_org: Option<OrgRef>,
    pub activity_start: Option<Date>,
    pub activity_end: Option<Date>,
}

pub struct ActivityView {
    pub iati_identifier: Seq<char>,
    pub default_currency: Option<Seq<char>>,
    pub transactions: Seq<TransactionView>,
    pub reporting_org: Option<OrgRefView>,
    pub activity_start: Option<Date>,
    pub activity_end: Option<Date>,
}

pub open spec fn transactions_view(s: Seq<Transaction>) -> Seq<TransactionView> {
    s.map_values(|t: Transaction| t@)
}

impl View for Activity {
    type V = ActivityView;

    open spec fn view(&self) -> ActivityView {
        ActivityView {
            iati_identifier: self.iati_identifier@,
            default_currency: currency_view(self.default_currency),
            transactions: transactions_view(self.transactions@),
            reporting_org: org_view(self.reporting_org),
            activity_start: self.activity_start,
            activity_end: self.activity_end,
        }
    }
}

impl Activity {
    /// An activity with the given identifier and nothing else.
    pub fn new(iati_identifier: &str) -> (r: Activity)
        ensures
            r@ == (ActivityView {
                iati_identifier: iati_identifier@,
                default_currency: None,
                transactions: Seq::empty(),
                reporting_org: None,
                activity_start: None,
                activity_end: None,
            }),
    {
        let r = Activity {
            iati_identifier: iati_identifier.to_owned(),
            default_currency: None,
            transactions: Vec::new(),
            reporting_org: None,
            activity_start: None,
            activity_end: None,
        };
        assert(r@.transactions =~= Seq::<TransactionView>::empty());
        r
    }
}

} // verus!
