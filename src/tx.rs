//! Transaction types, organisation references and transactions.

use crate::money::{currency_view, CurrencyCode, Date, Money, MoneyView};
use crate::text::{parse_u16, trim_spec, trim_text, u16_spec};
use vstd::prelude::*;

verus! {

/// The kind of financial event a transaction records, by its IATI code.
/// Codes outside the list are kept as they are in `Unknown`.
#[derive(Debug, Clone, Copy, PartialEq, Eq, Structural, Hash)]
pub enum TxType {
    IncomingFunds,
    OutgoingCommitment,
    Disbursement,
    Expenditure,
    InterestPayment,
    LoanRepayment,
    Reimbursement,
    PurchaseOfEquity,
    SaleOfEquity,
    CreditGuarantee,
    IncomingCommitment,
    OutgoingPledge,
    IncomingPledge,
    Unknown(u16),
}

/// The transaction type that `code` names.
pub open spec fn tx_type_of(code: u16) -> TxType {
    match code {
        1 => TxType::IncomingFunds,
        2 => TxType::OutgoingCommitment,
        3 => TxType::Disbursement,
        4 => TxType::Expenditure,
        5 => TxType::InterestPayment,
        6 => TxType::LoanRepayment,
        7 => TxType::Reimbursement,
        8 => TxType::PurchaseOfEquity,
        9 => TxType::SaleOfEquity,
        10 => TxType::CreditGuarantee,
        11 => TxType::IncomingCommitment,
        12 => TxType::OutgoingPledge,
        13 => TxType::IncomingPledge,
        c => TxType::Unknown(c),
    }
}

/// The code of a transaction type.
pub open spec fn code_of(t: TxType) -> u16 {
    match t {
        TxType::IncomingFunds => 1,
        TxType::OutgoingCommitment => 2,
        TxType::Disbursement => 3,
        TxType::Expenditure => 4,
        TxType::InterestPayment => 5,
        TxType::LoanRepayment => 6,
        TxType::Reimbursement => 7,
        TxType::PurchaseOfEquity => 8,
        TxType::SaleOfEquity => 9,
        TxType::CreditGuarantee => 10,
        TxType::IncomingCommitment => 11,
        TxType::OutgoingPledge => 12,
        TxType::IncomingPledge => 13,
        TxType::Unknown(c) => c,
    }
}

/// The transaction type that a code written as text names: the text, trimmed,
/// read as a `u16`.
pub open spec fn tx_type_from_text(s: Seq<char>) -> Option<TxType> {
    match u16_spec(trim_spec(s)) {
        Some(n) => Some(tx_type_of(n)),
        None => None,
    }
}

impl TxType {
    /// The IATI code of this transaction type.
    pub fn code(self) -> (r: u16)
        ensures
            r == code_of(self),
    {
        match self {
            TxType::IncomingFunds => 1,
            TxType::OutgoingCommitment => 2,
            TxType::Disbursement => 3,
            TxType::Expenditure => 4,
            TxType::InterestPayment => 5,
            TxType::LoanRepayment => 6,
            TxType::Reimbursement => 7,
            TxType::PurchaseOfEquity => 8,
            TxType::SaleOfEquity => 9,
            TxType::CreditGuarantee => 10,
            TxType::IncomingCommitment => 11,
            TxType::OutgoingPledge => 12,
            TxType::IncomingPledge => 13,
            TxType::Unknown(c) => c,
        }
    }

    /// The transaction type with the given code.
    pub fn from_code(code: u16) -> (r: TxType)
        ensures
            r == tx_type_of(code),
    {
        match code {
            1 => TxType::IncomingFunds,
            2 => TxType::OutgoingCommitment,
            3 => TxType::Disbursement,
            4 => TxType::Expenditure,
            5 => TxType::InterestPayment,
            6 => TxType::LoanRepayment,
            7 => TxType::Reimbursement,
            8 => TxType::PurchaseOfEquity,
            9 => TxType::SaleOfEquity,
            10 => TxType::CreditGuarantee,
            11 => TxType::IncomingCommitment,
            12 => TxType::OutgoingPledge,
            13 => TxType::IncomingPledge,
            c => TxType::Unknown(c),
        }
    }

    /// The transaction type whose code `s` spells, surrounding whitespace
    /// allowed; `None` where `s` is no `u16`.
    pub fn from_text(s: &str) -> (r: Option<TxType>)
        ensures
            r == tx_type_from_text(s@),
    {
        let t = trim_text(s);
        match parse_u16(t.as_str()) {
            Some(n) => Some(TxType::from_code(n)),
            None => None,
        }
    }

    /// The code written in decimal digits.
    pub fn to_text(self) -> (r: String)
        ensures
            u16_spec(r@) == Some(code_of(self)),
    {
        u16_to_text(self.code())
    }
}

/// Relies on `u16`'s `to_string`: the decimal digits of `n`, which `u16::from_str`
/// reads back as `n`.
#[verifier::external_body]
fn u16_to_text(n: u16) -> (r: String)
    ensures
        u16_spec(r@) == Some(n),
{
    n.to_string()
}

impl From<u16> for TxType {
    fn from(code: u16) -> TxType {
        TxType::from_code(code)
    }
}

impl vstd::std_specs::convert::FromSpecImpl<u16> for TxType {
    open spec fn obeys_from_spec() -> bool {
        true
    }

    open spec fn from_spec(v: u16) -> TxType {
        tx_type_of(v)
    }
}

/// The text held no transaction-type code.
#[derive(Debug, Clone, Copy, PartialEq, Eq, Structural)]
pub struct InvalidCode;

impl std::str::FromStr for TxType {
    type Err = InvalidCode;

    fn from_str(s: &str) -> Result<TxType, InvalidCode> {
        match TxType::from_text(s) {
            Some(t) => Ok(t),
            None => Err(InvalidCode),
        }
    }
}

/// A reference to an organisation.
#[derive(Debug, Clone, Default)]
pub struct OrgRef {
    /// The organisation's IATI or registry identifier.
    pub ref_id: Option<String>,
    /// Display name.
    pub name: Option<String>,
}

pub struct OrgRefView {
    pub ref_id: Option<Seq<char>>,
    pub name: Option<Seq<char>>,
}

pub open spec fn text_view(s: Option<String>) -> Option<Seq<char>> {
    match s {
        Some(s) => Some(s@),
        None => None,
    }
}

impl View for OrgRef {
    type V = OrgRefView;

    open spec fn view(&self) -> OrgRefView {
        OrgRefView { ref_id: text_view(self.ref_id), name: text_view(self.name) }
    }
}

pub open spec fn org_view(o: Option<OrgRef>) -> Option<OrgRefView> {
    match o {
        Some(o) => Some(o@),
        None => None,
    }
}

/// One financial event of an activity.
#[derive(Debug, Clone)]
pub struct Transaction {
    pub tx_type: TxType,
    pub date: Date,
    pub value: Money,
    pub provider_org: Option<OrgRef>,
    pub receiver_org: Option<OrgRef>,
    /// A currency already resolved by the caller, if any.
    pub currency_hint: Option<CurrencyCode>,
}

pub struct TransactionView {
    pub tx_type: TxType,
    pub date: Date,
    pub value: MoneyView,
    pub provider_org: Option<OrgRefView>,
    pub receiver_org: Option<OrgRefView>,
    pub currency_hint: Option<Seq<char>>,
}

impl View for Transaction {
    type V = TransactionView;

    open spec fn view(&self) -> TransactionView {
        TransactionView {
            tx_type: self.tx_type,
            date: self.date,
            value: self.value@,
            provider_org: org_view(self.provider_org),
            receiver_org: org_view(self.receiver_org),
            currency_hint: currency_view(self.currency_hint),
        }
    }
}

impl Transaction {
    /// A transaction with no organisations and no currency hint.
    pub fn new(tx_type: TxType, date: Date, value: Money) -> (r: Transaction)
        ensures
            r@ == (TransactionView {
                tx_type,
                date,
                value: value@,
                provider_org: None,
                receiver_org: None,
                currency_hint: None,
            }),
    {
        Transaction {
            tx_type,
            date,
            value,
            provider_org: None,
            receiver_org: None,
            currency_hint: None,
        }
    }

    /// The same transaction with `org` as provider.
    pub fn with_provider(self, org: OrgRef) -> (r: Transaction)
        ensures
            r@ == (TransactionView { provider_org: Some(org@), ..self@ }),
    {
        let mut t = self;
        t.provider_org = Some(org);
        t
    }

    /// The same transaction with `org` as receiver.
    pub fn with_receiver(self, org: OrgRef) -> (r: Transaction)
        ensures
            r@ == (TransactionView { receiver_org: Some(org@), ..self@ }),
    {
        let mut t = self;
        t.receiver_org = Some(org);
        t
    }

    /// The same transaction with `code` as currency hint.
    pub fn with_currency_hint(self, code: CurrencyCode) -> (r: Transaction)
        ensures
            r@ == (TransactionView { currency_hint: Some(code@), ..self@ }),
    {
        let mut t = self;
        t.currency_hint = Some(code);
        t
    }
}

} // verus!
