//! Streaming reader for IATI activity records: turns `<iati-activity>` markup
//! into typed activities with their transactions.

pub mod activity;
pub mod fx;
pub mod laws;
pub mod money;
pub mod parser;
pub mod scalar;
pub mod segment;
pub mod text;
pub mod token;
pub mod transform;
pub mod tx;

pub use activity::Activity;
pub use fx::{convert_activity, convert_money, resolve_source_currency, FxError, FxProvider, FxTable, YearMonth};
pub use money::{Amount, CurrencyCode, Date, Money};
pub use parser::{parse_activity, Field, ParseError};
pub use segment::parse_activities;
pub use transform::{
    aggregate_by_type, aggregate_by_year_and_type, ByTypeAndCurrency, ByYearTypeAndCurrency,
    FxCurrency, TransformError,
};
pub use tx::{OrgRef, Transaction, TxType};
