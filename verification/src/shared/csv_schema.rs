use vstd::prelude::*;
use vstd::std_specs::convert::FromSpecImpl;
use vstd::string::StringExecFns;

verus! {

/// The kinds of record that are written out.
#[derive(Clone, Copy, Debug, PartialEq, Eq, Structural)]
pub enum CsvDataType {
    Trade,
    OrderBook,
}

impl CsvDataType {
    /// The name of the kind in file names.
    pub open spec fn text(self) -> Seq<char> {
        match self {
            CsvDataType::Trade => "trade"@,
            CsvDataType::OrderBook => "orderbook"@,
        }
    }

    /// The name of the kind in file names.
    pub fn as_str(&self) -> (text: &'static str)
        ensures
            text@ == self.text(),
    {
        match self {
            CsvDataType::Trade => "trade",
            CsvDataType::OrderBook => "orderbook",
        }
    }
}

impl From<CsvDataType> for String {
    fn from(data_type: CsvDataType) -> (text: String)
        ensures
            text@ == data_type.text(),
    {
        String::from_str(data_type.as_str())
    }
}

impl FromSpecImpl<CsvDataType> for String {
    /// The conversion is specified on `from` itself, by the text it returns.
    open spec fn obeys_from_spec() -> bool {
        false
    }

    open spec fn from_spec(data_type: CsvDataType) -> String {
        arbitrary()
    }
}

/// One trade as it is written out.
#[derive(Clone, Debug)]
pub struct Trade {
    pub trade_time: i64,
    pub price: String,
    pub amount: String,
}

} // verus!
