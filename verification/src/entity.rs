use vstd::prelude::*;

verus! {

/// A tracked market instrument: a unique code, a display name, and the URL
/// of the page its current quote is read from.
#[derive(Debug)]
pub struct Stock {
    pub id: i32,
    pub code: i32,
    pub name: String,
    pub url: String,
}

/// The mathematical model of a `Stock`.
pub ghost struct StockV {
    pub id: int,
    pub code: int,
    pub name: Seq<char>,
    pub url: Seq<char>,
}

impl View for Stock {
    type V = StockV;

    open spec fn view(&self) -> StockV {
        StockV {
            id: self.id as int,
            code: self.code as int,
            name: self.name@,
            url: self.url@,
        }
    }
}

/// A price-threshold alert rule belonging to one instrument (by code): a
/// direction (`"up"` or anything else, read as "down") and a threshold.
#[derive(Debug)]
pub struct AmountAlert {
    pub id: i32,
    pub stock_code: i32,
    pub mode: String,
    pub amount: i32,
}

/// The mathematical model of an `AmountAlert`.
pub ghost struct AmountAlertV {
    pub id: int,
    pub stock_code: int,
    pub mode: Seq<char>,
    pub amount: int,
}

impl View for AmountAlert {
    type V = AmountAlertV;

    open spec fn view(&self) -> AmountAlertV {
        AmountAlertV {
            id: self.id as int,
            stock_code: self.stock_code as int,
            mode: self.mode@,
            amount: self.amount as int,
        }
    }
}

/// The model of a sequence of alerts, element by element.
pub open spec fn alerts_view(alerts: Seq<AmountAlert>) -> Seq<AmountAlertV> {
    alerts.map_values(|a: AmountAlert| a@)
}

} // verus!
