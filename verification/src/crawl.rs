use vstd::prelude::*;
use crate::entity::{alerts_view, AmountAlert, AmountAlertV, Stock, StockV};
use crate::request::{is_valid_uri, validate_url, FetchError};
use crate::router::stock_router::{
    eval_spec, evaluate_alerts, responses_view, CrawlingResponse, CrawlingResponseV,
};
use crate::scraping::{extract_spec, get_stock_value};

verus! {

/// Why a whole crawl failed: the instrument is unknown, or some upstream
/// stage (URL, fetch, extraction) failed. Every fetch and extraction error
/// is surfaced as the one opaque upstream outcome.
#[derive(Clone, Copy, Debug, PartialEq, Eq, Structural)]
pub enum CrawlError {
    NotFound,
    Upstream,
}

/// Where one crawl stands. A crawl walks these states in order and the
/// outside work between them (the two lookups, the fetch) is done by the
/// caller, who feeds each outcome back as a `CrawlEvent`.
pub enum CrawlState {
    AwaitingStock { id: i32 },
    AwaitingAlerts { stock: Stock },
    AwaitingFetch { stock: Stock, alerts: Vec<AmountAlert> },
    Finished { result: Result<Vec<CrawlingResponse>, CrawlError> },
}

/// The outcome of the outside work a state was waiting for.
pub enum CrawlEvent {
    StockLoaded { stock: Option<Stock> },
    AlertsLoaded { alerts: Vec<AmountAlert> },
    FetchCompleted { result: Result<String, FetchError> },
}

/// The mathematical model of a `CrawlState`.
pub ghost enum CrawlStateV {
    AwaitingStock { id: int },
    AwaitingAlerts { stock: StockV },
    AwaitingFetch { stock: StockV, alerts: Seq<AmountAlertV> },
    Finished { result: Result<Seq<CrawlingResponseV>, CrawlError> },
}

/// The mathematical model of a `CrawlEvent`.
pub ghost enum CrawlEventV {
    StockLoaded { stock: Option<StockV> },
    AlertsLoaded { alerts: Seq<AmountAlertV> },
    FetchCompleted { result: Result<Seq<char>, FetchError> },
}

impl View for CrawlState {
    type V = CrawlStateV;

    open spec fn view(&self) -> CrawlStateV {
        match self {
            CrawlState::AwaitingStock { id } => CrawlStateV::AwaitingStock { id: *id as int },
            CrawlState::AwaitingAlerts { stock } => CrawlStateV::AwaitingAlerts { stock: stock@ },
            CrawlState::AwaitingFetch { stock, alerts } => CrawlStateV::AwaitingFetch {
                stock: stock@,
                alerts: alerts_view(alerts@),
            },
            CrawlState::Finished { result } => CrawlStateV::Finished {
                result: match result {
                    Ok(responses) => Ok(responses_view(responses@)),
                    Err(e) => Err(*e),
                },
            },
        }
    }
}

impl View for CrawlEvent {
    type V = CrawlEventV;

    open spec fn view(&self) -> CrawlEventV {
        match self {
            CrawlEvent::StockLoaded { stock } => CrawlEventV::StockLoaded {
                stock: match stock {
                    Some(s) => Some(s@),
                    None => None,
                },
            },
            CrawlEvent::AlertsLoaded { alerts } => CrawlEventV::AlertsLoaded {
                alerts: alerts_view(alerts@),
            },
            CrawlEvent::FetchCompleted { result } => CrawlEventV::FetchCompleted {
                result: match result {
                    Ok(body) => Ok(body@),
                    Err(e) => Err(*e),
                },
            },
        }
    }
}

/// Whether an event answers what the state is waiting for. The crawl is
/// strictly linear, so each state accepts exactly one kind of event.
pub open spec fn step_accepts(state: CrawlStateV, event: CrawlEventV) -> bool {
    match (state, event) {
        (CrawlStateV::AwaitingStock { .. }, CrawlEventV::StockLoaded { .. }) => true,
        (CrawlStateV::AwaitingAlerts { .. }, CrawlEventV::AlertsLoaded { .. }) => true,
        (CrawlStateV::AwaitingFetch { .. }, CrawlEventV::FetchCompleted { .. }) => true,
        _ => false,
    }
}

/// The whole crawl decision logic, one stage at a time: a missing
/// instrument finishes with `NotFound` at once; a URL that does not parse,
/// a failed fetch, or a body whose quote cannot be extracted each finish
/// with `Upstream` and no partial output; a successful fetch and extraction
/// finish with the evaluated alerts.
pub open spec fn crawl_step_spec(state: CrawlStateV, event: CrawlEventV) -> CrawlStateV {
    match (state, event) {
        (CrawlStateV::AwaitingStock { .. }, CrawlEventV::StockLoaded { stock }) => match stock {
            None => CrawlStateV::Finished { result: Err(CrawlError::NotFound) },
            Some(stock) => CrawlStateV::AwaitingAlerts { stock },
        },
        (CrawlStateV::AwaitingAlerts { stock }, CrawlEventV::AlertsLoaded { alerts }) => {
            if is_valid_uri(stock.url) {
                CrawlStateV::AwaitingFetch { stock, alerts }
            } else {
                CrawlStateV::Finished { result: Err(CrawlError::Upstream) }
            }
        },
        (
            CrawlStateV::AwaitingFetch { stock, alerts },
            CrawlEventV::FetchCompleted { result },
        ) => match result {
            Err(_) => CrawlStateV::Finished { result: Err(CrawlError::Upstream) },
            Ok(body) => match extract_spec(body) {
                Err(_) => CrawlStateV::Finished { result: Err(CrawlError::Upstream) },
                Ok(quote) => CrawlStateV::Finished {
                    result: Ok(eval_spec(quote, alerts, stock.name)),
                },
            },
        },
        (state, _) => state,
    }
}

/// Advances one crawl by one stage, given the outcome of the outside work
/// its state was waiting for.
pub fn crawl_step(state: CrawlState, event: CrawlEvent) -> (next: CrawlState)
    requires
        step_accepts(state@, event@),
    ensures
        next@ == crawl_step_spec(state@, event@),
{
    match (state, event) {
        (CrawlState::AwaitingStock { id: _ }, CrawlEvent::StockLoaded { stock }) => match stock {
            None => CrawlState::Finished { result: Err(CrawlError::NotFound) },
            Some(stock) => CrawlState::AwaitingAlerts { stock },
        },
        (CrawlState::AwaitingAlerts { stock }, CrawlEvent::AlertsLoaded { alerts }) => {
            match validate_url(stock.url.as_str()) {
                Ok(_) => CrawlState::AwaitingFetch { stock, alerts },
                Err(_) => CrawlState::Finished { result: Err(CrawlError::Upstream) },
            }
        },
        (
            CrawlState::AwaitingFetch { stock, alerts },
            CrawlEvent::FetchCompleted { result },
        ) => match result {
            Err(_) => CrawlState::Finished { result: Err(CrawlError::Upstream) },
            Ok(body) => match get_stock_value(body) {
                Err(_) => CrawlState::Finished { result: Err(CrawlError::Upstream) },
                Ok(current_amount) => {
                    let responses = evaluate_alerts(current_amount, &alerts, &stock.name);
                    CrawlState::Finished { result: Ok(responses) }
                },
            },
        },
        (other, _) => other,
    }
}

/// A crawl for an unknown instrument finishes at once with `NotFound`: the
/// machine goes straight from the lookup to `Finished`, so it never reaches
/// the fetch stage and no fetch is issued.
pub proof fn lemma_missing_stock_skips_fetch(id: int)
    ensures
        crawl_step_spec(
            CrawlStateV::AwaitingStock { id },
            CrawlEventV::StockLoaded { stock: None },
        ) == (CrawlStateV::Finished { result: Err::<Seq<CrawlingResponseV>, CrawlError>(
            CrawlError::NotFound,
        ) }),
{
}

/// A failed fetch — a transport failure or a non-success HTTP status —
/// fails the whole crawl: the machine finishes with an upstream error, so
/// no evaluation happens and no partial output is produced.
pub proof fn lemma_failed_fetch_fails_crawl(
    stock: StockV,
    alerts: Seq<AmountAlertV>,
    error: FetchError,
)
    ensures
        crawl_step_spec(
            CrawlStateV::AwaitingFetch { stock, alerts },
            CrawlEventV::FetchCompleted { result: Err(error) },
        ) == (CrawlStateV::Finished { result: Err::<Seq<CrawlingResponseV>, CrawlError>(
            CrawlError::Upstream,
        ) }),
{
}

} // verus!
