use vstd::prelude::*;
use crate::entity::{alerts_view, AmountAlert, AmountAlertV, Stock};

verus! {

/// The payload accepted when a new instrument is registered.
#[derive(Debug)]
pub struct PostStockBody {
    pub code: i32,
    pub name: String,
    pub url: String,
}

/// The outward representation of a stored instrument.
#[derive(Debug)]
pub struct StockResponse {
    pub id: i32,
    pub code: i32,
    pub name: String,
    pub url: String,
}

/// One triggered alert, as reported by a crawl: the instrument name, the
/// threshold that fired, and the quote that made it fire.
#[derive(Debug)]
pub struct CrawlingResponse {
    pub name: String,
    pub alert_amount: i32,
    pub current_amount: i32,
}

/// The mathematical model of a `CrawlingResponse`.
pub ghost struct CrawlingResponseV {
    pub name: Seq<char>,
    pub alert_amount: int,
    pub current_amount: int,
}

impl View for CrawlingResponse {
    type V = CrawlingResponseV;

    open spec fn view(&self) -> CrawlingResponseV {
        CrawlingResponseV {
            name: self.name@,
            alert_amount: self.alert_amount as int,
            current_amount: self.current_amount as int,
        }
    }
}

/// The model of a sequence of crawling responses, element by element.
pub open spec fn responses_view(rs: Seq<CrawlingResponse>) -> Seq<CrawlingResponseV> {
    rs.map_values(|t: CrawlingResponse| t@)
}

/// Whether one alert fires for the current quote: an `"up"` rule fires
/// strictly above its threshold; any other mode reads as "down" and fires
/// strictly below it. Equality never fires, in either direction.
pub open spec fn triggers(quote: int, mode: Seq<char>, amount: int) -> bool {
    if mode == "up"@ {
        quote > amount
    } else {
        quote < amount
    }
}

pub open spec fn trigger_pred(quote: int) -> spec_fn(AmountAlertV) -> bool {
    |a: AmountAlertV| triggers(quote, a.mode, a.amount)
}

pub open spec fn response_of(quote: int, name: Seq<char>) -> spec_fn(AmountAlertV) -> CrawlingResponseV {
    |a: AmountAlertV| CrawlingResponseV { name: name, alert_amount: a.amount, current_amount: quote }
}

/// The alerts that fire for the quote, in rule order, each shaped as a
/// response carrying the instrument name and the quote.
pub open spec fn eval_spec(quote: int, alerts: Seq<AmountAlertV>, name: Seq<char>) -> Seq<
    CrawlingResponseV,
> {
    alerts.filter(trigger_pred(quote)).map_values(response_of(quote, name))
}

/// Decides whether one alert rule fires for the current quote.
pub fn is_alert(current_amount: i32, alert_amount: i32, mode: String) -> (r: bool)
    ensures
        r == triggers(current_amount as int, mode@, alert_amount as int),
{
    let up = mode == "up".to_owned();
    if up {
        current_amount > alert_amount
    } else {
        current_amount < alert_amount
    }
}

/// Shapes one triggered alert as a crawling response.
pub fn convert_to_crawling_response(alert: &AmountAlert, name: &String, current_amount: i32) -> (r:
    CrawlingResponse)
    ensures
        r@ == (CrawlingResponseV {
            name: name@,
            alert_amount: alert.amount as int,
            current_amount: current_amount as int,
        }),
{
    CrawlingResponse { name: name.clone(), alert_amount: alert.amount, current_amount }
}

/// Shapes a stored instrument as its outward representation, field for
/// field.
pub fn convert_to_stock_response(stock: Stock) -> (r: StockResponse)
    ensures
        r.id == stock.id,
        r.code == stock.code,
        r.name@ == stock.name@,
        r.url@ == stock.url@,
{
    StockResponse { id: stock.id, code: stock.code, name: stock.name, url: stock.url }
}

proof fn lemma_eval_push(quote: int, alerts: Seq<AmountAlertV>, a: AmountAlertV, name: Seq<char>)
    ensures
        eval_spec(quote, alerts.push(a), name) == if triggers(quote, a.mode, a.amount) {
            eval_spec(quote, alerts, name).push(response_of(quote, name)(a))
        } else {
            eval_spec(quote, alerts, name)
        },
{
    reveal_with_fuel(Seq::<_>::filter, 2);
    assert(alerts.push(a).drop_last() =~= alerts);
    assert(alerts.push(a).last() == a);
    let filtered = alerts.filter(trigger_pred(quote));
    if triggers(quote, a.mode, a.amount) {
        assert(alerts.push(a).filter(trigger_pred(quote)) == filtered.push(a));
        assert(filtered.push(a).map_values(response_of(quote, name)) =~= filtered.map_values(
            response_of(quote, name),
        ).push(response_of(quote, name)(a)));
    }
}

/// Evaluates every alert rule against the current quote; the rules that
/// fire become crawling responses, kept in the order the rules were given.
pub fn evaluate_alerts(current_amount: i32, alerts: &Vec<AmountAlert>, name: &String) -> (r: Vec<
    CrawlingResponse,
>)
    ensures
        responses_view(r@) == eval_spec(current_amount as int, alerts_view(alerts@), name@),
{
    let mut responses: Vec<CrawlingResponse> = Vec::new();
    let mut i: usize = 0;
    while i < alerts.len()
        invariant
            i <= alerts.len(),
            responses_view(responses@) == eval_spec(
                current_amount as int,
                alerts_view(alerts@.take(i as int)),
                name@,
            ),
        decreases alerts.len() - i,
    {
        let alert = &alerts[i];
        proof {
            assert(alerts_view(alerts@.take(i as int + 1)) =~= alerts_view(
                alerts@.take(i as int),
            ).push(alerts@[i as int]@));
            lemma_eval_push(
                current_amount as int,
                alerts_view(alerts@.take(i as int)),
                alerts@[i as int]@,
                name@,
            );
        }
        if is_alert(current_amount, alert.amount, alert.mode.clone()) {
            let response = convert_to_crawling_response(alert, name, current_amount);
            let ghost prev = responses@;
            proof {
                assert(response@ == response_of(current_amount as int, name@)(alerts@[i as int]@));
            }
            responses.push(response);
            proof {
                assert(responses_view(responses@) =~= responses_view(prev).push(response@));
            }
        }
        i = i + 1;
    }
    proof {
        assert(alerts@.take(alerts.len() as int) =~= alerts@);
    }
    responses
}

/// Triggered output keeps rule order: evaluating the concatenation of two
/// rule lists yields the first list's responses followed by the second's,
/// so responses always stand in the order of their rules.
pub proof fn lemma_evaluate_preserves_order(
    quote: int,
    first: Seq<AmountAlertV>,
    second: Seq<AmountAlertV>,
    name: Seq<char>,
)
    ensures
        eval_spec(quote, first + second, name) == eval_spec(quote, first, name) + eval_spec(
            quote,
            second,
            name,
        ),
{
    Seq::<AmountAlertV>::filter_distributes_over_add(first, second, trigger_pred(quote));
    assert((first.filter(trigger_pred(quote)) + second.filter(trigger_pred(quote))).map_values(
        response_of(quote, name),
    ) =~= first.filter(trigger_pred(quote)).map_values(response_of(quote, name)) + second.filter(
        trigger_pred(quote),
    ).map_values(response_of(quote, name)));
}

} // verus!
