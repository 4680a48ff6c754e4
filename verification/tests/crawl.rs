use stock_alerts::crawl::{crawl_step, CrawlError, CrawlEvent, CrawlState};
use stock_alerts::entity::{AmountAlert, Stock};
use stock_alerts::request::{body_from_response, FetchError};

fn example_stock() -> Stock {
    Stock {
        id: 1,
        code: 7203,
        name: "Example".to_string(),
        url: "https://example/quote".to_string(),
    }
}

fn up_alert(threshold: i32) -> AmountAlert {
    AmountAlert {
        id: 1,
        stock_code: 7203,
        mode: "up".to_string(),
        amount: threshold,
    }
}

#[test]
fn unknown_stock_finishes_with_not_found_before_any_fetch() {
    let state = crawl_step(
        CrawlState::AwaitingStock { id: 42 },
        CrawlEvent::StockLoaded { stock: None },
    );
    match state {
        CrawlState::Finished { result } => assert_eq!(result.unwrap_err(), CrawlError::NotFound),
        _ => panic!("crawl did not finish"),
    }
}

#[test]
fn failed_fetch_finishes_with_upstream_and_no_output() {
    let state = crawl_step(
        CrawlState::AwaitingFetch {
            stock: example_stock(),
            alerts: vec![up_alert(1000)],
        },
        CrawlEvent::FetchCompleted {
            result: Err(FetchError::Transport),
        },
    );
    match state {
        CrawlState::Finished { result } => assert_eq!(result.unwrap_err(), CrawlError::Upstream),
        _ => panic!("crawl did not finish"),
    }
}

#[test]
fn non_success_status_finishes_with_upstream() {
    let fetched = body_from_response(502, &vec![b"<html></html>".to_vec()]);
    assert!(fetched.is_err());
    let state = crawl_step(
        CrawlState::AwaitingFetch {
            stock: example_stock(),
            alerts: vec![up_alert(1000)],
        },
        CrawlEvent::FetchCompleted { result: fetched },
    );
    match state {
        CrawlState::Finished { result } => assert_eq!(result.unwrap_err(), CrawlError::Upstream),
        _ => panic!("crawl did not finish"),
    }
}

#[test]
fn malformed_stored_url_finishes_with_upstream() {
    let mut stock = example_stock();
    stock.url = "not a url".to_string();
    let state = crawl_step(
        CrawlState::AwaitingAlerts { stock },
        CrawlEvent::AlertsLoaded {
            alerts: vec![up_alert(1000)],
        },
    );
    match state {
        CrawlState::Finished { result } => assert_eq!(result.unwrap_err(), CrawlError::Upstream),
        _ => panic!("crawl did not finish"),
    }
}

#[test]
fn end_to_end_crawl_triggers_up_alert() {
    let document = "<html><body><span class=\"kabuka\">2,500円</span></body></html>";

    let state = crawl_step(
        CrawlState::AwaitingStock { id: 1 },
        CrawlEvent::StockLoaded {
            stock: Some(example_stock()),
        },
    );
    assert!(matches!(state, CrawlState::AwaitingAlerts { .. }));

    let state = crawl_step(
        state,
        CrawlEvent::AlertsLoaded {
            alerts: vec![up_alert(1000)],
        },
    );
    assert!(matches!(state, CrawlState::AwaitingFetch { .. }));

    let fetched = body_from_response(200, &vec![document.as_bytes().to_vec()]);
    let state = crawl_step(state, CrawlEvent::FetchCompleted { result: fetched });
    match state {
        CrawlState::Finished { result } => {
            let responses = result.unwrap();
            assert_eq!(responses.len(), 1);
            assert_eq!(responses[0].name, "Example");
            assert_eq!(responses[0].alert_amount, 1000);
            assert_eq!(responses[0].current_amount, 2500);
        }
        _ => panic!("crawl did not finish"),
    }
}

#[test]
fn quote_at_threshold_triggers_nothing() {
    let document = "<html><body><span class=\"kabuka\">1,000円</span></body></html>";
    let state = crawl_step(
        CrawlState::AwaitingFetch {
            stock: example_stock(),
            alerts: vec![up_alert(1000)],
        },
        CrawlEvent::FetchCompleted {
            result: body_from_response(200, &vec![document.as_bytes().to_vec()]),
        },
    );
    match state {
        CrawlState::Finished { result } => assert_eq!(result.unwrap().len(), 0),
        _ => panic!("crawl did not finish"),
    }
}
