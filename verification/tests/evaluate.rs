use stock_alerts::entity::AmountAlert;
use stock_alerts::router::stock_router::{evaluate_alerts, is_alert};

fn alert(id: i32, mode: &str, amount: i32) -> AmountAlert {
    AmountAlert {
        id,
        stock_code: 7203,
        mode: mode.to_string(),
        amount,
    }
}

#[test]
fn up_rule_fires_strictly_above_threshold() {
    assert!(is_alert(150, 100, "up".to_string()));
    assert!(!is_alert(150, 200, "up".to_string()));
    assert!(!is_alert(100, 100, "up".to_string()));
}

#[test]
fn down_rule_fires_strictly_below_threshold() {
    assert!(is_alert(150, 200, "down".to_string()));
    assert!(!is_alert(150, 100, "down".to_string()));
    assert!(!is_alert(100, 100, "down".to_string()));
}

#[test]
fn unknown_mode_reads_as_down() {
    assert!(is_alert(150, 200, "sideways".to_string()));
    assert!(!is_alert(150, 100, "sideways".to_string()));
}

#[test]
fn single_rule_evaluation_matches_is_alert() {
    let name = "Example".to_string();
    let fired = evaluate_alerts(150, &vec![alert(1, "up", 100)], &name);
    assert_eq!(fired.len(), 1);
    assert_eq!(fired[0].name, "Example");
    assert_eq!(fired[0].alert_amount, 100);
    assert_eq!(fired[0].current_amount, 150);

    assert_eq!(evaluate_alerts(150, &vec![alert(1, "up", 200)], &name).len(), 0);
    assert_eq!(evaluate_alerts(150, &vec![alert(1, "down", 200)], &name).len(), 1);
    assert_eq!(evaluate_alerts(150, &vec![alert(1, "down", 100)], &name).len(), 0);
    assert_eq!(evaluate_alerts(100, &vec![alert(1, "up", 100)], &name).len(), 0);
}

#[test]
fn output_keeps_input_rule_order() {
    let name = "Example".to_string();
    let rules = vec![
        alert(1, "up", 100),
        alert(2, "down", 100),
        alert(3, "down", 200),
        alert(4, "up", 120),
    ];
    let fired = evaluate_alerts(150, &rules, &name);
    let amounts: Vec<i32> = fired.iter().map(|r| r.alert_amount).collect();
    assert_eq!(amounts, vec![100, 200, 120]);
}
