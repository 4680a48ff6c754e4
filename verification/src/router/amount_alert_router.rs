use vstd::prelude::*;
use crate::entity::AmountAlert;

verus! {

/// The payload accepted when a new alert is registered.
#[derive(Debug)]
pub struct PostAmountAlertBody {
    pub mode: String,
    pub amount: i32,
}

/// The outward representation of a stored alert.
#[derive(Debug)]
pub struct AmountAlertResponse {
    pub id: i32,
    pub mode: String,
    pub amount: i32,
}

/// Shapes a stored alert as its outward representation, field for field.
pub fn convert_to_amount_alert_response(amount_alert: AmountAlert) -> (r: AmountAlertResponse)
    ensures
        r.id == amount_alert.id,
        r.mode@ == amount_alert.mode@,
        r.amount == amount_alert.amount,
{
    AmountAlertResponse {
        id: amount_alert.id,
        mode: amount_alert.mode,
        amount: amount_alert.amount,
    }
}

} // verus!
