use position_and_risk_engine::handlers::{STATUS_INTERNAL_SERVER_ERROR, STATUS_NOT_FOUND, STATUS_OK};
use position_and_risk_engine::{portfolio_failure, price_update_response, RepositoryError};

#[test]
fn status_codes() {
    assert_eq!(STATUS_OK, 200);
    assert_eq!(STATUS_NOT_FOUND, 404);
    assert_eq!(STATUS_INTERNAL_SERVER_ERROR, 500);
}

#[test]
fn portfolio_failure_is_internal_error() {
    let (code, msg) = portfolio_failure(&RepositoryError::Internal("pool timeout".to_string()));
    assert_eq!(code, 500);
    assert_eq!(msg, "Failed to retrieve portfolio: Repository internal error: pool timeout");
}

#[test]
fn successful_price_update_is_ok() {
    assert_eq!(price_update_response(&Ok(())), Ok(200));
}

#[test]
fn failed_price_update_is_not_found() {
    let outcome = Err(RepositoryError::NotFound("DOGE".to_string()));
    assert_eq!(
        price_update_response(&outcome),
        Err((404, "Update failed: Position not found: DOGE".to_string()))
    );
}
