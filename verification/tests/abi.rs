use embed_core::abi::{
    ema_init_code, init_code, update_code, update_gate, WICKRA_EMBED_ERR_NONFINITE,
    WICKRA_EMBED_ERR_NULL, WICKRA_EMBED_ERR_PERIOD, WICKRA_EMBED_OK, WICKRA_EMBED_READY,
    WICKRA_EMBED_WARMUP,
};
use embed_core::{version, version_nul};

#[test]
fn version_is_the_package_version() {
    assert_eq!(version(), "0.1.2");
    assert_eq!(version_nul(), "0.1.2\0");
    assert_eq!(&version_nul()[..version().len()], version());
}

#[test]
fn return_codes_have_their_documented_values() {
    assert_eq!(WICKRA_EMBED_OK, 0);
    assert_eq!(WICKRA_EMBED_READY, 1);
    assert_eq!(WICKRA_EMBED_WARMUP, 0);
    assert_eq!(WICKRA_EMBED_ERR_NULL, -1);
    assert_eq!(WICKRA_EMBED_ERR_NONFINITE, -2);
    assert_eq!(WICKRA_EMBED_ERR_PERIOD, -3);
}

#[test]
fn init_rejects_null() {
    assert_eq!(init_code(true), WICKRA_EMBED_ERR_NULL);
    assert_eq!(ema_init_code(true, 20), WICKRA_EMBED_ERR_NULL);
    assert_eq!(init_code(false), WICKRA_EMBED_OK);
    assert_eq!(ema_init_code(false, 20), WICKRA_EMBED_OK);
}

#[test]
fn ema_rejects_zero_period() {
    assert_eq!(ema_init_code(false, 0), WICKRA_EMBED_ERR_PERIOD);
    // A null handle is reported before the period.
    assert_eq!(ema_init_code(true, 0), WICKRA_EMBED_ERR_NULL);
}

#[test]
fn update_rejects_null_handle_and_out() {
    assert_eq!(update_gate(true, false, true), Some(WICKRA_EMBED_ERR_NULL));
    assert_eq!(update_gate(false, true, true), Some(WICKRA_EMBED_ERR_NULL));
    assert_eq!(update_gate(true, true, false), Some(WICKRA_EMBED_ERR_NULL));
}

#[test]
fn update_rejects_non_finite() {
    assert_eq!(update_gate(false, false, f64::NAN.is_finite()), Some(WICKRA_EMBED_ERR_NONFINITE));
    assert_eq!(
        update_gate(false, false, f64::INFINITY.is_finite()),
        Some(WICKRA_EMBED_ERR_NONFINITE)
    );
}

#[test]
fn atr_rejects_non_finite_ohlc() {
    let (open, high, low, close) = (1.0_f64, f64::NAN, 1.0_f64, 1.0_f64);
    let finite = open.is_finite() && high.is_finite() && low.is_finite() && close.is_finite();
    assert_eq!(update_gate(false, false, finite), Some(WICKRA_EMBED_ERR_NONFINITE));
}

#[test]
fn update_status_follows_the_indicator() {
    assert_eq!(update_gate(false, false, true), None);
    assert_eq!(update_code(true), WICKRA_EMBED_READY);
    assert_eq!(update_code(false), WICKRA_EMBED_WARMUP);
}
