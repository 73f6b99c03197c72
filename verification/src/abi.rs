//! Return-code rules of the caller-allocated C handle surface.
//!
//! Every handle is initialised into caller storage and updated in place; the
//! surface answers each call with one of a small set of integer codes. The
//! decisions about which code a call gets are made here.
use vstd::prelude::*;

verus! {

/// Success return from an `init` call.
pub const WICKRA_EMBED_OK: i32 = 0;

/// An `update` produced a value (written into `out`).
pub const WICKRA_EMBED_READY: i32 = 1;

/// An `update` is still warming up; `out` is untouched.
pub const WICKRA_EMBED_WARMUP: i32 = 0;

/// A required pointer argument was null.
pub const WICKRA_EMBED_ERR_NULL: i32 = -1;

/// An input price or OHLC value was NaN or infinite.
pub const WICKRA_EMBED_ERR_NONFINITE: i32 = -2;

/// An `ema` init was asked for a zero period.
pub const WICKRA_EMBED_ERR_PERIOD: i32 = -3;

/// Code of an `init` into the storage behind a handle: the state is written
/// exactly when the code is [`WICKRA_EMBED_OK`].
pub fn init_code(handle_is_null: bool) -> (code: i32)
    ensures
        code == if handle_is_null {
            WICKRA_EMBED_ERR_NULL
        } else {
            WICKRA_EMBED_OK
        },
{
    if handle_is_null {
        WICKRA_EMBED_ERR_NULL
    } else {
        WICKRA_EMBED_OK
    }
}

/// Code of an `init` of an EMA handle with the given period: a null handle is
/// reported first, then a zero period.
pub fn ema_init_code(handle_is_null: bool, period: usize) -> (code: i32)
    ensures
        code == if handle_is_null {
            WICKRA_EMBED_ERR_NULL
        } else if period == 0 {
            WICKRA_EMBED_ERR_PERIOD
        } else {
            WICKRA_EMBED_OK
        },
{
    if handle_is_null {
        return WICKRA_EMBED_ERR_NULL;
    }
    if period == 0 {
        return WICKRA_EMBED_ERR_PERIOD;
    }
    WICKRA_EMBED_OK
}

/// The checks that an `update` call passes before it touches the indicator:
/// `Some(code)` rejects the call with that code (a null handle or output
/// pointer first, then a non-finite input), `None` lets it through.
pub fn update_gate(handle_is_null: bool, out_is_null: bool, inputs_finite: bool) -> (gate: Option<
    i32,
>)
    ensures
        gate == if handle_is_null || out_is_null {
            Some(WICKRA_EMBED_ERR_NULL)
        } else if !inputs_finite {
            Some(WICKRA_EMBED_ERR_NONFINITE)
        } else {
            None::<i32>
        },
{
    if handle_is_null || out_is_null {
        return Some(WICKRA_EMBED_ERR_NULL);
    }
    if !inputs_finite {
        return Some(WICKRA_EMBED_ERR_NONFINITE);
    }
    None
}

/// Code of an `update` that went through: [`WICKRA_EMBED_READY`] when the
/// indicator produced a value, [`WICKRA_EMBED_WARMUP`] while it warms up.
pub fn update_code(produced: bool) -> (code: i32)
    ensures
        code == if produced {
            WICKRA_EMBED_READY
        } else {
            WICKRA_EMBED_WARMUP
        },
{
    if produced {
        WICKRA_EMBED_READY
    } else {
        WICKRA_EMBED_WARMUP
    }
}

} // verus!
