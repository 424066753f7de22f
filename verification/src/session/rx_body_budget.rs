//! How much memory the bodies of incoming frames may take at once on a node.

use crate::session::frame::MAX_FRAME_BODY;
use crate::text::{chars_of, number_in, parse_number};
use vstd::prelude::*;

verus! {

/// The memory for incoming bodies when nothing else is configured, in bytes.
pub const DEFAULT_RX_BODY_BUDGET_BYTES: usize = 67_108_864;

/// The environment variable that overrides the default.
pub const RX_BODY_BUDGET_ENV: &'static str = "VEIL_RX_BODY_BUDGET";

/// Raises a budget to the size of one largest body.
pub open spec fn at_least_one_frame(requested: usize) -> usize {
    if requested < MAX_FRAME_BODY {
        MAX_FRAME_BODY as usize
    } else {
        requested
    }
}

/// Raises a budget to the size of one largest body, without which such a body
/// would wait for ever.
pub fn clamp_to_one_frame(requested: usize) -> (n: usize)
    ensures
        n == at_least_one_frame(requested),
{
    if requested < MAX_FRAME_BODY as usize {
        MAX_FRAME_BODY as usize
    } else {
        requested
    }
}

/// The budget for the value of the environment variable: the default when it is
/// absent or no number.
pub open spec fn budget_for(value: Option<Seq<char>>) -> usize {
    match value {
        None => at_least_one_frame(DEFAULT_RX_BODY_BUDGET_BYTES),
        Some(s) => match number_in(s, usize::MAX as nat) {
            Ok(n) => at_least_one_frame(n as usize),
            Err(_) => at_least_one_frame(DEFAULT_RX_BODY_BUDGET_BYTES),
        },
    }
}

/// The budget for the value of the environment variable.
pub fn configured_budget(value: Option<&str>) -> (n: usize)
    ensures
        n == budget_for(
            match value {
                Some(s) => Some(s@),
                None => None,
            },
        ),
{
    let requested: usize = match value {
        None => DEFAULT_RX_BODY_BUDGET_BYTES,
        Some(s) => {
            let chars: Vec<char> = chars_of(s);
            match parse_number(chars.as_slice(), usize::MAX as u64) {
                Ok(n) => n as usize,
                Err(_) => DEFAULT_RX_BODY_BUDGET_BYTES,
            }
        },
    };
    clamp_to_one_frame(requested)
}

/// How many bytes are reserved for a body of the given length.
pub open spec fn reserved_for(body_len: usize) -> u32 {
    if body_len > MAX_FRAME_BODY {
        MAX_FRAME_BODY
    } else {
        body_len as u32
    }
}

/// How many bytes are reserved for a body of the given length.
pub fn reservation(body_len: usize) -> (n: u32)
    ensures
        n == reserved_for(body_len),
{
    if body_len > MAX_FRAME_BODY as usize {
        MAX_FRAME_BODY
    } else {
        body_len as u32
    }
}

/// Whatever is configured, the budget has room for any one body.
pub proof fn any_body_is_admissible(value: Option<Seq<char>>, body_len: usize)
    ensures
        reserved_for(body_len) <= budget_for(value),
{
}

/// A budget is what was asked for, or the size of one largest body where that is more; it
/// has room for what is reserved for any body, which is its length up to that size.
pub proof fn a_budget_has_room_for_any_body(
    value: Option<&str>,
    n: usize,
    requested: usize,
    raised: usize,
    body_len: usize,
    reserved: u32,
)
    requires
        call_ensures(configured_budget, (value,), n),
        call_ensures(clamp_to_one_frame, (requested,), raised),
        call_ensures(reservation, (body_len,), reserved),
    ensures
        value is None ==> n == 67_108_864,
        value is Some && number_in(value->0@, usize::MAX as nat) is Err ==> n == 67_108_864,
        value is Some && number_in(value->0@, usize::MAX as nat) is Ok && number_in(
            value->0@,
            usize::MAX as nat,
        )->Ok_0 >= 16_777_216 ==> n == number_in(value->0@, usize::MAX as nat)->Ok_0,
        n >= 16_777_216,
        requested >= 16_777_216 ==> raised == requested,
        requested < 16_777_216 ==> raised == 16_777_216,
        body_len <= 16_777_216 ==> reserved == body_len,
        body_len > 16_777_216 ==> reserved == 16_777_216,
        reserved <= n,
{
}

} // verus!
