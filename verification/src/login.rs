use vstd::prelude::*;
use rand::Rng;

verus! {

/// The largest key (exclusive) that a connection redirect may carry.
pub const CONNECT_TO_KEY_BOUND: u32 = 0x7FFF_FFFF;
/// Connection type of the instance (world) connection.
pub const CONNECTION_TYPE_INSTANCE: u8 = 1;

/// The key that identifies a redirected client connection.
#[derive(Clone, Copy, Debug, PartialEq, Eq, Structural)]
pub struct ConnectToKey {
    pub account_id: u32,
    pub connection_type: u8,
    pub key: u32,
}

/// The random number generator of the current thread.
#[verifier::external_type_specification]
#[verifier::external_body]
pub struct ExThreadRng(rand::rngs::ThreadRng);

/// A handle to the current thread's random number generator.
///
/// Calls `rand::thread_rng`; nothing is promised of the handle.
#[verifier::external_body]
pub(crate) fn thread_rng_handle() -> rand::rngs::ThreadRng {
    rand::thread_rng()
}

/// A random number below `high`.
///
/// Calls `Rng::gen_range(0..high)` on the generator, which panics on an empty
/// range (hence `high > 0`) and otherwise returns a value of the range. Which
/// value comes out is chance and is not stated.
#[verifier::external_body]
fn random_u32_below(rng: &mut rand::rngs::ThreadRng, high: u32) -> (r: u32)
    requires
        high > 0,
    ensures
        r < high,
{
    rng.gen_range(0..high)
}

/// A random number from `low` to `high`, both included.
///
/// Calls `Rng::gen_range(low..=high)` on the generator, which panics on an
/// empty range (hence `low <= high`) and otherwise returns a value of the
/// range. Which value comes out is chance and is not stated.
#[verifier::external_body]
pub(crate) fn random_u32_between(rng: &mut rand::rngs::ThreadRng, low: u32, high: u32) -> (r: u32)
    requires
        low <= high,
    ensures
        low <= r <= high,
{
    rng.gen_range(low..=high)
}

/// A fresh redirect key for an account's instance connection.
pub fn make_connect_to_key(account_id: u32) -> (k: ConnectToKey)
    ensures
        k.account_id == account_id,
        k.connection_type == CONNECTION_TYPE_INSTANCE,
        k.key < CONNECT_TO_KEY_BOUND,
{
    let mut rng = thread_rng_handle();
    ConnectToKey {
        account_id,
        connection_type: CONNECTION_TYPE_INSTANCE,
        key: random_u32_below(&mut rng, CONNECT_TO_KEY_BOUND),
    }
}

/// The total and current-level played time after a session of `session_secs`.
pub fn played_time_totals(total_played: u32, level_played: u32, session_secs: u32) -> (r: (
    u32,
    u32,
))
    ensures
        r.0 == (if total_played + session_secs > u32::MAX {
            u32::MAX as int
        } else {
            total_played + session_secs
        }),
        r.1 == (if level_played + session_secs > u32::MAX {
            u32::MAX as int
        } else {
            level_played + session_secs
        }),
{
    (total_played.saturating_add(session_secs), level_played.saturating_add(session_secs))
}

} // verus!
