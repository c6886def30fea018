use vstd::prelude::*;

verus! {

/// Why a hardware watchdog cannot be given a timeout.
#[derive(Debug, Clone, Copy, PartialEq, Eq, Structural)]
pub enum TimeoutError {
    /// Shorter than the hardware can count.
    TooShort,
    /// Longer than the hardware can count.
    TooLong,
}

/// Fewest ticks the nRF watchdog accepts.
pub const NRF_MIN_TICKS: u64 = 15;

/// The nRF watchdog's count for a timeout of `timeout_ms` milliseconds: whole
/// ticks of its 32,768 Hz clock.
pub open spec fn nrf_ticks(timeout_ms: u64) -> int {
    timeout_ms * 32_768 / 1000
}

/// The tick count to program into the nRF watchdog for a timeout, refused
/// below 15 ticks and above what its 32-bit register holds.
pub fn nrf_timeout_ticks(timeout_ms: u64) -> (ticks: Result<u32, TimeoutError>)
    ensures
        nrf_ticks(timeout_ms) < NRF_MIN_TICKS ==> ticks == Err::<u32, TimeoutError>(
            TimeoutError::TooShort,
        ),
        NRF_MIN_TICKS <= nrf_ticks(timeout_ms) <= u32::MAX ==> ticks == Ok::<u32, TimeoutError>(
            nrf_ticks(timeout_ms) as u32,
        ),
        nrf_ticks(timeout_ms) > u32::MAX ==> ticks == Err::<u32, TimeoutError>(
            TimeoutError::TooLong,
        ),
{
    // From this many milliseconds on, the count exceeds `u32::MAX`.
    if timeout_ms >= 131_072_000 {
        return Err(TimeoutError::TooLong);
    }
    let ticks: u64 = timeout_ms * 32_768 / 1000;
    if ticks < NRF_MIN_TICKS {
        Err(TimeoutError::TooShort)
    } else if ticks > 0xffff_ffff {
        Err(TimeoutError::TooLong)
    } else {
        Ok(ticks as u32)
    }
}

/// The RP2040/RP2350 HAL watchdog's timeout in microseconds, refused when it
/// does not fit the 32-bit duration the HAL takes.
pub fn rp_hal_timeout_micros(timeout_ms: u64) -> (micros: Option<u32>)
    ensures
        timeout_ms * 1000 <= u32::MAX ==> micros == Some((timeout_ms * 1000) as u32),
        timeout_ms * 1000 > u32::MAX ==> micros is None,
{
    if timeout_ms > 4_294_967 {
        None
    } else {
        Some((timeout_ms * 1000) as u32)
    }
}

} // verus!
