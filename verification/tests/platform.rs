use task_watchdog::platform::{nrf_timeout_ticks, rp_hal_timeout_micros, TimeoutError};

#[test]
fn nrf_ticks_for_typical_timeouts() {
    // ticks of the 32,768 Hz watchdog clock
    assert_eq!(nrf_timeout_ticks(1000), Ok(32_768));
    assert_eq!(nrf_timeout_ticks(5000), Ok(163_840));
}

#[test]
fn nrf_ticks_refuse_too_short_timeouts() {
    // 0 ms gives 0 ticks; 1 ms already gives 32
    assert_eq!(nrf_timeout_ticks(0), Err(TimeoutError::TooShort));
    assert_eq!(nrf_timeout_ticks(1), Ok(32));
}

#[test]
fn nrf_ticks_refuse_too_long_timeouts() {
    // 131_071_999 ms gives 4_294_967_263 ticks; 131_072_000 ms gives 2^32
    assert_eq!(nrf_timeout_ticks(131_071_999), Ok(4_294_967_263));
    assert_eq!(nrf_timeout_ticks(131_072_000), Err(TimeoutError::TooLong));
    assert_eq!(nrf_timeout_ticks(u64::MAX), Err(TimeoutError::TooLong));
}

#[test]
fn rp_hal_micros_fit_in_u32() {
    assert_eq!(rp_hal_timeout_micros(5000), Some(5_000_000));
    assert_eq!(rp_hal_timeout_micros(0), Some(0));
    assert_eq!(rp_hal_timeout_micros(4_294_967), Some(4_294_967_000));
    assert_eq!(rp_hal_timeout_micros(4_294_968), None);
    assert_eq!(rp_hal_timeout_micros(u64::MAX), None);
}
