//! Dates.
use agent_locksmith::audit_sink::ymd_from_unix_secs;

#[test]
fn ymd_known_dates() {
    assert_eq!(ymd_from_unix_secs(0), (1970, 1, 1));
    // 2000-01-01
    assert_eq!(ymd_from_unix_secs(946_684_800), (2000, 1, 1));
    // 2024-02-29 (leap year boundary)
    assert_eq!(ymd_from_unix_secs(1_709_164_800), (2024, 2, 29));
    // 2024-03-01 (day after leap day)
    assert_eq!(ymd_from_unix_secs(1_709_251_200), (2024, 3, 1));
    // 2025-12-31 23:59:59
    assert_eq!(ymd_from_unix_secs(1_767_225_599), (2025, 12, 31));
    // 2026-01-01 00:00:00
    assert_eq!(ymd_from_unix_secs(1_767_225_600), (2026, 1, 1));
}
