use mib_rs::mib::resolver::util::normalize_timestamp;

#[test]
fn normalizes_only_valid_ascii_ext_utc_time() {
    assert_eq!(normalize_timestamp("0210180000Z"), "200210180000Z");
    assert_eq!(normalize_timestamp("7001010000Z"), "197001010000Z");
    assert_eq!(normalize_timestamp("200002290000Z"), "200002290000Z");

    for timestamp in [
        "",
        "200210180000",
        "200213180000Z",
        "200102290000Z",
        "aé1234567Z",
    ] {
        assert_eq!(normalize_timestamp(timestamp), "", "{timestamp:?}");
    }
}
