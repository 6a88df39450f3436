use tct::testnet::{
    canonicalize_path_with, format_peers_line, get_validator_state, parse_u64_with_underscores,
    TestnetAllocation, TestnetFundingStream, TestnetValidator,
};

#[test]
fn parses_amounts_with_underscores() {
    assert_eq!(parse_u64_with_underscores("1_000_000"), Some(1_000_000));
    assert_eq!(parse_u64_with_underscores("0"), Some(0));
    assert_eq!(parse_u64_with_underscores("42"), Some(42));
    assert_eq!(parse_u64_with_underscores("__7__"), Some(7));
    assert_eq!(
        parse_u64_with_underscores("18446744073709551615"),
        Some(u64::MAX)
    );
    // a single leading plus sign is accepted, as the usual integer parse has it
    assert_eq!(parse_u64_with_underscores("+5"), Some(5));
    assert_eq!(parse_u64_with_underscores("+_7"), Some(7));
}

#[test]
fn rejects_bad_amounts() {
    assert_eq!(parse_u64_with_underscores(""), None);
    assert_eq!(parse_u64_with_underscores("_"), None);
    assert_eq!(parse_u64_with_underscores("+"), None);
    assert_eq!(parse_u64_with_underscores("++5"), None);
    assert_eq!(parse_u64_with_underscores("5+"), None);
    assert_eq!(parse_u64_with_underscores("12a"), None);
    assert_eq!(parse_u64_with_underscores("-5"), None);
    assert_eq!(parse_u64_with_underscores("1.5"), None);
    assert_eq!(parse_u64_with_underscores("18446744073709551616"), None);
    assert_eq!(parse_u64_with_underscores("99999999999999999999999"), None);
}

#[test]
fn canonicalizes_paths() {
    assert_eq!(
        canonicalize_path_with("/etc/conf", "/home/user", "/work"),
        "/etc/conf"
    );
    assert_eq!(
        canonicalize_path_with("~", "/home/user", "/work"),
        "/home/user"
    );
    assert_eq!(
        canonicalize_path_with("~/data", "/home/user", "/work"),
        "/home/user/data"
    );
    assert_eq!(
        canonicalize_path_with("rel/path", "/home/user", "/work"),
        "/work/rel/path"
    );
    assert_eq!(
        canonicalize_path_with("~stray", "/home/user", "/work"),
        "/work/~stray"
    );
}

#[test]
fn formats_peers_line() {
    let peers: Vec<(String, String)> = vec![
        ("ab12".to_string(), "192.168.0.1".to_string()),
        ("cd34".to_string(), "10.0.0.2".to_string()),
    ];
    assert_eq!(
        format_peers_line(&peers),
        "ab12@192.168.0.1:26656,cd34@10.0.0.2:26656"
    );
    let none: Vec<(String, String)> = vec![];
    assert_eq!(format_peers_line(&none), "");
    let one: Vec<(String, String)> = vec![("x".to_string(), "h".to_string())];
    assert_eq!(format_peers_line(&one), "x@h:26656");
}

#[test]
fn validator_state_is_fixed() {
    let expected = "{\n    \"height\": \"0\",\n    \"round\": 0,\n    \"step\": 0\n}\n";
    assert_eq!(get_validator_state(), expected);
    assert_eq!(get_validator_state(), get_validator_state());
}

#[test]
fn testnet_records_hold_their_fields() {
    let alloc = TestnetAllocation {
        amount: 100,
        denom: "upenumbra".to_string(),
        address: "penumbra1abc".to_string(),
    };
    assert_eq!(alloc.amount, 100);
    assert_eq!(alloc.denom, "upenumbra");

    let validator = TestnetValidator {
        name: "node-0".to_string(),
        website: "https://example.test".to_string(),
        description: "a validator".to_string(),
        funding_streams: vec![TestnetFundingStream {
            rate_bps: 100,
            address: "penumbra1def".to_string(),
        }],
        sequence_number: 1,
    };
    assert_eq!(validator.funding_streams.len(), 1);
    assert_eq!(validator.funding_streams[0].rate_bps, 100);
}
