use client_rust::config::{parse_args, usage, RunConfig};

fn args(words: &[&str]) -> Vec<String> {
    words.iter().map(|word| word.to_string()).collect()
}

fn accepted(words: &[&str]) -> RunConfig {
    match parse_args(args(words)) {
        Ok((_, config)) => config,
        Err(err) => panic!("refused: {err}"),
    }
}

fn refused(words: &[&str]) -> String {
    match parse_args(args(words)) {
        Ok((_, config)) => panic!("accepted: {}", config.debug_text()),
        Err(err) => err,
    }
}

fn assert_same(config: RunConfig, expected: RunConfig) {
    assert!(
        config == expected,
        "{} is not {}",
        config.debug_text(),
        expected.debug_text()
    );
}

#[test]
fn parse_connect_only_mode() {
    assert_same(
        accepted(&["client", "ws://127.0.0.1:9000"]),
        RunConfig {
            debug_enabled: false,
            listen_enabled: false,
            server_url: Some("ws://127.0.0.1:9000".to_string()),
            ws_token: None,
        },
    );
}

#[test]
fn parse_listen_only_mode() {
    assert_same(
        accepted(&["client", "-l"]),
        RunConfig {
            debug_enabled: false,
            listen_enabled: true,
            server_url: None,
            ws_token: None,
        },
    );
}

#[test]
fn parse_hybrid_mode_with_debug_anywhere() {
    assert_same(
        accepted(&["client", "-l", "debug", "ws://server.example"]),
        RunConfig {
            debug_enabled: true,
            listen_enabled: true,
            server_url: Some("ws://server.example".to_string()),
            ws_token: None,
        },
    );
}

#[test]
fn parse_mode_with_ws_token() {
    assert_same(
        accepted(&["client", "-l", "-t", "secret-token", "ws://server.example"]),
        RunConfig {
            debug_enabled: false,
            listen_enabled: true,
            server_url: Some("ws://server.example".to_string()),
            ws_token: Some("secret-token".to_string()),
        },
    );
}

#[test]
fn reject_empty_mode() {
    let err = refused(&["client"]);
    assert!(err.contains("either -l or websocket_server_url is required"));
}

#[test]
fn reject_unknown_flag() {
    let err = refused(&["client", "--bad"]);
    assert!(err.contains("unknown flag"));
    assert_eq!(err, "unknown flag: --bad");
}

#[test]
fn reject_missing_ws_token_value() {
    let err = refused(&["client", "-l", "-t"]);
    assert!(err.contains("missing websocket token after -t"));
}

#[test]
fn reject_multiple_ws_tokens() {
    let err = refused(&["client", "-t", "one", "-t", "two", "ws://server.example"]);
    assert!(err.contains("multiple websocket token values"));
}

#[test]
fn debug_output_masks_ws_token_with_same_length_asterisks() {
    let config = RunConfig {
        debug_enabled: false,
        listen_enabled: false,
        server_url: Some("ws://server.example".to_string()),
        ws_token: Some("secret-token".to_string()),
    };

    let debug_text = config.debug_text();
    assert!(debug_text.contains("************"));
    assert!(!debug_text.contains("secret-token"));
    assert_eq!(
        debug_text,
        "RunConfig { debug_enabled: false, listen_enabled: false, \
         server_url: Some(\"ws://server.example\"), ws_token: Some(\"************\") }"
    );
}

#[test]
fn reject_multiple_urls() {
    let err = refused(&["client", "ws://one", "ws://two"]);
    assert!(err.contains("multiple websocket_server_url"));
}

#[test]
fn usage_string_matches_new_cli() {
    assert_eq!(
        usage("client"),
        "usage: client [debug|-d] [-l] [-t websocket_token] [websocket_server_url]"
    );
}

#[test]
fn token_must_be_a_token() {
    for option in ["-l", "-d", "debug", "-t"] {
        assert_eq!(
            refused(&["client", "-t", option, "ws://server.example"]),
            "missing websocket token after -t"
        );
    }
    assert_eq!(
        refused(&["client", "-t", "", "ws://server.example"]),
        "websocket token after -t must not be empty"
    );
    // Anything else is a token, even what looks like an option.
    let config = accepted(&["client", "-t", "--bad", "ws://server.example"]);
    assert_eq!(config.ws_token, Some("--bad".to_string()));
}

#[test]
fn first_error_counts() {
    assert_eq!(
        refused(&["client", "--bad", "-t"]),
        "unknown flag: --bad"
    );
    assert_eq!(
        refused(&["client", "-t", "token", "-t", ""]),
        "websocket token after -t must not be empty"
    );
}

#[test]
fn program_has_a_name_without_arguments() {
    assert_eq!(
        parse_args(Vec::new()).err(),
        Some("either -l or websocket_server_url is required".to_string())
    );
    let (program, _) = match parse_args(args(&["/bin/client", "-l"])) {
        Ok(parsed) => parsed,
        Err(err) => panic!("refused: {err}"),
    };
    assert_eq!(program, "/bin/client");
}

#[test]
fn empty_argument_is_a_url() {
    let config = accepted(&["client", ""]);
    assert_eq!(config.server_url, Some(String::new()));
}

#[test]
fn debug_switch_changes_nothing_else() {
    let plain = accepted(&["client", "-l", "-t", "token", "ws://server.example"]);
    let words = ["client", "-l", "-t", "token", "ws://server.example"];
    for at in [1, 2, 4, 5] {
        for switch in ["debug", "-d"] {
            let mut with_switch = words.to_vec();
            with_switch.insert(at, switch);
            let mut expected = plain.clone();
            expected.debug_enabled = true;
            assert_same(accepted(&with_switch), expected);
        }
    }
}

#[test]
fn printed_token_tells_its_length_only() {
    let config = |token: &str| RunConfig {
        debug_enabled: true,
        listen_enabled: true,
        server_url: None,
        ws_token: Some(token.to_string()),
    };
    assert_eq!(config("abcd").debug_text(), config("\u{5c0f}\u{7231}xy").debug_text());
    assert_ne!(config("abcd").debug_text(), config("abc").debug_text());
}

#[test]
fn printed_url_is_quoted_and_escaped() {
    let config = RunConfig {
        debug_enabled: true,
        listen_enabled: true,
        server_url: Some("a\"b\n".to_string()),
        ws_token: None,
    };
    assert_eq!(
        config.debug_text(),
        "RunConfig { debug_enabled: true, listen_enabled: true, \
         server_url: Some(\"a\\\"b\\n\"), ws_token: None }"
    );
}

#[test]
fn units_may_stand_in_any_order() {
    let expected = || accepted(&["client", "debug", "-l", "-t", "secret", "ws://server"]);
    for words in [
        ["client", "ws://server", "-t", "secret", "-l", "-d"],
        ["client", "-t", "secret", "debug", "ws://server", "-l"],
        ["client", "-l", "ws://server", "-d", "-t", "secret"],
    ] {
        assert_same(accepted(&words), expected());
    }
    // Both are given twice: the order decides which one is named.
    assert_eq!(
        refused(&["client", "-t", "a", "-t", "b", "u", "v"]),
        "multiple websocket token values are not supported"
    );
    assert_eq!(
        refused(&["client", "u", "v", "-t", "a", "-t", "b"]),
        "multiple websocket_server_url values are not supported"
    );
}

#[test]
fn switches_may_be_repeated() {
    assert_same(accepted(&["client", "-l", "-l", "u", "-l"]), accepted(&["client", "-l", "u"]));
    assert_same(
        accepted(&["client", "debug", "u", "-d", "debug"]),
        accepted(&["client", "-d", "u"]),
    );
}

#[test]
fn configuration_printed_around_its_server() {
    let config = accepted(&["client", "-l", "-t", "abc", "ws://server"]);
    assert_eq!(
        config.debug_text_showing(Some("<server>".to_string())),
        "RunConfig { debug_enabled: false, listen_enabled: true, server_url: Some(<server>), \
         ws_token: Some(\"***\") }"
    );
    assert_eq!(
        config.debug_text_showing(None),
        "RunConfig { debug_enabled: false, listen_enabled: true, server_url: None, \
         ws_token: Some(\"***\") }"
    );
}
