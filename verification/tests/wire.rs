use stratum_ping::query::{Method, QRequest};
use stratum_ping::wire::encode_request_line;

#[test]
fn stratum2_line_is_exact() {
    let q = QRequest::new(
        1,
        Method::MiningSubscribe,
        vec![
            "stratum-ping/1.0.0".to_string(),
            "EthereumStratum/1.0.0".to_string(),
        ],
    );
    let line = encode_request_line(&q);
    assert_eq!(
        line,
        b"{\"jsonrpc\":\"2.0\",\"id\":1,\"method\":\"mining.subscribe\",\"params\":[\"stratum-ping/1.0.0\",\"EthereumStratum/1.0.0\"]}\n".to_vec()
    );
}

#[test]
fn stratum1_line_carries_credentials() {
    let q = QRequest::new(
        1,
        Method::EthSubmitLogin,
        vec!["worker.1".to_string(), "x".to_string()],
    );
    let line = String::from_utf8(encode_request_line(&q)).unwrap();
    assert_eq!(
        line,
        "{\"jsonrpc\":\"2.0\",\"id\":1,\"method\":\"eth_submitLogin\",\"params\":[\"worker.1\",\"x\"]}\n"
    );
}

#[test]
fn escapes_quotes_and_backslashes() {
    let q = QRequest::new(
        1,
        Method::EthSubmitLogin,
        vec!["user\"1".to_string(), "p\\w".to_string()],
    );
    let line = String::from_utf8(encode_request_line(&q)).unwrap();
    assert_eq!(
        line,
        "{\"jsonrpc\":\"2.0\",\"id\":1,\"method\":\"eth_submitLogin\",\"params\":[\"user\\\"1\",\"p\\\\w\"]}\n"
    );
}

#[test]
fn escapes_control_bytes() {
    let q = QRequest::new(
        7,
        Method::EthSubmitLogin,
        vec!["\u{1}".to_string(), "a\tb\nc\rd\u{8}e\u{c}f\u{1f}".to_string()],
    );
    let line = String::from_utf8(encode_request_line(&q)).unwrap();
    assert_eq!(
        line,
        "{\"jsonrpc\":\"2.0\",\"id\":7,\"method\":\"eth_submitLogin\",\"params\":[\"\\u0001\",\"a\\tb\\nc\\rd\\be\\ff\\u001f\"]}\n"
    );
}

#[test]
fn multi_digit_id_in_decimal() {
    let q = QRequest::new(1234567890, Method::MiningSubscribe, Vec::new());
    let line = String::from_utf8(encode_request_line(&q)).unwrap();
    assert_eq!(
        line,
        "{\"jsonrpc\":\"2.0\",\"id\":1234567890,\"method\":\"mining.subscribe\",\"params\":[]}\n"
    );
}

#[test]
fn unicode_params_pass_through() {
    let q = QRequest::new(1, Method::MiningSubscribe, vec!["héllo→".to_string()]);
    let line = String::from_utf8(encode_request_line(&q)).unwrap();
    assert_eq!(
        line,
        "{\"jsonrpc\":\"2.0\",\"id\":1,\"method\":\"mining.subscribe\",\"params\":[\"héllo→\"]}\n"
    );
}

#[test]
fn line_ends_with_single_newline() {
    let q = QRequest::new(1, Method::MiningSubscribe, vec!["a".to_string()]);
    let line = encode_request_line(&q);
    assert_eq!(line.last(), Some(&b'\n'));
    assert_eq!(line.iter().filter(|&&b| b == b'\n').count(), 1);
}

#[test]
fn encoding_matches_miniserde() {
    let cases = [
        "plain",
        "qu\"ote",
        "back\\slash",
        "tab\there",
        "nl\nhere",
        "cr\rhere",
        "ctl\u{1}\u{1f}end",
        "uni héllo→",
        "\u{8}\u{c}",
        "",
    ];
    for c in cases {
        let q = QRequest::new(1, Method::MiningSubscribe, vec![c.to_string()]);
        let line = String::from_utf8(encode_request_line(&q)).unwrap();
        let expected = format!(
            "{{\"jsonrpc\":\"2.0\",\"id\":1,\"method\":\"mining.subscribe\",\"params\":{}}}\n",
            miniserde::json::to_string(&vec![c.to_string()])
        );
        assert_eq!(line, expected, "case {:?}", c);
    }
}
