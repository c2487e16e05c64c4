use channel_acceptor::config::ChannelAcceptanceParams;
use channel_acceptor::session::SessionError;
use channel_acceptor::whitelist::Whitelist;
use channel_acceptor::zeroconf::{
    CustomMessage, ZERO_CONF_QUERY_TAG, ZERO_CONF_REPLY_TAG, build_reply_payload,
    handle_custom_message, parse_query_payload,
};

/// Compressed secp256k1 generator point: a well-formed public key.
const PEER_A_HEX: &str = "0279be667ef9dcbbac55a06295ce870b07029bfcdb2dce28d959f2815b16f81798";

fn hex_to_bytes(s: &str) -> Vec<u8> {
    let digits: Vec<u8> = s
        .chars()
        .map(|c| c.to_digit(16).expect("hex digit") as u8)
        .collect();
    digits.chunks(2).map(|pair| pair[0] * 16 + pair[1]).collect()
}

fn whitelist_of(entries: &[(&str, i8)]) -> Whitelist {
    let params = entries
        .iter()
        .map(|(pubkey, confs)| ChannelAcceptanceParams {
            pubkey: pubkey.to_string(),
            confs: *confs,
        })
        .collect();
    Whitelist::from_params(params)
}

fn query_from(peer: &[u8], tag: u32, payload: &str) -> CustomMessage {
    CustomMessage {
        type_tag: tag,
        peer: peer.to_vec(),
        payload: payload.to_string(),
    }
}

#[test]
fn query_from_zero_conf_peer_gets_true_reply() {
    let w = whitelist_of(&[(PEER_A_HEX, 0)]);
    let msg = query_from(
        &hex_to_bytes(PEER_A_HEX),
        ZERO_CONF_QUERY_TAG,
        "{\"method\":\"getzeroconfinfo\",\"id\":7}",
    );
    let reply = handle_custom_message(&w, &msg).unwrap().unwrap();
    assert_eq!(reply.type_tag, ZERO_CONF_REPLY_TAG);
    assert_eq!(reply.peer, hex_to_bytes(PEER_A_HEX));
    assert_eq!(
        reply.payload,
        "{\"id\":7,\"result\":{\"allows_your_zeroconf\":true}}"
    );
}

#[test]
fn unrelated_type_tag_gets_no_reply() {
    let w = whitelist_of(&[(PEER_A_HEX, 0)]);
    let msg = query_from(
        &hex_to_bytes(PEER_A_HEX),
        9999,
        "{\"method\":\"getzeroconfinfo\",\"id\":7}",
    );
    assert!(handle_custom_message(&w, &msg).unwrap().is_none());
}

#[test]
fn nonzero_entry_gets_false_reply() {
    let w = whitelist_of(&[(PEER_A_HEX, 3)]);
    let msg = query_from(
        &hex_to_bytes(PEER_A_HEX),
        ZERO_CONF_QUERY_TAG,
        "{\"method\":\"getzeroconfinfo\",\"id\":\"abc\"}",
    );
    let reply = handle_custom_message(&w, &msg).unwrap().unwrap();
    assert_eq!(
        reply.payload,
        "{\"id\":\"abc\",\"result\":{\"allows_your_zeroconf\":false}}"
    );
}

#[test]
fn absent_entry_gets_false_reply() {
    let w = whitelist_of(&[]);
    let msg = query_from(
        &hex_to_bytes(PEER_A_HEX),
        ZERO_CONF_QUERY_TAG,
        "{\"method\":\"getzeroconfinfo\",\"id\":0}",
    );
    let reply = handle_custom_message(&w, &msg).unwrap().unwrap();
    assert_eq!(
        reply.payload,
        "{\"id\":0,\"result\":{\"allows_your_zeroconf\":false}}"
    );
}

#[test]
fn wrong_method_gets_no_reply() {
    let w = whitelist_of(&[(PEER_A_HEX, 0)]);
    let msg = query_from(
        &hex_to_bytes(PEER_A_HEX),
        ZERO_CONF_QUERY_TAG,
        "{\"method\":\"getinfo\",\"id\":7}",
    );
    assert!(handle_custom_message(&w, &msg).unwrap().is_none());
}

#[test]
fn missing_id_gets_no_reply() {
    let w = whitelist_of(&[(PEER_A_HEX, 0)]);
    let msg = query_from(
        &hex_to_bytes(PEER_A_HEX),
        ZERO_CONF_QUERY_TAG,
        "{\"method\":\"getzeroconfinfo\"}",
    );
    assert!(handle_custom_message(&w, &msg).unwrap().is_none());
}

#[test]
fn malformed_payload_gets_no_reply() {
    let w = whitelist_of(&[(PEER_A_HEX, 0)]);
    for payload in [
        "",
        "{}",
        "{",
        "nonsense",
        "[1,2,3]",
        "{\"method\":\"getzeroconfinfo\",\"id\":}",
        "{\"method\":\"getzeroconfinfo\",\"id\":7} trailing",
        "{\"method\":\"getzeroconfinfo\",\"id\":7",
    ] {
        let msg = query_from(&hex_to_bytes(PEER_A_HEX), ZERO_CONF_QUERY_TAG, payload);
        assert!(handle_custom_message(&w, &msg).unwrap().is_none());
    }
}

#[test]
fn non_json_id_token_gets_no_reply_even_from_valid_peer() {
    let w = whitelist_of(&[(PEER_A_HEX, 0)]);
    for payload in [
        "{\"method\":\"getzeroconfinfo\",\"id\":!}",
        "{\"method\":\"getzeroconfinfo\",\"id\":[1}}",
        "{\"method\":\"getzeroconfinfo\",\"id\":[,]}",
        "{\"method\":\"getzeroconfinfo\",\"id\":[1,]}",
        "{\"method\":\"getzeroconfinfo\",\"id\":{\"a\":1,}}",
        "{\"method\":\"getzeroconfinfo\",\"id\":[tru]}",
        "{\"method\":\"getzeroconfinfo\",\"id\":{\"a\":1 \"b\":2}}",
        "{\"method\":\"getzeroconfinfo\",\"id\":[\"\\q\"]}",
        "{\"method\":\"getzeroconfinfo\",\"id\":{\"\\ud800\":1}}",
        "{\"method\":\"getzeroconfinfo\",\"id\":{1:2}}",
        "{\"method\":\"getzeroconfinfo\",\"id\":tru}",
        "{\"method\":\"getzeroconfinfo\",\"id\":01}",
        "{\"method\":\"getzeroconfinfo\",\"id\":1.}",
        "{\"method\":\"getzeroconfinfo\",\"id\":+1}",
        "{\"method\":\"getzeroconfinfo\",\"id\":1e}",
        "{\"method\":\"getzeroconfinfo\",\"id\":\"\\q\"}",
        "{\"method\":\"getzeroconfinfo\",\"id\":\"\\ud800\"}",
        "{\"method\":\"get\tzeroconfinfo\",\"id\":1}",
    ] {
        let msg = query_from(&hex_to_bytes(PEER_A_HEX), ZERO_CONF_QUERY_TAG, payload);
        let outcome = handle_custom_message(&w, &msg).unwrap();
        assert!(outcome.is_none(), "expected no reply for {payload}");
    }
    // The same payloads from undecodable peer bytes are ignored, not fatal.
    let msg = query_from(&[0xff; 33], ZERO_CONF_QUERY_TAG, "{\"method\":\"getzeroconfinfo\",\"id\":!}");
    assert!(handle_custom_message(&w, &msg).unwrap().is_none());
}

#[test]
fn parse_rejects_mismatched_bracket_kinds() {
    assert!(parse_query_payload("{\"method\":\"getzeroconfinfo\",\"id\":{\"a\":[1,2}}").is_none());
    assert!(parse_query_payload("{\"method\":\"getzeroconfinfo\",\"id\":[1,2)}").is_none());
}

#[test]
fn parse_accepts_json_scalars() {
    assert_eq!(
        parse_query_payload("{\"method\":\"getzeroconfinfo\",\"id\":-1.5e+3}").unwrap(),
        "-1.5e+3"
    );
    assert_eq!(
        parse_query_payload("{\"method\":\"getzeroconfinfo\",\"id\":true}").unwrap(),
        "true"
    );
    assert_eq!(
        parse_query_payload("{\"method\":\"getzeroconfinfo\",\"id\":null}").unwrap(),
        "null"
    );
    assert_eq!(
        parse_query_payload("{\"method\":\"getzeroconfinfo\",\"id\":0.25}").unwrap(),
        "0.25"
    );
}

#[test]
fn parse_decodes_escapes_in_names_and_method() {
    // `method` and its value written with \u escapes are the same JSON text.
    assert_eq!(
        parse_query_payload("{\"\\u006dethod\":\"\\u0067etzeroconfinfo\",\"id\":1}").unwrap(),
        "1"
    );
    // An `id` name written with an escape still names the id member.
    assert_eq!(
        parse_query_payload("{\"method\":\"getzeroconfinfo\",\"i\\u0064\":5}").unwrap(),
        "5"
    );
}

#[test]
fn parse_accepts_surrogate_pair_and_rejects_lone_surrogate() {
    assert_eq!(
        parse_query_payload("{\"method\":\"getzeroconfinfo\",\"id\":\"\\ud83d\\ude00\"}").unwrap(),
        "\"\\ud83d\\ude00\""
    );
    assert!(parse_query_payload("{\"method\":\"getzeroconfinfo\",\"id\":\"\\ude00\"}").is_none());
}

#[test]
fn malformed_peer_on_query_is_session_fatal() {
    let w = whitelist_of(&[(PEER_A_HEX, 0)]);
    let msg = query_from(
        &[0xff; 33],
        ZERO_CONF_QUERY_TAG,
        "{\"method\":\"getzeroconfinfo\",\"id\":7}",
    );
    assert!(matches!(
        handle_custom_message(&w, &msg),
        Err(SessionError::MalformedPeerIdentity)
    ));
}

#[test]
fn malformed_peer_without_query_is_ignored() {
    let w = whitelist_of(&[(PEER_A_HEX, 0)]);
    let msg = query_from(&[0xff; 33], ZERO_CONF_QUERY_TAG, "not json");
    assert!(handle_custom_message(&w, &msg).unwrap().is_none());
}

#[test]
fn parse_accepts_members_in_any_order_and_whitespace() {
    let id = parse_query_payload(" { \"id\" : 42 , \"method\" : \"getzeroconfinfo\" } ");
    assert_eq!(id.unwrap(), "42");
}

#[test]
fn parse_echoes_structured_id_verbatim() {
    let id = parse_query_payload("{\"method\":\"getzeroconfinfo\",\"id\":{\"a\":[1,2,{}]}}");
    assert_eq!(id.unwrap(), "{\"a\":[1,2,{}]}");

    let id = parse_query_payload(
        "{\"method\":\"getzeroconfinfo\",\"id\":{\"a\":\"x\\ud83d\\ude00\",\"b\":[true,null,-1.5e2],\"c\":{}}}",
    );
    assert_eq!(id.unwrap(), "{\"a\":\"x\\ud83d\\ude00\",\"b\":[true,null,-1.5e2],\"c\":{}}");

    let id = parse_query_payload("{\"method\":\"getzeroconfinfo\",\"id\":[ 1 , [2] , {\"x\" : 3} ]}");
    assert_eq!(id.unwrap(), "[ 1 , [2] , {\"x\" : 3} ]");
}

#[test]
fn parse_keeps_string_escapes_in_id() {
    let id = parse_query_payload("{\"method\":\"getzeroconfinfo\",\"id\":\"a\\\"b\"}");
    assert_eq!(id.unwrap(), "\"a\\\"b\"");
}

#[test]
fn parse_latest_duplicate_member_wins() {
    let id = parse_query_payload("{\"method\":\"getzeroconfinfo\",\"id\":1,\"id\":2}");
    assert_eq!(id.unwrap(), "2");

    let none = parse_query_payload(
        "{\"method\":\"getzeroconfinfo\",\"id\":1,\"method\":\"other\"}",
    );
    assert!(none.is_none());
}

#[test]
fn parse_rejects_method_as_non_string_or_prefix() {
    assert!(parse_query_payload("{\"method\":getzeroconfinfo,\"id\":1}").is_none());
    assert!(parse_query_payload("{\"method\":\"getzeroconfinfo2\",\"id\":1}").is_none());
}

#[test]
fn reply_payload_is_exact() {
    assert_eq!(
        build_reply_payload("7", true),
        "{\"id\":7,\"result\":{\"allows_your_zeroconf\":true}}"
    );
    assert_eq!(
        build_reply_payload("\"x\"", false),
        "{\"id\":\"x\",\"result\":{\"allows_your_zeroconf\":false}}"
    );
}
