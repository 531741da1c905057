use krust::codec::{decode_command, encode_all, encode_event, DecodeError};
use krust::protocol::{Command, Event};

#[test]
fn decode_well_formed_command() {
    let r = decode_command(b"{\"type\":\"Ping\",\"payload\":\"hello\"}");
    assert_eq!(
        r,
        Ok(Command::Ping {
            payload: String::from("hello")
        })
    );
}

#[test]
fn decode_empty_payload() {
    let r = decode_command(b"{\"type\":\"Ping\",\"payload\":\"\"}");
    assert_eq!(
        r,
        Ok(Command::Ping {
            payload: String::from("")
        })
    );
}

#[test]
fn decode_escaped_payload() {
    let r = decode_command(b"{\"type\":\"Ping\",\"payload\":\"a\\\"b\\\\c\\nd\\re\\tf\"}");
    assert_eq!(
        r,
        Ok(Command::Ping {
            payload: String::from("a\"b\\c\nd\re\tf")
        })
    );
}

#[test]
fn decode_rejects_unknown_discriminator() {
    let r = decode_command(b"{\"type\":\"Pong\",\"payload\":\"x\"}");
    assert_eq!(r, Err(DecodeError::Malformed));
}

#[test]
fn decode_rejects_truncated_and_trailing_input() {
    assert_eq!(decode_command(b""), Err(DecodeError::Malformed));
    assert_eq!(
        decode_command(b"{\"type\":\"Ping\",\"payload\":\"x"),
        Err(DecodeError::Malformed)
    );
    assert_eq!(
        decode_command(b"{\"type\":\"Ping\",\"payload\":\"x\"} "),
        Err(DecodeError::Malformed)
    );
}

#[test]
fn decode_rejects_bad_escape_and_control_bytes() {
    assert_eq!(
        decode_command(b"{\"type\":\"Ping\",\"payload\":\"a\\qb\"}"),
        Err(DecodeError::Malformed)
    );
    assert_eq!(
        decode_command(b"{\"type\":\"Ping\",\"payload\":\"a\x01b\"}"),
        Err(DecodeError::Malformed)
    );
    assert_eq!(
        decode_command(b"{\"type\":\"Ping\",\"payload\":\"a\xc3\xa9\"}"),
        Err(DecodeError::Malformed)
    );
}

#[test]
fn encode_started() {
    assert_eq!(encode_event(&Event::Started), "{\"type\":\"Started\"}");
}

#[test]
fn encode_pong_escapes_payload() {
    assert_eq!(
        encode_event(&Event::Pong {
            payload: String::from("hello")
        }),
        "{\"type\":\"Pong\",\"payload\":\"hello\"}"
    );
    assert_eq!(
        encode_event(&Event::Pong {
            payload: String::from("a\"b\\c\nd\re\tf")
        }),
        "{\"type\":\"Pong\",\"payload\":\"a\\\"b\\\\c\\nd\\re\\tf\"}"
    );
}

#[test]
fn encode_tick_decimal() {
    assert_eq!(
        encode_event(&Event::Tick { secs: 1 }),
        "{\"type\":\"Tick\",\"secs\":1}"
    );
    assert_eq!(
        encode_event(&Event::Tick { secs: 407 }),
        "{\"type\":\"Tick\",\"secs\":407}"
    );
    assert_eq!(
        encode_event(&Event::Tick { secs: 4294967295 }),
        "{\"type\":\"Tick\",\"secs\":4294967295}"
    );
}

#[test]
fn decoded_command_round_trips_through_the_loop() {
    let command = decode_command(b"{\"type\":\"Ping\",\"payload\":\"hello\"}")
        .expect("well-formed command");
    let script = vec![krust::agent::AgentInput::Inbound { command }];
    let (events, _) = krust::agent::run_script(&script);
    let texts = encode_all(&events);
    assert_eq!(
        texts,
        vec![
            String::from("{\"type\":\"Started\"}"),
            String::from("{\"type\":\"Pong\",\"payload\":\"hello\"}"),
        ]
    );
}

#[test]
fn encode_all_preserves_order() {
    let events = vec![
        Event::Started,
        Event::Tick { secs: 1 },
        Event::Pong {
            payload: String::from("hi")
        },
    ];
    let texts = encode_all(&events);
    assert_eq!(
        texts,
        vec![
            String::from("{\"type\":\"Started\"}"),
            String::from("{\"type\":\"Tick\",\"secs\":1}"),
            String::from("{\"type\":\"Pong\",\"payload\":\"hi\"}"),
        ]
    );
}
