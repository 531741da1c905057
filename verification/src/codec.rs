//! The byte encoding of the message protocol.
//!
//! Commands and events travel as tagged text: an object whose `type` field
//! names the variant, e.g. `{"type":"Ping","payload":"hello"}`.  Payload
//! strings are escaped with a backslash for the quote, the backslash itself,
//! and the newline, carriage-return and tab characters; every other payload
//! character stands for itself.  [`decode_command`] accepts exactly the
//! buffers that [`parse_command`] describes and nothing else; [`encode_event`]
//! produces exactly [`event_json`].
use vstd::prelude::*;

use crate::protocol::{Command, CommandV, Event, EventV};

verus! {

/// The error returned to a `send` caller whose bytes are not a well-formed
/// command encoding.  It is never fatal to a running agent.
#[derive(Debug, PartialEq, Eq, Structural, Clone, Copy)]
pub enum DecodeError {
    Malformed,
}

/// How one payload character appears inside an encoded string.
pub open spec fn escaped_char(c: char) -> Seq<char> {
    if c == '"' {
        seq!['\\', '"']
    } else if c == '\\' {
        seq!['\\', '\\']
    } else if c == '\n' {
        seq!['\\', 'n']
    } else if c == '\r' {
        seq!['\\', 'r']
    } else if c == '\t' {
        seq!['\\', 't']
    } else {
        seq![c]
    }
}

/// How a whole payload appears inside an encoded string.
pub open spec fn escaped(s: Seq<char>) -> Seq<char>
    decreases s.len(),
{
    if s.len() == 0 {
        Seq::empty()
    } else {
        escaped_char(s[0]) + escaped(s.skip(1))
    }
}

/// The character for one decimal digit.
pub open spec fn digit_char(d: nat) -> char {
    ((48 + d) as u8) as char
}

/// The decimal numeral of `n`, most significant digit first.
pub open spec fn dec_digits(n: nat) -> Seq<char>
    decreases n,
{
    if n < 10 {
        seq![digit_char(n)]
    } else {
        dec_digits(n / 10).push(digit_char(n % 10))
    }
}

/// The exact text an event is delivered as.
pub open spec fn event_json(e: EventV) -> Seq<char> {
    match e {
        EventV::Started => "{\"type\":\"Started\"}"@,
        EventV::Pong { payload } => "{\"type\":\"Pong\",\"payload\":\""@ + escaped(payload)
            + "\"}"@,
        EventV::Tick { secs } => "{\"type\":\"Tick\",\"secs\":"@ + dec_digits(secs as nat) + "}"@,
    }
}

/// The texts the host receives for a sequence of emitted events: one text
/// per event, in exactly the emission order.
pub open spec fn delivered_texts(events: Seq<EventV>) -> Seq<Seq<char>> {
    events.map_values(|e: EventV| event_json(e))
}

/// The opening text of every encoded command, up to the payload.
pub open spec fn command_prefix() -> Seq<char> {
    "{\"type\":\"Ping\",\"payload\":\""@
}

/// The exact text that encodes a command.
pub open spec fn command_json(c: CommandV) -> Seq<char> {
    match c {
        CommandV::Ping { payload } => command_prefix() + escaped(payload) + "\"}"@,
    }
}

/// A character that the command encoding can carry in a payload.
pub open spec fn codable_char(c: char) -> bool {
    c == '\n' || c == '\r' || c == '\t' || (' ' <= c && c <= '~')
}

/// A payload that the command encoding can carry.
pub open spec fn codable(s: Seq<char>) -> bool {
    forall|i: int| 0 <= i < s.len() ==> codable_char(s[i])
}

/// Seven-bit text, one byte per character.
pub open spec fn ascii_bytes(s: Seq<char>) -> Seq<u8> {
    Seq::new(s.len(), |i: int| s[i] as u8)
}

/// The character an escape pair `\x` stands for, if `x` is a valid escape.
pub open spec fn unescaped_char(b: u8) -> Option<char> {
    if b == '"' as u8 {
        Some('"')
    } else if b == '\\' as u8 {
        Some('\\')
    } else if b == 'n' as u8 {
        Some('\n')
    } else if b == 'r' as u8 {
        Some('\r')
    } else if b == 't' as u8 {
        Some('\t')
    } else {
        None
    }
}

/// A byte that stands for itself inside an encoded payload.
pub open spec fn raw_byte(b: u8) -> bool {
    0x20 <= b && b <= 0x7e && b != '"' as u8 && b != '\\' as u8
}

/// Parses the payload part of an encoded command, from position `i` to the
/// closing `"}`.  `None` means the buffer is malformed.
pub open spec fn parse_payload(bytes: Seq<u8>, i: int) -> Option<Seq<char>>
    decreases bytes.len() - i,
{
    if i < 0 || i >= bytes.len() {
        None
    } else if bytes[i] == '"' as u8 {
        if i + 2 == bytes.len() && bytes[i + 1] == '}' as u8 {
            Some(Seq::empty())
        } else {
            None
        }
    } else if bytes[i] == '\\' as u8 {
        if i + 1 < bytes.len() {
            match unescaped_char(bytes[i + 1]) {
                Some(c) => match parse_payload(bytes, i + 2) {
                    Some(rest) => Some(seq![c] + rest),
                    None => None,
                },
                None => None,
            }
        } else {
            None
        }
    } else if raw_byte(bytes[i]) {
        match parse_payload(bytes, i + 1) {
            Some(rest) => Some(seq![bytes[i] as char] + rest),
            None => None,
        }
    } else {
        None
    }
}

/// The command a byte buffer encodes, or `None` if it encodes none.
pub open spec fn parse_command(bytes: Seq<u8>) -> Option<CommandV> {
    if bytes.len() >= 26 && bytes.subrange(0, 26) == ascii_bytes(command_prefix()) {
        match parse_payload(bytes, 26) {
            Some(p) => Some(CommandV::Ping { payload: p }),
            None => None,
        }
    } else {
        None
    }
}

proof fn lemma_parse_escaped_payload(bytes: Seq<u8>, i: int, payload: Seq<char>)
    requires
        codable(payload),
        0 <= i <= bytes.len(),
        bytes.subrange(i, bytes.len() as int) == ascii_bytes(escaped(payload) + "\"}"@),
    ensures
        parse_payload(bytes, i) == Some(payload),
    decreases payload.len(),
{
    reveal_strlit("\"}");
    let tail = bytes.subrange(i, bytes.len() as int);
    assert(tail.len() == escaped(payload).len() + 2);
    if payload.len() == 0 {
        assert(escaped(payload) =~= Seq::<char>::empty());
        assert(tail[0] == '"' as u8);
        assert(tail[1] == '}' as u8);
        assert(i + 2 == bytes.len());
    } else {
        let c = payload[0];
        let rest = payload.skip(1);
        assert(codable_char(c));
        assert(codable(rest)) by {
            assert(forall|j: int| 0 <= j < rest.len() ==> rest[j] == payload[j + 1]);
        }
        assert(escaped(payload) == escaped_char(c) + escaped(rest));
        let k = escaped_char(c).len();
        assert(bytes.subrange(i + k, bytes.len() as int) =~= ascii_bytes(
            escaped(rest) + "\"}"@,
        )) by {
            assert(forall|j: int|
                0 <= j < bytes.len() - i - k ==> #[trigger] bytes.subrange(
                    i + k,
                    bytes.len() as int,
                )[j] == tail[k + j]);
            assert(forall|j: int|
                0 <= j < escaped(rest).len() + 2 ==> #[trigger] (escaped(rest) + "\"}"@)[j]
                    == (escaped(payload) + "\"}"@)[k + j]);
        }
        lemma_parse_escaped_payload(bytes, i + k, rest);
        if c == '"' || c == '\\' || c == '\n' || c == '\r' || c == '\t' {
            assert(tail[0] == '\\' as u8);
            assert(bytes[i] == '\\' as u8);
            assert((escaped(payload) + "\"}"@)[1] == escaped_char(c)[1]);
            assert(bytes[i + 1] == tail[1]);
            assert(tail[1] == escaped_char(c)[1] as u8);
            assert(unescaped_char(escaped_char(c)[1] as u8) == Some(c));
            assert(unescaped_char(bytes[i + 1]) == Some(c));
            assert(parse_payload(bytes, i) == Some(seq![c] + rest));
        } else {
            assert(tail[0] == c as u8);
            assert(bytes[i] == c as u8);
            assert(raw_byte(bytes[i]));
            assert(bytes[i] as char == c);
            assert(parse_payload(bytes, i) == Some(seq![c] + rest));
        }
        assert(seq![c] + rest =~= payload);
    }
}

/// Encoding and decoding are inverse: a command whose payload the encoding
/// can carry, written in its canonical text [`command_json`], decodes back
/// to exactly that command.
pub proof fn lemma_command_round_trip(payload: Seq<char>)
    requires
        codable(payload),
    ensures
        parse_command(ascii_bytes(command_json(CommandV::Ping { payload }))) == Some(
            CommandV::Ping { payload },
        ),
{
    reveal_strlit("{\"type\":\"Ping\",\"payload\":\"");
    let text = command_json(CommandV::Ping { payload });
    let bytes = ascii_bytes(text);
    assert(command_prefix().len() == 26);
    assert(bytes.len() >= 26);
    assert(bytes.subrange(0, 26) =~= ascii_bytes(command_prefix())) by {
        assert(forall|j: int| 0 <= j < 26 ==> text[j] == command_prefix()[j]);
    }
    assert(bytes.subrange(26, bytes.len() as int) =~= ascii_bytes(
        escaped(payload) + "\"}"@,
    )) by {
        assert(forall|j: int|
            0 <= j < bytes.len() - 26 ==> text[26 + j] == (escaped(payload) + "\"}"@)[j]);
    }
    lemma_parse_escaped_payload(bytes, 26, payload);
}

proof fn lemma_parse_payload_sound(bytes: Seq<u8>, i: int, p: Seq<char>)
    requires
        0 <= i <= bytes.len(),
        parse_payload(bytes, i) == Some(p),
    ensures
        codable(p),
        bytes.subrange(i, bytes.len() as int) == ascii_bytes(escaped(p) + "\"}"@),
    decreases bytes.len() - i,
{
    reveal_strlit("\"}");
    if bytes[i] == '"' as u8 {
        assert(p == Seq::<char>::empty());
        assert(bytes.subrange(i, bytes.len() as int) =~= ascii_bytes(escaped(p) + "\"}"@));
    } else if bytes[i] == '\\' as u8 {
        match unescaped_char(bytes[i + 1]) {
            Some(c) => {
                match parse_payload(bytes, i + 2) {
                    Some(rest) => {
                        assert(p == seq![c] + rest);
                        assert(p[0] == c);
                        assert(p.skip(1) =~= rest);
                        lemma_parse_payload_sound(bytes, i + 2, rest);
                        assert(codable_char(c));
                        assert(codable(p)) by {
                            assert(forall|j: int|
                                1 <= j < p.len() ==> p[j] == rest[j - 1]);
                        }
                        assert(escaped(p) == escaped_char(c) + escaped(rest));
                        assert(escaped_char(c) =~= seq!['\\', escaped_char(c)[1]]);
                        assert(escaped_char(c)[1] as u8 == bytes[i + 1]);
                        assert(bytes.subrange(i, bytes.len() as int) =~= ascii_bytes(
                            escaped(p) + "\"}"@,
                        )) by {
                            let tail2 = bytes.subrange(i + 2, bytes.len() as int);
                            let s = bytes.subrange(i, bytes.len() as int);
                            let x = escaped(p) + "\"}"@;
                            assert(("\"}"@).len() == 2);
                            assert(escaped_char(c).len() == 2);
                            assert(tail2.len() == bytes.len() - i - 2);
                            assert(tail2 == ascii_bytes(escaped(rest) + "\"}"@));
                            assert(tail2.len() == escaped(rest).len() + 2);
                            assert(escaped(p).len() == escaped(rest).len() + 2);
                            assert(s.len() == x.len());
                            assert(forall|j: int|
                                2 <= j < s.len() ==> #[trigger] s[j] == tail2[j - 2]);
                            assert(forall|j: int|
                                2 <= j < x.len() ==> #[trigger] x[j] == (escaped(rest)
                                    + "\"}"@)[j - 2]);
                            assert(s[0] == '\\' as u8);
                            assert(x[0] == '\\');
                            assert(s[1] == escaped_char(c)[1] as u8);
                            assert(x[1] == escaped_char(c)[1]);
                            assert(forall|j: int|
                                0 <= j < s.len() ==> s[j] == #[trigger] ascii_bytes(x)[j]);
                        }
                    },
                    None => {
                        assert(false);
                    },
                }
            },
            None => {
                assert(false);
            },
        }
    } else {
        assert(raw_byte(bytes[i]));
        let c = bytes[i] as char;
        match parse_payload(bytes, i + 1) {
            Some(rest) => {
                assert(p == seq![c] + rest);
                assert(p[0] == c);
                assert(p.skip(1) =~= rest);
                lemma_parse_payload_sound(bytes, i + 1, rest);
                assert(c as u8 == bytes[i]);
                assert(codable_char(c));
                assert(codable(p)) by {
                    assert(forall|j: int| 1 <= j < p.len() ==> p[j] == rest[j - 1]);
                }
                assert(c != '"' && c != '\\' && c != '\n' && c != '\r' && c != '\t');
                assert(escaped(p) == escaped_char(c) + escaped(rest));
                assert(escaped_char(c) =~= seq![c]);
                assert(bytes.subrange(i, bytes.len() as int) =~= ascii_bytes(
                    escaped(p) + "\"}"@,
                )) by {
                    let tail1 = bytes.subrange(i + 1, bytes.len() as int);
                    let s = bytes.subrange(i, bytes.len() as int);
                    let x = escaped(p) + "\"}"@;
                    assert(("\"}"@).len() == 2);
                    assert(escaped_char(c).len() == 1);
                    assert(tail1.len() == bytes.len() - i - 1);
                    assert(tail1 == ascii_bytes(escaped(rest) + "\"}"@));
                    assert(tail1.len() == escaped(rest).len() + 2);
                    assert(escaped(p).len() == escaped(rest).len() + 1);
                    assert(s.len() == x.len());
                    assert(forall|j: int| 1 <= j < s.len() ==> #[trigger] s[j] == tail1[j - 1]);
                    assert(forall|j: int|
                        1 <= j < x.len() ==> #[trigger] x[j] == (escaped(rest) + "\"}"@)[j - 1]);
                    assert(s[0] == c as u8);
                    assert(x[0] == c);
                    assert(forall|j: int|
                        0 <= j < s.len() ==> s[j] == #[trigger] ascii_bytes(x)[j]);
                }
            },
            None => {
                assert(false);
            },
        }
    }
}

/// A buffer parses to a command only if it is that command's canonical text
/// [`command_json`], byte for byte — together with
/// [`lemma_command_round_trip`], the decoder's language is exactly the
/// canonical encodings.
pub proof fn lemma_parse_is_canonical(bytes: Seq<u8>, payload: Seq<char>)
    requires
        parse_command(bytes) == Some(CommandV::Ping { payload }),
    ensures
        codable(payload),
        bytes == ascii_bytes(command_json(CommandV::Ping { payload })),
{
    reveal_strlit("{\"type\":\"Ping\",\"payload\":\"");
    reveal_strlit("\"}");
    assert(parse_payload(bytes, 26) == Some(payload));
    lemma_parse_payload_sound(bytes, 26, payload);
    let text = command_json(CommandV::Ping { payload });
    assert(command_prefix().len() == 26);
    assert(bytes =~= ascii_bytes(text)) by {
        let tail = bytes.subrange(26, bytes.len() as int);
        assert(("\"}"@).len() == 2);
        assert(tail.len() == bytes.len() - 26);
        assert(tail == ascii_bytes(escaped(payload) + "\"}"@));
        assert(tail.len() == escaped(payload).len() + 2);
        assert(text.len() == 26 + escaped(payload).len() + 2);
        assert(bytes.len() == text.len());
        assert(forall|j: int| 26 <= j < bytes.len() ==> #[trigger] bytes[j] == tail[j - 26]);
        assert(forall|j: int|
            26 <= j < text.len() ==> #[trigger] text[j] == (escaped(payload) + "\"}"@)[j - 26]);
        assert(forall|j: int|
            0 <= j < 26 ==> #[trigger] bytes[j] == bytes.subrange(0, 26)[j]);
        assert(forall|j: int| 0 <= j < 26 ==> #[trigger] text[j] == command_prefix()[j]);
        assert(forall|j: int| 0 <= j < bytes.len() ==> bytes[j] == #[trigger] ascii_bytes(text)[j]);
    }
}

/// Relies on `String::push`: it appends exactly the one character to the end
/// of the string.
#[verifier::external_body]
fn push_char(s: &mut String, c: char)
    ensures
        final(s)@ == old(s)@.push(c),
{
    s.push(c);
}

proof fn lemma_escaped_snoc(s: Seq<char>, c: char)
    ensures
        escaped(s.push(c)) == escaped(s) + escaped_char(c),
    decreases s.len(),
{
    if s.len() == 0 {
        assert(s.push(c)[0] == c);
        assert(s.push(c).skip(1) =~= Seq::<char>::empty());
        assert(escaped(s) + escaped_char(c) =~= escaped_char(c) + escaped(Seq::<char>::empty()));
    } else {
        lemma_escaped_snoc(s.skip(1), c);
        assert(s.push(c).skip(1) =~= s.skip(1).push(c));
        assert(s.push(c)[0] == s[0]);
        assert(escaped_char(s[0]) + (escaped(s.skip(1)) + escaped_char(c)) =~= (escaped_char(s[0])
            + escaped(s.skip(1))) + escaped_char(c));
    }
}

fn push_escaped_char(out: &mut String, c: char)
    ensures
        final(out)@ == old(out)@ + escaped_char(c),
{
    let ghost out0 = out@;
    if c == '"' {
        push_char(out, '\\');
        push_char(out, '"');
    } else if c == '\\' {
        push_char(out, '\\');
        push_char(out, '\\');
    } else if c == '\n' {
        push_char(out, '\\');
        push_char(out, 'n');
    } else if c == '\r' {
        push_char(out, '\\');
        push_char(out, 'r');
    } else if c == '\t' {
        push_char(out, '\\');
        push_char(out, 't');
    } else {
        push_char(out, c);
    }
    proof {
        assert(out@ =~= out0 + escaped_char(c));
    }
}

fn push_escaped(out: &mut String, payload: &String)
    ensures
        final(out)@ == old(out)@ + escaped(payload@),
{
    let ghost out0 = out@;
    let s = payload.as_str();
    let n = s.unicode_len();
    let mut i: usize = 0;
    while i < n
        invariant
            s@ == payload@,
            n == payload@.len(),
            0 <= i <= n,
            out@ == out0 + escaped(payload@.take(i as int)),
        decreases n - i,
    {
        let c = s.get_char(i);
        proof {
            lemma_escaped_snoc(payload@.take(i as int), payload@[i as int]);
            assert(payload@.take(i as int).push(payload@[i as int]) =~= payload@.take(
                i as int + 1,
            ));
        }
        push_escaped_char(out, c);
        i = i + 1;
    }
    proof {
        assert(payload@.take(n as int) =~= payload@);
    }
}

fn push_u32(out: &mut String, n: u32)
    ensures
        final(out)@ == old(out)@ + dec_digits(n as nat),
    decreases n,
{
    let ghost out0 = out@;
    if n >= 10 {
        push_u32(out, n / 10);
    }
    let d: u8 = (n % 10) as u8;
    push_char(out, (48 + d) as char);
    proof {
        assert((48 + d) as char == digit_char((n % 10) as nat));
        assert(out@ =~= out0 + dec_digits(n as nat));
    }
}

/// Encodes one event as the text delivered to the host: exactly
/// [`event_json`] of the event.
pub fn encode_event(e: &Event) -> (r: String)
    ensures
        r@ == event_json(e@),
{
    match e {
        Event::Started => String::from_str("{\"type\":\"Started\"}"),
        Event::Pong { payload } => {
            let mut s = String::from_str("{\"type\":\"Pong\",\"payload\":\"");
            push_escaped(&mut s, payload);
            s.append("\"}");
            s
        },
        Event::Tick { secs } => {
            let mut s = String::from_str("{\"type\":\"Tick\",\"secs\":");
            push_u32(&mut s, *secs);
            s.append("}");
            s
        },
    }
}

/// Encodes a batch of events, one text per event, in the order given: what
/// the host receives is exactly [`delivered_texts`] of the emitted events,
/// so delivery preserves emission order.
pub fn encode_all(events: &Vec<Event>) -> (r: Vec<String>)
    ensures
        r@.len() == events@.len(),
        forall|i: int| 0 <= i < r@.len() ==> r@[i]@ == event_json(events@[i]@),
        r.deep_view() == delivered_texts(events.deep_view()),
{
    let mut r: Vec<String> = Vec::new();
    let mut i: usize = 0;
    while i < events.len()
        invariant
            0 <= i <= events@.len(),
            r@.len() == i,
            forall|k: int| 0 <= k < i ==> r@[k]@ == event_json(events@[k]@),
        decreases events@.len() - i,
    {
        r.push(encode_event(&events[i]));
        i = i + 1;
    }
    proof {
        assert(r.deep_view() =~= delivered_texts(events.deep_view()));
    }
    r
}

/// The expected opening bytes of every encoded command.
fn command_prefix_bytes() -> (v: Vec<u8>)
    ensures
        v@ == ascii_bytes(command_prefix()),
{
    let mut v: Vec<u8> = Vec::new();
    v.push(0x7b);  // {
    v.push(0x22);  // "
    v.push(0x74);  // t
    v.push(0x79);  // y
    v.push(0x70);  // p
    v.push(0x65);  // e
    v.push(0x22);  // "
    v.push(0x3a);  // :
    v.push(0x22);  // "
    v.push(0x50);  // P
    v.push(0x69);  // i
    v.push(0x6e);  // n
    v.push(0x67);  // g
    v.push(0x22);  // "
    v.push(0x2c);  // ,
    v.push(0x22);  // "
    v.push(0x70);  // p
    v.push(0x61);  // a
    v.push(0x79);  // y
    v.push(0x6c);  // l
    v.push(0x6f);  // o
    v.push(0x61);  // a
    v.push(0x64);  // d
    v.push(0x22);  // "
    v.push(0x3a);  // :
    v.push(0x22);  // "
    proof {
        reveal_strlit("{\"type\":\"Ping\",\"payload\":\"");
        assert(v@ =~= ascii_bytes(command_prefix()));
    }
    v
}

/// Decodes a host-supplied byte buffer into the command it encodes.
///
/// Succeeds exactly on the buffers that [`parse_command`] accepts and
/// returns exactly the command it parses; every other buffer is rejected as
/// [`DecodeError::Malformed`].
pub fn decode_command(bytes: &[u8]) -> (r: Result<Command, DecodeError>)
    ensures
        match parse_command(bytes@) {
            Some(cv) => r matches Ok(c) && c@ == cv,
            None => r == Err::<Command, DecodeError>(DecodeError::Malformed),
        },
{
    let n = bytes.len();
    if n < 26 {
        return Err(DecodeError::Malformed);
    }
    let pref = command_prefix_bytes();
    proof {
        reveal_strlit("{\"type\":\"Ping\",\"payload\":\"");
        assert(pref@.len() == 26);
    }
    let mut j: usize = 0;
    while j < 26
        invariant
            0 <= j <= 26,
            n == bytes@.len(),
            n >= 26,
            pref@ == ascii_bytes(command_prefix()),
            pref@.len() == 26,
            forall|k: int| 0 <= k < j ==> bytes@[k] == pref@[k],
        decreases 26 - j,
    {
        if bytes[j] != pref[j] {
            proof {
                assert(bytes@.subrange(0, 26)[j as int] == bytes@[j as int]);
            }
            return Err(DecodeError::Malformed);
        }
        j = j + 1;
    }
    proof {
        assert(bytes@.subrange(0, 26) =~= ascii_bytes(command_prefix()));
    }
    let mut out = String::new();
    let mut i: usize = 26;
    loop
        invariant
            26 <= i <= n,
            n == bytes@.len(),
            bytes@.subrange(0, 26) == ascii_bytes(command_prefix()),
            match parse_payload(bytes@, i as int) {
                Some(rest) => parse_payload(bytes@, 26) == Some(out@ + rest),
                None => parse_payload(bytes@, 26) is None,
            },
        decreases n - i,
    {
        if i >= n {
            return Err(DecodeError::Malformed);
        }
        let b = bytes[i];
        if b == 0x22 {
            if n - i == 2 && bytes[i + 1] == 0x7d {
                proof {
                    assert(parse_payload(bytes@, i as int) == Some(Seq::<char>::empty()));
                    assert(out@ + Seq::<char>::empty() =~= out@);
                }
                return Ok(Command::Ping { payload: out });
            } else {
                return Err(DecodeError::Malformed);
            }
        } else if b == 0x5c {
            if i + 1 < n {
                let e = bytes[i + 1];
                let c: char;
                if e == 0x22 {
                    c = '"';
                } else if e == 0x5c {
                    c = '\\';
                } else if e == 0x6e {
                    c = '\n';
                } else if e == 0x72 {
                    c = '\r';
                } else if e == 0x74 {
                    c = '\t';
                } else {
                    return Err(DecodeError::Malformed);
                }
                proof {
                    assert(unescaped_char(bytes@[i as int + 1]) == Some(c));
                    if let Some(rest) = parse_payload(bytes@, i as int + 2) {
                        assert(parse_payload(bytes@, i as int) == Some(seq![c] + rest));
                        assert(out@ + (seq![c] + rest) =~= out@.push(c) + rest);
                    }
                }
                push_char(&mut out, c);
                i = i + 2;
            } else {
                return Err(DecodeError::Malformed);
            }
        } else if 0x20 <= b && b <= 0x7e {
            let c = b as char;
            proof {
                assert(raw_byte(bytes@[i as int]));
                if let Some(rest) = parse_payload(bytes@, i as int + 1) {
                    assert(parse_payload(bytes@, i as int) == Some(seq![c] + rest));
                    assert(out@ + (seq![c] + rest) =~= out@.push(c) + rest);
                }
            }
            push_char(&mut out, c);
            i = i + 1;
        } else {
            return Err(DecodeError::Malformed);
        }
    }
}

} // verus!
