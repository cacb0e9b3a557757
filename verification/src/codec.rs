//! Rendering of outbound protocol events as JSON text.
//!
//! The event envelope is built character by character against an exact
//! spec-level rendering, so a client sees precisely the tagged union the
//! protocol promises: `{"event":...,"data":...}`. Step-update payloads are
//! opaque JSON text supplied by the producer and are framed verbatim.

use vstd::prelude::*;
use vstd::string::StrSliceExecFns;
use vstd::string::StringExecFns;

verus! {

/// Relies on std's `String::push`: appends exactly the given character.
pub assume_specification[ String::push ](s: &mut String, c: char)
    ensures
        final(s)@ == old(s)@.push(c),
;

/// The hexadecimal digit for a value below sixteen.
pub open spec fn hex_digit(n: int) -> char {
    if n == 0 { '0' } else if n == 1 { '1' } else if n == 2 { '2' } else if n == 3 { '3' }
    else if n == 4 { '4' } else if n == 5 { '5' } else if n == 6 { '6' } else if n == 7 { '7' }
    else if n == 8 { '8' } else if n == 9 { '9' } else if n == 10 { 'a' } else if n == 11 { 'b' }
    else if n == 12 { 'c' } else if n == 13 { 'd' } else if n == 14 { 'e' } else { 'f' }
}

fn hex_digit_exec(n: u32) -> (r: char)
    requires
        n < 16,
    ensures
        r == hex_digit(n as int),
{
    if n == 0 { '0' } else if n == 1 { '1' } else if n == 2 { '2' } else if n == 3 { '3' }
    else if n == 4 { '4' } else if n == 5 { '5' } else if n == 6 { '6' } else if n == 7 { '7' }
    else if n == 8 { '8' } else if n == 9 { '9' } else if n == 10 { 'a' } else if n == 11 { 'b' }
    else if n == 12 { 'c' } else if n == 13 { 'd' } else if n == 14 { 'e' } else { 'f' }
}

/// How one character appears inside a JSON string literal: quote,
/// backslash and the common control characters get their two-character
/// escapes, any other control character its `\u00XX` form, and everything
/// else stands as itself.
pub open spec fn escape_char(c: char) -> Seq<char> {
    if c == '"' {
        seq!['\\', '"']
    } else if c == '\\' {
        seq!['\\', '\\']
    } else if c == '\n' {
        seq!['\\', 'n']
    } else if c == '\r' {
        seq!['\\', 'r']
    } else if c == '\t' {
        seq!['\\', 't']
    } else if (c as u32) < 0x20 {
        seq!['\\', 'u', '0', '0', hex_digit(c as u32 as int / 16), hex_digit(c as u32 as int % 16)]
    } else {
        seq![c]
    }
}

/// The JSON string-literal form of a character sequence.
pub open spec fn json_escape(s: Seq<char>) -> Seq<char>
    decreases s.len(),
{
    if s.len() == 0 {
        Seq::empty()
    } else {
        escape_char(s[0]) + json_escape(s.drop_first())
    }
}

proof fn lemma_json_escape_push(s: Seq<char>, c: char)
    ensures
        json_escape(s.push(c)) =~= json_escape(s) + escape_char(c),
    decreases s.len(),
{
    if s.len() == 0 {
        assert(s.push(c)[0] == c);
        assert(s.push(c).drop_first() =~= Seq::<char>::empty());
        assert(json_escape(s.push(c)) == escape_char(c) + json_escape(Seq::<char>::empty()));
        assert(escape_char(c) + Seq::<char>::empty() =~= Seq::<char>::empty() + escape_char(c));
    } else {
        lemma_json_escape_push(s.drop_first(), c);
        assert(s.push(c).drop_first() =~= s.drop_first().push(c));
        assert(s.push(c)[0] == s[0]);
        assert(json_escape(s.push(c)) == escape_char(s[0]) + json_escape(s.drop_first().push(c)));
        assert(json_escape(s.drop_first().push(c)) == json_escape(s.drop_first()) + escape_char(c));
        assert(escape_char(s[0]) + (json_escape(s.drop_first()) + escape_char(c)) =~= (escape_char(
            s[0],
        ) + json_escape(s.drop_first())) + escape_char(c));
    }
}

/// Escapes `s` for inclusion in a JSON string literal.
pub fn json_escape_str(s: &str) -> (r: String)
    ensures
        r@ == json_escape(s@),
{
    let n = s.unicode_len();
    let mut r = String::new();
    let mut i: usize = 0;
    while i < n
        invariant
            i <= n,
            n == s@.len(),
            r@ == json_escape(s@.subrange(0, i as int)),
        decreases n - i,
    {
        let c = s.get_char(i);
        let ghost pre = r@;
        if c == '"' {
            r.push('\\');
            r.push('"');
        } else if c == '\\' {
            r.push('\\');
            r.push('\\');
        } else if c == '\n' {
            r.push('\\');
            r.push('n');
        } else if c == '\r' {
            r.push('\\');
            r.push('r');
        } else if c == '\t' {
            r.push('\\');
            r.push('t');
        } else if (c as u32) < 0x20 {
            r.push('\\');
            r.push('u');
            r.push('0');
            r.push('0');
            r.push(hex_digit_exec((c as u32) / 16));
            r.push(hex_digit_exec((c as u32) % 16));
        } else {
            r.push(c);
        }
        proof {
            assert(r@ =~= pre + escape_char(c));
            lemma_json_escape_push(s@.subrange(0, i as int), c);
            assert(s@.subrange(0, i as int).push(c) =~= s@.subrange(0, i as int + 1));
            assert(r@ =~= json_escape(s@.subrange(0, i as int + 1)));
        }
        i += 1;
    }
    proof {
        assert(s@.subrange(0, n as int) =~= s@);
    }
    r
}

/// An outbound protocol event.
#[derive(Debug)]
pub enum WsEvent {
    /// A step change for a subscribed session; the payload is the updated
    /// step's JSON representation, opaque to the protocol.
    StepUpdate(String),
    /// All steps of the session have reached a terminal status; emitted on
    /// the producer's say-so, not derived here.
    SessionComplete { session_id: String },
    /// Acknowledgment of a subscribe command.
    Subscribed { session_id: String },
    /// Acknowledgment of a rejected or unparseable inbound command.
    Error { message: String },
}

/// The wire text of a subscribe acknowledgment.
pub open spec fn subscribed_text(session_id: Seq<char>) -> Seq<char> {
    "{\"event\":\"subscribed\",\"data\":{\"session_id\":\""@ + json_escape(session_id) + "\"}}"@
}

/// The wire text of an error acknowledgment.
pub open spec fn error_text(message: Seq<char>) -> Seq<char> {
    "{\"event\":\"error\",\"data\":{\"message\":\""@ + json_escape(message) + "\"}}"@
}

/// The wire text of a session-complete notice.
pub open spec fn session_complete_text(session_id: Seq<char>) -> Seq<char> {
    "{\"event\":\"session_complete\",\"data\":{\"session_id\":\""@ + json_escape(session_id)
        + "\"}}"@
}

/// The wire text of a step update: the opaque payload framed verbatim.
pub open spec fn step_update_text(payload: Seq<char>) -> Seq<char> {
    "{\"event\":\"step_update\",\"data\":"@ + payload + "}"@
}

/// The wire text of any outbound event.
pub open spec fn event_text(e: WsEvent) -> Seq<char> {
    match e {
        WsEvent::StepUpdate(payload) => step_update_text(payload@),
        WsEvent::SessionComplete { session_id } => session_complete_text(session_id@),
        WsEvent::Subscribed { session_id } => subscribed_text(session_id@),
        WsEvent::Error { message } => error_text(message@),
    }
}

/// Renders an outbound event as its wire text.
pub fn render_event(e: &WsEvent) -> (r: String)
    ensures
        r@ == event_text(*e),
{
    match e {
        WsEvent::StepUpdate(payload) => {
            let mut r = String::from_str("{\"event\":\"step_update\",\"data\":");
            r.append(payload.as_str());
            r.append("}");
            proof {
                assert(r@ =~= step_update_text(payload@));
            }
            r
        },
        WsEvent::SessionComplete { session_id } => {
            let mut r = String::from_str("{\"event\":\"session_complete\",\"data\":{\"session_id\":\"");
            let esc = json_escape_str(session_id.as_str());
            r.append(esc.as_str());
            r.append("\"}}");
            proof {
                assert(r@ =~= session_complete_text(session_id@));
            }
            r
        },
        WsEvent::Subscribed { session_id } => {
            let mut r = String::from_str("{\"event\":\"subscribed\",\"data\":{\"session_id\":\"");
            let esc = json_escape_str(session_id.as_str());
            r.append(esc.as_str());
            r.append("\"}}");
            proof {
                assert(r@ =~= subscribed_text(session_id@));
            }
            r
        },
        WsEvent::Error { message } => {
            let mut r = String::from_str("{\"event\":\"error\",\"data\":{\"message\":\"");
            let esc = json_escape_str(message.as_str());
            r.append(esc.as_str());
            r.append("\"}}");
            proof {
                assert(r@ =~= error_text(message@));
            }
            r
        },
    }
}

} // verus!
