//! Parsing of inbound protocol commands.
//!
//! The inbound envelope is a JSON object of string-valued fields with a
//! `type` discriminator, e.g. `{"type":"subscribe","session_id":"s1"}` or
//! `{"type":"ping"}`. The grammar accepted here is defined exactly by the
//! spec functions below: whitespace is allowed around every token, fields
//! may come in any order and extra fields are ignored, field names and
//! values are quoted strings of characters other than quotes, backslashes
//! and control characters, and of a repeated field name the first
//! occurrence counts (escape sequences are not interpreted: a
//! backslash is malformed input, answered like any other malformed
//! message). Anything the grammar rejects yields a typed parse error; the
//! connection state machine answers it with one `error` event and stays
//! open.

use vstd::prelude::*;
use vstd::string::StrSliceExecFns;
use vstd::string::StringExecFns;

verus! {

/// An inbound command, as the protocol understands it.
#[derive(Debug)]
pub enum WsCommand {
    /// Interest in live updates of one session.
    Subscribe { session_id: String },
    /// A liveness probe.
    Ping,
}

/// The spec-level shape of an inbound command.
pub enum SpecCommand {
    Subscribe(Seq<char>),
    Ping,
}

/// Why an inbound message was rejected.
#[derive(Clone, Copy, Debug, PartialEq, Eq, Structural)]
pub enum ParseError {
    /// The text is not an object of the grammar above.
    Syntax,
    /// The object has no `type` field.
    MissingType,
    /// The `type` field names no known command.
    UnknownType,
    /// A subscribe command without a `session_id` field.
    MissingSessionId,
}

impl ParseError {
    /// The message carried by the `error` event answering this rejection.
    pub open spec fn spec_message(self) -> Seq<char> {
        match self {
            ParseError::Syntax => "Invalid message: expected a JSON object of string fields"@,
            ParseError::MissingType => "Invalid message: missing field type"@,
            ParseError::UnknownType => "Invalid message: unknown type"@,
            ParseError::MissingSessionId => "Invalid message: missing field session_id"@,
        }
    }

    /// Renders the rejection as its error-event message.
    pub fn message(&self) -> (r: String)
        ensures
            r@ == self.spec_message(),
    {
        match self {
            ParseError::Syntax => String::from_str(
                "Invalid message: expected a JSON object of string fields",
            ),
            ParseError::MissingType => String::from_str("Invalid message: missing field type"),
            ParseError::UnknownType => String::from_str("Invalid message: unknown type"),
            ParseError::MissingSessionId => String::from_str(
                "Invalid message: missing field session_id",
            ),
        }
    }
}

/// JSON whitespace.
pub open spec fn is_ws_char(c: char) -> bool {
    c == ' ' || c == '\t' || c == '\n' || c == '\r'
}

/// A character that may stand unescaped inside a quoted string.
pub open spec fn plain_char(c: char) -> bool {
    c != '"' && c != '\\' && (c as u32) >= 0x20
}

/// The first position at or after `i` holding no whitespace.
pub open spec fn skip_ws(s: Seq<char>, i: int) -> int
    decreases s.len() - i,
{
    if 0 <= i < s.len() && is_ws_char(s[i]) {
        skip_ws(s, i + 1)
    } else {
        i
    }
}

/// The body of a quoted string from position `i` (after the opening
/// quote): the content up to the closing quote, and the position after it.
pub open spec fn spec_string_body(s: Seq<char>, i: int) -> Option<(Seq<char>, int)>
    decreases s.len() - i,
{
    if i < 0 || i >= s.len() {
        Option::None
    } else if s[i] == '"' {
        Option::Some((Seq::empty(), i + 1))
    } else if !plain_char(s[i]) {
        Option::None
    } else {
        match spec_string_body(s, i + 1) {
            Option::Some((t, j)) => Option::Some((seq![s[i]] + t, j)),
            Option::None => Option::None,
        }
    }
}

/// A quoted string token at position `i`.
pub open spec fn spec_string(s: Seq<char>, i: int) -> Option<(Seq<char>, int)> {
    if 0 <= i < s.len() && s[i] == '"' {
        spec_string_body(s, i + 1)
    } else {
        Option::None
    }
}

/// When every character from `a` up to `b` is plain and `b` holds the
/// closing quote, the body is exactly that range.
proof fn lemma_body_closed(s: Seq<char>, a: int, b: int)
    requires
        0 <= a <= b < s.len(),
        s[b] == '"',
        forall|k: int| a <= k < b ==> plain_char(#[trigger] s[k]),
    ensures
        spec_string_body(s, a) == Option::Some((s.subrange(a, b), b + 1)),
    decreases b - a,
{
    if a == b {
        assert(s.subrange(a, b) =~= Seq::<char>::empty());
    } else {
        lemma_body_closed(s, a + 1, b);
        assert(seq![s[a]] + s.subrange(a + 1, b) =~= s.subrange(a, b));
    }
}

/// When every character from `a` up to `b` is plain and `b` is the end of
/// the text or holds a character no string may contain, there is no body.
proof fn lemma_body_fail(s: Seq<char>, a: int, b: int)
    requires
        0 <= a <= b <= s.len(),
        forall|k: int| a <= k < b ==> plain_char(#[trigger] s[k]),
        b == s.len() || (s[b] != '"' && !plain_char(s[b])),
    ensures
        spec_string_body(s, a) == Option::None::<(Seq<char>, int)>,
    decreases b - a,
{
    if a < b {
        lemma_body_fail(s, a + 1, b);
    }
}

/// A `key : value` member at position `i`: both sides quoted strings.
pub open spec fn spec_pair(s: Seq<char>, i: int) -> Option<((Seq<char>, Seq<char>), int)> {
    match spec_string(s, i) {
        Option::None => Option::None,
        Option::Some((k, j)) => {
            let j2 = skip_ws(s, j);
            if 0 <= j2 && j2 < s.len() && s[j2] == ':' {
                let j3 = skip_ws(s, j2 + 1);
                match spec_string(s, j3) {
                    Option::None => Option::None,
                    Option::Some((v, j4)) => Option::Some(((k, v), j4)),
                }
            } else {
                Option::None
            }
        },
    }
}

/// A comma-separated run of members starting at position `i` (no leading
/// whitespace); yields the members and the position after the last one.
pub open spec fn spec_members(s: Seq<char>, i: int) -> Option<
    (Seq<(Seq<char>, Seq<char>)>, int),
>
    decreases s.len() - i,
{
    match spec_pair(s, i) {
        Option::None => Option::None,
        Option::Some((kv, j)) => {
            let j2 = skip_ws(s, j);
            if 0 <= j2 && j2 < s.len() && s[j2] == ',' {
                let j3 = skip_ws(s, j2 + 1);
                if i < j3 && j3 <= s.len() {
                    match spec_members(s, j3) {
                        Option::None => Option::None,
                        Option::Some((rest, jr)) => Option::Some((seq![kv] + rest, jr)),
                    }
                } else {
                    Option::None
                }
            } else {
                Option::Some((seq![kv], j))
            }
        },
    }
}

/// A whole message: one object, with nothing but whitespace around it.
pub open spec fn spec_object(s: Seq<char>) -> Option<Seq<(Seq<char>, Seq<char>)>> {
    let i0 = skip_ws(s, 0);
    if 0 <= i0 && i0 < s.len() && s[i0] == '{' {
        let i1 = skip_ws(s, i0 + 1);
        if 0 <= i1 && i1 < s.len() && s[i1] == '}' {
            if skip_ws(s, i1 + 1) == s.len() {
                Option::Some(Seq::empty())
            } else {
                Option::None
            }
        } else {
            match spec_members(s, i1) {
                Option::None => Option::None,
                Option::Some((ps, j)) => {
                    let j2 = skip_ws(s, j);
                    if 0 <= j2 && j2 < s.len() && s[j2] == '}' {
                        if skip_ws(s, j2 + 1) == s.len() {
                            Option::Some(ps)
                        } else {
                            Option::None
                        }
                    } else {
                        Option::None
                    }
                },
            }
        }
    } else {
        Option::None
    }
}

/// The first member with the given name, if any.
pub open spec fn lookup_at(ps: Seq<(Seq<char>, Seq<char>)>, i: int, key: Seq<char>) -> Option<
    Seq<char>,
>
    decreases ps.len() - i,
{
    if i < 0 || i >= ps.len() {
        Option::None
    } else if ps[i].0 == key {
        Option::Some(ps[i].1)
    } else {
        lookup_at(ps, i + 1, key)
    }
}

/// What a message means: a command, or the exact rejection it earns.
/// The `type` field picks the command; `subscribe` further needs a
/// `session_id` field.
pub open spec fn spec_parse_command(s: Seq<char>) -> Result<SpecCommand, ParseError> {
    match spec_object(s) {
        Option::None => Result::Err(ParseError::Syntax),
        Option::Some(ps) => match lookup_at(ps, 0, "type"@) {
            Option::None => Result::Err(ParseError::MissingType),
            Option::Some(t) => if t == "subscribe"@ {
                match lookup_at(ps, 0, "session_id"@) {
                    Option::Some(sid) => Result::Ok(SpecCommand::Subscribe(sid)),
                    Option::None => Result::Err(ParseError::MissingSessionId),
                }
            } else if t == "ping"@ {
                Result::Ok(SpecCommand::Ping)
            } else {
                Result::Err(ParseError::UnknownType)
            },
        },
    }
}

/// The members of an owned-pair sequence, seen at the spec level.
pub open spec fn pairs_view(s: Seq<(String, String)>) -> Seq<(Seq<char>, Seq<char>)> {
    s.map_values(|p: (String, String)| (p.0@, p.1@))
}

/// The characters of `s`, one by one.
fn chars_of(s: &str) -> (r: Vec<char>)
    ensures
        r@ == s@,
{
    let n = s.unicode_len();
    let mut r: Vec<char> = Vec::new();
    let mut i: usize = 0;
    while i < n
        invariant
            i <= n,
            n == s@.len(),
            r@ == s@.subrange(0, i as int),
        decreases n - i,
    {
        let c = s.get_char(i);
        r.push(c);
        proof {
            assert(r@ =~= s@.subrange(0, i as int + 1));
        }
        i += 1;
    }
    proof {
        assert(s@.subrange(0, n as int) =~= s@);
    }
    r
}

fn is_ws_exec(c: char) -> (r: bool)
    ensures
        r == is_ws_char(c),
{
    c == ' ' || c == '\t' || c == '\n' || c == '\r'
}

fn skip_ws_exec(v: &Vec<char>, i: usize) -> (r: usize)
    requires
        i <= v@.len(),
    ensures
        r == skip_ws(v@, i as int),
        i <= r <= v@.len(),
    decreases v@.len() - i,
{
    if i < v.len() && is_ws_exec(v[i]) {
        skip_ws_exec(v, i + 1)
    } else {
        i
    }
}

fn parse_string_at(v: &Vec<char>, i: usize) -> (r: Option<(String, usize)>)
    requires
        i <= v@.len(),
    ensures
        match (r, spec_string(v@, i as int)) {
            (Option::Some((t, j)), Option::Some(sp)) => t@ == sp.0 && j == sp.1 && i < j
                <= v@.len(),
            (Option::None, Option::None) => true,
            _ => false,
        },
{
    let n = v.len();
    if i >= n {
        return Option::None;
    }
    if v[i] != '"' {
        return Option::None;
    }
    let mut out = String::new();
    let mut j: usize = i + 1;
    while j < n
        invariant
            i < j <= n,
            n == v@.len(),
            v@[i as int] == '"',
            out@ == v@.subrange(i as int + 1, j as int),
            forall|k: int| i + 1 <= k < j ==> plain_char(#[trigger] v@[k]),
        decreases n - j,
    {
        let c = v[j];
        if c == '"' {
            proof {
                lemma_body_closed(v@, i as int + 1, j as int);
            }
            return Option::Some((out, j + 1));
        } else if c == '\\' || (c as u32) < 0x20 {
            proof {
                lemma_body_fail(v@, i as int + 1, j as int);
            }
            return Option::None;
        }
        out.push(c);
        proof {
            assert(out@ =~= v@.subrange(i as int + 1, j as int + 1));
        }
        j += 1;
    }
    proof {
        lemma_body_fail(v@, i as int + 1, n as int);
    }
    Option::None
}

fn parse_pair(v: &Vec<char>, i: usize) -> (r: Option<((String, String), usize)>)
    requires
        i <= v@.len(),
    ensures
        match (r, spec_pair(v@, i as int)) {
            (Option::Some((kv, j)), Option::Some(sp)) => kv.0@ == sp.0.0 && kv.1@ == sp.0.1 && j
                == sp.1 && i < j <= v@.len(),
            (Option::None, Option::None) => true,
            _ => false,
        },
{
    match parse_string_at(v, i) {
        Option::None => Option::None,
        Option::Some((k, j)) => {
            let j2 = skip_ws_exec(v, j);
            if j2 < v.len() && v[j2] == ':' {
                let j3 = skip_ws_exec(v, j2 + 1);
                match parse_string_at(v, j3) {
                    Option::None => Option::None,
                    Option::Some((val, j4)) => Option::Some(((k, val), j4)),
                }
            } else {
                Option::None
            }
        },
    }
}

fn parse_members(v: &Vec<char>, i: usize) -> (r: Option<(Vec<(String, String)>, usize)>)
    requires
        i <= v@.len(),
    ensures
        match (r, spec_members(v@, i as int)) {
            (Option::Some((ps, j)), Option::Some(sp)) => pairs_view(ps@) == sp.0 && j == sp.1 && i
                < j <= v@.len(),
            (Option::None, Option::None) => true,
            _ => false,
        },
    decreases v@.len() - i,
{
    match parse_pair(v, i) {
        Option::None => Option::None,
        Option::Some((kv, j)) => {
            let j2 = skip_ws_exec(v, j);
            if j2 < v.len() && v[j2] == ',' {
                let j3 = skip_ws_exec(v, j2 + 1);
                if i < j3 && j3 <= v.len() {
                    match parse_members(v, j3) {
                        Option::None => Option::None,
                        Option::Some((mut rest, jr)) => {
                            let ghost prev = rest@;
                            rest.insert(0, kv);
                            proof {
                                assert(rest@ == prev.insert(0, kv));
                                assert(pairs_view(rest@) =~= seq![(kv.0@, kv.1@)] + pairs_view(
                                    prev,
                                ));
                            }
                            Option::Some((rest, jr))
                        },
                    }
                } else {
                    Option::None
                }
            } else {
                let mut one: Vec<(String, String)> = Vec::new();
                one.push(kv);
                proof {
                    assert(pairs_view(one@) =~= seq![(kv.0@, kv.1@)]);
                }
                Option::Some((one, j))
            }
        },
    }
}

/// Parses a whole message into its members, per the grammar above.
fn parse_object(v: &Vec<char>) -> (r: Option<Vec<(String, String)>>)
    ensures
        match (r, spec_object(v@)) {
            (Option::Some(ps), Option::Some(sp)) => pairs_view(ps@) == sp,
            (Option::None, Option::None) => true,
            _ => false,
        },
{
    let i0 = skip_ws_exec(v, 0);
    if i0 < v.len() && v[i0] == '{' {
        let i1 = skip_ws_exec(v, i0 + 1);
        if i1 < v.len() && v[i1] == '}' {
            if skip_ws_exec(v, i1 + 1) == v.len() {
                let empty: Vec<(String, String)> = Vec::new();
                proof {
                    assert(pairs_view(empty@) =~= Seq::<(Seq<char>, Seq<char>)>::empty());
                }
                Option::Some(empty)
            } else {
                Option::None
            }
        } else {
            match parse_members(v, i1) {
                Option::None => Option::None,
                Option::Some((ps, j)) => {
                    let j2 = skip_ws_exec(v, j);
                    if j2 < v.len() && v[j2] == '}' {
                        if skip_ws_exec(v, j2 + 1) == v.len() {
                            Option::Some(ps)
                        } else {
                            Option::None
                        }
                    } else {
                        Option::None
                    }
                },
            }
        }
    } else {
        Option::None
    }
}

fn lookup_exec(ps: &Vec<(String, String)>, i: usize, key: &String) -> (r: Option<String>)
    requires
        i <= ps@.len(),
    ensures
        match (r, lookup_at(pairs_view(ps@), i as int, key@)) {
            (Option::Some(val), Option::Some(sv)) => val@ == sv,
            (Option::None, Option::None) => true,
            _ => false,
        },
    decreases ps@.len() - i,
{
    if i >= ps.len() {
        Option::None
    } else if ps[i].0 == *key {
        Option::Some(ps[i].1.clone())
    } else {
        lookup_exec(ps, i + 1, key)
    }
}

/// Parses one inbound message: the command it carries, or the exact
/// rejection `spec_parse_command` assigns to it.
pub fn parse_command(text: &str) -> (r: Result<WsCommand, ParseError>)
    ensures
        match spec_parse_command(text@) {
            Result::Ok(SpecCommand::Subscribe(sid)) => (r matches Result::Ok(
                WsCommand::Subscribe { session_id },
            ) && session_id@ == sid),
            Result::Ok(SpecCommand::Ping) => r matches Result::Ok(WsCommand::Ping),
            Result::Err(e) => r == Result::Err::<WsCommand, ParseError>(e),
        },
{
    let chars = chars_of(text);
    match parse_object(&chars) {
        Option::None => Result::Err(ParseError::Syntax),
        Option::Some(ps) => {
            let type_key = String::from_str("type");
            match lookup_exec(&ps, 0, &type_key) {
                Option::None => Result::Err(ParseError::MissingType),
                Option::Some(t) => {
                    let subscribe_tag = String::from_str("subscribe");
                    let ping_tag = String::from_str("ping");
                    if t == subscribe_tag {
                        let sid_key = String::from_str("session_id");
                        match lookup_exec(&ps, 0, &sid_key) {
                            Option::Some(sid) => Result::Ok(
                                WsCommand::Subscribe { session_id: sid },
                            ),
                            Option::None => Result::Err(ParseError::MissingSessionId),
                        }
                    } else if t == ping_tag {
                        Result::Ok(WsCommand::Ping)
                    } else {
                        Result::Err(ParseError::UnknownType)
                    }
                },
            }
        },
    }
}

} // verus!
