//! The command codec: one JSON object per line, UTF-8, terminated by
//! `\r\n`. An object's members are string or boolean values; a string
//! discriminator member (`"_ct"`, `"_st"` or `"_et"`) names the variant and
//! the remaining members carry its payload. Encoding never fails; decoding
//! reports `Malformed` for a line the grammar rejects or whose payload
//! members are missing, and `UnknownTag` for a well-formed object whose
//! discriminator names no known variant.
//!
//! The grammar is stated by the `parse_*` spec functions; the executable
//! scanner is proved equal to them, and the round-trip lemmas at the end
//! show that decoding inverts encoding for every command.

use vstd::prelude::*;

use crate::command::{
    RegisterCommand, RegisterResponseCommand, ServerCommand, ServerCommandView, UserCommand,
    UserCommandView,
};
use crate::event::{Event, EventView, RegisterResponseEvent};

verus! {

/// Why a line failed to decode.
#[derive(Debug, Clone, Copy, PartialEq, Eq, Structural)]
pub enum DecodeError {
    /// The line is not an object of the grammar, or a payload member is
    /// missing or has the wrong type.
    Malformed,
    /// The discriminator member names no known variant.
    UnknownTag,
}

/// A member value: a string or a boolean.
#[verifier::ext_equal]
pub enum JsonValueView {
    Str(Seq<char>),
    Bool(bool),
}

// ---------------------------------------------------------------------------
// Escaping
// ---------------------------------------------------------------------------
/// How one character is written inside a string value: the quote, the
/// backslash and the three common control characters get a two-character
/// escape; everything else stands for itself.
pub open spec fn escape_char(c: char) -> Seq<char> {
    if c == '"' {
        seq!['\\', '"']
    } else if c == '\\' {
        seq!['\\', '\\']
    } else if c == '\n' {
        seq!['\\', 'n']
    } else if c == '\r' {
        seq!['\\', 'r']
    } else if c == '\t' {
        seq!['\\', 't']
    } else {
        seq![c]
    }
}

/// A string value's characters, escaped one by one.
pub open spec fn escape_string(s: Seq<char>) -> Seq<char>
    decreases s.len(),
{
    if s.len() == 0 {
        Seq::<char>::empty()
    } else {
        escape_char(s[0]) + escape_string(s.drop_first())
    }
}

/// The character an escape code stands for, if the code is known.
pub open spec fn unescape_char(c: char) -> Option<char> {
    if c == '"' {
        Some('"')
    } else if c == '\\' {
        Some('\\')
    } else if c == 'n' {
        Some('\n')
    } else if c == 'r' {
        Some('\r')
    } else if c == 't' {
        Some('\t')
    } else {
        None
    }
}

// ---------------------------------------------------------------------------
// The grammar, as recursive parsing functions over character sequences.
// Each takes the position to read from and returns what it read together
// with the position just past it.
// ---------------------------------------------------------------------------
/// Reads a string body starting after the opening quote, accumulating the
/// unescaped characters in `acc`, up to and including the closing quote.
pub open spec fn parse_string_body(s: Seq<char>, i: nat, acc: Seq<char>) -> Option<
    (Seq<char>, nat),
>
    decreases s.len() - i,
{
    if i >= s.len() {
        None
    } else if s[i as int] == '"' {
        Some((acc, (i + 1) as nat))
    } else if s[i as int] == '\\' {
        if i + 1 < s.len() {
            match unescape_char(s[i as int + 1]) {
                Some(c) => parse_string_body(s, (i + 2) as nat, acc.push(c)),
                None => None,
            }
        } else {
            None
        }
    } else {
        parse_string_body(s, (i + 1) as nat, acc.push(s[i as int]))
    }
}

/// Reads one member value: a quoted string, `true`, or `false`.
pub open spec fn parse_value(s: Seq<char>, i: nat) -> Option<(JsonValueView, nat)> {
    if i < s.len() && s[i as int] == '"' {
        match parse_string_body(s, (i + 1) as nat, Seq::<char>::empty()) {
            Some((v, j)) => Some((JsonValueView::Str(v), j)),
            None => None,
        }
    } else if i + 4 <= s.len() && s[i as int] == 't' && s[i as int + 1] == 'r' && s[i as int + 2] == 'u' && s[i as int + 3] == 'e' {
        Some((JsonValueView::Bool(true), (i + 4) as nat))
    } else if i + 5 <= s.len() && s[i as int] == 'f' && s[i as int + 1] == 'a' && s[i as int + 2] == 'l' && s[i as int + 3] == 's' && s[i as int + 4] == 'e' {
        Some((JsonValueView::Bool(false), (i + 5) as nat))
    } else {
        None
    }
}

/// After a read string body, the position has advanced and stays in bounds.
pub proof fn lemma_string_body_advances(s: Seq<char>, i: nat, acc: Seq<char>)
    ensures
        parse_string_body(s, i, acc) matches Some(r) ==> i < r.1 <= s.len(),
    decreases s.len() - i,
{
    if i >= s.len() {
    } else if s[i as int] == '"' {
    } else if s[i as int] == '\\' {
        if i + 1 < s.len() {
            match unescape_char(s[i as int + 1]) {
                Some(c) => lemma_string_body_advances(s, (i + 2) as nat, acc.push(c)),
                None => {},
            }
        }
    } else {
        lemma_string_body_advances(s, (i + 1) as nat, acc.push(s[i as int]));
    }
}

/// After a read value, the position has advanced and stays in bounds.
pub proof fn lemma_value_advances(s: Seq<char>, i: nat)
    ensures
        parse_value(s, i) matches Some(r) ==> i < r.1 <= s.len(),
{
    if i < s.len() && s[i as int] == '"' {
        lemma_string_body_advances(s, (i + 1) as nat, Seq::<char>::empty());
    }
}

/// Reads members `"key":value`, separated by commas, up to and including
/// the closing brace, accumulating the members in `acc`.
pub open spec fn parse_members(
    s: Seq<char>,
    i: nat,
    acc: Seq<(Seq<char>, JsonValueView)>,
) -> Option<(Seq<(Seq<char>, JsonValueView)>, nat)>
    decreases s.len() - i,
    via parse_members_decreases
{
    if i < s.len() && s[i as int] == '"' {
        match parse_string_body(s, (i + 1) as nat, Seq::<char>::empty()) {
            Some((k, j)) => {
                if j < s.len() && s[j as int] == ':' {
                    match parse_value(s, (j + 1) as nat) {
                        Some((v, m)) => {
                            if m < s.len() && s[m as int] == ',' {
                                parse_members(s, (m + 1) as nat, acc.push((k, v)))
                            } else if m < s.len() && s[m as int] == '}' {
                                Some((acc.push((k, v)), (m + 1) as nat))
                            } else {
                                None
                            }
                        },
                        None => None,
                    }
                } else {
                    None
                }
            },
            None => None,
        }
    } else {
        None
    }
}

#[via_fn]
proof fn parse_members_decreases(s: Seq<char>, i: nat, acc: Seq<(Seq<char>, JsonValueView)>) {
    if i < s.len() && s[i as int] == '"' {
        lemma_string_body_advances(s, (i + 1) as nat, Seq::<char>::empty());
        match parse_string_body(s, (i + 1) as nat, Seq::<char>::empty()) {
            Some((k, j)) => {
                lemma_value_advances(s, (j + 1) as nat);
            },
            None => {},
        }
    }
}

/// Reads a whole object; the entire sequence must be consumed.
pub open spec fn parse_object(s: Seq<char>) -> Option<Seq<(Seq<char>, JsonValueView)>> {
    if s.len() >= 2 && s[0] == '{' {
        if s.len() == 2 && s[1] == '}' {
            Some(Seq::<(Seq<char>, JsonValueView)>::empty())
        } else {
            match parse_members(s, 1, Seq::<(Seq<char>, JsonValueView)>::empty()) {
                Some((fields, end)) => {
                    if end == s.len() {
                        Some(fields)
                    } else {
                        None
                    }
                },
                None => None,
            }
        }
    } else {
        None
    }
}

/// The first member with the given key, if any.
pub open spec fn lookup_field(fields: Seq<(Seq<char>, JsonValueView)>, key: Seq<char>) -> Option<
    JsonValueView,
>
    decreases fields.len(),
{
    if fields.len() == 0 {
        None
    } else if fields[0].0 == key {
        Some(fields[0].1)
    } else {
        lookup_field(fields.drop_first(), key)
    }
}

/// A line with its terminator removed: `\r\n`, a bare `\n`, or nothing.
pub open spec fn strip_terminator(s: Seq<char>) -> Seq<char> {
    if s.len() >= 2 && s[s.len() - 2] == '\r' && s[s.len() - 1] == '\n' {
        s.take(s.len() - 2)
    } else if s.len() >= 1 && s[s.len() - 1] == '\n' {
        s.take(s.len() - 1)
    } else {
        s
    }
}

// ---------------------------------------------------------------------------
// What each message encodes to, and what a line decodes to.
// ---------------------------------------------------------------------------
/// The wire form of a client command.
pub open spec fn spec_encode_user(c: UserCommandView) -> Seq<char> {
    match c {
        UserCommandView::Register { login, password } => "{\"_ct\":\"register\",\"login\":\""@
            + escape_string(login) + "\",\"password\":\""@ + escape_string(password) + "\"}\r\n"@,
    }
}

/// The wire form of a server command.
pub open spec fn spec_encode_server(c: ServerCommandView) -> Seq<char> {
    match c {
        ServerCommandView::RegisterResponse { email_sent } =>
            "{\"_st\":\"register_response\",\"email_sent\":"@ + (if email_sent {
                "true"@
            } else {
                "false"@
            }) + "}\r\n"@,
    }
}

/// The wire form of a server event.
pub open spec fn spec_encode_event(e: EventView) -> Seq<char> {
    match e {
        EventView::RegisterResponse { success, message } =>
            "{\"_et\":\"register_response\",\"success\":"@ + (if success {
                "true"@
            } else {
                "false"@
            }) + ",\"message\":\""@ + escape_string(message) + "\"}\r\n"@,
    }
}

/// What decoding a line as a client command yields.
pub open spec fn spec_decode_user(line: Seq<char>) -> Result<UserCommandView, DecodeError> {
    match parse_object(strip_terminator(line)) {
        None => Err(DecodeError::Malformed),
        Some(fields) => match lookup_field(fields, "_ct"@) {
            Some(JsonValueView::Str(tag)) => {
                if tag == "register"@ {
                    match (lookup_field(fields, "login"@), lookup_field(fields, "password"@)) {
                        (
                            Some(JsonValueView::Str(login)),
                            Some(JsonValueView::Str(password)),
                        ) => Ok(UserCommandView::Register { login, password }),
                        _ => Err(DecodeError::Malformed),
                    }
                } else {
                    Err(DecodeError::UnknownTag)
                }
            },
            Some(JsonValueView::Bool(_)) => Err(DecodeError::Malformed),
            None => Err(DecodeError::Malformed),
        },
    }
}

/// What decoding a line as a server command yields.
pub open spec fn spec_decode_server(line: Seq<char>) -> Result<ServerCommandView, DecodeError> {
    match parse_object(strip_terminator(line)) {
        None => Err(DecodeError::Malformed),
        Some(fields) => match lookup_field(fields, "_st"@) {
            Some(JsonValueView::Str(tag)) => {
                if tag == "register_response"@ {
                    match lookup_field(fields, "email_sent"@) {
                        Some(JsonValueView::Bool(email_sent)) => Ok(
                            ServerCommandView::RegisterResponse { email_sent },
                        ),
                        _ => Err(DecodeError::Malformed),
                    }
                } else {
                    Err(DecodeError::UnknownTag)
                }
            },
            Some(JsonValueView::Bool(_)) => Err(DecodeError::Malformed),
            None => Err(DecodeError::Malformed),
        },
    }
}

/// What decoding a line as a server event yields.
pub open spec fn spec_decode_event(line: Seq<char>) -> Result<EventView, DecodeError> {
    match parse_object(strip_terminator(line)) {
        None => Err(DecodeError::Malformed),
        Some(fields) => match lookup_field(fields, "_et"@) {
            Some(JsonValueView::Str(tag)) => {
                if tag == "register_response"@ {
                    match (lookup_field(fields, "success"@), lookup_field(fields, "message"@)) {
                        (
                            Some(JsonValueView::Bool(success)),
                            Some(JsonValueView::Str(message)),
                        ) => Ok(EventView::RegisterResponse { success, message }),
                        _ => Err(DecodeError::Malformed),
                    }
                } else {
                    Err(DecodeError::UnknownTag)
                }
            },
            Some(JsonValueView::Bool(_)) => Err(DecodeError::Malformed),
            None => Err(DecodeError::Malformed),
        },
    }
}

// ---------------------------------------------------------------------------
// Executable scanner, proved equal to the grammar.
// ---------------------------------------------------------------------------
/// A scanned member value.
enum JsonValue {
    Str(String),
    Bool(bool),
}

impl View for JsonValue {
    type V = JsonValueView;

    closed spec fn view(&self) -> JsonValueView {
        match self {
            JsonValue::Str(s) => JsonValueView::Str(s@),
            JsonValue::Bool(b) => JsonValueView::Bool(*b),
        }
    }
}

/// The members a scanned object holds, as the grammar sees them.
spec fn fields_view(v: Seq<(String, JsonValue)>) -> Seq<(Seq<char>, JsonValueView)> {
    v.map_values(|p: (String, JsonValue)| (p.0@, p.1@))
}

/// Relies on `String::push`: appends exactly the one given character.
#[verifier::external_body]
pub(crate) fn push_char(s: &mut String, c: char)
    ensures
        final(s)@ == old(s)@.push(c),
{
    s.push(c);
}

/// Character-by-character string equality.
fn str_eq(a: &str, b: &str) -> (r: bool)
    ensures
        r == (a@ == b@),
{
    let na = a.unicode_len();
    let nb = b.unicode_len();
    if na != nb {
        return false;
    }
    let mut i: usize = 0;
    while i < na
        invariant
            na == a@.len(),
            na == b@.len(),
            i <= na,
            forall|k: int| 0 <= k < i ==> a@[k] == b@[k],
        decreases na - i,
    {
        if a.get_char(i) != b.get_char(i) {
            return false;
        }
        i = i + 1;
    }
    proof {
        assert(a@ =~= b@);
    }
    true
}

/// Scans a string body from just after the opening quote.
fn scan_string(s: &str, n: usize, start: usize) -> (r: Option<(String, usize)>)
    requires
        n == s@.len(),
        start <= n,
    ensures
        match r {
            Some(p) => parse_string_body(s@, start as nat, Seq::<char>::empty()) == Some(
                (p.0@, p.1 as nat),
            ) && start < p.1 <= n,
            None => parse_string_body(s@, start as nat, Seq::<char>::empty()) is None,
        },
{
    let mut i: usize = start;
    let mut acc = String::new();
    loop
        invariant
            n == s@.len(),
            start <= i <= n,
            parse_string_body(s@, start as nat, Seq::<char>::empty()) == parse_string_body(
                s@,
                i as nat,
                acc@,
            ),
        decreases n - i,
    {
        if i >= n {
            return None;
        }
        let c = s.get_char(i);
        if c == '"' {
            return Some((acc, i + 1));
        }
        if c == '\\' {
            if i + 1 >= n {
                return None;
            }
            let d = s.get_char(i + 1);
            match unescape_char_exec(d) {
                Some(u) => {
                    push_char(&mut acc, u);
                    i = i + 2;
                },
                None => {
                    return None;
                },
            }
        } else {
            push_char(&mut acc, c);
            i = i + 1;
        }
    }
}

/// The executable form of `unescape_char`.
fn unescape_char_exec(c: char) -> (r: Option<char>)
    ensures
        r == unescape_char(c),
{
    if c == '"' {
        Some('"')
    } else if c == '\\' {
        Some('\\')
    } else if c == 'n' {
        Some('\n')
    } else if c == 'r' {
        Some('\r')
    } else if c == 't' {
        Some('\t')
    } else {
        None
    }
}

/// Scans one member value.
fn scan_value(s: &str, n: usize, start: usize) -> (r: Option<(JsonValue, usize)>)
    requires
        n == s@.len(),
        start <= n,
    ensures
        match r {
            Some(p) => parse_value(s@, start as nat) == Some((p.0@, p.1 as nat)) && start < p.1
                <= n,
            None => parse_value(s@, start as nat) is None,
        },
{
    if start < n && s.get_char(start) == '"' {
        match scan_string(s, n, start + 1) {
            Some((v, j)) => Some((JsonValue::Str(v), j)),
            None => None,
        }
    } else if n - start >= 4 && s.get_char(start) == 't' && s.get_char(start + 1) == 'r'
        && s.get_char(start + 2) == 'u' && s.get_char(start + 3) == 'e' {
        Some((JsonValue::Bool(true), start + 4))
    } else if n - start >= 5 && s.get_char(start) == 'f' && s.get_char(start + 1) == 'a'
        && s.get_char(start + 2) == 'l' && s.get_char(start + 3) == 's' && s.get_char(start + 4)
        == 'e' {
        Some((JsonValue::Bool(false), start + 5))
    } else {
        None
    }
}

/// Scans members up to and including the closing brace.
fn scan_members(s: &str, n: usize, start: usize) -> (r: Option<(Vec<(String, JsonValue)>, usize)>)
    requires
        n == s@.len(),
        start <= n,
    ensures
        match r {
            Some(p) => parse_members(s@, start as nat, Seq::<(Seq<char>, JsonValueView)>::empty())
                == Some((fields_view(p.0@), p.1 as nat)) && p.1 <= n,
            None => parse_members(
                s@,
                start as nat,
                Seq::<(Seq<char>, JsonValueView)>::empty(),
            ) is None,
        },
{
    let mut i: usize = start;
    let mut acc: Vec<(String, JsonValue)> = Vec::new();
    proof {
        assert(fields_view(acc@) =~= Seq::<(Seq<char>, JsonValueView)>::empty());
    }
    loop
        invariant
            n == s@.len(),
            start <= i <= n,
            parse_members(s@, start as nat, Seq::<(Seq<char>, JsonValueView)>::empty())
                == parse_members(s@, i as nat, fields_view(acc@)),
        decreases n - i,
    {
        if i >= n {
            return None;
        }
        if s.get_char(i) != '"' {
            return None;
        }
        match scan_string(s, n, i + 1) {
            None => {
                return None;
            },
            Some((k, j)) => {
                if j >= n {
                    return None;
                }
                if s.get_char(j) != ':' {
                    return None;
                }
                match scan_value(s, n, j + 1) {
                    None => {
                        return None;
                    },
                    Some((v, m)) => {
                        if m < n && s.get_char(m) == ',' {
                            let ghost old_acc = acc@;
                            acc.push((k, v));
                            proof {
                                assert(fields_view(acc@) =~= fields_view(old_acc).push(
                                    (k@, v@),
                                ));
                            }
                            i = m + 1;
                        } else if m < n && s.get_char(m) == '}' {
                            let ghost old_acc = acc@;
                            acc.push((k, v));
                            proof {
                                assert(fields_view(acc@) =~= fields_view(old_acc).push(
                                    (k@, v@),
                                ));
                            }
                            return Some((acc, m + 1));
                        } else {
                            return None;
                        }
                    },
                }
            },
        }
    }
}

/// Scans a whole object; the entire input must be consumed.
fn scan_object(s: &str) -> (r: Option<Vec<(String, JsonValue)>>)
    ensures
        match r {
            Some(fields) => parse_object(s@) == Some(fields_view(fields@)),
            None => parse_object(s@) is None,
        },
{
    let n = s.unicode_len();
    if n >= 2 && s.get_char(0) == '{' {
        if n == 2 && s.get_char(1) == '}' {
            let empty: Vec<(String, JsonValue)> = Vec::new();
            proof {
                assert(fields_view(empty@) =~= Seq::<(Seq<char>, JsonValueView)>::empty());
            }
            return Some(empty);
        }
        match scan_members(s, n, 1) {
            Some((fields, end)) => {
                if end == n {
                    Some(fields)
                } else {
                    None
                }
            },
            None => None,
        }
    } else {
        None
    }
}

/// Removes the line terminator, if present.
fn strip_line_terminator(s: &str) -> (r: &str)
    ensures
        r@ == strip_terminator(s@),
{
    let n = s.unicode_len();
    if n >= 2 && s.get_char(n - 2) == '\r' && s.get_char(n - 1) == '\n' {
        let r = s.substring_char(0, n - 2);
        proof {
            assert(r@ =~= strip_terminator(s@));
        }
        r
    } else if n >= 1 && s.get_char(n - 1) == '\n' {
        let r = s.substring_char(0, n - 1);
        proof {
            assert(r@ =~= strip_terminator(s@));
        }
        r
    } else {
        s
    }
}

/// The first member with the given key, if any.
fn find_field<'a>(fields: &'a Vec<(String, JsonValue)>, key: &str) -> (r: Option<&'a JsonValue>)
    ensures
        match r {
            Some(v) => lookup_field(fields_view(fields@), key@) == Some(v@),
            None => lookup_field(fields_view(fields@), key@) is None,
        },
{
    let n = fields.len();
    let mut i: usize = 0;
    proof {
        assert(fields_view(fields@).skip(0) =~= fields_view(fields@));
    }
    while i < n
        invariant
            n == fields@.len(),
            i <= n,
            lookup_field(fields_view(fields@), key@) == lookup_field(
                fields_view(fields@).skip(i as int),
                key@,
            ),
        decreases n - i,
    {
        proof {
            assert(fields_view(fields@).skip(i as int)[0] == (fields@[i as int].0@, fields@[
                i as int].1@));
            assert(fields_view(fields@).skip(i as int).drop_first() =~= fields_view(
                fields@,
            ).skip(i as int + 1));
        }
        if str_eq(fields[i].0.as_str(), key) {
            return Some(&fields[i].1);
        }
        i = i + 1;
    }
    proof {
        assert(fields_view(fields@).skip(n as int) =~= Seq::<(Seq<char>, JsonValueView)>::empty());
    }
    None
}

// ---------------------------------------------------------------------------
// Encoding
// ---------------------------------------------------------------------------
/// Appends one character in its escaped form.
fn push_escaped(out: &mut String, c: char)
    ensures
        final(out)@ == old(out)@ + escape_char(c),
{
    if c == '"' {
        push_char(out, '\\');
        push_char(out, '"');
    } else if c == '\\' {
        push_char(out, '\\');
        push_char(out, '\\');
    } else if c == '\n' {
        push_char(out, '\\');
        push_char(out, 'n');
    } else if c == '\r' {
        push_char(out, '\\');
        push_char(out, 'r');
    } else if c == '\t' {
        push_char(out, '\\');
        push_char(out, 't');
    } else {
        push_char(out, c);
    }
    proof {
        assert(out@ =~= old(out)@ + escape_char(c));
    }
}

/// Escaping distributes over appending one character at the end.
proof fn lemma_escape_snoc(s: Seq<char>, c: char)
    ensures
        escape_string(s.push(c)) == escape_string(s) + escape_char(c),
    decreases s.len(),
{
    if s.len() == 0 {
        assert(s.push(c)[0] == c);
        assert(s.push(c).drop_first() =~= Seq::<char>::empty());
        assert(escape_string(s.push(c)) == escape_char(c) + escape_string(
            Seq::<char>::empty(),
        ));
        assert(escape_string(s.push(c)) =~= escape_string(s) + escape_char(c));
    } else {
        assert(s.push(c).drop_first() =~= s.drop_first().push(c));
        lemma_escape_snoc(s.drop_first(), c);
        assert(s.push(c)[0] == s[0]);
        assert(escape_string(s.push(c)) =~= escape_string(s) + escape_char(c));
    }
}

/// Appends a whole string in its escaped form.
fn append_escaped(out: &mut String, s: &str)
    ensures
        final(out)@ == old(out)@ + escape_string(s@),
{
    let n = s.unicode_len();
    let mut i: usize = 0;
    proof {
        assert(s@.take(0) =~= Seq::<char>::empty());
        assert(out@ =~= out@ + escape_string(s@.take(0)));
    }
    while i < n
        invariant
            n == s@.len(),
            i <= n,
            out@ == old(out)@ + escape_string(s@.take(i as int)),
        decreases n - i,
    {
        let c = s.get_char(i);
        push_escaped(out, c);
        proof {
            assert(s@.take(i + 1) =~= s@.take(i as int).push(c));
            lemma_escape_snoc(s@.take(i as int), c);
            assert(out@ =~= old(out)@ + escape_string(s@.take(i + 1)));
        }
        i = i + 1;
    }
    proof {
        assert(s@.take(n as int) =~= s@);
    }
}

impl UserCommand {
    /// Encodes the command as one terminated line.
    pub fn encode(&self) -> (r: String)
        ensures
            r@ == spec_encode_user(self@),
    {
        let mut out = String::new();
        out.append("{\"_ct\":\"register\",\"login\":\"");
        match self {
            UserCommand::Register(c) => {
                append_escaped(&mut out, c.login.as_str());
                out.append("\",\"password\":\"");
                append_escaped(&mut out, c.password.as_str());
                out.append("\"}\r\n");
            },
        }
        proof {
            assert(out@ =~= spec_encode_user(self@));
        }
        out
    }

    /// Decodes one line as a client command.
    pub fn decode(line: &str) -> (r: Result<UserCommand, DecodeError>)
        ensures
            match r {
                Ok(c) => spec_decode_user(line@) == Ok::<UserCommandView, DecodeError>(c@),
                Err(e) => spec_decode_user(line@) == Err::<UserCommandView, DecodeError>(e),
            },
    {
        let stripped = strip_line_terminator(line);
        match scan_object(stripped) {
            None => Err(DecodeError::Malformed),
            Some(fields) => match find_field(&fields, "_ct") {
                Some(JsonValue::Str(tag)) => {
                    if str_eq(tag.as_str(), "register") {
                        match (find_field(&fields, "login"), find_field(&fields, "password")) {
                            (Some(JsonValue::Str(login)), Some(JsonValue::Str(password))) => Ok(
                                UserCommand::Register(
                                    RegisterCommand {
                                        login: login.clone(),
                                        password: password.clone(),
                                    },
                                ),
                            ),
                            _ => Err(DecodeError::Malformed),
                        }
                    } else {
                        Err(DecodeError::UnknownTag)
                    }
                },
                Some(JsonValue::Bool(_)) => Err(DecodeError::Malformed),
                None => Err(DecodeError::Malformed),
            },
        }
    }
}

impl ServerCommand {
    /// Encodes the command as one terminated line.
    pub fn encode(&self) -> (r: String)
        ensures
            r@ == spec_encode_server(self@),
    {
        let mut out = String::new();
        out.append("{\"_st\":\"register_response\",\"email_sent\":");
        match self {
            ServerCommand::RegisterResponse(c) => {
                if c.email_sent {
                    out.append("true");
                } else {
                    out.append("false");
                }
            },
        }
        out.append("}\r\n");
        proof {
            assert(out@ =~= spec_encode_server(self@));
        }
        out
    }

    /// Decodes one line as a server command.
    pub fn decode(line: &str) -> (r: Result<ServerCommand, DecodeError>)
        ensures
            match r {
                Ok(c) => spec_decode_server(line@) == Ok::<ServerCommandView, DecodeError>(c@),
                Err(e) => spec_decode_server(line@) == Err::<ServerCommandView, DecodeError>(e),
            },
    {
        let stripped = strip_line_terminator(line);
        match scan_object(stripped) {
            None => Err(DecodeError::Malformed),
            Some(fields) => match find_field(&fields, "_st") {
                Some(JsonValue::Str(tag)) => {
                    if str_eq(tag.as_str(), "register_response") {
                        match find_field(&fields, "email_sent") {
                            Some(JsonValue::Bool(email_sent)) => Ok(
                                ServerCommand::RegisterResponse(
                                    RegisterResponseCommand { email_sent: *email_sent },
                                ),
                            ),
                            _ => Err(DecodeError::Malformed),
                        }
                    } else {
                        Err(DecodeError::UnknownTag)
                    }
                },
                Some(JsonValue::Bool(_)) => Err(DecodeError::Malformed),
                None => Err(DecodeError::Malformed),
            },
        }
    }
}

impl Event {
    /// Encodes the event as one terminated line.
    pub fn encode(&self) -> (r: String)
        ensures
            r@ == spec_encode_event(self@),
    {
        let mut out = String::new();
        out.append("{\"_et\":\"register_response\",\"success\":");
        match self {
            Event::RegisterResponse(e) => {
                if e.success {
                    out.append("true");
                } else {
                    out.append("false");
                }
                out.append(",\"message\":\"");
                append_escaped(&mut out, e.message.as_str());
                out.append("\"}\r\n");
            },
        }
        proof {
            assert(out@ =~= spec_encode_event(self@));
        }
        out
    }

    /// Decodes one line as a server event.
    pub fn decode(line: &str) -> (r: Result<Event, DecodeError>)
        ensures
            match r {
                Ok(e) => spec_decode_event(line@) == Ok::<EventView, DecodeError>(e@),
                Err(e) => spec_decode_event(line@) == Err::<EventView, DecodeError>(e),
            },
    {
        let stripped = strip_line_terminator(line);
        match scan_object(stripped) {
            None => Err(DecodeError::Malformed),
            Some(fields) => match find_field(&fields, "_et") {
                Some(JsonValue::Str(tag)) => {
                    if str_eq(tag.as_str(), "register_response") {
                        match (find_field(&fields, "success"), find_field(&fields, "message")) {
                            (Some(JsonValue::Bool(success)), Some(JsonValue::Str(message))) => Ok(
                                Event::RegisterResponse(
                                    RegisterResponseEvent {
                                        success: *success,
                                        message: message.clone(),
                                    },
                                ),
                            ),
                            _ => Err(DecodeError::Malformed),
                        }
                    } else {
                        Err(DecodeError::UnknownTag)
                    }
                },
                Some(JsonValue::Bool(_)) => Err(DecodeError::Malformed),
                None => Err(DecodeError::Malformed),
            },
        }
    }
}

// ---------------------------------------------------------------------------
// Round-trip lemmas: decoding inverts encoding.
// ---------------------------------------------------------------------------
/// True of the characters that `escape_char` writes as a two-character
/// escape.
pub open spec fn is_special_char(c: char) -> bool {
    c == '"' || c == '\\' || c == '\n' || c == '\r' || c == '\t'
}

/// Escaping leaves a string without special characters unchanged.
proof fn lemma_escape_clean(s: Seq<char>)
    requires
        forall|i: int| 0 <= i < s.len() ==> !is_special_char(#[trigger] s[i]),
    ensures
        escape_string(s) == s,
    decreases s.len(),
{
    if s.len() == 0 {
        assert(escape_string(s) =~= s);
    } else {
        assert(!is_special_char(s[0]));
        lemma_escape_clean(s.drop_first());
        assert(escape_string(s) =~= seq![s[0]] + s.drop_first());
        assert(seq![s[0]] + s.drop_first() =~= s);
    }
}

/// Reading a string body over an escaped string `v` followed by the closing
/// quote yields exactly `v`, and stops just past the quote.
proof fn lemma_parse_string_encoded(pre: Seq<char>, v: Seq<char>, rest: Seq<char>, acc: Seq<char>)
    ensures
        parse_string_body(
            pre + escape_string(v) + seq!['"'] + rest,
            pre.len() as nat,
            acc,
        ) == Some((acc + v, (pre.len() + escape_string(v).len() + 1) as nat)),
    decreases v.len(),
{
    let s = pre + escape_string(v) + seq!['"'] + rest;
    if v.len() == 0 {
        assert(escape_string(v).len() == 0);
        assert(s[pre.len() as int] == '"');
        assert(acc + v =~= acc);
    } else {
        let c = v[0];
        let v2 = v.drop_first();
        assert(escape_string(v) == escape_char(c) + escape_string(v2));
        if !is_special_char(c) {
            assert(escape_char(c) =~= seq![c]);
            let pre2 = pre + seq![c];
            assert(s[pre.len() as int] == c);
            assert(c != '"' && c != '\\');
            lemma_parse_string_encoded(pre2, v2, rest, acc.push(c));
            assert(s =~= pre2 + escape_string(v2) + seq!['"'] + rest);
            assert(acc.push(c) + v2 =~= acc + v);
            assert(escape_string(v).len() == 1 + escape_string(v2).len());
        } else {
            let e = escape_char(c)[1];
            assert(escape_char(c) =~= seq!['\\', e]);
            assert(unescape_char(e) == Some(c));
            let pre2 = pre + seq!['\\', e];
            assert(s[pre.len() as int] == '\\');
            assert(s[pre.len() as int + 1] == e);
            assert(pre.len() + 1 < s.len());
            lemma_parse_string_encoded(pre2, v2, rest, acc.push(c));
            assert(s =~= pre2 + escape_string(v2) + seq!['"'] + rest);
            assert(acc.push(c) + v2 =~= acc + v);
            assert(escape_string(v).len() == 2 + escape_string(v2).len());
        }
    }
}

/// Reading a value over a quoted escaped string yields that string.
proof fn lemma_parse_value_str(pre: Seq<char>, v: Seq<char>, rest: Seq<char>)
    ensures
        parse_value(pre + seq!['"'] + escape_string(v) + seq!['"'] + rest, pre.len() as nat)
            == Some(
            (JsonValueView::Str(v), (pre.len() + escape_string(v).len() + 2) as nat),
        ),
{
    let s = pre + seq!['"'] + escape_string(v) + seq!['"'] + rest;
    let pre2 = pre + seq!['"'];
    assert(s[pre.len() as int] == '"');
    lemma_parse_string_encoded(pre2, v, rest, Seq::<char>::empty());
    assert(s =~= pre2 + escape_string(v) + seq!['"'] + rest);
    assert(Seq::<char>::empty() + v =~= v);
}

/// Reading a value over a boolean literal yields that boolean.
proof fn lemma_parse_value_bool(pre: Seq<char>, b: bool, rest: Seq<char>)
    ensures
        parse_value(
            pre + (if b {
                "true"@
            } else {
                "false"@
            }) + rest,
            pre.len() as nat,
        ) == Some(
            (
                JsonValueView::Bool(b),
                (pre.len() + (if b {
                    4int
                } else {
                    5int
                })) as nat,
            ),
        ),
{
    reveal_strlit("true");
    reveal_strlit("false");
    let lit = if b {
        "true"@
    } else {
        "false"@
    };
    let s = pre + lit + rest;
    if b {
        assert(s[pre.len() as int] == 't');
        assert(s[pre.len() as int + 1] == 'r');
        assert(s[pre.len() as int + 2] == 'u');
        assert(s[pre.len() as int + 3] == 'e');
        assert(pre.len() + 4 <= s.len());
    } else {
        assert(s[pre.len() as int] == 'f');
        assert(s[pre.len() as int + 1] == 'a');
        assert(s[pre.len() as int + 2] == 'l');
        assert(s[pre.len() as int + 3] == 's');
        assert(s[pre.len() as int + 4] == 'e');
        assert(pre.len() + 5 <= s.len());
    }
}

/// Reading members over an encoded `"key":"value"` member continues after
/// the separator: a comma keeps reading with the member accumulated, a
/// closing brace finishes.
proof fn lemma_parse_member_str(
    pre: Seq<char>,
    k: Seq<char>,
    v: Seq<char>,
    rest: Seq<char>,
    acc: Seq<(Seq<char>, JsonValueView)>,
)
    requires
        rest.len() > 0,
        rest[0] == ',' || rest[0] == '}',
    ensures
        ({
            let s = pre + seq!['"'] + escape_string(k) + seq!['"', ':', '"'] + escape_string(v)
                + seq!['"'] + rest;
            let after = pre.len() + escape_string(k).len() + escape_string(v).len() + 5;
            &&& rest[0] == ',' ==> parse_members(s, pre.len() as nat, acc) == parse_members(
                s,
                (after + 1) as nat,
                acc.push((k, JsonValueView::Str(v))),
            )
            &&& rest[0] == '}' ==> parse_members(s, pre.len() as nat, acc) == Some(
                (acc.push((k, JsonValueView::Str(v))), (after + 1) as nat),
            )
        }),
{
    let s = pre + seq!['"'] + escape_string(k) + seq!['"', ':', '"'] + escape_string(v)
        + seq!['"'] + rest;
    let after = pre.len() + escape_string(k).len() + escape_string(v).len() + 5;
    assert(s[pre.len() as int] == '"');
    let pre2 = pre + seq!['"'];
    let rest2 = seq![':', '"'] + escape_string(v) + seq!['"'] + rest;
    assert(s =~= pre2 + escape_string(k) + seq!['"'] + rest2);
    lemma_parse_string_encoded(pre2, k, rest2, Seq::<char>::empty());
    assert(Seq::<char>::empty() + k =~= k);
    let j = pre.len() + escape_string(k).len() + 2;
    assert(parse_string_body(s, (pre.len() + 1) as nat, Seq::<char>::empty()) == Some(
        (k, j as nat),
    ));
    assert(s[j as int] == ':');
    let pre3 = pre + seq!['"'] + escape_string(k) + seq!['"', ':'];
    assert(s =~= pre3 + seq!['"'] + escape_string(v) + seq!['"'] + rest);
    lemma_parse_value_str(pre3, v, rest);
    assert(parse_value(s, (j + 1) as nat) == Some((JsonValueView::Str(v), after as nat)));
    assert(after < s.len());
    assert(s[after as int] == rest[0]);
}

/// Reading members over an encoded `"key":boolean` member continues after
/// the separator, as for string members.
proof fn lemma_parse_member_bool(
    pre: Seq<char>,
    k: Seq<char>,
    b: bool,
    rest: Seq<char>,
    acc: Seq<(Seq<char>, JsonValueView)>,
)
    requires
        rest.len() > 0,
        rest[0] == ',' || rest[0] == '}',
    ensures
        ({
            let s = pre + seq!['"'] + escape_string(k) + seq!['"', ':'] + (if b {
                "true"@
            } else {
                "false"@
            }) + rest;
            let after = pre.len() + escape_string(k).len() + 3 + (if b {
                4int
            } else {
                5int
            });
            &&& rest[0] == ',' ==> parse_members(s, pre.len() as nat, acc) == parse_members(
                s,
                (after + 1) as nat,
                acc.push((k, JsonValueView::Bool(b))),
            )
            &&& rest[0] == '}' ==> parse_members(s, pre.len() as nat, acc) == Some(
                (acc.push((k, JsonValueView::Bool(b))), (after + 1) as nat),
            )
        }),
{
    reveal_strlit("true");
    reveal_strlit("false");
    let blit = if b {
        "true"@
    } else {
        "false"@
    };
    let s = pre + seq!['"'] + escape_string(k) + seq!['"', ':'] + blit + rest;
    let after = pre.len() + escape_string(k).len() + 3 + (if b {
        4int
    } else {
        5int
    });
    assert(s[pre.len() as int] == '"');
    let pre2 = pre + seq!['"'];
    let rest2 = seq![':'] + blit + rest;
    assert(s =~= pre2 + escape_string(k) + seq!['"'] + rest2);
    lemma_parse_string_encoded(pre2, k, rest2, Seq::<char>::empty());
    assert(Seq::<char>::empty() + k =~= k);
    let j = pre.len() + escape_string(k).len() + 2;
    assert(parse_string_body(s, (pre.len() + 1) as nat, Seq::<char>::empty()) == Some(
        (k, j as nat),
    ));
    assert(s[j as int] == ':');
    let pre3 = pre + seq!['"'] + escape_string(k) + seq!['"', ':'];
    assert(s =~= pre3 + blit + rest);
    lemma_parse_value_bool(pre3, b, rest);
    assert(parse_value(s, (j + 1) as nat) == Some((JsonValueView::Bool(b), after as nat)));
    assert(s[after as int] == rest[0]);
}

/// The keys and tags of the wire format contain no special characters.
proof fn lemma_wire_words_clean()
    ensures
        escape_string("_ct"@) == "_ct"@,
        escape_string("_st"@) == "_st"@,
        escape_string("_et"@) == "_et"@,
        escape_string("register"@) == "register"@,
        escape_string("register_response"@) == "register_response"@,
        escape_string("login"@) == "login"@,
        escape_string("password"@) == "password"@,
        escape_string("email_sent"@) == "email_sent"@,
        escape_string("success"@) == "success"@,
        escape_string("message"@) == "message"@,
{
    reveal_strlit("_ct");
    reveal_strlit("_st");
    reveal_strlit("_et");
    reveal_strlit("register");
    reveal_strlit("register_response");
    reveal_strlit("login");
    reveal_strlit("password");
    reveal_strlit("email_sent");
    reveal_strlit("success");
    reveal_strlit("message");
    lemma_escape_clean("_ct"@);
    lemma_escape_clean("_st"@);
    lemma_escape_clean("_et"@);
    lemma_escape_clean("register"@);
    lemma_escape_clean("register_response"@);
    lemma_escape_clean("login"@);
    lemma_escape_clean("password"@);
    lemma_escape_clean("email_sent"@);
    lemma_escape_clean("success"@);
    lemma_escape_clean("message"@);
}

/// Law: decoding inverts encoding for every client command.
#[verifier::rlimit(100)]
pub proof fn lemma_user_command_round_trip(v: UserCommandView)
    ensures
        spec_decode_user(spec_encode_user(v)) == Ok::<UserCommandView, DecodeError>(v),
{
    reveal_strlit("{\"_ct\":\"register\",\"login\":\"");
    reveal_strlit("\",\"password\":\"");
    reveal_strlit("\"}\r\n");
    reveal_strlit("\"}");
    reveal_strlit("_ct");
    reveal_strlit("register");
    reveal_strlit("login");
    reveal_strlit("password");
    lemma_wire_words_clean();
    let l = v->Register_login;
    let p = v->Register_password;
    let enc = spec_encode_user(v);
    let body = "{\"_ct\":\"register\",\"login\":\""@ + escape_string(l)
        + "\",\"password\":\""@ + escape_string(p) + "\"}"@;
    assert(enc[enc.len() - 2] == '\r');
    assert(enc[enc.len() - 1] == '\n');
    assert(strip_terminator(enc) =~= body);

    let pre1 = seq!['{'];
    let seg1 = seq!['"'] + escape_string("_ct"@) + seq!['"', ':', '"'] + escape_string(
        "register"@,
    ) + seq!['"'];
    let pre2 = pre1 + seg1 + seq![','];
    let seg2 = seq!['"'] + escape_string("login"@) + seq!['"', ':', '"'] + escape_string(l)
        + seq!['"'];
    let pre3 = pre2 + seg2 + seq![','];
    let seg3 = seq!['"'] + escape_string("password"@) + seq!['"', ':', '"'] + escape_string(p)
        + seq!['"'];
    let rest3 = seq!['}'];
    let rest2 = seq![','] + seg3 + rest3;
    let rest1 = seq![','] + seg2 + rest2;

    let acc0 = Seq::<(Seq<char>, JsonValueView)>::empty();
    let f1 = acc0.push(("_ct"@, JsonValueView::Str("register"@)));
    let f2 = f1.push(("login"@, JsonValueView::Str(l)));
    let f3 = f2.push(("password"@, JsonValueView::Str(p)));

    assert(body =~= pre1 + seq!['"'] + escape_string("_ct"@) + seq!['"', ':', '"']
        + escape_string("register"@) + seq!['"'] + rest1);
    lemma_parse_member_str(pre1, "_ct"@, "register"@, rest1, acc0);
    assert(pre1.len() + escape_string("_ct"@).len() + escape_string("register"@).len() + 5 + 1
        == pre2.len());
    assert(parse_members(body, 1, acc0) == parse_members(body, pre2.len() as nat, f1));

    assert(body =~= pre2 + seq!['"'] + escape_string("login"@) + seq!['"', ':', '"']
        + escape_string(l) + seq!['"'] + rest2);
    lemma_parse_member_str(pre2, "login"@, l, rest2, f1);
    assert(pre2.len() + escape_string("login"@).len() + escape_string(l).len() + 5 + 1
        == pre3.len());
    assert(parse_members(body, pre2.len() as nat, f1) == parse_members(
        body,
        pre3.len() as nat,
        f2,
    ));

    assert(body =~= pre3 + seq!['"'] + escape_string("password"@) + seq!['"', ':', '"']
        + escape_string(p) + seq!['"'] + rest3);
    lemma_parse_member_str(pre3, "password"@, p, rest3, f2);
    let end = pre3.len() + escape_string("password"@).len() + escape_string(p).len() + 5 + 1;
    assert(parse_members(body, pre3.len() as nat, f2) == Some((f3, end as nat)));
    assert(end == body.len());

    assert(body.len() >= 2);
    assert(body[0] == '{');
    assert(!(body.len() == 2 && body[1] == '}'));
    assert(parse_object(body) == Some(f3));

    assert(f3[0] == ("_ct"@, JsonValueView::Str("register"@)));
    assert(f3[1] == ("login"@, JsonValueView::Str(l)));
    assert(f3[2] == ("password"@, JsonValueView::Str(p)));
    assert("_ct"@.len() == 3 && "login"@.len() == 5 && "password"@.len() == 8);
    let g1 = f3.drop_first();
    let g2 = g1.drop_first();
    assert(f3.len() == 3 && g1.len() == 2 && g2.len() == 1);
    assert(g1[0] == ("login"@, JsonValueView::Str(l)));
    assert(g2[0] == ("password"@, JsonValueView::Str(p)));
    assert(lookup_field(f3, "_ct"@) == Some(JsonValueView::Str("register"@)));
    assert(lookup_field(g1, "login"@) == Some(JsonValueView::Str(l)));
    assert(lookup_field(f3, "login"@) == lookup_field(g1, "login"@));
    assert(lookup_field(g2, "password"@) == Some(JsonValueView::Str(p)));
    assert(lookup_field(g1, "password"@) == lookup_field(g2, "password"@));
    assert(lookup_field(f3, "password"@) == lookup_field(g1, "password"@));
}

/// Law: decoding inverts encoding for every server command.
#[verifier::rlimit(100)]
pub proof fn lemma_server_command_round_trip(v: ServerCommandView)
    ensures
        spec_decode_server(spec_encode_server(v)) == Ok::<ServerCommandView, DecodeError>(v),
{
    reveal_strlit("{\"_st\":\"register_response\",\"email_sent\":");
    reveal_strlit("}\r\n");
    reveal_strlit("}");
    reveal_strlit("true");
    reveal_strlit("false");
    reveal_strlit("_st");
    reveal_strlit("register_response");
    reveal_strlit("email_sent");
    lemma_wire_words_clean();
    let b = v->RegisterResponse_email_sent;
    let blit = if b {
        "true"@
    } else {
        "false"@
    };
    let enc = spec_encode_server(v);
    let body = "{\"_st\":\"register_response\",\"email_sent\":"@ + blit + "}"@;
    assert(enc[enc.len() - 2] == '\r');
    assert(enc[enc.len() - 1] == '\n');
    assert(strip_terminator(enc) =~= body);

    let pre1 = seq!['{'];
    let seg1 = seq!['"'] + escape_string("_st"@) + seq!['"', ':', '"'] + escape_string(
        "register_response"@,
    ) + seq!['"'];
    let pre2 = pre1 + seg1 + seq![','];
    let seg2 = seq!['"'] + escape_string("email_sent"@) + seq!['"', ':'] + blit;
    let rest2 = seq!['}'];
    let rest1 = seq![','] + seg2 + rest2;

    let acc0 = Seq::<(Seq<char>, JsonValueView)>::empty();
    let f1 = acc0.push(("_st"@, JsonValueView::Str("register_response"@)));
    let f2 = f1.push(("email_sent"@, JsonValueView::Bool(b)));

    assert(body =~= pre1 + seq!['"'] + escape_string("_st"@) + seq!['"', ':', '"']
        + escape_string("register_response"@) + seq!['"'] + rest1);
    lemma_parse_member_str(pre1, "_st"@, "register_response"@, rest1, acc0);
    assert(pre1.len() + escape_string("_st"@).len() + escape_string("register_response"@).len()
        + 5 + 1 == pre2.len());
    assert(parse_members(body, 1, acc0) == parse_members(body, pre2.len() as nat, f1));

    assert(body =~= pre2 + seq!['"'] + escape_string("email_sent"@) + seq!['"', ':'] + blit
        + rest2);
    lemma_parse_member_bool(pre2, "email_sent"@, b, rest2, f1);
    let end = pre2.len() + escape_string("email_sent"@).len() + 3 + (if b {
        4int
    } else {
        5int
    }) + 1;
    assert(parse_members(body, pre2.len() as nat, f1) == Some((f2, end as nat)));
    assert(end == body.len());

    assert(body.len() >= 2);
    assert(body[0] == '{');
    assert(!(body.len() == 2 && body[1] == '}'));
    assert(parse_object(body) == Some(f2));

    assert(f2[0] == ("_st"@, JsonValueView::Str("register_response"@)));
    assert(f2[1] == ("email_sent"@, JsonValueView::Bool(b)));
    assert("_st"@.len() == 3 && "email_sent"@.len() == 10);
    let g1 = f2.drop_first();
    assert(f2.len() == 2 && g1.len() == 1);
    assert(g1[0] == ("email_sent"@, JsonValueView::Bool(b)));
    assert(lookup_field(f2, "_st"@) == Some(JsonValueView::Str("register_response"@)));
    assert(lookup_field(g1, "email_sent"@) == Some(JsonValueView::Bool(b)));
    assert(lookup_field(f2, "email_sent"@) == lookup_field(g1, "email_sent"@));
}

/// Law: decoding inverts encoding for every server event.
#[verifier::rlimit(100)]
pub proof fn lemma_event_round_trip(v: EventView)
    ensures
        spec_decode_event(spec_encode_event(v)) == Ok::<EventView, DecodeError>(v),
{
    reveal_strlit("{\"_et\":\"register_response\",\"success\":");
    reveal_strlit(",\"message\":\"");
    reveal_strlit("\"}\r\n");
    reveal_strlit("\"}");
    reveal_strlit("true");
    reveal_strlit("false");
    reveal_strlit("_et");
    reveal_strlit("register_response");
    reveal_strlit("success");
    reveal_strlit("message");
    lemma_wire_words_clean();
    let b = v->RegisterResponse_success;
    let m = v->RegisterResponse_message;
    let blit = if b {
        "true"@
    } else {
        "false"@
    };
    let enc = spec_encode_event(v);
    let body = "{\"_et\":\"register_response\",\"success\":"@ + blit + ",\"message\":\""@
        + escape_string(m) + "\"}"@;
    assert(enc[enc.len() - 2] == '\r');
    assert(enc[enc.len() - 1] == '\n');
    assert(strip_terminator(enc) =~= body);

    let pre1 = seq!['{'];
    let seg1 = seq!['"'] + escape_string("_et"@) + seq!['"', ':', '"'] + escape_string(
        "register_response"@,
    ) + seq!['"'];
    let pre2 = pre1 + seg1 + seq![','];
    let seg2 = seq!['"'] + escape_string("success"@) + seq!['"', ':'] + blit;
    let pre3 = pre2 + seg2 + seq![','];
    let seg3 = seq!['"'] + escape_string("message"@) + seq!['"', ':', '"'] + escape_string(m)
        + seq!['"'];
    let rest3 = seq!['}'];
    let rest2 = seq![','] + seg3 + rest3;
    let rest1 = seq![','] + seg2 + rest2;

    let acc0 = Seq::<(Seq<char>, JsonValueView)>::empty();
    let f1 = acc0.push(("_et"@, JsonValueView::Str("register_response"@)));
    let f2 = f1.push(("success"@, JsonValueView::Bool(b)));
    let f3 = f2.push(("message"@, JsonValueView::Str(m)));

    assert(body =~= pre1 + seq!['"'] + escape_string("_et"@) + seq!['"', ':', '"']
        + escape_string("register_response"@) + seq!['"'] + rest1);
    lemma_parse_member_str(pre1, "_et"@, "register_response"@, rest1, acc0);
    assert(pre1.len() + escape_string("_et"@).len() + escape_string("register_response"@).len()
        + 5 + 1 == pre2.len());
    assert(parse_members(body, 1, acc0) == parse_members(body, pre2.len() as nat, f1));

    assert(body =~= pre2 + seq!['"'] + escape_string("success"@) + seq!['"', ':'] + blit
        + rest2);
    lemma_parse_member_bool(pre2, "success"@, b, rest2, f1);
    assert(pre2.len() + escape_string("success"@).len() + 3 + (if b {
        4int
    } else {
        5int
    }) + 1 == pre3.len());
    assert(parse_members(body, pre2.len() as nat, f1) == parse_members(
        body,
        pre3.len() as nat,
        f2,
    ));

    assert(body =~= pre3 + seq!['"'] + escape_string("message"@) + seq!['"', ':', '"']
        + escape_string(m) + seq!['"'] + rest3);
    lemma_parse_member_str(pre3, "message"@, m, rest3, f2);
    let end = pre3.len() + escape_string("message"@).len() + escape_string(m).len() + 5 + 1;
    assert(parse_members(body, pre3.len() as nat, f2) == Some((f3, end as nat)));
    assert(end == body.len());

    assert(body.len() >= 2);
    assert(body[0] == '{');
    assert(!(body.len() == 2 && body[1] == '}'));
    assert(parse_object(body) == Some(f3));

    assert(f3[0] == ("_et"@, JsonValueView::Str("register_response"@)));
    assert(f3[1] == ("success"@, JsonValueView::Bool(b)));
    assert(f3[2] == ("message"@, JsonValueView::Str(m)));
    assert("_et"@.len() == 3 && "success"@.len() == 7 && "message"@.len() == 7);
    assert("success"@[0] == 's' && "message"@[0] == 'm');
    let g1 = f3.drop_first();
    let g2 = g1.drop_first();
    assert(f3.len() == 3 && g1.len() == 2 && g2.len() == 1);
    assert(g1[0] == ("success"@, JsonValueView::Bool(b)));
    assert(g2[0] == ("message"@, JsonValueView::Str(m)));
    assert(lookup_field(f3, "_et"@) == Some(JsonValueView::Str("register_response"@)));
    assert(lookup_field(g1, "success"@) == Some(JsonValueView::Bool(b)));
    assert(lookup_field(f3, "success"@) == lookup_field(g1, "success"@));
    assert(lookup_field(g2, "message"@) == Some(JsonValueView::Str(m)));
    assert(lookup_field(g1, "message"@) == lookup_field(g2, "message"@));
    assert(lookup_field(f3, "message"@) == lookup_field(g1, "message"@));
}

/// Law: a line that parses as an object whose client discriminator names no
/// known variant decodes to `UnknownTag`, never anything else.
pub proof fn lemma_unknown_tag_user(line: Seq<char>)
    requires
        parse_object(strip_terminator(line)) matches Some(fields) && lookup_field(
            fields,
            "_ct"@,
        ) matches Some(JsonValueView::Str(tag)) && tag != "register"@,
    ensures
        spec_decode_user(line) == Err::<UserCommandView, DecodeError>(DecodeError::UnknownTag),
{
}

/// Law: as `lemma_unknown_tag_user`, for the server discriminator.
pub proof fn lemma_unknown_tag_server(line: Seq<char>)
    requires
        parse_object(strip_terminator(line)) matches Some(fields) && lookup_field(
            fields,
            "_st"@,
        ) matches Some(JsonValueView::Str(tag)) && tag != "register_response"@,
    ensures
        spec_decode_server(line) == Err::<ServerCommandView, DecodeError>(DecodeError::UnknownTag),
{
}

/// Law: as `lemma_unknown_tag_user`, for the event discriminator.
pub proof fn lemma_unknown_tag_event(line: Seq<char>)
    requires
        parse_object(strip_terminator(line)) matches Some(fields) && lookup_field(
            fields,
            "_et"@,
        ) matches Some(JsonValueView::Str(tag)) && tag != "register_response"@,
    ensures
        spec_decode_event(line) == Err::<EventView, DecodeError>(DecodeError::UnknownTag),
{
}

} // verus!
