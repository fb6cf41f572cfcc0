//! The engine's error taxonomy and its wire form.
//!
//! Validation is caught before any store access; a lost store
//! precondition race surfaces as `Conflict`; a tenant or ownership
//! mismatch as `Forbidden`.  Error bodies never leak internal detail:
//! `Internal` is rendered with a fixed user-facing message, every other
//! kind with its own message, always as
//! `{"error":"...","status":NNN}` with the message JSON-escaped.

use vstd::prelude::*;
use crate::text::{digit_char, digit_char_of, push_char};

verus! {

#[derive(Debug)]
pub enum ApiError {
    Validation(String),
    NotFound(String),
    Conflict(String),
    Forbidden(String),
    Internal(String),
}

/// The mathematical value of an error.
pub enum ApiErrV {
    Validation(Seq<char>),
    NotFound(Seq<char>),
    Conflict(Seq<char>),
    Forbidden(Seq<char>),
    Internal(Seq<char>),
}

impl View for ApiError {
    type V = ApiErrV;

    open spec fn view(&self) -> ApiErrV {
        match self {
            ApiError::Validation(m) => ApiErrV::Validation(m@),
            ApiError::NotFound(m) => ApiErrV::NotFound(m@),
            ApiError::Conflict(m) => ApiErrV::Conflict(m@),
            ApiError::Forbidden(m) => ApiErrV::Forbidden(m@),
            ApiError::Internal(m) => ApiErrV::Internal(m@),
        }
    }
}

pub open spec fn status_of(e: ApiErrV) -> int {
    match e {
        ApiErrV::Validation(_) => 400,
        ApiErrV::NotFound(_) => 404,
        ApiErrV::Conflict(_) => 409,
        ApiErrV::Forbidden(_) => 403,
        ApiErrV::Internal(_) => 500,
    }
}

/// What the caller is shown: the message itself, except that an
/// internal error is replaced by a fixed generic message.
pub open spec fn public_message_of(e: ApiErrV) -> Seq<char> {
    match e {
        ApiErrV::Validation(m) => m,
        ApiErrV::NotFound(m) => m,
        ApiErrV::Conflict(m) => m,
        ApiErrV::Forbidden(m) => m,
        ApiErrV::Internal(_) => "Error interno del servidor"@,
    }
}

// ---------------------------------------------------------------------
// JSON string escaping (as a JSON serializer writes string contents)
// ---------------------------------------------------------------------

/// Lowercase hexadecimal digit for `d` (meaningful for `0 <= d <= 15`).
pub open spec fn hex_char(d: int) -> char {
    if d < 10 {
        digit_char(d)
    } else if d == 10 {
        'a'
    } else if d == 11 {
        'b'
    } else if d == 12 {
        'c'
    } else if d == 13 {
        'd'
    } else if d == 14 {
        'e'
    } else {
        'f'
    }
}

/// How one character appears inside a JSON string literal.
pub open spec fn json_escape_char(c: char) -> Seq<char> {
    if c == '"' {
        seq!['\\', '"']
    } else if c == '\\' {
        seq!['\\', '\\']
    } else if c == '\n' {
        seq!['\\', 'n']
    } else if c == '\r' {
        seq!['\\', 'r']
    } else if c == '\t' {
        seq!['\\', 't']
    } else if c == '\u{8}' {
        seq!['\\', 'b']
    } else if c == '\u{c}' {
        seq!['\\', 'f']
    } else if (c as int) < 0x20 {
        seq!['\\', 'u', '0', '0', hex_char((c as int) / 16), hex_char((c as int) % 16)]
    } else {
        seq![c]
    }
}

/// A whole string's content as it appears inside a JSON string literal.
pub open spec fn json_escape(s: Seq<char>) -> Seq<char>
    decreases s.len(),
{
    if s.len() == 0 {
        Seq::empty()
    } else {
        json_escape_char(s[0]) + json_escape(s.drop_first())
    }
}

/// Executable lowercase hexadecimal digit.
pub fn hex_char_of(d: u32) -> (c: char)
    requires
        d < 16,
    ensures
        c == hex_char(d as int),
{
    if d < 10 {
        digit_char_of(d)
    } else if d == 10 {
        'a'
    } else if d == 11 {
        'b'
    } else if d == 12 {
        'c'
    } else if d == 13 {
        'd'
    } else if d == 14 {
        'e'
    } else {
        'f'
    }
}

/// Appends the JSON escape of one character.
fn push_escaped(out: &mut String, c: char)
    ensures
        final(out)@ == old(out)@ + json_escape_char(c),
{
    if c == '"' {
        push_char(out, '\\');
        push_char(out, '"');
    } else if c == '\\' {
        push_char(out, '\\');
        push_char(out, '\\');
    } else if c == '\n' {
        push_char(out, '\\');
        push_char(out, 'n');
    } else if c == '\r' {
        push_char(out, '\\');
        push_char(out, 'r');
    } else if c == '\t' {
        push_char(out, '\\');
        push_char(out, 't');
    } else if c == '\u{8}' {
        push_char(out, '\\');
        push_char(out, 'b');
    } else if c == '\u{c}' {
        push_char(out, '\\');
        push_char(out, 'f');
    } else if (c as u32) < 0x20 {
        let v = c as u32;
        push_char(out, '\\');
        push_char(out, 'u');
        push_char(out, '0');
        push_char(out, '0');
        push_char(out, hex_char_of(v / 16));
        push_char(out, hex_char_of(v % 16));
    } else {
        push_char(out, c);
    }
    assert(out@ =~= old(out)@ + json_escape_char(c));
}

/// Appends the JSON-escaped content of `s`.
pub fn push_json_escaped(out: &mut String, s: &str)
    ensures
        final(out)@ == old(out)@ + json_escape(s@),
{
    let n = s.unicode_len();
    proof {
        assert(s@.skip(0) =~= s@);
    }
    let mut i: usize = 0;
    while i < n
        invariant
            i <= n == s@.len(),
            out@ + json_escape(s@.skip(i as int)) == old(out)@ + json_escape(s@),
        decreases n - i,
    {
        proof {
            assert(s@.skip(i as int).drop_first() =~= s@.skip(i + 1));
            assert(s@.skip(i as int)[0] == s@[i as int]);
        }
        push_escaped(out, s.get_char(i));
        i += 1;
    }
    proof {
        assert(s@.skip(n as int).len() == 0);
        assert(out@ =~= out@ + json_escape(s@.skip(n as int)));
    }
}

/// Three decimal digits (meaningful for `100 <= n <= 999`).
pub open spec fn dec3(n: int) -> Seq<char> {
    seq![digit_char(n / 100), digit_char((n / 10) % 10), digit_char(n % 10)]
}

/// The response body of an error: a fixed user-facing message plus the
/// numeric status, never internal detail.
pub open spec fn error_body_spec(e: ApiErrV) -> Seq<char> {
    "{\"error\":\""@ + json_escape(public_message_of(e)) + "\",\"status\":"@ + dec3(status_of(e))
        + "}"@
}

impl ApiError {
    /// The HTTP status of this error kind.
    pub fn status_code(&self) -> (r: u16)
        ensures
            r == status_of(self@),
    {
        match self {
            ApiError::Validation(_) => 400,
            ApiError::NotFound(_) => 404,
            ApiError::Conflict(_) => 409,
            ApiError::Forbidden(_) => 403,
            ApiError::Internal(_) => 500,
        }
    }

    /// The user-facing message; internal detail is never shown.
    pub fn public_message(&self) -> (r: String)
        ensures
            r@ == public_message_of(self@),
    {
        match self {
            ApiError::Validation(m) => m.clone(),
            ApiError::NotFound(m) => m.clone(),
            ApiError::Conflict(m) => m.clone(),
            ApiError::Forbidden(m) => m.clone(),
            ApiError::Internal(_) => {
                let mut s = String::new();
                s.append("Error interno del servidor");
                proof {
                    assert(s@ =~= "Error interno del servidor"@);
                }
                s
            },
        }
    }

    /// The JSON error body, `{"error":"...","status":NNN}`.
    pub fn error_body(&self) -> (r: String)
        ensures
            r@ == error_body_spec(self@),
    {
        let mut s = String::new();
        s.append("{\"error\":\"");
        let msg = self.public_message();
        push_json_escaped(&mut s, msg.as_str());
        s.append("\",\"status\":");
        let code = self.status_code();
        push_char(&mut s, digit_char_of(code as u32 / 100));
        push_char(&mut s, digit_char_of((code as u32 / 10) % 10));
        push_char(&mut s, digit_char_of(code as u32 % 10));
        s.append("}");
        assert(s@ =~= error_body_spec(self@));
        s
    }
}

} // verus!
