use vstd::prelude::*;

verus! {

#[verifier::external_type_specification]
#[verifier::external_body]
pub struct ExEncoderError(rustc_serialize::json::EncoderError);

/// Lowercase hexadecimal digit of a value below 16.
pub open spec fn hex_digit(d: int) -> char {
    if d < 10 {
        (48 + d) as u8 as char
    } else {
        (87 + d) as u8 as char
    }
}

/// How one character stands inside a JSON string literal: quote and
/// backslash are escaped, control characters and DEL get a short or a
/// `\u00XX` escape, every other character stands as it is.
pub open spec fn json_escape_char(c: char) -> Seq<char> {
    if c == '"' {
        seq!['\\', '"']
    } else if c == '\\' {
        seq!['\\', '\\']
    } else if c == '\x08' {
        seq!['\\', 'b']
    } else if c == '\t' {
        seq!['\\', 't']
    } else if c == '\n' {
        seq!['\\', 'n']
    } else if c == '\x0c' {
        seq!['\\', 'f']
    } else if c == '\r' {
        seq!['\\', 'r']
    } else if (c as u32) < 32 || (c as u32) == 127 {
        seq!['\\', 'u', '0', '0', hex_digit(c as int / 16), hex_digit(c as int % 16)]
    } else {
        seq![c]
    }
}

pub open spec fn json_escape(s: Seq<char>) -> Seq<char>
    decreases s.len(),
{
    if s.len() == 0 {
        seq![]
    } else {
        json_escape_char(s[0]) + json_escape(s.drop_first())
    }
}

/// A JSON string literal holding `s`.
pub open spec fn json_quote(s: Seq<char>) -> Seq<char> {
    seq!['"'] + json_escape(s) + seq!['"']
}

/// The decimal digits of `n`, without sign or leading zeros.
pub open spec fn decimal(n: nat) -> Seq<char>
    decreases n,
{
    if n < 10 {
        seq![hex_digit(n as int)]
    } else {
        decimal(n / 10) + seq![hex_digit((n % 10) as int)]
    }
}

/// Relies on rustc_serialize::json::encode of a string slice: the string in
/// double quotes, escaped byte by byte as its `escape_str` does. It writes
/// into a `String` and emits no map key, so it does not fail.
#[verifier::external_body]
pub(crate) fn encode_json_str(s: &str) -> (r: Result<String, rustc_serialize::json::EncoderError>)
    ensures
        r is Ok,
        r matches Ok(t) ==> t@ == json_quote(s@),
{
    rustc_serialize::json::encode(&s)
}

/// Relies on rustc_serialize::json::encode of a `u64`: its decimal digits.
/// It writes into a `String` and emits no map key, so it does not fail.
#[verifier::external_body]
pub(crate) fn encode_json_u64(n: u64) -> (r: Result<String, rustc_serialize::json::EncoderError>)
    ensures
        r is Ok,
        r matches Ok(t) ==> t@ == decimal(n as nat),
{
    rustc_serialize::json::encode(&n)
}


/// Lowercase hex digits need no escaping.
pub proof fn lemma_json_escape_hex(s: Seq<char>)
    requires
        forall|i: int| 0 <= i < s.len() ==> ('0' <= #[trigger] s[i] <= '9' || 'a' <= s[i] <= 'f'),
    ensures
        json_escape(s) == s,
    decreases s.len(),
{
    if s.len() > 0 {
        let rest = s.drop_first();
        assert forall|i: int| 0 <= i < rest.len() implies ('0' <= #[trigger] rest[i] <= '9' || 'a'
            <= rest[i] <= 'f') by {
            assert(rest[i] == s[i + 1]);
        }
        lemma_json_escape_hex(rest);
        assert(json_escape_char(s[0]) == seq![s[0]]);
        assert(s =~= seq![s[0]] + rest);
    }
}

} // verus!
