//! The wire codec. A frame is one envelope — a JSON object with a `header`
//! and a `payload` string — terminated by a single newline. Encoding is
//! written out here, character by character, against an exact
//! specification; decoding goes through the named JSON extractions.

use vstd::prelude::*;

use crate::Package;
use crate::jsonio::{json_str_field, json_str_of};

verus! {

/// Relies on std's `String::push`: appends the given character to the end
/// of the string.
#[verifier::external_body]
fn push_char(s: &mut String, c: char)
    ensures
        final(s)@ == old(s)@.push(c),
{
    s.push(c);
}

/// The decimal digit `d` as a character, for `0 <= d <= 9`.
pub open spec fn digit_char(d: int) -> char {
    if d == 0 {
        '0'
    } else if d == 1 {
        '1'
    } else if d == 2 {
        '2'
    } else if d == 3 {
        '3'
    } else if d == 4 {
        '4'
    } else if d == 5 {
        '5'
    } else if d == 6 {
        '6'
    } else if d == 7 {
        '7'
    } else if d == 8 {
        '8'
    } else {
        '9'
    }
}

/// The hexadecimal digit `d` as a lower-case character, for `0 <= d <= 15`.
pub open spec fn hex_nibble_char(d: int) -> char {
    if d < 10 {
        digit_char(d)
    } else if d == 10 {
        'a'
    } else if d == 11 {
        'b'
    } else if d == 12 {
        'c'
    } else if d == 13 {
        'd'
    } else if d == 14 {
        'e'
    } else {
        'f'
    }
}

/// The decimal rendering of a byte value, without leading zeroes.
pub open spec fn dec_of(n: int) -> Seq<char> {
    if n < 10 {
        seq![digit_char(n)]
    } else if n < 100 {
        seq![digit_char(n / 10), digit_char(n % 10)]
    } else {
        seq![digit_char(n / 100), digit_char((n / 10) % 10), digit_char(n % 10)]
    }
}

/// The JSON escape of one character inside a string literal: quote and
/// backslash get a backslash, a control character becomes a `\u00XX`
/// escape, and every other character stands for itself.
pub open spec fn json_escaped_char(c: char) -> Seq<char> {
    if c == '"' {
        seq!['\\', '"']
    } else if c == '\\' {
        seq!['\\', '\\']
    } else if (c as u32) < 32 {
        seq![
            '\\',
            'u',
            '0',
            '0',
            hex_nibble_char(c as u32 as int / 16),
            hex_nibble_char(c as u32 as int % 16),
        ]
    } else {
        seq![c]
    }
}

/// The JSON escape of a whole string body.
pub open spec fn json_escaped(s: Seq<char>) -> Seq<char>
    decreases s.len(),
{
    if s.len() == 0 {
        Seq::empty()
    } else {
        json_escaped(s.drop_last()) + json_escaped_char(s.last())
    }
}

/// The contents of a byte array rendered as JSON, decimal values separated
/// by commas.
pub open spec fn bytes_json_inner(s: Seq<u8>) -> Seq<char>
    decreases s.len(),
{
    if s.len() == 0 {
        Seq::empty()
    } else if s.len() == 1 {
        dec_of(s.last() as int)
    } else {
        bytes_json_inner(s.drop_last()) + seq![','] + dec_of(s.last() as int)
    }
}

/// A byte array rendered as a JSON array of decimal numbers.
pub open spec fn bytes_json(s: Seq<u8>) -> Seq<char> {
    seq!['['] + bytes_json_inner(s) + seq![']']
}

/// One wire frame: the envelope object carrying the escaped header and
/// payload strings, closed by a newline.
pub open spec fn frame_of(header: Seq<char>, payload: Seq<char>) -> Seq<char> {
    "{\"header\":\""@ + json_escaped(header) + "\",\"payload\":\""@ + json_escaped(payload)
        + "\"}"@ + seq!['\n']
}

fn digit(d: u32) -> (r: char)
    requires
        d <= 9,
    ensures
        r == digit_char(d as int),
{
    if d == 0 {
        '0'
    } else if d == 1 {
        '1'
    } else if d == 2 {
        '2'
    } else if d == 3 {
        '3'
    } else if d == 4 {
        '4'
    } else if d == 5 {
        '5'
    } else if d == 6 {
        '6'
    } else if d == 7 {
        '7'
    } else if d == 8 {
        '8'
    } else {
        '9'
    }
}

fn hex_nibble(d: u32) -> (r: char)
    requires
        d <= 15,
    ensures
        r == hex_nibble_char(d as int),
{
    if d < 10 {
        digit(d)
    } else if d == 10 {
        'a'
    } else if d == 11 {
        'b'
    } else if d == 12 {
        'c'
    } else if d == 13 {
        'd'
    } else if d == 14 {
        'e'
    } else {
        'f'
    }
}

/// Appends the decimal rendering of one byte.
fn append_u8(out: &mut String, b: u8)
    ensures
        final(out)@ == old(out)@ + dec_of(b as int),
{
    let n: u32 = b as u32;
    if n < 10 {
        push_char(out, digit(n));
        assert(out@ =~= old(out)@ + dec_of(b as int));
    } else if n < 100 {
        push_char(out, digit(n / 10));
        push_char(out, digit(n % 10));
        assert(out@ =~= old(out)@ + dec_of(b as int));
    } else {
        push_char(out, digit(n / 100));
        push_char(out, digit((n / 10) % 10));
        push_char(out, digit(n % 10));
        assert(out@ =~= old(out)@ + dec_of(b as int));
    }
}

/// Appends a byte array as a JSON array of decimal numbers.
pub fn append_bytes_json(out: &mut String, v: &Vec<u8>)
    ensures
        final(out)@ == old(out)@ + bytes_json(v@),
{
    push_char(out, '[');
    let mut i: usize = 0;
    while i < v.len()
        invariant
            0 <= i <= v@.len(),
            out@ == old(out)@ + seq!['['] + bytes_json_inner(v@.take(i as int)),
        decreases v@.len() - i,
    {
        proof {
            assert(v@.take(i + 1).drop_last() =~= v@.take(i as int));
            assert(v@.take(i + 1).last() == v@[i as int]);
        }
        if i > 0 {
            push_char(out, ',');
        }
        append_u8(out, v[i]);
        proof {
            if i == 0 {
                assert(v@.take(1).len() == 1);
                assert(out@ =~= old(out)@ + seq!['['] + bytes_json_inner(v@.take(1)));
            } else {
                assert(out@ =~= old(out)@ + seq!['['] + bytes_json_inner(v@.take(i + 1)));
            }
        }
        i += 1;
    }
    push_char(out, ']');
    proof {
        assert(v@.take(v@.len() as int) =~= v@);
        assert(out@ =~= old(out)@ + bytes_json(v@));
    }
}

/// Appends the JSON escape of a string body.
pub fn append_escaped(out: &mut String, s: &str)
    ensures
        final(out)@ == old(out)@ + json_escaped(s@),
{
    let n: usize = s.unicode_len();
    let mut i: usize = 0;
    proof {
        assert(out@ =~= old(out)@ + json_escaped(s@.take(0)));
    }
    while i < n
        invariant
            n == s@.len(),
            0 <= i <= n,
            out@ == old(out)@ + json_escaped(s@.take(i as int)),
        decreases n - i,
    {
        let c = s.get_char(i);
        proof {
            assert(s@.take(i + 1).drop_last() =~= s@.take(i as int));
            assert(s@.take(i + 1).last() == s@[i as int]);
        }
        if c == '"' {
            push_char(out, '\\');
            push_char(out, '"');
        } else if c == '\\' {
            push_char(out, '\\');
            push_char(out, '\\');
        } else {
            let u: u32 = c as u32;
            if u < 32 {
                push_char(out, '\\');
                push_char(out, 'u');
                push_char(out, '0');
                push_char(out, '0');
                push_char(out, hex_nibble(u / 16));
                push_char(out, hex_nibble(u % 16));
            } else {
                push_char(out, c);
            }
        }
        proof {
            assert(out@ =~= old(out)@ + json_escaped(s@.take(i + 1)));
        }
        i += 1;
    }
    proof {
        assert(s@.take(n as int) =~= s@);
    }
}

/// Encodes one protocol message as a newline-terminated JSON frame.
pub fn encode(package: &Package) -> (r: String)
    ensures
        r@ == frame_of(package.header@, package.payload@),
{
    let mut out = String::new();
    out.append("{\"header\":\"");
    append_escaped(&mut out, package.header.as_str());
    out.append("\",\"payload\":\"");
    append_escaped(&mut out, package.payload.as_str());
    out.append("\"}");
    push_char(&mut out, '\n');
    proof {
        assert(out@ =~= frame_of(package.header@, package.payload@));
    }
    out
}

/// Decodes one frame line into a protocol message: the line must parse as
/// a JSON object whose `header` and `payload` members are both strings;
/// anything else is a malformed frame, and the connection that sent it is
/// to be closed.
pub fn decode(line: &str) -> (r: Option<Package>)
    ensures
        match r {
            Some(pkg) => json_str_of(line@, "header"@) == Some(pkg.header@) && json_str_of(
                line@,
                "payload"@,
            ) == Some(pkg.payload@),
            None => json_str_of(line@, "header"@) is None || json_str_of(line@, "payload"@)
                is None,
        },
{
    let header = json_str_field(line, "header");
    let payload = json_str_field(line, "payload");
    match (header, payload) {
        (Some(header), Some(payload)) => Some(Package { header, payload }),
        _ => None,
    }
}

/// The success payload of a salt request: the stored salt as a JSON byte
/// array.
pub open spec fn salt_payload_of(salt: Seq<u8>) -> Seq<char> {
    "{\"salt\":"@ + bytes_json(salt) + seq!['}']
}

/// Renders the success payload of a salt request.
pub fn render_salt_payload(salt: &Vec<u8>) -> (r: String)
    ensures
        r@ == salt_payload_of(salt@),
{
    let mut out = String::new();
    out.append("{\"salt\":");
    append_bytes_json(&mut out, salt);
    push_char(&mut out, '}');
    proof {
        assert(out@ =~= salt_payload_of(salt@));
    }
    out
}

/// The payload of a failure response: the human-readable message under the
/// `error` key.
pub open spec fn error_payload_of(msg: Seq<char>) -> Seq<char> {
    "{\"error\":\""@ + json_escaped(msg) + "\"}"@
}

/// Renders the payload of a failure response.
pub fn render_error_payload(msg: &str) -> (r: String)
    ensures
        r@ == error_payload_of(msg@),
{
    let mut out = String::new();
    out.append("{\"error\":\"");
    append_escaped(&mut out, msg);
    out.append("\"}");
    proof {
        assert(out@ =~= error_payload_of(msg@));
    }
    out
}

/// The registration payload: username and the derived key and salt as JSON
/// byte arrays.
pub open spec fn new_user_payload_of(username: Seq<char>, hash: Seq<u8>, salt: Seq<u8>) -> Seq<
    char,
> {
    "{\"username\":\""@ + json_escaped(username) + "\",\"hash\":"@ + bytes_json(hash)
        + ",\"salt\":"@ + bytes_json(salt) + seq!['}']
}

/// Renders the registration payload a client sends.
pub fn render_new_user_payload(username: &str, hash: &Vec<u8>, salt: &Vec<u8>) -> (r: String)
    ensures
        r@ == new_user_payload_of(username@, hash@, salt@),
{
    let mut out = String::new();
    out.append("{\"username\":\"");
    append_escaped(&mut out, username);
    out.append("\",\"hash\":");
    append_bytes_json(&mut out, hash);
    out.append(",\"salt\":");
    append_bytes_json(&mut out, salt);
    push_char(&mut out, '}');
    proof {
        assert(out@ =~= new_user_payload_of(username@, hash@, salt@));
    }
    out
}

/// The payload of a salt request: the username under `user_username`.
pub open spec fn account_keys_payload_of(username: Seq<char>) -> Seq<char> {
    "{\"user_username\":\""@ + json_escaped(username) + "\"}"@
}

/// Renders the payload of a salt request a client sends.
pub fn render_account_keys_payload(username: &str) -> (r: String)
    ensures
        r@ == account_keys_payload_of(username@),
{
    let mut out = String::new();
    out.append("{\"user_username\":\"");
    append_escaped(&mut out, username);
    out.append("\"}");
    proof {
        assert(out@ =~= account_keys_payload_of(username@));
    }
    out
}

/// The payload of a key validation request: the username and the submitted
/// derived key.
pub open spec fn validate_key_payload_of(username: Seq<char>, hash: Seq<u8>) -> Seq<char> {
    "{\"user_username\":\""@ + json_escaped(username) + "\",\"user_hash\":"@ + bytes_json(hash)
        + seq!['}']
}

/// Renders the payload of a key validation request a client sends.
pub fn render_validate_key_payload(username: &str, hash: &Vec<u8>) -> (r: String)
    ensures
        r@ == validate_key_payload_of(username@, hash@),
{
    let mut out = String::new();
    out.append("{\"user_username\":\"");
    append_escaped(&mut out, username);
    out.append("\",\"user_hash\":");
    append_bytes_json(&mut out, hash);
    push_char(&mut out, '}');
    proof {
        assert(out@ =~= validate_key_payload_of(username@, hash@));
    }
    out
}

} // verus!
