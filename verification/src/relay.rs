//! The line protocol spoken with the relay proxy: the requests a host and a joining
//! client send, the framing of lines, and the reading of the proxy's `CLIENT` notice.
use vstd::prelude::*;
use vstd::utf8::{decode_utf8, encode_utf8, valid_utf8};
use crate::models::strings_view;
use crate::text::{str_eq, string_push_str, to_owned_string};

verus! {

/// The request that registers a host: `HOST`, the auth token and `0`.
pub open spec fn host_line(auth_token: Seq<char>) -> Seq<char> {
    "HOST "@ + auth_token + " 0"@
}

/// The request that accepts a joining client on the host's behalf.
pub open spec fn accept_line(auth_token: Seq<char>, joiner_id: Seq<char>) -> Seq<char> {
    "ACCEPT "@ + auth_token + " 0 "@ + joiner_id
}

/// The request that joins a hosted session.
pub open spec fn join_line(auth_token: Seq<char>, target_session: Seq<char>) -> Seq<char> {
    "JOIN "@ + auth_token + " 0 "@ + target_session
}

/// The `HOST` request of a host with the given auth token.
pub fn host_request(auth_token: &str) -> (r: String)
    ensures
        r@ == host_line(auth_token@),
{
    let mut m = to_owned_string("HOST ");
    string_push_str(&mut m, auth_token);
    string_push_str(&mut m, " 0");
    m
}

/// The `ACCEPT` request for the client `joiner_id`.
pub fn accept_request(auth_token: &str, joiner_id: &str) -> (r: String)
    ensures
        r@ == accept_line(auth_token@, joiner_id@),
{
    let mut m = to_owned_string("ACCEPT ");
    string_push_str(&mut m, auth_token);
    string_push_str(&mut m, " 0 ");
    string_push_str(&mut m, joiner_id);
    m
}

/// The `JOIN` request for the session `target_session`.
pub fn join_request(auth_token: &str, target_session: &str) -> (r: String)
    ensures
        r@ == join_line(auth_token@, target_session@),
{
    let mut m = to_owned_string("JOIN ");
    string_push_str(&mut m, auth_token);
    string_push_str(&mut m, " 0 ");
    string_push_str(&mut m, target_session);
    m
}

/// The bytes sent for a line: its UTF-8 encoding and a newline.
pub fn frame_line(line: &str) -> (r: Vec<u8>)
    ensures
        r@ == encode_utf8(line@).push(10u8),
{
    let mut out = vstd::slice::slice_to_vec(line.as_bytes());
    out.push(10u8);
    out
}

/// Takes one byte read from the proxy into the line being read: a newline ends the
/// line (and is not kept), any other byte is appended. Whether the line is complete.
pub fn accumulate_line(buf: &mut Vec<u8>, byte: u8) -> (done: bool)
    ensures
        done == (byte == 10),
        done ==> final(buf)@ == old(buf)@,
        !done ==> final(buf)@ == old(buf)@.push(byte),
{
    if byte == 10 {
        true
    } else {
        buf.push(byte);
        false
    }
}

/// The text of the error `String::from_utf8` gives for invalid bytes.
pub uninterp spec fn utf8_error_text(b: Seq<u8>) -> Seq<char>;

/// `String::from_utf8`, the error given as its text (`Display`): the decoded string
/// exactly when the bytes are valid UTF-8. The error text is named: it depends on the
/// bytes alone.
#[verifier::external_body]
fn string_from_utf8_or_text(bytes: Vec<u8>) -> (r: Result<String, String>)
    ensures
        r is Ok <==> valid_utf8(bytes@),
        r matches Ok(s) ==> s@ == decode_utf8(bytes@),
        r matches Err(m) ==> m@ == utf8_error_text(bytes@),
{
    match String::from_utf8(bytes) {
        Ok(s) => Ok(s),
        Err(e) => Err(e.to_string()),
    }
}

/// Decodes a line read from the proxy; a line that is not UTF-8 fails with the
/// decoder's message.
pub fn decode_line(buf: Vec<u8>) -> (r: Result<String, String>)
    ensures
        r is Ok <==> valid_utf8(buf@),
        r matches Ok(s) ==> s@ == decode_utf8(buf@),
        r matches Err(m) ==> m@ == utf8_error_text(buf@),
{
    string_from_utf8_or_text(buf)
}

/// Whether `c` has the Unicode White_Space property: U+0009 to U+000D, U+0020, U+0085,
/// U+00A0, U+1680, U+2000 to U+200A, U+2028, U+2029, U+202F, U+205F and U+3000.
pub open spec fn is_white_space(c: char) -> bool {
    let u = c as u32;
    ||| 0x09 <= u <= 0x0D
    ||| u == 0x20
    ||| u == 0x85
    ||| u == 0xA0
    ||| u == 0x1680
    ||| 0x2000 <= u <= 0x200A
    ||| u == 0x2028
    ||| u == 0x2029
    ||| u == 0x202F
    ||| u == 0x205F
    ||| u == 0x3000
}

/// The words of `s`: its maximal runs of characters that are not white space, in order.
pub open spec fn whitespace_words(s: Seq<char>) -> Seq<Seq<char>>
    decreases s.len(),
{
    if s.len() == 0 {
        Seq::empty()
    } else {
        let prev = s.drop_last();
        let w = whitespace_words(prev);
        let c = s.last();
        if is_white_space(c) {
            w
        } else if prev.len() > 0 && !is_white_space(prev.last()) {
            w.update(w.len() - 1, w.last().push(c))
        } else {
            w.push(seq![c])
        }
    }
}

/// `str::split_whitespace`, collected: the words of `s` between runs of characters with
/// the Unicode White_Space property, with no empty words.
#[verifier::external_body]
fn split_words(s: &str) -> (r: Vec<String>)
    ensures
        strings_view(r@) == whitespace_words(s@),
{
    s.split_whitespace().map(str::to_string).collect()
}

/// The client named by the proxy's notice, from the notice's words: the second word
/// where there are at least two and the first is `CLIENT`; else the error naming the
/// line.
pub open spec fn client_from_words(words: Seq<Seq<char>>, line: Seq<char>) -> Result<Seq<char>, Seq<char>> {
    if words.len() < 2 || words[0] != "CLIENT"@ {
        Err("Expected CLIENT, got: "@ + line)
    } else {
        Ok(words[1])
    }
}

/// The view of a result of text.
pub open spec fn text_result_view(r: Result<String, String>) -> Result<Seq<char>, Seq<char>> {
    match r {
        Ok(s) => Ok(s@),
        Err(e) => Err(e@),
    }
}

/// Reads the joining client's id from the words of the proxy's `CLIENT` notice.
pub fn client_from_notice_words(words: &Vec<String>, line: &str) -> (r: Result<String, String>)
    ensures
        text_result_view(r) == client_from_words(strings_view(words@), line@),
{
    proof {
        assert(strings_view(words@).len() == words@.len());
    }
    if words.len() < 2 || !str_eq(words[0].as_str(), "CLIENT") {
        proof {
            if words@.len() >= 2 {
                assert(strings_view(words@)[0] == words@[0]@);
            }
        }
        let mut m = to_owned_string("Expected CLIENT, got: ");
        string_push_str(&mut m, line);
        return Err(m);
    }
    proof {
        assert(strings_view(words@)[0] == words@[0]@);
        assert(strings_view(words@)[1] == words@[1]@);
    }
    Ok(to_owned_string(words[1].as_str()))
}

/// Reads the joining client's id from the proxy's `CLIENT` notice line.
pub fn parse_client_line(line: &str) -> (r: Result<String, String>)
    ensures
        text_result_view(r) == client_from_words(whitespace_words(line@), line@),
{
    let words = split_words(line);
    client_from_notice_words(&words, line)
}

} // verus!
