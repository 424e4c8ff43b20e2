//! Byte encodings that other crates and std implement.

use vstd::prelude::*;
use vstd::utf8::*;

use base64::engine::general_purpose::STANDARD;
use base64::Engine;

verus! {

/// The text of the base64 engine's error on a text that is no base64.
pub uninterp spec fn base64_error(text: Seq<char>) -> Seq<char>;

/// What std says of bytes that are not UTF-8.
pub uninterp spec fn utf8_error(bytes: Seq<u8>) -> Seq<char>;

/// The text of serde_json's error on a text that is no boolean.
pub uninterp spec fn json_flag_error(text: Seq<char>) -> Seq<char>;

/// The character of a six-bit number in the standard base64 alphabet.
pub open spec fn base64_digit(n: int) -> char {
    if n < 26 {
        (('A' as u32 + n) as u32) as char
    } else if n < 52 {
        (('a' as u32 + (n - 26)) as u32) as char
    } else if n < 62 {
        (('0' as u32 + (n - 52)) as u32) as char
    } else if n == 62 {
        '+'
    } else {
        '/'
    }
}

/// The four characters of three bytes: their bits, six at a time.
pub open spec fn base64_group(a: u8, b: u8, c: u8) -> Seq<char> {
    seq![
        base64_digit(a as int / 4),
        base64_digit((a as int % 4) * 16 + b as int / 16),
        base64_digit((b as int % 16) * 4 + c as int / 64),
        base64_digit(c as int % 64),
    ]
}

/// Bytes in base64: three by three, the last one or two filled up with zeros
/// and the characters that hold nothing else written as `=`.
pub open spec fn base64_encoded(bytes: Seq<u8>) -> Seq<char>
    decreases bytes.len(),
{
    if bytes.len() == 0 {
        Seq::empty()
    } else if bytes.len() == 1 {
        base64_group(bytes[0], 0, 0).take(2) + seq!['=', '=']
    } else if bytes.len() == 2 {
        base64_group(bytes[0], bytes[1], 0).take(3) + seq!['=']
    } else {
        base64_group(bytes[0], bytes[1], bytes[2]) + base64_encoded(bytes.skip(3))
    }
}

/// The 64 characters of the standard base64 alphabet, and the padding.
pub open spec fn is_base64_char(c: char) -> bool {
    ||| 'A' <= c <= 'Z'
    ||| 'a' <= c <= 'z'
    ||| '0' <= c <= '9'
    ||| c == '+'
    ||| c == '/'
    ||| c == '='
}

/// A text of such characters only.
pub open spec fn is_base64_text(s: Seq<char>) -> bool {
    forall|i: int| 0 <= i < s.len() ==> is_base64_char(#[trigger] s[i])
}

/// Whether a text is base64: some bytes are written like this.
pub open spec fn is_base64(text: Seq<char>) -> bool {
    exists|bytes: Seq<u8>| #[trigger] base64_encoded(bytes) == text
}

/// The bytes that are written like this in base64, or the text of the error.
pub open spec fn base64_decoded(text: Seq<char>) -> Result<Seq<u8>, Seq<char>> {
    if is_base64(text) {
        Ok(choose|bytes: Seq<u8>| #[trigger] base64_encoded(bytes) == text)
    } else {
        Err(base64_error(text))
    }
}

/// The length of the base64 text of `n` bytes, padding included.
pub open spec fn base64_len(n: nat) -> nat {
    ((n + 2) / 3) * 4
}

/// Base64 has four characters for each three bytes begun, all of them from its
/// alphabet.
pub proof fn lemma_base64_encoded(bytes: Seq<u8>)
    ensures
        base64_encoded(bytes).len() == base64_len(bytes.len()),
        is_base64_text(base64_encoded(bytes)),
    decreases bytes.len(),
{
    let text = base64_encoded(bytes);
    if bytes.len() == 1 {
        lemma_base64_group(bytes[0], 0, 0);
    } else if bytes.len() == 2 {
        lemma_base64_group(bytes[0], bytes[1], 0);
    } else if bytes.len() > 2 {
        let group = base64_group(bytes[0], bytes[1], bytes[2]);
        let rest = base64_encoded(bytes.skip(3));
        lemma_base64_group(bytes[0], bytes[1], bytes[2]);
        lemma_base64_encoded(bytes.skip(3));
        assert forall|i: int| 0 <= i < text.len() implies is_base64_char(#[trigger] text[i]) by {
            if i < 4 {
                assert(text[i] == group[i]);
            } else {
                assert(text[i] == rest[i - 4]);
            }
        }
    }
}

proof fn lemma_base64_group(a: u8, b: u8, c: u8)
    ensures
        base64_group(a, b, c).len() == 4,
        is_base64_text(base64_group(a, b, c)),
{
    assert(is_base64_char(base64_digit(a as int / 4)));
    assert(is_base64_char(base64_digit((a as int % 4) * 16 + b as int / 16)));
    assert(is_base64_char(base64_digit((b as int % 16) * 4 + c as int / 64)));
    assert(is_base64_char(base64_digit(c as int % 64)));
}

proof fn lemma_base64_digit(n: int, m: int)
    requires
        0 <= n < 64,
        0 <= m < 64,
    ensures
        base64_digit(n) != '=',
        base64_digit(n) == base64_digit(m) ==> n == m,
{
}

/// A group gives its bytes back.
proof fn lemma_base64_group_injective(a: u8, b: u8, c: u8, x: u8, y: u8, z: u8)
    ensures
        base64_group(a, b, c)[0] == base64_group(x, y, z)[0] && base64_group(a, b, c)[1]
            == base64_group(x, y, z)[1] ==> a == x && b / 16 == y / 16,
        base64_group(a, b, c)[1] == base64_group(x, y, z)[1] && base64_group(a, b, c)[2]
            == base64_group(x, y, z)[2] ==> b == y && c / 64 == z / 64,
        base64_group(a, b, c)[2] == base64_group(x, y, z)[2] && base64_group(a, b, c)[3]
            == base64_group(x, y, z)[3] ==> c == z,
        base64_group(a, b, c)[2] != '=',
        base64_group(a, b, c)[3] != '=',
{
    lemma_base64_digit(a as int / 4, x as int / 4);
    lemma_base64_digit(
        (a as int % 4) * 16 + b as int / 16,
        (x as int % 4) * 16 + y as int / 16,
    );
    lemma_base64_digit(
        (b as int % 16) * 4 + c as int / 64,
        (y as int % 16) * 4 + z as int / 64,
    );
    lemma_base64_digit(c as int % 64, z as int % 64);
}

/// Different bytes look different in base64.
pub proof fn lemma_base64_injective(x: Seq<u8>, y: Seq<u8>)
    requires
        base64_encoded(x) == base64_encoded(y),
    ensures
        x == y,
    decreases x.len(),
{
    let text = base64_encoded(x);
    lemma_base64_encoded(x);
    lemma_base64_encoded(y);
    if x.len() > 0 && y.len() > 0 {
        let a = if x.len() > 1 {
            x[1]
        } else {
            0
        };
        let b = if x.len() > 2 {
            x[2]
        } else {
            0
        };
        let c = if y.len() > 1 {
            y[1]
        } else {
            0
        };
        let d = if y.len() > 2 {
            y[2]
        } else {
            0
        };
        let g = base64_group(x[0], a, b);
        let h = base64_group(y[0], c, d);
        lemma_base64_group_injective(x[0], a, b, y[0], c, d);
        lemma_base64_group_injective(y[0], c, d, x[0], a, b);
        assert(text[0] == g[0] && text[1] == g[1]);
        assert(text[0] == h[0] && text[1] == h[1]);
        assert(text[2] == (if x.len() > 1 { g[2] } else { '=' }));
        assert(text[2] == (if y.len() > 1 { h[2] } else { '=' }));
        assert(text[3] == (if x.len() > 2 { g[3] } else { '=' }));
        assert(text[3] == (if y.len() > 2 { h[3] } else { '=' }));
        if x.len() > 2 {
            let rest_x = x.skip(3);
            let rest_y = y.skip(3);
            assert(base64_encoded(rest_x) =~= text.skip(4));
            assert(base64_encoded(rest_y) =~= text.skip(4));
            lemma_base64_injective(rest_x, rest_y);
            assert forall|i: int| 3 <= i < x.len() implies x[i] == y[i] by {
                assert(x[i] == rest_x[i - 3]);
                assert(y[i] == rest_y[i - 3]);
            }
            assert(x.len() == rest_x.len() + 3);
            assert(y.len() == rest_y.len() + 3);
        }
        assert(x =~= y);
    } else {
        assert(x =~= y);
    }
}

/// Decoding undoes encoding.
pub proof fn lemma_base64_decoded(bytes: Seq<u8>)
    ensures
        base64_decoded(base64_encoded(bytes)) == Ok::<Seq<u8>, Seq<char>>(bytes),
{
    let text = base64_encoded(bytes);
    assert(is_base64(text));
    let found = choose|b: Seq<u8>| #[trigger] base64_encoded(b) == text;
    lemma_base64_injective(found, bytes);
}

/// `base64::Engine::encode` of `base64::engine::general_purpose::STANDARD`.
///
/// Claimed: the text is the bytes in base64, with the standard alphabet and
/// with padding. The call panics where the text would be longer than an
/// allocation can be.
#[verifier::external_body]
pub(crate) fn base64_encode(bytes: &[u8]) -> (text: String)
    requires
        base64_len(bytes@.len()) <= isize::MAX,
    ensures
        text@ == base64_encoded(bytes@),
{
    STANDARD.encode(bytes)
}

/// `base64::Engine::decode` of `base64::engine::general_purpose::STANDARD`.
///
/// Claimed: it accepts exactly what some bytes look like in base64 (the padding
/// has to be there, and no bit may be set that stands for nothing), and gives
/// those bytes; on any other text, the text of its error depends on that text
/// alone.
#[verifier::external_body]
pub(crate) fn base64_decode(text: &str) -> (r: Result<Vec<u8>, String>)
    ensures
        match r {
            Ok(bytes) => text@ == base64_encoded(bytes@),
            Err(e) => !is_base64(text@) && e@ == base64_error(text@),
        },
{
    STANDARD.decode(text).map_err(|e| e.to_string())
}

/// White space between the tokens of JSON.
pub open spec fn is_json_white(c: char) -> bool {
    c == ' ' || c == '\t' || c == '\n' || c == '\r'
}

/// How JSON writes a boolean.
pub open spec fn flag_word(flag: bool) -> Seq<char> {
    if flag {
        "true"@
    } else {
        "false"@
    }
}

/// Whether a text is this boolean in JSON: its word at position `at`, and
/// white space around it.
pub open spec fn is_flag_at(text: Seq<char>, flag: bool, at: int) -> bool {
    let end = at + flag_word(flag).len();
    &&& 0 <= at && end <= text.len()
    &&& text.subrange(at, end) == flag_word(flag)
    &&& forall|k: int| 0 <= k < at || end <= k < text.len() ==> is_json_white(#[trigger] text[k])
}

/// Whether a text is this boolean in JSON.
pub open spec fn is_json_flag(text: Seq<char>, flag: bool) -> bool {
    exists|at: int| is_flag_at(text, flag, at)
}

/// The boolean that a text is in JSON, or the text of the error.
pub open spec fn json_flag(text: Seq<char>) -> Result<bool, Seq<char>> {
    if is_json_flag(text, true) {
        Ok(true)
    } else if is_json_flag(text, false) {
        Ok(false)
    } else {
        Err(json_flag_error(text))
    }
}

/// No text is both booleans.
pub proof fn lemma_json_flag_is_one(text: Seq<char>)
    ensures
        !(is_json_flag(text, true) && is_json_flag(text, false)),
{
    reveal_strlit("true");
    reveal_strlit("false");
    if is_json_flag(text, true) && is_json_flag(text, false) {
        let t = choose|at: int| is_flag_at(text, true, at);
        let f = choose|at: int| is_flag_at(text, false, at);
        assert(text.subrange(t, t + 4)[0] == text[t]);
        assert(text.subrange(f, f + 5)[0] == text[f]);
        assert(text[t] == 't' && text[f] == 'f');
    }
}

/// `serde_json::from_str` into a `bool`.
///
/// Claimed: it succeeds exactly on `true` and `false` with nothing but spaces,
/// tabs, carriage returns and line feeds around them, and gives that boolean;
/// on any other text, the text of its error depends on that text alone.
#[verifier::external_body]
pub(crate) fn json_flag_of(text: &str) -> (r: Result<bool, String>)
    ensures
        match r {
            Ok(flag) => is_json_flag(text@, flag),
            Err(e) => !is_json_flag(text@, true) && !is_json_flag(text@, false) && e@
                == json_flag_error(text@),
        },
{
    serde_json::from_str::<bool>(text).map_err(|e| e.to_string())
}

/// A hexadecimal digit.
pub open spec fn hex_digit(n: int) -> char {
    if n < 10 {
        (('0' as u32 + n) as u32) as char
    } else {
        (('a' as u32 + (n - 10)) as u32) as char
    }
}

/// A character inside a JSON string.
pub open spec fn json_char(c: char) -> Seq<char> {
    if c == '"' {
        seq!['\\', '"']
    } else if c == '\\' {
        seq!['\\', '\\']
    } else if c == '\u{8}' {
        seq!['\\', 'b']
    } else if c == '\u{9}' {
        seq!['\\', 't']
    } else if c == '\u{a}' {
        seq!['\\', 'n']
    } else if c == '\u{c}' {
        seq!['\\', 'f']
    } else if c == '\u{d}' {
        seq!['\\', 'r']
    } else if ' ' > c {
        seq!['\\', 'u', '0', '0', hex_digit(c as int / 16), hex_digit(c as int % 16)]
    } else {
        seq![c]
    }
}

/// The characters of a text inside a JSON string.
pub open spec fn json_chars(text: Seq<char>) -> Seq<char>
    decreases text.len(),
{
    if text.len() == 0 {
        Seq::empty()
    } else {
        json_chars(text.drop_last()) + json_char(text.last())
    }
}

/// A text as a JSON string.
pub open spec fn json_string(text: Seq<char>) -> Seq<char> {
    seq!['"'] + json_chars(text) + seq!['"']
}

/// The `Display` of `serde_json::Value` on a string value.
///
/// Claimed: it is the text as a JSON string, with quotes, backslashes and
/// control characters escaped and everything else as it is.
#[verifier::external_body]
pub(crate) fn json_string_of(text: &str) -> (r: String)
    ensures
        r@ == json_string(text@),
{
    serde_json::Value::from(text).to_string()
}

/// `String::from_utf8`: the text that the bytes encode, or the text of the
/// error where they are not UTF-8.
#[verifier::external_body]
pub(crate) fn utf8_text(bytes: &[u8]) -> (r: Result<String, String>)
    ensures
        match r {
            Ok(text) => valid_utf8(bytes@) && text@ == decode_utf8(bytes@),
            Err(e) => !valid_utf8(bytes@) && e@ == utf8_error(bytes@),
        },
{
    String::from_utf8(bytes.to_vec()).map_err(|e| e.to_string())
}

} // verus!
