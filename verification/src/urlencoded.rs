//! The `application/x-www-form-urlencoded` notation of name/value pairs, and the
//! stricter notation derived from it in which a space is written `%20`.

use crate::error::TtsError;
use vstd::prelude::*;
use vstd::string::StrSliceExecFns;
use vstd::string::StringExecFns;
use vstd::utf8::encode_utf8;
use vstd::utf8::is_ascii_chars;

verus! {

/// Declares the encoder's error type, so that it can be carried through.
#[verifier::external_type_specification]
#[verifier::external_body]
pub struct ExEncodeError(serde_urlencoded::ser::Error);

/// A name and a value, each as its characters.
pub type Pair = (Seq<char>, Seq<char>);

/// The bytes that both notations write as they are: `*`, `-`, `.`, `_`, the
/// digits and the unaccented letters.
pub open spec fn is_plain(b: u8) -> bool {
    b == 0x2a || b == 0x2d || b == 0x2e || b == 0x5f || (0x30 <= b <= 0x39) || (0x41 <= b <= 0x5a)
        || (0x61 <= b <= 0x7a)
}

/// The sixteen hexadecimal digits, in order of value, letters in upper case.
pub open spec fn hex_digits() -> Seq<char> {
    "0123456789ABCDEF"@
}

/// A byte as a percent sign and its two hexadecimal digits.
pub open spec fn escaped(b: u8) -> Seq<char> {
    seq!['%', hex_digits()[b as int / 16], hex_digits()[b as int % 16]]
}

/// One byte in form notation: itself if plain, `+` for a space, escaped otherwise.
pub open spec fn form_byte(b: u8) -> Seq<char> {
    if is_plain(b) {
        seq![b as char]
    } else if b == 0x20 {
        seq!['+']
    } else {
        escaped(b)
    }
}

/// A byte string in form notation, byte by byte.
pub open spec fn form_bytes(bytes: Seq<u8>) -> Seq<char>
    decreases bytes.len(),
{
    if bytes.len() == 0 {
        Seq::empty()
    } else {
        form_byte(bytes.first()) + form_bytes(bytes.drop_first())
    }
}

/// A pair in form notation: name and value, each over its UTF-8 bytes, around `=`.
pub open spec fn form_pair(p: Pair) -> Seq<char> {
    form_bytes(encode_utf8(p.0)) + seq!['='] + form_bytes(encode_utf8(p.1))
}

/// Pairs in form notation, in their order, with `&` between one and the next.
pub open spec fn form_pairs(pairs: Seq<Pair>) -> Seq<char>
    decreases pairs.len(),
{
    if pairs.len() == 0 {
        Seq::empty()
    } else if pairs.len() == 1 {
        form_pair(pairs.first())
    } else {
        form_pair(pairs.first()) + seq!['&'] + form_pairs(pairs.drop_first())
    }
}

/// Calls `serde_urlencoded::to_string` on a sequence of string pairs.
///
/// Not proved, but read off the encoder: a sequence of pairs is an input that
/// it supports, and so is a string as a name and as a value, so the call
/// returns `Ok`; each pair is written as name, `=`, value, with `&` before
/// every pair but the first; and a name or a value is written byte by byte
/// over its UTF-8 form, a plain byte as itself, a space as `+`, any other
/// byte as `%` and its two hexadecimal digits in upper case.
#[verifier::external_body]
pub(crate) fn form_urlencode(pairs: &Vec<(String, String)>) -> (r: Result<
    String,
    serde_urlencoded::ser::Error,
>)
    ensures
        r is Ok,
        r->Ok_0@ == form_pairs(pairs.deep_view()),
{
    serde_urlencoded::to_string(pairs)
}

/// One byte in percent notation: itself if plain, escaped otherwise.
pub open spec fn percent_byte(b: u8) -> Seq<char> {
    if is_plain(b) {
        seq![b as char]
    } else {
        escaped(b)
    }
}

/// A byte string in percent notation, byte by byte.
pub open spec fn percent_bytes(bytes: Seq<u8>) -> Seq<char>
    decreases bytes.len(),
{
    if bytes.len() == 0 {
        Seq::empty()
    } else {
        percent_byte(bytes.first()) + percent_bytes(bytes.drop_first())
    }
}

/// A text in percent notation, over its UTF-8 bytes.
pub open spec fn percent_text(s: Seq<char>) -> Seq<char> {
    percent_bytes(encode_utf8(s))
}

/// A pair in percent notation: name and value around `=`.
pub open spec fn percent_pair(p: Pair) -> Seq<char> {
    percent_text(p.0) + seq!['='] + percent_text(p.1)
}

/// Pairs in percent notation, in their order, with `&` between one and the next.
pub open spec fn percent_pairs(pairs: Seq<Pair>) -> Seq<char>
    decreases pairs.len(),
{
    if pairs.len() == 0 {
        Seq::empty()
    } else if pairs.len() == 1 {
        percent_pair(pairs.first())
    } else {
        percent_pair(pairs.first()) + seq!['&'] + percent_pairs(pairs.drop_first())
    }
}

/// A text of plain characters only: such a text is its own percent notation.
pub open spec fn is_plain_text(s: Seq<char>) -> bool {
    forall|i: int| 0 <= i < s.len() ==> '\0' <= #[trigger] s[i] <= '\u{7f}' && is_plain(s[i] as u8)
}

/// Plain bytes are written as they are.
proof fn lemma_percent_bytes_plain(bytes: Seq<u8>)
    requires
        forall|i: int| 0 <= i < bytes.len() ==> is_plain(#[trigger] bytes[i]),
    ensures
        percent_bytes(bytes).len() == bytes.len(),
        forall|i: int| 0 <= i < bytes.len() ==> #[trigger] percent_bytes(bytes)[i] == bytes[i] as char,
    decreases bytes.len(),
{
    if bytes.len() > 0 {
        let rest = bytes.drop_first();
        assert forall|i: int| 0 <= i < rest.len() implies is_plain(#[trigger] rest[i]) by {
            assert(rest[i] == bytes[i + 1]);
        }
        lemma_percent_bytes_plain(rest);
        assert forall|i: int| 0 <= i < bytes.len() implies #[trigger] percent_bytes(bytes)[i]
            == bytes[i] as char by {
            if i > 0 {
                assert(percent_bytes(bytes)[i] == percent_bytes(rest)[i - 1]);
                assert(rest[i - 1] == bytes[i]);
            }
        }
    }
}

/// A text of plain characters is its own percent notation.
pub proof fn lemma_percent_text_plain(s: Seq<char>)
    requires
        is_plain_text(s),
    ensures
        percent_text(s) == s,
{
    let bytes = encode_utf8(s);
    assert(is_ascii_chars(s));
    vstd::utf8::is_ascii_chars_encode_utf8(s);
    assert forall|i: int| 0 <= i < bytes.len() implies is_plain(#[trigger] bytes[i]) by {
        assert(bytes[i] == s[i] as u8);
    }
    lemma_percent_bytes_plain(bytes);
    assert forall|i: int| 0 <= i < s.len() implies percent_text(s)[i] == s[i] by {
        assert(bytes[i] == s[i] as u8);
        assert((s[i] as u8) as char == s[i]);
    }
    assert(percent_text(s) =~= s);
}

/// What stands for one character once spaces are escaped: `%20` for `+`, the
/// character itself otherwise.
pub open spec fn space_escaped(c: char) -> Seq<char> {
    if c == '+' {
        seq!['%', '2', '0']
    } else {
        seq![c]
    }
}

/// The string with every `+` replaced by `%20`.
pub open spec fn spaces_escaped(s: Seq<char>) -> Seq<char>
    decreases s.len(),
{
    if s.len() == 0 {
        Seq::empty()
    } else {
        spaces_escaped(s.drop_last()) + space_escaped(s.last())
    }
}

/// Escaping spaces goes through a concatenation.
proof fn lemma_spaces_escaped_concat(a: Seq<char>, b: Seq<char>)
    ensures
        spaces_escaped(a + b) == spaces_escaped(a) + spaces_escaped(b),
    decreases b.len(),
{
    if b.len() == 0 {
        assert(a + b =~= a);
        assert(spaces_escaped(a) + spaces_escaped(b) =~= spaces_escaped(a));
    } else {
        lemma_spaces_escaped_concat(a, b.drop_last());
        assert((a + b).drop_last() =~= a + b.drop_last());
        assert((a + b).last() == b.last());
        assert(spaces_escaped(a + b) =~= spaces_escaped(a) + spaces_escaped(b));
    }
}

/// A string without `+` is left as it is.
proof fn lemma_spaces_escaped_without_plus(s: Seq<char>)
    requires
        !s.contains('+'),
    ensures
        spaces_escaped(s) == s,
    decreases s.len(),
{
    if s.len() > 0 {
        assert(s.last() != '+') by {
            assert(s.contains(s[s.len() - 1]));
        }
        assert(!s.drop_last().contains('+')) by {
            if s.drop_last().contains('+') {
                let i = choose|i: int| 0 <= i < s.drop_last().len() && s.drop_last()[i] == '+';
                assert(s[i] == '+');
            }
        }
        lemma_spaces_escaped_without_plus(s.drop_last());
        assert(s.drop_last() + seq![s.last()] =~= s);
    }
}

/// A hexadecimal digit is never `+`, `&`, `=` or `%`, and is an ASCII character.
pub(crate) proof fn lemma_hex_digit(d: int)
    requires
        0 <= d < 16,
    ensures
        hex_digits()[d] != '+',
        hex_digits()[d] != '&',
        hex_digits()[d] != '=',
        hex_digits()[d] != '%',
        '\0' <= hex_digits()[d] <= '\u{7f}',
        hex_digits().len() == 16,
{
    reveal_strlit("0123456789ABCDEF");
}

/// A string of one character, with its spaces escaped.
proof fn lemma_spaces_escaped_one(c: char)
    ensures
        spaces_escaped(seq![c]) == space_escaped(c),
{
    let s = seq![c];
    assert(s.drop_last() =~= Seq::<char>::empty());
    assert(spaces_escaped(s.drop_last()) =~= Seq::<char>::empty());
    assert(spaces_escaped(s) =~= space_escaped(c));
}

/// Escaping the spaces of one byte's form notation gives its percent notation.
proof fn lemma_spaces_escaped_byte(b: u8)
    ensures
        spaces_escaped(form_byte(b)) == percent_byte(b),
{
    let s = form_byte(b);
    if is_plain(b) {
        lemma_spaces_escaped_one(b as char);
        assert(b as char != '+');
    } else if b == 0x20 {
        reveal_strlit("0123456789ABCDEF");
        lemma_spaces_escaped_one('+');
        assert(space_escaped('+') =~= escaped(b));
    } else {
        lemma_hex_digit(b as int / 16);
        lemma_hex_digit(b as int % 16);
        assert(!s.contains('+'));
        lemma_spaces_escaped_without_plus(s);
    }
}

/// Escaping the spaces of a byte string's form notation gives its percent notation.
proof fn lemma_spaces_escaped_bytes(bytes: Seq<u8>)
    ensures
        spaces_escaped(form_bytes(bytes)) == percent_bytes(bytes),
    decreases bytes.len(),
{
    if bytes.len() > 0 {
        lemma_spaces_escaped_bytes(bytes.drop_first());
        lemma_spaces_escaped_byte(bytes.first());
        lemma_spaces_escaped_concat(form_byte(bytes.first()), form_bytes(bytes.drop_first()));
    }
}

/// Escaping the spaces of one pair's form notation gives its percent notation.
proof fn lemma_spaces_escaped_pair(p: Pair)
    ensures
        spaces_escaped(form_pair(p)) == percent_pair(p),
{
    let name = form_bytes(encode_utf8(p.0));
    let value = form_bytes(encode_utf8(p.1));
    lemma_spaces_escaped_bytes(encode_utf8(p.0));
    lemma_spaces_escaped_bytes(encode_utf8(p.1));
    lemma_spaces_escaped_concat(name + seq!['='], value);
    lemma_spaces_escaped_concat(name, seq!['=']);
    assert(!seq!['='].contains('+'));
    lemma_spaces_escaped_without_plus(seq!['=']);
}

/// Escaping the spaces of form notation gives percent notation: in form
/// notation a `+` stands for a space and for nothing else.
pub proof fn lemma_spaces_escaped_pairs(pairs: Seq<Pair>)
    ensures
        spaces_escaped(form_pairs(pairs)) == percent_pairs(pairs),
    decreases pairs.len(),
{
    if pairs.len() == 1 {
        lemma_spaces_escaped_pair(pairs.first());
    } else if pairs.len() > 1 {
        let head = form_pair(pairs.first());
        let tail = form_pairs(pairs.drop_first());
        lemma_spaces_escaped_pair(pairs.first());
        lemma_spaces_escaped_pairs(pairs.drop_first());
        lemma_spaces_escaped_concat(head + seq!['&'], tail);
        lemma_spaces_escaped_concat(head, seq!['&']);
        assert(!seq!['&'].contains('+'));
        lemma_spaces_escaped_without_plus(seq!['&']);
    }
}

/// Form notation of a byte string uses ASCII characters only.
proof fn lemma_form_bytes_ascii(bytes: Seq<u8>)
    ensures
        is_ascii_chars(form_bytes(bytes)),
    decreases bytes.len(),
{
    if bytes.len() > 0 {
        let b = bytes.first();
        lemma_form_bytes_ascii(bytes.drop_first());
        lemma_hex_digit(b as int / 16);
        lemma_hex_digit(b as int % 16);
        assert(is_ascii_chars(form_byte(b)));
    }
}

/// Form notation of pairs uses ASCII characters only.
pub proof fn lemma_form_pairs_ascii(pairs: Seq<Pair>)
    ensures
        is_ascii_chars(form_pairs(pairs)),
    decreases pairs.len(),
{
    if pairs.len() > 0 {
        let p = pairs.first();
        lemma_form_bytes_ascii(encode_utf8(p.0));
        lemma_form_bytes_ascii(encode_utf8(p.1));
        assert(is_ascii_chars(form_pair(p)));
        lemma_form_pairs_ascii(pairs.drop_first());
    }
}

/// Replaces every `+` of an ASCII string by `%20`.
pub(crate) fn escape_spaces(s: &str) -> (r: String)
    requires
        is_ascii_chars(s@),
    ensures
        r@ == spaces_escaped(s@),
{
    let n = s.unicode_len();
    let mut out = String::new();
    let mut i: usize = 0;
    while i < n
        invariant
            i <= n,
            n == s@.len(),
            is_ascii_chars(s@),
            out@ == spaces_escaped(s@.take(i as int)),
        decreases n - i,
    {
        proof {
            reveal_strlit("%20");
            assert(s@.take(i + 1).drop_last() =~= s@.take(i as int));
            assert(s@.subrange(i as int, i + 1) =~= seq![s@[i as int]]);
        }
        if s.get_ascii(i) == 0x2b {
            out.append("%20");
            assert(out@ =~= spaces_escaped(s@.take(i + 1)));
        } else {
            out.append(s.substring_ascii(i, i + 1));
            assert(out@ =~= spaces_escaped(s@.take(i + 1)));
        }
        i += 1;
    }
    proof {
        assert(s@.take(n as int) =~= s@);
    }
    out
}

/// Writes string pairs in percent notation. The encoder writes them in form
/// notation, where a space is `+`; the endpoint is sent `%20`. Since the encoder
/// escapes a `+` of the input as `%2B`, every `+` that it writes is a space.
/// The result is a `Result` because the encoder's is; on string pairs the
/// encoder does not fail.
pub fn percent_encode(pairs: &Vec<(String, String)>) -> (r: Result<String, TtsError>)
    ensures
        r is Ok,
        r->Ok_0@ == percent_pairs(pairs.deep_view()),
{
    match form_urlencode(pairs) {
        Ok(form) => {
            proof {
                lemma_form_pairs_ascii(pairs.deep_view());
                lemma_spaces_escaped_pairs(pairs.deep_view());
            }
            Ok(escape_spaces(form.as_str()))
        },
        Err(e) => Err(TtsError::from_encoder(e)),
    }
}

} // verus!
