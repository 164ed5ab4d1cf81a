//! Reading a query string back: what a receiver of percent notation decodes,
//! and the proof that it is what was written.

use crate::urlencoded::hex_digits;
use crate::urlencoded::is_plain;
use crate::urlencoded::percent_byte;
use crate::urlencoded::percent_bytes;
use crate::urlencoded::percent_pair;
use crate::urlencoded::percent_pairs;
use crate::urlencoded::percent_text;
use crate::urlencoded::Pair;
use vstd::prelude::*;
use vstd::utf8::decode_utf8;
use vstd::utf8::encode_utf8;
use vstd::utf8::encode_utf8_decode_utf8;
use vstd::utf8::encode_utf8_valid_utf8;
use vstd::utf8::valid_utf8;

verus! {

/// The value of a hexadecimal digit, in either case.
pub open spec fn hex_value(c: char) -> Option<int> {
    if '0' <= c <= '9' {
        Some(c as int - '0' as int)
    } else if 'A' <= c <= 'F' {
        Some(c as int - 'A' as int + 10)
    } else if 'a' <= c <= 'f' {
        Some(c as int - 'a' as int + 10)
    } else {
        None
    }
}

/// The bytes that a string in percent or form notation stands for: an escape
/// gives its byte, `+` a space, any other ASCII character itself. `None` where
/// the string is in neither notation.
pub open spec fn unescaped(s: Seq<char>) -> Option<Seq<u8>>
    decreases s.len(),
{
    if s.len() == 0 {
        Some(Seq::empty())
    } else if s[0] == '%' {
        if s.len() >= 3 && hex_value(s[1]) is Some && hex_value(s[2]) is Some {
            match unescaped(s.skip(3)) {
                Some(rest) => Some(
                    seq![(hex_value(s[1])->0 * 16 + hex_value(s[2])->0) as u8] + rest,
                ),
                None => None,
            }
        } else {
            None
        }
    } else if s[0] > '\u{7f}' {
        None
    } else {
        match unescaped(s.skip(1)) {
            Some(rest) => Some(
                seq![if s[0] == '+' {
                    0x20u8
                } else {
                    s[0] as u8
                }] + rest,
            ),
            None => None,
        }
    }
}

/// The text that a string in percent or form notation stands for.
pub open spec fn read_text(s: Seq<char>) -> Option<Seq<char>> {
    match unescaped(s) {
        Some(bytes) => if valid_utf8(bytes) {
            Some(decode_utf8(bytes))
        } else {
            None
        },
        None => None,
    }
}

/// Where `c` first stands in `s`; the length of `s` where it does not occur.
pub open spec fn position(s: Seq<char>, c: char) -> nat
    decreases s.len(),
{
    if s.len() == 0 || s[0] == c {
        0
    } else {
        1 + position(s.skip(1), c)
    }
}

/// A position lies within the string or at its end.
pub proof fn lemma_position_bound(s: Seq<char>, c: char)
    ensures
        position(s, c) <= s.len(),
    decreases s.len(),
{
    if s.len() > 0 && s[0] != c {
        lemma_position_bound(s.skip(1), c);
    }
}

/// The pair that `name=value` stands for, split at the first `=`.
pub open spec fn read_pair(s: Seq<char>) -> Option<Pair> {
    let at = position(s, '=') as int;
    if at == s.len() {
        None
    } else {
        match (read_text(s.take(at)), read_text(s.skip(at + 1))) {
            (Some(name), Some(value)) => Some((name, value)),
            _ => None,
        }
    }
}

/// The pairs that a query string stands for, split at each `&`.
pub open spec fn read_pairs(q: Seq<char>) -> Option<Seq<Pair>>
    decreases q.len(),
{
    if q.len() == 0 {
        Some(Seq::empty())
    } else {
        let at = position(q, '&') as int;
        match read_pair(q.take(at)) {
            None => None,
            Some(p) => if at == q.len() {
                Some(seq![p])
            } else {
                proof {
                    lemma_position_bound(q, '&');
                }
                match read_pairs(q.skip(at + 1)) {
                    Some(rest) => Some(seq![p] + rest),
                    None => None,
                }
            },
        }
    }
}

/// A hexadecimal digit has the value of its place among the digits.
proof fn lemma_hex_value(d: int)
    requires
        0 <= d < 16,
    ensures
        hex_value(hex_digits()[d]) == Some(d),
{
    reveal_strlit("0123456789ABCDEF");
}

/// Percent notation holds neither `&` nor `=`.
proof fn lemma_percent_bytes_no_separator(bytes: Seq<u8>)
    ensures
        !percent_bytes(bytes).contains('&'),
        !percent_bytes(bytes).contains('='),
    decreases bytes.len(),
{
    if bytes.len() > 0 {
        let b = bytes.first();
        let head = percent_byte(b);
        let tail = percent_bytes(bytes.drop_first());
        lemma_percent_bytes_no_separator(bytes.drop_first());
        crate::urlencoded::lemma_hex_digit(b as int / 16);
        crate::urlencoded::lemma_hex_digit(b as int % 16);
        assert(!head.contains('&') && !head.contains('='));
        assert forall|c: char| (c == '&' || c == '=') implies !(head + tail).contains(c) by {
            if (head + tail).contains(c) {
                let i = choose|i: int| 0 <= i < (head + tail).len() && (head + tail)[i] == c;
                if i < head.len() {
                    assert(head.contains(head[i]));
                } else {
                    assert(tail.contains(tail[i - head.len()]));
                }
            }
        }
    }
}

/// Unescaping percent notation gives the bytes that were written.
proof fn lemma_unescaped_percent_bytes(bytes: Seq<u8>)
    ensures
        unescaped(percent_bytes(bytes)) == Some(bytes),
    decreases bytes.len(),
{
    if bytes.len() > 0 {
        let b = bytes.first();
        let s = percent_bytes(bytes);
        let tail = percent_bytes(bytes.drop_first());
        lemma_unescaped_percent_bytes(bytes.drop_first());
        if is_plain(b) {
            assert(s.skip(1) =~= tail);
            assert(s[0] == b as char);
            assert((b as char) as u8 == b);
        } else {
            lemma_hex_value(b as int / 16);
            lemma_hex_value(b as int % 16);
            assert(s.skip(3) =~= tail);
            assert(s[0] == '%' && s[1] == hex_digits()[b as int / 16] && s[2] == hex_digits()[
                b as int % 16]);
        }
        assert(seq![b] + bytes.drop_first() =~= bytes);
    }
}

/// Reading a text's percent notation gives the text, whatever characters it holds.
pub proof fn lemma_read_percent_text(text: Seq<char>)
    ensures
        read_text(percent_text(text)) == Some(text),
{
    lemma_unescaped_percent_bytes(encode_utf8(text));
    encode_utf8_valid_utf8(text);
    encode_utf8_decode_utf8(text);
}

/// In a string without `c`, the position of `c` is the string's length.
proof fn lemma_position_absent(s: Seq<char>, c: char)
    requires
        !s.contains(c),
    ensures
        position(s, c) == s.len(),
    decreases s.len(),
{
    if s.len() > 0 {
        assert(s.contains(s[0]));
        assert(!s.skip(1).contains(c)) by {
            if s.skip(1).contains(c) {
                let i = choose|i: int| 0 <= i < s.skip(1).len() && s.skip(1)[i] == c;
                assert(s.contains(s[i + 1]));
            }
        }
        lemma_position_absent(s.skip(1), c);
    }
}

/// Behind a string without `c`, the first `c` is found where that string ends.
proof fn lemma_position_after(a: Seq<char>, c: char, b: Seq<char>)
    requires
        !a.contains(c),
    ensures
        position(a + seq![c] + b, c) == a.len(),
    decreases a.len(),
{
    let s = a + seq![c] + b;
    if a.len() > 0 {
        assert(a.contains(a[0]));
        assert(!a.skip(1).contains(c)) by {
            if a.skip(1).contains(c) {
                let i = choose|i: int| 0 <= i < a.skip(1).len() && a.skip(1)[i] == c;
                assert(a.contains(a[i + 1]));
            }
        }
        lemma_position_after(a.skip(1), c, b);
        assert(s.skip(1) =~= a.skip(1) + seq![c] + b);
    }
}

/// A pair's percent notation holds no `&`, and reading it gives the pair.
pub proof fn lemma_read_percent_pair(p: Pair)
    ensures
        !percent_pair(p).contains('&'),
        read_pair(percent_pair(p)) == Some(p),
{
    let name = percent_text(p.0);
    let value = percent_text(p.1);
    let s = percent_pair(p);
    lemma_percent_bytes_no_separator(encode_utf8(p.0));
    lemma_percent_bytes_no_separator(encode_utf8(p.1));
    lemma_position_after(name, '=', value);
    lemma_read_percent_text(p.0);
    lemma_read_percent_text(p.1);
    assert(s.take(name.len() as int) =~= name);
    assert(s.skip(name.len() as int + 1) =~= value);
    if s.contains('&') {
        let i = choose|i: int| 0 <= i < s.len() && s[i] == '&';
        if i < name.len() {
            assert(name.contains(name[i]));
        } else if i > name.len() {
            assert(value.contains(value[i - name.len() - 1]));
        }
    }
}

/// Reading the percent notation of pairs gives the pairs: their number, their
/// order, and each name and value, character for character.
pub proof fn lemma_read_percent_pairs(pairs: Seq<Pair>)
    ensures
        read_pairs(percent_pairs(pairs)) == Some(pairs),
    decreases pairs.len(),
{
    if pairs.len() == 0 {
        assert(pairs =~= Seq::<Pair>::empty());
    } else {
        let head = percent_pair(pairs.first());
        let q = percent_pairs(pairs);
        lemma_read_percent_pair(pairs.first());
        assert(head.len() > 0);
        if pairs.len() == 1 {
            lemma_position_absent(head, '&');
            assert(q.take(q.len() as int) =~= q);
            assert(seq![pairs.first()] =~= pairs);
        } else {
            let tail = percent_pairs(pairs.drop_first());
            lemma_read_percent_pairs(pairs.drop_first());
            lemma_position_after(head, '&', tail);
            assert(q.take(head.len() as int) =~= head);
            assert(q.skip(head.len() as int + 1) =~= tail);
            assert(seq![pairs.first()] + pairs.drop_first() =~= pairs);
        }
    }
}

} // verus!
