//! The synthesis request: its fields, and the query string that carries them.

use crate::decimal::decimal;
use crate::decimal::decimal_text;
use crate::decimal::decimal_value;
use crate::decimal::digits;
use crate::decimal::lemma_decimal_digits;
use crate::decimal::lemma_decimal_value;
use crate::error::TtsError;
use crate::reading::lemma_read_percent_pairs;
use crate::reading::read_pairs;
use crate::urlencoded::is_plain;
use crate::urlencoded::is_plain_text;
use crate::urlencoded::lemma_percent_text_plain;
use crate::urlencoded::percent_encode;
use crate::urlencoded::percent_pair;
use crate::urlencoded::percent_pairs;
use crate::urlencoded::percent_text;
use crate::urlencoded::Pair;
use vstd::prelude::*;
use vstd::utf8::encode_utf8;

verus! {

/// One request to the synthesis endpoint. Built by `new` and never changed
/// afterwards, so the fixed fields hold their fixed values and `textlen` is
/// the number of bytes of `query` in UTF-8.
#[derive(Debug)]
pub struct SynthesizeTextRequest {
    input_encoding: String,
    query: String,
    target_language: String,
    total: u32,
    idx: u32,
    textlen: usize,
    client: String,
}

/// A request as plain mathematical values.
pub struct SynthesizeTextRequestView {
    pub input_encoding: Seq<char>,
    pub query: Seq<char>,
    pub target_language: Seq<char>,
    pub total: nat,
    pub idx: nat,
    pub textlen: nat,
    pub client: Seq<char>,
}

/// The request for `text` in `language`: the text is one segment, the only one,
/// and its length is counted in bytes of UTF-8, not in characters.
pub open spec fn request_for(text: Seq<char>, language: Seq<char>) -> SynthesizeTextRequestView {
    SynthesizeTextRequestView {
        input_encoding: "UTF-8"@,
        query: text,
        target_language: language,
        total: 1,
        idx: 0,
        textlen: encode_utf8(text).len(),
        client: "tw-ob"@,
    }
}

impl SynthesizeTextRequestView {
    /// The fields under their names on the wire, in the order of the wire.
    pub open spec fn fields(self) -> Seq<Pair> {
        seq![
            ("ie"@, self.input_encoding),
            ("q"@, self.query),
            ("tl"@, self.target_language),
            ("total"@, decimal_text(self.total)),
            ("idx"@, decimal_text(self.idx)),
            ("textlen"@, decimal_text(self.textlen)),
            ("client"@, self.client),
        ]
    }

    /// The query string: the fields in percent notation.
    pub open spec fn query_string(self) -> Seq<char> {
        percent_pairs(self.fields())
    }
}

impl View for SynthesizeTextRequest {
    type V = SynthesizeTextRequestView;

    closed spec fn view(&self) -> SynthesizeTextRequestView {
        SynthesizeTextRequestView {
            input_encoding: self.input_encoding@,
            query: self.query@,
            target_language: self.target_language@,
            total: self.total as nat,
            idx: self.idx as nat,
            textlen: self.textlen as nat,
            client: self.client@,
        }
    }
}

impl SynthesizeTextRequest {
    #[verifier::type_invariant]
    spec fn well_formed(&self) -> bool {
        self@ == request_for(self.query@, self.target_language@)
    }

    /// The request for `text` in `language`.
    pub fn new(text: &str, language: &str) -> (r: Self)
        ensures
            r@ == request_for(text@, language@),
    {
        SynthesizeTextRequest {
            input_encoding: "UTF-8".to_owned(),
            query: text.to_owned(),
            target_language: language.to_owned(),
            total: 1,
            idx: 0,
            textlen: text.as_bytes().len(),
            client: "tw-ob".to_owned(),
        }
    }

    /// The encoding of the text, always `UTF-8`.
    pub fn input_encoding(&self) -> (s: &str)
        ensures
            s@ == self@.input_encoding,
            s@ == "UTF-8"@,
    {
        proof {
            use_type_invariant(self);
        }
        self.input_encoding.as_str()
    }

    /// The text to speak.
    pub fn query(&self) -> (s: &str)
        ensures
            s@ == self@.query,
    {
        self.query.as_str()
    }

    /// The language to speak it in.
    pub fn target_language(&self) -> (s: &str)
        ensures
            s@ == self@.target_language,
    {
        self.target_language.as_str()
    }

    /// The number of segments that the text is sent in, always 1.
    pub fn total(&self) -> (n: u32)
        ensures
            n == self@.total,
            n == 1,
    {
        proof {
            use_type_invariant(self);
        }
        self.total
    }

    /// Which of the segments this is, always 0.
    pub fn idx(&self) -> (n: u32)
        ensures
            n == self@.idx,
            n == 0,
    {
        proof {
            use_type_invariant(self);
        }
        self.idx
    }

    /// The length of the text in bytes of UTF-8.
    pub fn textlen(&self) -> (n: usize)
        ensures
            n == self@.textlen,
            n == encode_utf8(self@.query).len(),
    {
        proof {
            use_type_invariant(self);
        }
        self.textlen
    }

    /// What kind of client is asking, always `tw-ob`.
    pub fn client(&self) -> (s: &str)
        ensures
            s@ == self@.client,
            s@ == "tw-ob"@,
    {
        proof {
            use_type_invariant(self);
        }
        self.client.as_str()
    }

    /// The fields as name/value strings, in the order of the wire.
    pub fn to_pairs(&self) -> (pairs: Vec<(String, String)>)
        ensures
            self@ == request_for(self@.query, self@.target_language),
            pairs.deep_view() == self@.fields(),
    {
        proof {
            use_type_invariant(self);
        }
        let mut pairs: Vec<(String, String)> = Vec::new();
        pairs.push(("ie".to_owned(), self.input_encoding.clone()));
        pairs.push(("q".to_owned(), self.query.clone()));
        pairs.push(("tl".to_owned(), self.target_language.clone()));
        pairs.push(("total".to_owned(), decimal(self.total as u64)));
        pairs.push(("idx".to_owned(), decimal(self.idx as u64)));
        pairs.push(("textlen".to_owned(), decimal(self.textlen as u64)));
        pairs.push(("client".to_owned(), self.client.clone()));
        assert(pairs.deep_view() =~= self@.fields());
        pairs
    }

    /// The query string of the request.
    pub fn to_query(&self) -> (r: Result<String, TtsError>)
        ensures
            self@ == request_for(self@.query, self@.target_language),
            r is Ok,
            r->Ok_0@ == self@.query_string(),
    {
        let pairs = self.to_pairs();
        percent_encode(&pairs)
    }
}

/// The query string of the request for `text` in `language`, written out: the
/// fixed parts as they stand on the wire, the text and the language in percent
/// notation, and the number of bytes of the text in decimal.
pub open spec fn query_text(text: Seq<char>, language: Seq<char>) -> Seq<char> {
    "ie=UTF-8&q="@ + percent_text(text) + "&tl="@ + percent_text(language)
        + "&total=1&idx=0&textlen="@ + decimal_text(encode_utf8(text).len()) + "&client=tw-ob"@
}

/// `part` stands somewhere in `whole`, character for character.
pub open spec fn occurs_in(part: Seq<char>, whole: Seq<char>) -> bool {
    exists|at: int|
        0 <= at && at + part.len() <= whole.len() && #[trigger] whole.subrange(
            at,
            at + part.len(),
        ) == part
}

/// The names of the fields, the fixed values and every number in decimal are
/// plain texts.
proof fn lemma_fixed_parts_plain(n: nat)
    ensures
        is_plain_text("ie"@),
        is_plain_text("q"@),
        is_plain_text("tl"@),
        is_plain_text("total"@),
        is_plain_text("idx"@),
        is_plain_text("textlen"@),
        is_plain_text("client"@),
        is_plain_text("UTF-8"@),
        is_plain_text("tw-ob"@),
        is_plain_text(decimal_text(n)),
{
    reveal_strlit("ie");
    reveal_strlit("q");
    reveal_strlit("tl");
    reveal_strlit("total");
    reveal_strlit("idx");
    reveal_strlit("textlen");
    reveal_strlit("client");
    reveal_strlit("UTF-8");
    reveal_strlit("tw-ob");
    lemma_decimal_digits(n);
    assert forall|i: int| 0 <= i < decimal_text(n).len() implies '\0' <= #[trigger] decimal_text(
        n,
    )[i] <= '\u{7f}' && is_plain(decimal_text(n)[i] as u8) by {
        reveal_strlit("0123456789");
        let c = decimal_text(n)[i];
        assert(digits().contains(c));
        let d = choose|d: int| 0 <= d < digits().len() && digits()[d] == c;
        assert(digits()[d] == c);
    }
}

/// A pair under a plain name: the name as it is, `=`, and the value in percent
/// notation.
proof fn lemma_named_pair(name: Seq<char>, value: Seq<char>)
    requires
        is_plain_text(name),
    ensures
        percent_pair((name, value)) == name + seq!['='] + percent_text(value),
        is_plain_text(value) ==> percent_pair((name, value)) == name + seq!['='] + value,
{
    lemma_percent_text_plain(name);
    if is_plain_text(value) {
        lemma_percent_text_plain(value);
    }
}

/// Seven pairs in percent notation, one after the other.
proof fn lemma_seven_pairs(f: Seq<Pair>)
    requires
        f.len() == 7,
    ensures
        percent_pairs(f) == percent_pair(f[0]) + seq!['&'] + percent_pair(f[1]) + seq!['&']
            + percent_pair(f[2]) + seq!['&'] + percent_pair(f[3]) + seq!['&'] + percent_pair(f[4])
            + seq!['&'] + percent_pair(f[5]) + seq!['&'] + percent_pair(f[6]),
{
    let f1 = f.drop_first();
    let f2 = f1.drop_first();
    let f3 = f2.drop_first();
    let f4 = f3.drop_first();
    let f5 = f4.drop_first();
    let f6 = f5.drop_first();
    let amp = seq!['&'];
    assert(percent_pairs(f6) == percent_pair(f[6]));
    assert(percent_pairs(f5) =~= percent_pair(f[5]) + amp + percent_pair(f[6]));
    assert(percent_pairs(f4) =~= percent_pair(f[4]) + amp + percent_pair(f[5]) + amp
        + percent_pair(f[6]));
    assert(percent_pairs(f3) =~= percent_pair(f[3]) + amp + percent_pair(f[4]) + amp
        + percent_pair(f[5]) + amp + percent_pair(f[6]));
    assert(percent_pairs(f2) =~= percent_pair(f[2]) + amp + percent_pair(f[3]) + amp
        + percent_pair(f[4]) + amp + percent_pair(f[5]) + amp + percent_pair(f[6]));
    assert(percent_pairs(f1) =~= percent_pair(f[1]) + amp + percent_pair(f[2]) + amp
        + percent_pair(f[3]) + amp + percent_pair(f[4]) + amp + percent_pair(f[5]) + amp
        + percent_pair(f[6]));
    assert(percent_pairs(f) =~= percent_pair(f[0]) + amp + percent_pair(f[1]) + amp
        + percent_pair(f[2]) + amp + percent_pair(f[3]) + amp + percent_pair(f[4]) + amp
        + percent_pair(f[5]) + amp + percent_pair(f[6]));
}

/// The seven fields, joined, are the query string as `query_text` writes it.
proof fn lemma_joined_fields(q: Seq<char>, tl: Seq<char>, textlen: Seq<char>)
    ensures
        "ie=UTF-8"@ + seq!['&'] + ("q="@ + q) + seq!['&'] + ("tl="@ + tl) + seq!['&'] + "total=1"@
            + seq!['&'] + "idx=0"@ + seq!['&'] + ("textlen="@ + textlen) + seq!['&']
            + "client=tw-ob"@ == "ie=UTF-8&q="@ + q + "&tl="@ + tl + "&total=1&idx=0&textlen="@
            + textlen + "&client=tw-ob"@,
{
    let amp = seq!['&'];
    let a = "ie=UTF-8"@ + amp + "q="@;
    assert(a =~= "ie=UTF-8&q="@) by {
        reveal_strlit("ie=UTF-8");
        reveal_strlit("q=");
        reveal_strlit("ie=UTF-8&q=");
    }
    let b = amp + "tl="@;
    assert(b =~= "&tl="@) by {
        reveal_strlit("tl=");
        reveal_strlit("&tl=");
    }
    let c = amp + "total=1"@ + amp + "idx=0"@ + amp + "textlen="@;
    assert(c =~= "&total=1&idx=0&textlen="@) by {
        reveal_strlit("total=1");
        reveal_strlit("idx=0");
        reveal_strlit("textlen=");
        reveal_strlit("&total=1&idx=0&textlen=");
    }
    let d = amp + "client=tw-ob"@;
    assert(d =~= "&client=tw-ob"@) by {
        reveal_strlit("client=tw-ob");
        reveal_strlit("&client=tw-ob");
    }
    assert("ie=UTF-8"@ + amp + ("q="@ + q) + amp + ("tl="@ + tl) + amp + "total=1"@ + amp
        + "idx=0"@ + amp + ("textlen="@ + textlen) + amp + "client=tw-ob"@ =~= a + q + b + tl + c
        + textlen + d);
}

/// The seven fields of a request, each in percent notation.
proof fn lemma_each_field(text: Seq<char>, language: Seq<char>)
    ensures
        ({
            let f = request_for(text, language).fields();
            &&& f.len() == 7
            &&& percent_pair(f[0]) == "ie=UTF-8"@
            &&& percent_pair(f[1]) == "q="@ + percent_text(text)
            &&& percent_pair(f[2]) == "tl="@ + percent_text(language)
            &&& percent_pair(f[3]) == "total=1"@
            &&& percent_pair(f[4]) == "idx=0"@
            &&& percent_pair(f[5]) == "textlen="@ + decimal_text(encode_utf8(text).len())
            &&& percent_pair(f[6]) == "client=tw-ob"@
        }),
{
    let n = encode_utf8(text).len();
    let eq = seq!['='];
    lemma_fixed_parts_plain(n);
    lemma_fixed_parts_plain(1);
    lemma_fixed_parts_plain(0);
    lemma_named_pair("ie"@, "UTF-8"@);
    lemma_named_pair("q"@, text);
    lemma_named_pair("tl"@, language);
    lemma_named_pair("total"@, decimal_text(1));
    lemma_named_pair("idx"@, decimal_text(0));
    lemma_named_pair("textlen"@, decimal_text(n));
    lemma_named_pair("client"@, "tw-ob"@);
    assert("ie"@ + eq + "UTF-8"@ =~= "ie=UTF-8"@) by {
        reveal_strlit("ie");
        reveal_strlit("UTF-8");
        reveal_strlit("ie=UTF-8");
    }
    assert("q"@ + eq =~= "q="@) by {
        reveal_strlit("q");
        reveal_strlit("q=");
    }
    assert("tl"@ + eq =~= "tl="@) by {
        reveal_strlit("tl");
        reveal_strlit("tl=");
    }
    assert("total"@ + eq + decimal_text(1) =~= "total=1"@) by {
        reveal_strlit("total");
        reveal_strlit("total=1");
        reveal_strlit("0123456789");
    }
    assert("idx"@ + eq + decimal_text(0) =~= "idx=0"@) by {
        reveal_strlit("idx");
        reveal_strlit("idx=0");
        reveal_strlit("0123456789");
    }
    assert("textlen"@ + eq =~= "textlen="@) by {
        reveal_strlit("textlen");
        reveal_strlit("textlen=");
    }
    assert("client"@ + eq + "tw-ob"@ =~= "client=tw-ob"@) by {
        reveal_strlit("client");
        reveal_strlit("tw-ob");
        reveal_strlit("client=tw-ob");
    }
}

/// The query string of a request for `text` in `language` is `query_text`: the
/// fields stand in the order of the wire, and nothing but the text and the
/// language is escaped.
pub proof fn lemma_query_string(text: Seq<char>, language: Seq<char>)
    ensures
        request_for(text, language).query_string() == query_text(text, language),
{
    lemma_each_field(text, language);
    lemma_seven_pairs(request_for(text, language).fields());
    lemma_joined_fields(
        percent_text(text),
        percent_text(language),
        decimal_text(encode_utf8(text).len()),
    );
}

/// A part found at a given place occurs.
proof fn lemma_occurs_at(part: Seq<char>, whole: Seq<char>, at: int)
    requires
        0 <= at,
        at + part.len() <= whole.len(),
        whole.subrange(at, at + part.len()) == part,
    ensures
        occurs_in(part, whole),
{
}

/// Whatever the text and the language, the fixed fields stand in the query
/// string as the wire has them: `ie=UTF-8` first, `client=tw-ob` last, and
/// `total=1` and `idx=0` between the language and the length.
pub proof fn lemma_fixed_fields(text: Seq<char>, language: Seq<char>)
    ensures
        occurs_in("ie=UTF-8"@, query_text(text, language)),
        occurs_in("total=1"@, query_text(text, language)),
        occurs_in("idx=0"@, query_text(text, language)),
        occurs_in("client=tw-ob"@, query_text(text, language)),
        query_text(text, language).take(9) == "ie=UTF-8&"@,
        query_text(text, language).skip(query_text(text, language).len() - 13) == "&client=tw-ob"@,
{
    let whole = query_text(text, language);
    let before = "ie=UTF-8&q="@ + percent_text(text) + "&tl="@ + percent_text(language);
    let length = decimal_text(encode_utf8(text).len());
    let at = before.len() as int;
    reveal_strlit("ie=UTF-8&q=");
    reveal_strlit("&total=1&idx=0&textlen=");
    reveal_strlit("&client=tw-ob");
    assert(whole.subrange(0, 8) =~= "ie=UTF-8"@) by {
        reveal_strlit("ie=UTF-8");
    }
    assert("ie=UTF-8"@.len() == 8 && "total=1"@.len() == 7 && "idx=0"@.len() == 5
        && "client=tw-ob"@.len() == 12) by {
        reveal_strlit("ie=UTF-8");
        reveal_strlit("total=1");
        reveal_strlit("idx=0");
        reveal_strlit("client=tw-ob");
    }
    assert(whole.take(9) =~= "ie=UTF-8&"@) by {
        reveal_strlit("ie=UTF-8&");
    }
    assert(whole.subrange(at + 1, at + 1 + 7) =~= "total=1"@) by {
        reveal_strlit("total=1");
    }
    assert(whole.subrange(at + 9, at + 9 + 5) =~= "idx=0"@) by {
        reveal_strlit("idx=0");
    }
    assert(whole.len() == at + 23 + length.len() + 13);
    assert(whole.subrange(whole.len() - 12, whole.len() - 12 + 12) =~= "client=tw-ob"@) by {
        reveal_strlit("client=tw-ob");
    }
    assert(whole.skip(whole.len() - 13) =~= "&client=tw-ob"@);
    lemma_occurs_at("ie=UTF-8"@, whole, 0);
    lemma_occurs_at("total=1"@, whole, at + 1);
    lemma_occurs_at("idx=0"@, whole, at + 9);
    lemma_occurs_at("client=tw-ob"@, whole, whole.len() - 12);
}

/// Reading the query string of a request back gives its seven fields and
/// nothing else. Among them `q` holds the text, character for character,
/// whatever it is made of, and `textlen` holds, in decimal, the number of bytes
/// of the text in UTF-8.
pub proof fn lemma_query_reads_back(text: Seq<char>, language: Seq<char>)
    ensures
        read_pairs(query_text(text, language)) == Some(request_for(text, language).fields()),
        request_for(text, language).fields()[1] == ("q"@, text),
        request_for(text, language).fields()[2] == ("tl"@, language),
        request_for(text, language).fields()[5].0 == "textlen"@,
        decimal_value(request_for(text, language).fields()[5].1) == encode_utf8(text).len(),
{
    lemma_query_string(text, language);
    lemma_read_percent_pairs(request_for(text, language).fields());
    lemma_decimal_value(encode_utf8(text).len());
}

} // verus!
