//! The client side of the synthesis endpoint: where it is, and the URL of a request.

use crate::error::TtsError;
use crate::request::lemma_query_string;
use crate::request::query_text;
use crate::request::SynthesizeTextRequest;
use vstd::prelude::*;
use vstd::string::StringExecFns;
use vstd::utf8::encode_utf8;

verus! {

/// Where the synthesis endpoint is.
pub open spec fn endpoint() -> Seq<char> {
    "https://translate.google.fr/translate_tts"@
}

/// The URL that asks the endpoint at `base` for `text` spoken in `language`:
/// the endpoint, a question mark, and the request's query string.
pub open spec fn synthesis_url(base: Seq<char>, text: Seq<char>, language: Seq<char>) -> Seq<char> {
    base + seq!['?'] + query_text(text, language)
}

/// A client of the synthesis endpoint, set up for one language. It holds
/// nothing that a request changes.
pub struct GoogleTranslateClient {
    pub base_url: String,
    pub language: String,
}

impl GoogleTranslateClient {
    /// A client of the endpoint for `language`.
    pub fn new(language: String) -> (c: Self)
        ensures
            c.base_url@ == endpoint(),
            c.language@ == language@,
    {
        GoogleTranslateClient {
            base_url: "https://translate.google.fr/translate_tts".to_owned(),
            language,
        }
    }

    /// The URL of the request for `text`.
    pub fn build_url(&self, text: &str) -> (r: Result<String, TtsError>)
        ensures
            r is Ok,
            r->Ok_0@ == synthesis_url(self.base_url@, text@, self.language@),
    {
        let request = SynthesizeTextRequest::new(text, self.language.as_str());
        match request.to_query() {
            Ok(query) => {
                let mut url = self.base_url.clone();
                url.append("?");
                url.append(query.as_str());
                proof {
                    reveal_strlit("?");
                    assert("?"@ =~= seq!['?']);
                    lemma_query_string(text@, self.language@);
                }
                Ok(url)
            },
            Err(e) => Err(e),
        }
    }
}

/// The URL of a request depends on the endpoint, the language and the text,
/// and on nothing else: two clients set up alike build, for the same text, the
/// same URL, character for character and so byte for byte.
pub proof fn lemma_same_inputs_same_url(
    a: GoogleTranslateClient,
    b: GoogleTranslateClient,
    text_a: Seq<char>,
    text_b: Seq<char>,
)
    requires
        a.base_url@ == b.base_url@,
        a.language@ == b.language@,
        text_a == text_b,
    ensures
        synthesis_url(a.base_url@, text_a, a.language@) == synthesis_url(
            b.base_url@,
            text_b,
            b.language@,
        ),
        encode_utf8(synthesis_url(a.base_url@, text_a, a.language@)) == encode_utf8(
            synthesis_url(b.base_url@, text_b, b.language@),
        ),
{
}

} // verus!
