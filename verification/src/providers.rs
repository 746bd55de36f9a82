//! The providers that a request can name.

use crate::text::{ascii_lower, ascii_lowercase, same, to_ascii_lowercase};
use vstd::prelude::*;

verus! {

/// Where Gemini is queried.
pub const GEMINI_URL: &'static str = "https://api.dataforseo.com/v3/ai_optimization/gemini/llm_scraper/live/advanced";

/// Where ChatGPT is queried.
pub const CHATGPT_URL: &'static str = "https://api.dataforseo.com/v3/ai_optimization/chat_gpt/llm_scraper/live/advanced";

/// Who answers a request: one of the two models, or both.
#[derive(Debug, Clone, Copy, PartialEq, Eq, Structural)]
pub enum Provider {
    Gemini,
    ChatGpt,
    Both,
}

impl Provider {
    /// The lower case name of a provider.
    pub open spec fn name_text(self) -> Seq<char> {
        match self {
            Provider::Gemini => "gemini"@,
            Provider::ChatGpt => "chatgpt"@,
            Provider::Both => "both"@,
        }
    }

    /// The endpoint of a single provider.
    pub open spec fn url_text(self) -> Seq<char>
        recommends
            self != Provider::Both,
    {
        match self {
            Provider::Gemini => GEMINI_URL@,
            _ => CHATGPT_URL@,
        }
    }

    /// Whether a web search can be forced.
    pub open spec fn can_force_web_search(self) -> bool {
        self != Provider::Gemini
    }

    /// The provider that `text` names, in letters of either case.
    pub open spec fn named(text: Seq<char>) -> Option<Provider> {
        let lower = ascii_lowercase(text);
        if lower == Provider::Gemini.name_text() {
            Some(Provider::Gemini)
        } else if lower == Provider::ChatGpt.name_text() {
            Some(Provider::ChatGpt)
        } else if lower == Provider::Both.name_text() {
            Some(Provider::Both)
        } else {
            None
        }
    }

    /// Reads a provider's name, in letters of either case.
    pub fn from_str(s: &str) -> (result: Option<Self>)
        ensures
            result == Provider::named(s@),
    {
        let lower = to_ascii_lowercase(s);
        let lower = lower.as_str();
        if same(lower, "gemini") {
            Some(Provider::Gemini)
        } else if same(lower, "chatgpt") {
            Some(Provider::ChatGpt)
        } else if same(lower, "both") {
            Some(Provider::Both)
        } else {
            None
        }
    }

    /// The endpoint of a single provider.
    pub fn url(&self) -> (url: &'static str)
        requires
            *self != Provider::Both,
        ensures
            url@ == self.url_text(),
    {
        match self {
            Provider::Gemini => GEMINI_URL,
            Provider::ChatGpt => CHATGPT_URL,
            Provider::Both => vstd::pervasive::unreached(),
        }
    }

    /// Whether a web search can be forced.
    pub fn supports_force_web_search(&self) -> (result: bool)
        ensures
            result == self.can_force_web_search(),
    {
        match self {
            Provider::Gemini => false,
            Provider::ChatGpt => true,
            Provider::Both => true,
        }
    }

    /// The lower case name of a provider.
    pub fn name(&self) -> (name: &'static str)
        ensures
            name@ == self.name_text(),
    {
        match self {
            Provider::Gemini => "gemini",
            Provider::ChatGpt => "chatgpt",
            Provider::Both => "both",
        }
    }
}

/// Whether two texts differ at most in the case of ASCII letters.
pub open spec fn same_but_for_case(a: Seq<char>, b: Seq<char>) -> bool {
    &&& a.len() == b.len()
    &&& forall|i: int| 0 <= i < a.len() ==> ascii_lower(#[trigger] a[i]) == ascii_lower(b[i])
}

/// The case of letters does not matter to which provider a text names.
pub proof fn case_is_ignored(a: Seq<char>, b: Seq<char>)
    requires
        same_but_for_case(a, b),
    ensures
        Provider::named(a) == Provider::named(b),
{
    assert(ascii_lowercase(a) =~= ascii_lowercase(b));
}

/// A provider's name, in letters of either case, names that provider.
pub proof fn name_names_provider(provider: Provider, text: Seq<char>)
    requires
        same_but_for_case(text, provider.name_text()),
    ensures
        Provider::named(text) == Some(provider),
{
    reveal_strlit("gemini");
    reveal_strlit("chatgpt");
    reveal_strlit("both");
    case_is_ignored(text, provider.name_text());
    assert(ascii_lowercase(provider.name_text()) =~= provider.name_text());
}

/// A text that names a provider is that provider's name, in letters of either case.
pub proof fn only_names_are_read(text: Seq<char>)
    ensures
        Provider::named(text) matches Some(provider) ==> same_but_for_case(
            text,
            provider.name_text(),
        ),
{
    reveal_strlit("gemini");
    reveal_strlit("chatgpt");
    reveal_strlit("both");
    let lower = ascii_lowercase(text);
    if let Some(provider) = Provider::named(text) {
        assert forall|i: int| 0 <= i < text.len() implies ascii_lower(#[trigger] text[i])
            == ascii_lower(provider.name_text()[i]) by {
            assert(lower[i] == provider.name_text()[i]);
        }
    }
}

/// Whether a text is a word of lower case letters, in letters of either case.
pub open spec fn spelled_like(text: Seq<char>, word: Seq<char>) -> bool {
    &&& text.len() == word.len()
    &&& forall|i: int|
        0 <= i < text.len() ==> #[trigger] text[i] == word[i] || text[i] as int + 32
            == word[i] as int
}

/// Lower case letters are read in either case, and as nothing else.
proof fn either_case(text: Seq<char>, word: Seq<char>)
    requires
        forall|i: int| 0 <= i < word.len() ==> 'a' <= #[trigger] word[i] <= 'z',
    ensures
        ascii_lowercase(text) == word <==> spelled_like(text, word),
{
    let lower = ascii_lowercase(text);
    if spelled_like(text, word) {
        assert forall|i: int| 0 <= i < text.len() implies lower[i] == word[i] by {
            assert(text[i] == word[i] || text[i] as int + 32 == word[i] as int);
            assert('a' <= word[i] <= 'z');
        }
        assert(lower =~= word);
    }
    if lower == word {
        assert forall|i: int| 0 <= i < text.len() implies #[trigger] text[i] == word[i]
            || text[i] as int + 32 == word[i] as int by {
            assert(lower[i] == word[i]);
        }
    }
}

/// The providers are named `gemini`, `chatgpt` and `both`, in letters of either case; no
/// other text names one.
pub proof fn three_names(text: Seq<char>)
    ensures
        Provider::named(text) == Some(Provider::Gemini) <==> spelled_like(text, "gemini"@),
        Provider::named(text) == Some(Provider::ChatGpt) <==> spelled_like(text, "chatgpt"@),
        Provider::named(text) == Some(Provider::Both) <==> spelled_like(text, "both"@),
{
    reveal_strlit("gemini");
    reveal_strlit("chatgpt");
    reveal_strlit("both");
    either_case(text, "gemini"@);
    either_case(text, "chatgpt"@);
    either_case(text, "both"@);
    assert("gemini"@.len() == 6 && "chatgpt"@.len() == 7 && "both"@.len() == 4);
}

/// A web search can be forced with ChatGPT, and so with both, but not with Gemini; each
/// provider has its own endpoint, and its own name.
pub proof fn providers_differ(provider: Provider)
    ensures
        provider.can_force_web_search() <==> provider == Provider::ChatGpt || provider
            == Provider::Both,
        provider == Provider::Gemini ==> provider.url_text()
            == "https://api.dataforseo.com/v3/ai_optimization/gemini/llm_scraper/live/advanced"@,
        provider == Provider::ChatGpt ==> provider.url_text()
            == "https://api.dataforseo.com/v3/ai_optimization/chat_gpt/llm_scraper/live/advanced"@,
        provider == Provider::Gemini <==> provider.name_text() == "gemini"@,
        provider == Provider::ChatGpt <==> provider.name_text() == "chatgpt"@,
        provider == Provider::Both <==> provider.name_text() == "both"@,
{
    reveal_strlit("gemini");
    reveal_strlit("chatgpt");
    reveal_strlit("both");
    assert("gemini"@.len() == 6 && "chatgpt"@.len() == 7 && "both"@.len() == 4);
}

} // verus!
