//! Requests: reading them from the body that a caller sends.

use crate::errors::{json_error, refusal_view, tells, Refusal, RefusalView};
use crate::json::{
    as_bool, as_i64, as_str, bool_of, contents, get, i64_of, parse, parsed, string_of,
    with_optional, Json,
};
use crate::keyword::{
    clean_is_unchanged, is_clean, sanitize_keyword, sanitized, sanitized_is_clean,
};
use crate::providers::{name_names_provider, spelled_like, three_names, Provider};
use crate::response::Response;
use crate::text::{characters, optional_str, optional_text};
use serde_json::Value;
use vstd::prelude::*;
use vstd::string::StrSliceExecFns;

verus! {

/// How many characters a keyword may have once it is sanitized.
pub const KEYWORD_LIMIT: usize = 2000;

/// How many characters a tag may have.
pub const TAG_LIMIT: usize = 255;

/// A request that has passed validation.
#[derive(Debug)]
pub struct LlmRequest {
    pub provider: Provider,
    pub keyword: String,
    pub location: Location,
    pub language: String,
    pub force_web_search: bool,
    pub tag: Option<String>,
}

/// Where a request is to be answered from: a location code, or a location's name.
#[derive(Debug)]
pub enum Location {
    Code(i64),
    Name(String),
}

/// What a request asks.
pub struct LlmRequestView {
    pub provider: Provider,
    pub keyword: Seq<char>,
    pub location: LocationView,
    pub language: Seq<char>,
    pub force_web_search: bool,
    pub tag: Option<Seq<char>>,
}

/// What a location says.
pub enum LocationView {
    Code(i64),
    Name(Seq<char>),
}

impl View for Location {
    type V = LocationView;

    open spec fn view(&self) -> LocationView {
        match self {
            Location::Code(code) => LocationView::Code(*code),
            Location::Name(name) => LocationView::Name(name@),
        }
    }
}

impl View for LlmRequest {
    type V = LlmRequestView;

    open spec fn view(&self) -> LlmRequestView {
        LlmRequestView {
            provider: self.provider,
            keyword: self.keyword@,
            location: self.location@,
            language: self.language@,
            force_web_search: self.force_web_search,
            tag: optional_text(self.tag),
        }
    }
}

/// A request says its own fields.
pub proof fn request_says(request: LlmRequest)
    ensures
        request@.provider == request.provider,
        request@.keyword == request.keyword@,
        request@.language == request.language@,
        request@.force_web_search == request.force_web_search,
        request.tag matches Some(tag) ==> request@.tag == Some(tag@),
        request.tag is None ==> request@.tag is None,
        request.location matches Location::Code(code) ==> request@.location == LocationView::Code(
            code,
        ),
        request.location matches Location::Name(name) ==> request@.location == LocationView::Name(
            name@,
        ),
{
}

impl Clone for Location {
    fn clone(&self) -> (copy: Self)
        ensures
            copy@ == self@,
    {
        match self {
            Location::Code(code) => Location::Code(*code),
            Location::Name(name) => Location::Name(name.clone()),
        }
    }
}

impl Clone for LlmRequest {
    fn clone(&self) -> (copy: Self)
        ensures
            copy@ == self@,
    {
        LlmRequest {
            provider: self.provider,
            keyword: self.keyword.clone(),
            location: self.location.clone(),
            language: self.language.clone(),
            force_web_search: self.force_web_search,
            tag: match &self.tag {
                Some(tag) => Some(tag.clone()),
                None => None,
            },
        }
    }
}

/// A refusal of the client's request.
pub open spec fn bad_request(message: Seq<char>, code: Seq<char>) -> RefusalView {
    (400, message, code)
}

/// The field of a body, where it has one.
pub open spec fn field(body: Json, name: Seq<char>) -> Option<Json> {
    match body {
        Json::Object(members) => if members.contains_key(name) {
            Some(members[name])
        } else {
            None
        },
        _ => None,
    }
}

/// Two to five lower case ASCII letters.
pub open spec fn is_language(text: Seq<char>) -> bool {
    &&& 2 <= text.len() <= 5
    &&& forall|i: int| 0 <= i < text.len() ==> 'a' <= #[trigger] text[i] <= 'z'
}

/// What the field `provider` says: a provider's name.
pub open spec fn provider_field(body: Json) -> Result<Provider, RefusalView> {
    match field(body, "provider"@) {
        None => Err(bad_request("Missing required field: provider"@, "missing_provider"@)),
        Some(value) => match string_of(value) {
            None => Err(bad_request("Field 'provider' must be a string"@, "invalid_provider"@)),
            Some(text) => match Provider::named(text) {
                None => Err(
                    bad_request(
                        "Invalid provider. Must be 'gemini', 'chatgpt', or 'both'"@,
                        "invalid_provider"@,
                    ),
                ),
                Some(provider) => Ok(provider),
            },
        },
    }
}

/// What the field `keyword` says: a text, of which something is left once it is
/// sanitized, and no more than `KEYWORD_LIMIT` characters.
pub open spec fn keyword_field(body: Json) -> Result<Seq<char>, RefusalView> {
    match field(body, "keyword"@) {
        None => Err(bad_request("Missing required field: keyword"@, "missing_keyword"@)),
        Some(value) => match string_of(value) {
            None => Err(bad_request("Field 'keyword' must be a string"@, "missing_keyword"@)),
            Some(text) => if sanitized(text).len() == 0 {
                Err(bad_request("Keyword is empty after sanitization"@, "invalid_keyword"@))
            } else if sanitized(text).len() > KEYWORD_LIMIT {
                Err(bad_request("Keyword exceeds 2000 character limit"@, "invalid_keyword"@))
            } else {
                Ok(sanitized(text))
            },
        },
    }
}

/// What the field `location` says: a positive code, or a name.
pub open spec fn location_field(body: Json) -> Result<LocationView, RefusalView> {
    match field(body, "location"@) {
        None => Err(bad_request("Missing required field: location"@, "missing_location"@)),
        Some(value) => if let Some(code) = i64_of(value) {
            if code <= 0 {
                Err(bad_request("Location code must be a positive integer"@, "invalid_location"@))
            } else {
                Ok(LocationView::Code(code))
            }
        } else if let Some(name) = string_of(value) {
            if name.len() == 0 {
                Err(bad_request("Location name must be non-empty"@, "invalid_location"@))
            } else {
                Ok(LocationView::Name(name))
            }
        } else {
            Err(
                bad_request(
                    "Location must be a positive integer or non-empty string"@,
                    "invalid_location"@,
                ),
            )
        },
    }
}

/// What the field `language` says: a language code; English where there is no field.
pub open spec fn language_field(body: Json) -> Result<Seq<char>, RefusalView> {
    match field(body, "language"@) {
        None => Ok("en"@),
        Some(value) => match string_of(value) {
            None => Err(bad_request("Field 'language' must be a string"@, "invalid_language"@)),
            Some(text) => if is_language(text) {
                Ok(text)
            } else {
                Err(
                    bad_request(
                        "Language must be 2-5 lowercase letters (e.g., 'en', 'fr')"@,
                        "invalid_language"@,
                    ),
                )
            },
        },
    }
}

/// What the field `force_web_search` says: false where there is no field, and not
/// true for a provider that cannot be forced.
pub open spec fn force_field(body: Json, provider: Provider) -> Result<bool, RefusalView> {
    match field(body, "force_web_search"@) {
        None => Ok(false),
        Some(value) => match bool_of(value) {
            None => Err(
                bad_request(
                    "Field 'force_web_search' must be a boolean"@,
                    "invalid_force_web_search"@,
                ),
            ),
            Some(force) => if force && !provider.can_force_web_search() {
                Err(
                    bad_request(
                        "force_web_search is only supported for the chatgpt provider"@,
                        "invalid_field_for_provider"@,
                    ),
                )
            } else {
                Ok(force)
            },
        },
    }
}

/// What the field `tag` says: at most `TAG_LIMIT` characters; nothing where there is
/// no field.
pub open spec fn tag_field(body: Json) -> Result<Option<Seq<char>>, RefusalView> {
    match field(body, "tag"@) {
        None => Ok(None),
        Some(value) => match string_of(value) {
            None => Err(bad_request("Field 'tag' must be a string"@, "invalid_tag"@)),
            Some(text) => if text.len() > TAG_LIMIT {
                Err(bad_request("Tag exceeds 255 character limit"@, "invalid_tag"@))
            } else {
                Ok(Some(text))
            },
        },
    }
}

/// The request that a body spells, or the refusal of the first field, in this order,
/// that is not as it should be.
pub open spec fn request_of(body: Json) -> Result<LlmRequestView, RefusalView> {
    match provider_field(body) {
        Err(refusal) => Err(refusal),
        Ok(provider) => match keyword_field(body) {
            Err(refusal) => Err(refusal),
            Ok(keyword) => match location_field(body) {
                Err(refusal) => Err(refusal),
                Ok(location) => match language_field(body) {
                    Err(refusal) => Err(refusal),
                    Ok(language) => match force_field(body, provider) {
                        Err(refusal) => Err(refusal),
                        Ok(force_web_search) => match tag_field(body) {
                            Err(refusal) => Err(refusal),
                            Ok(tag) => Ok(
                                LlmRequestView {
                                    provider,
                                    keyword,
                                    location,
                                    language,
                                    force_web_search,
                                    tag,
                                },
                            ),
                        },
                    },
                },
            },
        },
    }
}

/// Whether a request is as it should be: its keyword clean, not empty and within its
/// limit, its location positive or named, its language a language, a web search forced
/// only where it can be, and its tag within its limit.
pub open spec fn is_valid(request: LlmRequestView) -> bool {
    &&& 1 <= request.keyword.len() <= KEYWORD_LIMIT
    &&& is_clean(request.keyword)
    &&& match request.location {
        LocationView::Code(code) => code > 0,
        LocationView::Name(name) => name.len() > 0,
    }
    &&& is_language(request.language)
    &&& request.force_web_search ==> request.provider.can_force_web_search()
    &&& request.tag matches Some(tag) ==> tag.len() <= TAG_LIMIT
}

/// A request that is accepted is valid.
pub proof fn accepted_is_valid(body: Json)
    ensures
        request_of(body) matches Ok(request) ==> is_valid(request),
{
    reveal_strlit("en");
    if let Some(value) = field(body, "keyword"@) {
        if let Some(text) = string_of(value) {
            sanitized_is_clean(text);
        }
    }
}

/// The body that spells a request out.
pub open spec fn spelled(request: LlmRequestView) -> Json {
    let required = map![
        "provider"@ => Json::Str(request.provider.name_text()),
        "keyword"@ => Json::Str(request.keyword),
        "location"@ => match request.location {
            LocationView::Code(code) => Json::Int(code as int),
            LocationView::Name(name) => Json::Str(name),
        },
        "language"@ => Json::Str(request.language),
        "force_web_search"@ => Json::Bool(request.force_web_search),
    ];
    Json::Object(
        with_optional(
            required,
            "tag"@,
            match request.tag {
                Some(tag) => Some(Json::Str(tag)),
                None => None,
            },
        ),
    )
}

/// The names of the fields differ.
proof fn field_names_differ()
    ensures
        "provider"@ != "keyword"@,
        "provider"@ != "location"@,
        "provider"@ != "language"@,
        "provider"@ != "force_web_search"@,
        "provider"@ != "tag"@,
        "keyword"@ != "location"@,
        "keyword"@ != "language"@,
        "keyword"@ != "force_web_search"@,
        "keyword"@ != "tag"@,
        "location"@ != "language"@,
        "location"@ != "force_web_search"@,
        "location"@ != "tag"@,
        "language"@ != "force_web_search"@,
        "language"@ != "tag"@,
        "force_web_search"@ != "tag"@,
{
    reveal_strlit("provider");
    reveal_strlit("keyword");
    reveal_strlit("location");
    reveal_strlit("language");
    reveal_strlit("force_web_search");
    reveal_strlit("tag");
    assert("provider"@[0] == 'p');
    assert("keyword"@.len() == 7);
    assert("location"@[0] == 'l' && "location"@[1] == 'o');
    assert("language"@[0] == 'l' && "language"@[1] == 'a');
    assert("force_web_search"@.len() == 16);
    assert("tag"@.len() == 3);
}

/// Every valid request is accepted where it is spelled out, and is read as it was meant.
pub proof fn spelled_is_read(request: LlmRequestView)
    requires
        is_valid(request),
    ensures
        request_of(spelled(request)) == Ok::<_, RefusalView>(request),
{
    let body = spelled(request);
    field_names_differ();
    name_names_provider(request.provider, request.provider.name_text());
    clean_is_unchanged(request.keyword);
    assert(provider_field(body) == Ok::<_, RefusalView>(request.provider));
    assert(keyword_field(body) == Ok::<_, RefusalView>(request.keyword));
    assert(location_field(body) == Ok::<_, RefusalView>(request.location));
    assert(language_field(body) == Ok::<_, RefusalView>(request.language));
    assert(force_field(body, request.provider) == Ok::<_, RefusalView>(request.force_web_search));
    assert(tag_field(body) == Ok::<_, RefusalView>(request.tag));
}

/// A body in which every field that validation reads is the same is read the same,
/// whatever else it holds.
pub proof fn other_fields_are_ignored(a: Json, b: Json)
    requires
        field(a, "provider"@) == field(b, "provider"@),
        field(a, "keyword"@) == field(b, "keyword"@),
        field(a, "location"@) == field(b, "location"@),
        field(a, "language"@) == field(b, "language"@),
        field(a, "force_web_search"@) == field(b, "force_web_search"@),
        field(a, "tag"@) == field(b, "tag"@),
    ensures
        request_of(a) == request_of(b),
{
}

/// Whether a body names a provider.
pub open spec fn names_provider(members: Map<Seq<char>, Json>, provider: Provider) -> bool {
    &&& members.contains_key("provider"@)
    &&& members["provider"@] matches Json::Str(text)
    &&& match provider {
        Provider::Gemini => spelled_like(text, "gemini"@),
        Provider::ChatGpt => spelled_like(text, "chatgpt"@),
        Provider::Both => spelled_like(text, "both"@),
    }
}

/// Whether a body holds a text of which a keyword is left that is neither empty nor too
/// long.
pub open spec fn gives_keyword(members: Map<Seq<char>, Json>, keyword: Seq<char>) -> bool {
    &&& members.contains_key("keyword"@)
    &&& members["keyword"@] matches Json::Str(text)
    &&& sanitized(text) == keyword
    &&& 1 <= keyword.len() <= 2000
}

/// Whether a body gives a location: a positive code, or a name.
pub open spec fn gives_location(members: Map<Seq<char>, Json>, location: LocationView) -> bool {
    &&& members.contains_key("location"@)
    &&& match location {
        LocationView::Code(code) => code > 0 && members["location"@] == Json::Int(code as int),
        LocationView::Name(name) => name.len() > 0 && members["location"@] == Json::Str(name),
    }
}

/// Whether a body gives a language: one that it holds, of two to five lower case ASCII
/// letters, or English where it holds none.
pub open spec fn gives_language(members: Map<Seq<char>, Json>, language: Seq<char>) -> bool {
    if members.contains_key("language"@) {
        &&& members["language"@] == Json::Str(language)
        &&& 2 <= language.len() <= 5
        &&& forall|i: int| 0 <= i < language.len() ==> 97 <= (#[trigger] language[i]) as int <= 122
    } else {
        language == "en"@
    }
}

/// Whether a body says whether to force a web search: what it holds, which is not true
/// for Gemini, and no where it holds nothing.
pub open spec fn gives_force(
    members: Map<Seq<char>, Json>,
    provider: Provider,
    force: bool,
) -> bool {
    if members.contains_key("force_web_search"@) {
        &&& members["force_web_search"@] == Json::Bool(force)
        &&& force ==> provider != Provider::Gemini
    } else {
        !force
    }
}

/// Whether a body gives a tag: one that it holds and that is not too long, or none where
/// it holds none.
pub open spec fn gives_tag(members: Map<Seq<char>, Json>, tag: Option<Seq<char>>) -> bool {
    if members.contains_key("tag"@) {
        &&& tag matches Some(text)
        &&& members["tag"@] == Json::Str(text)
        &&& text.len() <= 255
    } else {
        tag is None
    }
}

/// The provider is read as the body names it.
proof fn provider_is_read(members: Map<Seq<char>, Json>, provider: Provider)
    ensures
        provider_field(Json::Object(members)) == Ok::<_, RefusalView>(provider)
            <==> names_provider(members, provider),
{
    if members.contains_key("provider"@) {
        if let Json::Str(text) = members["provider"@] {
            three_names(text);
        }
    }
}

/// The language is read as the body gives it.
proof fn language_is_read(members: Map<Seq<char>, Json>, language: Seq<char>)
    ensures
        language_field(Json::Object(members)) == Ok::<_, RefusalView>(language)
            <==> gives_language(members, language),
{
    if members.contains_key("language"@) {
        if let Json::Str(text) = members["language"@] {
            assert forall|i: int| 0 <= i < text.len() implies ('a' <= #[trigger] text[i] <= 'z'
                <==> 97 <= text[i] as int <= 122) by {}
        }
    }
}

/// A body is accepted exactly where it names a provider, gives a keyword and a location,
/// and gives or leaves out a language, whether to force a web search, and a tag; and it
/// is read as the request with these.
pub proof fn read_as_given(members: Map<Seq<char>, Json>, request: LlmRequestView)
    ensures
        request_of(Json::Object(members)) == Ok::<_, RefusalView>(request) <==> {
            &&& names_provider(members, request.provider)
            &&& gives_keyword(members, request.keyword)
            &&& gives_location(members, request.location)
            &&& gives_language(members, request.language)
            &&& gives_force(members, request.provider, request.force_web_search)
            &&& gives_tag(members, request.tag)
        },
{
    let body = Json::Object(members);
    provider_is_read(members, request.provider);
    language_is_read(members, request.language);
    assert(keyword_field(body) == Ok::<_, RefusalView>(request.keyword) <==> gives_keyword(
        members,
        request.keyword,
    ));
    assert(location_field(body) == Ok::<_, RefusalView>(request.location) <==> gives_location(
        members,
        request.location,
    ));
    assert(force_field(body, request.provider) == Ok::<_, RefusalView>(request.force_web_search)
        <==> gives_force(members, request.provider, request.force_web_search));
    assert(tag_field(body) == Ok::<_, RefusalView>(request.tag) <==> gives_tag(
        members,
        request.tag,
    ));
}

/// What a body leaves out has its default: English, no forced web search, and no tag.
pub proof fn defaults(members: Map<Seq<char>, Json>, request: LlmRequestView)
    requires
        request_of(Json::Object(members)) == Ok::<_, RefusalView>(request),
    ensures
        !members.contains_key("language"@) ==> request.language == "en"@,
        !members.contains_key("force_web_search"@) ==> !request.force_web_search,
        !members.contains_key("tag"@) ==> request.tag is None,
{
    read_as_given(members, request);
}

/// The refusal of a body.
pub open spec fn refused(refusal: RefusalView) -> Result<LlmRequestView, RefusalView> {
    Err(refusal)
}

/// A body is refused for the first field that is not as it should be, in the order
/// provider, keyword, location, language, forced web search, tag, and is told what is
/// wrong with it.
pub proof fn first_bad_field_is_told(
    members: Map<Seq<char>, Json>,
    provider: Provider,
    keyword: Seq<char>,
    location: LocationView,
    language: Seq<char>,
    force: bool,
)
    ensures
        ({
            let result = request_of(Json::Object(members));
            let after_provider = names_provider(members, provider);
            let after_keyword = after_provider && gives_keyword(members, keyword);
            let after_location = after_keyword && gives_location(members, location);
            let after_language = after_location && gives_language(members, language);
            let after_force = after_language && gives_force(members, provider, force);
            &&& (forall|p: Provider| !names_provider(members, p)) ==> result == refused(if !members.contains_key("provider"@) {
                (400u16, "Missing required field: provider"@, "missing_provider"@)
            } else if members["provider"@] !is Str {
                (400u16, "Field 'provider' must be a string"@, "invalid_provider"@)
            } else {
                (
                    400u16,
                    "Invalid provider. Must be 'gemini', 'chatgpt', or 'both'"@,
                    "invalid_provider"@,
                )
            })
            &&& after_provider && (forall|k: Seq<char>| !gives_keyword(members, k)) ==> result == refused(if !members.contains_key("keyword"@) {
                (400u16, "Missing required field: keyword"@, "missing_keyword"@)
            } else if members["keyword"@] !is Str {
                (400u16, "Field 'keyword' must be a string"@, "missing_keyword"@)
            } else if sanitized(members["keyword"@]->Str_0).len() == 0 {
                (400u16, "Keyword is empty after sanitization"@, "invalid_keyword"@)
            } else {
                (400u16, "Keyword exceeds 2000 character limit"@, "invalid_keyword"@)
            })
            &&& after_keyword && (forall|l: LocationView| !gives_location(members, l)) ==> result == refused(if !members.contains_key("location"@) {
                (400u16, "Missing required field: location"@, "missing_location"@)
            } else if members["location"@] is Int && i64::MIN <= members["location"@]->Int_0 <= 0 {
                (400u16, "Location code must be a positive integer"@, "invalid_location"@)
            } else if members["location"@] is Str {
                (400u16, "Location name must be non-empty"@, "invalid_location"@)
            } else {
                (
                    400u16,
                    "Location must be a positive integer or non-empty string"@,
                    "invalid_location"@,
                )
            })
            &&& after_location && (forall|l: Seq<char>| !gives_language(members, l)) ==> result == refused(if members["language"@] !is Str {
                (400u16, "Field 'language' must be a string"@, "invalid_language"@)
            } else {
                (
                    400u16,
                    "Language must be 2-5 lowercase letters (e.g., 'en', 'fr')"@,
                    "invalid_language"@,
                )
            })
            &&& after_language && (forall|f: bool| !gives_force(members, provider, f)) ==> result == refused(if members["force_web_search"@] !is Bool {
                (
                    400u16,
                    "Field 'force_web_search' must be a boolean"@,
                    "invalid_force_web_search"@,
                )
            } else {
                (
                    400u16,
                    "force_web_search is only supported for the chatgpt provider"@,
                    "invalid_field_for_provider"@,
                )
            })
            &&& after_force && (forall|t: Option<Seq<char>>| !gives_tag(members, t)) ==> result == refused(if members["tag"@] !is Str {
                (400u16, "Field 'tag' must be a string"@, "invalid_tag"@)
            } else {
                (400u16, "Tag exceeds 255 character limit"@, "invalid_tag"@)
            })
        }),
{
    let body = Json::Object(members);
    provider_is_read(members, provider);
    language_is_read(members, language);
    if let Ok(p) = provider_field(body) {
        provider_is_read(members, p);
        assert(names_provider(members, p));
    }
    if let Ok(k) = keyword_field(body) {
        assert(gives_keyword(members, k));
    }
    if let Ok(l) = location_field(body) {
        assert(gives_location(members, l));
    }
    if let Ok(l) = language_field(body) {
        language_is_read(members, l);
        assert(gives_language(members, l));
    }
    if let Ok(f) = force_field(body, provider) {
        assert(gives_force(members, provider, f));
    }
    if let Ok(t) = tag_field(body) {
        assert(gives_tag(members, t));
    }
}

/// Looks a field up.
fn find_field<'a>(body: &'a Value, name: &str) -> (result: Option<&'a Value>)
    ensures
        match result {
            Some(value) => field(contents(*body), name@) == Some(contents(*value)),
            None => field(contents(*body), name@) is None,
        },
{
    get(body, name)
}

/// Reads the field `provider`.
fn read_provider(body: &Value) -> (result: Result<Provider, Refusal>)
    ensures
        match result {
            Ok(provider) => provider_field(contents(*body)) == Ok::<_, RefusalView>(provider),
            Err(refusal) => provider_field(contents(*body)) == Err::<Provider, _>(
                refusal_view(refusal),
            ),
        },
{
    match find_field(body, "provider") {
        None => Err((400, "Missing required field: provider", "missing_provider")),
        Some(value) => match as_str(value) {
            None => Err((400, "Field 'provider' must be a string", "invalid_provider")),
            Some(text) => match Provider::from_str(text) {
                None => Err(
                    (
                        400,
                        "Invalid provider. Must be 'gemini', 'chatgpt', or 'both'",
                        "invalid_provider",
                    ),
                ),
                Some(provider) => Ok(provider),
            },
        },
    }
}

/// Reads the field `keyword`.
fn read_keyword(body: &Value) -> (result: Result<String, Refusal>)
    ensures
        match result {
            Ok(keyword) => keyword_field(contents(*body)) == Ok::<_, RefusalView>(keyword@),
            Err(refusal) => keyword_field(contents(*body)) == Err::<Seq<char>, _>(
                refusal_view(refusal),
            ),
        },
{
    match find_field(body, "keyword") {
        None => Err((400, "Missing required field: keyword", "missing_keyword")),
        Some(value) => match as_str(value) {
            None => Err((400, "Field 'keyword' must be a string", "missing_keyword")),
            Some(text) => {
                let keyword = sanitize_keyword(text);
                let length = keyword.as_str().unicode_len();
                if length == 0 {
                    Err((400, "Keyword is empty after sanitization", "invalid_keyword"))
                } else if length > KEYWORD_LIMIT {
                    Err((400, "Keyword exceeds 2000 character limit", "invalid_keyword"))
                } else {
                    Ok(keyword)
                }
            },
        },
    }
}

/// Reads the field `location`.
fn read_location(body: &Value) -> (result: Result<Location, Refusal>)
    ensures
        match result {
            Ok(location) => location_field(contents(*body)) == Ok::<_, RefusalView>(location@),
            Err(refusal) => location_field(contents(*body)) == Err::<LocationView, _>(
                refusal_view(refusal),
            ),
        },
{
    match find_field(body, "location") {
        None => Err((400, "Missing required field: location", "missing_location")),
        Some(value) => {
            if let Some(code) = as_i64(value) {
                if code <= 0 {
                    Err((400, "Location code must be a positive integer", "invalid_location"))
                } else {
                    Ok(Location::Code(code))
                }
            } else if let Some(name) = as_str(value) {
                if name.is_empty() {
                    Err((400, "Location name must be non-empty", "invalid_location"))
                } else {
                    Ok(Location::Name(name.to_string()))
                }
            } else {
                Err(
                    (
                        400,
                        "Location must be a positive integer or non-empty string",
                        "invalid_location",
                    ),
                )
            }
        },
    }
}

/// Whether a text is two to five lower case ASCII letters.
fn check_language(text: &str) -> (result: bool)
    ensures
        result == is_language(text@),
{
    let chars = characters(text);
    if chars.len() < 2 || chars.len() > 5 {
        return false;
    }
    let mut i: usize = 0;
    while i < chars.len()
        invariant
            i <= chars@.len(),
            chars@ == text@,
            forall|j: int| 0 <= j < i ==> 'a' <= #[trigger] text@[j] <= 'z',
        decreases chars@.len() - i,
    {
        let c = chars[i];
        if !('a' <= c && c <= 'z') {
            assert(text@[i as int] == c);
            return false;
        }
        i = i + 1;
    }
    true
}

/// Reads the field `language`.
fn read_language(body: &Value) -> (result: Result<String, Refusal>)
    ensures
        match result {
            Ok(language) => language_field(contents(*body)) == Ok::<_, RefusalView>(language@),
            Err(refusal) => language_field(contents(*body)) == Err::<Seq<char>, _>(
                refusal_view(refusal),
            ),
        },
{
    match find_field(body, "language") {
        None => Ok("en".to_string()),
        Some(value) => match as_str(value) {
            None => Err((400, "Field 'language' must be a string", "invalid_language")),
            Some(text) => if check_language(text) {
                Ok(text.to_string())
            } else {
                Err(
                    (
                        400,
                        "Language must be 2-5 lowercase letters (e.g., 'en', 'fr')",
                        "invalid_language",
                    ),
                )
            },
        },
    }
}

/// Reads the field `force_web_search`.
fn read_force(body: &Value, provider: Provider) -> (result: Result<bool, Refusal>)
    ensures
        match result {
            Ok(force) => force_field(contents(*body), provider) == Ok::<_, RefusalView>(force),
            Err(refusal) => force_field(contents(*body), provider) == Err::<bool, _>(
                refusal_view(refusal),
            ),
        },
{
    match find_field(body, "force_web_search") {
        None => Ok(false),
        Some(value) => match as_bool(value) {
            None => Err(
                (400, "Field 'force_web_search' must be a boolean", "invalid_force_web_search"),
            ),
            Some(force) => if force && !provider.supports_force_web_search() {
                Err(
                    (
                        400,
                        "force_web_search is only supported for the chatgpt provider",
                        "invalid_field_for_provider",
                    ),
                )
            } else {
                Ok(force)
            },
        },
    }
}

/// Reads the field `tag`.
fn read_tag(body: &Value) -> (result: Result<Option<String>, Refusal>)
    ensures
        match result {
            Ok(tag) => tag_field(contents(*body)) == Ok::<_, RefusalView>(optional_text(tag)),
            Err(refusal) => tag_field(contents(*body)) == Err::<Option<Seq<char>>, _>(
                refusal_view(refusal),
            ),
        },
{
    match find_field(body, "tag") {
        None => Ok(None),
        Some(value) => match as_str(value) {
            None => Err((400, "Field 'tag' must be a string", "invalid_tag")),
            Some(text) => if text.unicode_len() > TAG_LIMIT {
                Err((400, "Tag exceeds 255 character limit", "invalid_tag"))
            } else {
                Ok(Some(text.to_string()))
            },
        },
    }
}

/// Reads a request from a body.
pub fn validate_fields(body: &Value) -> (result: Result<LlmRequest, Refusal>)
    ensures
        match result {
            Ok(request) => request_of(contents(*body)) == Ok::<_, RefusalView>(request@),
            Err(refusal) => request_of(contents(*body)) == Err::<LlmRequestView, _>(
                refusal_view(refusal),
            ),
        },
{
    let provider = match read_provider(body) {
        Err(refusal) => return Err(refusal),
        Ok(provider) => provider,
    };
    let keyword = match read_keyword(body) {
        Err(refusal) => return Err(refusal),
        Ok(keyword) => keyword,
    };
    let location = match read_location(body) {
        Err(refusal) => return Err(refusal),
        Ok(location) => location,
    };
    let language = match read_language(body) {
        Err(refusal) => return Err(refusal),
        Ok(language) => language,
    };
    let force_web_search = match read_force(body, provider) {
        Err(refusal) => return Err(refusal),
        Ok(force) => force,
    };
    let tag = match read_tag(body) {
        Err(refusal) => return Err(refusal),
        Ok(tag) => tag,
    };
    Ok(LlmRequest { provider, keyword, location, language, force_web_search, tag })
}

/// The request that the text of a body spells, or its refusal. `None` stands for a
/// body that could not be read.
pub open spec fn request_in(body: Option<Seq<char>>) -> Result<LlmRequestView, RefusalView> {
    match body {
        None => Err(bad_request("Failed to read request body"@, "missing_body"@)),
        Some(text) => if text.len() == 0 {
            Err(bad_request("Request body is empty"@, "missing_body"@))
        } else {
            match parsed(text) {
                None => Err(bad_request("Invalid JSON in request body"@, "invalid_json"@)),
                Some(json) => request_of(json),
            }
        },
    }
}

/// The codes that a body can be refused with.
pub open spec fn is_body_code(code: Seq<char>) -> bool {
    ||| code == "missing_body"@
    ||| code == "invalid_json"@
    ||| code == "missing_provider"@
    ||| code == "invalid_provider"@
    ||| code == "missing_keyword"@
    ||| code == "invalid_keyword"@
    ||| code == "missing_location"@
    ||| code == "invalid_location"@
    ||| code == "invalid_language"@
    ||| code == "invalid_force_web_search"@
    ||| code == "invalid_field_for_provider"@
    ||| code == "invalid_tag"@
}

/// A body is refused as a bad request, under one of the codes for it.
pub proof fn body_refusals(body: Option<Seq<char>>)
    ensures
        request_in(body) matches Err(refusal) ==> refusal.0 == 400 && is_body_code(refusal.2),
{
}

/// A body that could not be read, is empty, is not JSON or is no object is refused as
/// such; any other is read as its members say.
pub proof fn bodies_are_read(text: Seq<char>)
    ensures
        request_in(None) == Err::<LlmRequestView, _>(
            (400u16, "Failed to read request body"@, "missing_body"@),
        ),
        text.len() == 0 ==> request_in(Some(text)) == Err::<LlmRequestView, _>(
            (400u16, "Request body is empty"@, "missing_body"@),
        ),
        text.len() > 0 ==> match parsed(text) {
            None => request_in(Some(text)) == Err::<LlmRequestView, _>(
                (400u16, "Invalid JSON in request body"@, "invalid_json"@),
            ),
            Some(Json::Object(members)) => request_in(Some(text)) == request_of(
                Json::Object(members),
            ),
            Some(_) => request_in(Some(text)) == Err::<LlmRequestView, _>(
                (400u16, "Missing required field: provider"@, "missing_provider"@),
            ),
        },
{
}

/// Reads a request from the text of a body, where it could be read.
pub fn parse_and_validate_body(body: Option<&str>, request_id: &str) -> (result: Result<
    LlmRequest,
    Response,
>)
    ensures
        match result {
            Ok(request) => request_in(optional_str(body)) == Ok::<_, RefusalView>(request@),
            Err(response) => request_in(optional_str(body)) matches Err(refusal) && tells(
                response@,
                refusal,
                request_id@,
            ),
        },
{
    let text = match body {
        None => {
            return Err(json_error(400, "Failed to read request body", "missing_body", request_id));
        },
        Some(text) => text,
    };
    if text.is_empty() {
        return Err(json_error(400, "Request body is empty", "missing_body", request_id));
    }
    match parse(text) {
        Err(_) => Err(
            json_error(400, "Invalid JSON in request body", "invalid_json", request_id),
        ),
        Ok(value) => match validate_fields(&value) {
            Err((status, message, code)) => Err(json_error(status, message, code, request_id)),
            Ok(request) => Ok(request),
        },
    }
}

} // verus!
