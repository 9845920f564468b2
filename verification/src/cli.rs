//! Decisions of the command-line subcommands: which language-model backend a
//! run uses, and whether the user's answer confirms a plan. Reading the
//! environment, scanning the model directory and talking to the terminal are
//! left to the caller, which hands the results in.
use vstd::prelude::*;

use crate::text::{chars_of, lowercase, str_eq, string_from_chars, to_lowercase, trim, trim_chars};

verus! {

/// A language-model backend chosen for a run.
#[derive(Debug, Clone)]
pub struct LlmChoice {
    /// Backend kind: `local`, `openai` (also used for OpenRouter) or `gemini`.
    pub backend: String,
    pub model: String,
    pub api_key: Option<String>,
    pub base_url: Option<String>,
    pub max_tokens: Option<u32>,
    /// Requested response format; always JSON here.
    pub response_format: Option<String>,
}

/// Token budget given to a local model.
pub const LOCAL_MAX_TOKENS: u32 = 2048;

/// The view of an optional string.
pub open spec fn opt_view(o: Option<String>) -> Option<Seq<char>> {
    match o {
        Some(s) => Some(s@),
        None => None,
    }
}

/// Whether `c` has exactly the given fields and asks for JSON.
pub open spec fn choice_is(
    c: LlmChoice,
    backend: Seq<char>,
    model: Seq<char>,
    api_key: Option<Seq<char>>,
    base_url: Option<Seq<char>>,
    max_tokens: Option<u32>,
) -> bool {
    &&& c.backend@ == backend
    &&& c.model@ == model
    &&& opt_view(c.api_key) == api_key
    &&& opt_view(c.base_url) == base_url
    &&& c.max_tokens == max_tokens
    &&& opt_view(c.response_format) == Some("json"@)
}

/// The local model `id`.
pub open spec fn is_local_choice(c: LlmChoice, id: Seq<char>) -> bool {
    choice_is(c, "local"@, id, None, None, Some(LOCAL_MAX_TOKENS))
}

/// Gemini 2.5 Flash through OpenRouter with `key`.
pub open spec fn is_openrouter_choice(c: LlmChoice, key: Seq<char>) -> bool {
    choice_is(
        c,
        "openai"@,
        "google/gemini-2.5-flash"@,
        Some(key),
        Some("https://openrouter.ai/api/v1"@),
        None,
    )
}

/// GPT-4o mini through OpenAI with `key`.
pub open spec fn is_openai_choice(c: LlmChoice, key: Seq<char>) -> bool {
    choice_is(c, "openai"@, "gpt-4o-mini"@, Some(key), None, None)
}

/// Gemini 1.5 Flash through Google with `key`.
pub open spec fn is_gemini_choice(c: LlmChoice, key: Seq<char>) -> bool {
    choice_is(c, "gemini"@, "gemini-1.5-flash"@, Some(key), None, None)
}

fn local_choice(id: String) -> (r: LlmChoice)
    ensures
        is_local_choice(r, id@),
{
    LlmChoice {
        backend: "local".to_owned(),
        model: id,
        api_key: None,
        base_url: None,
        max_tokens: Some(LOCAL_MAX_TOKENS),
        response_format: Some("json".to_owned()),
    }
}

fn openrouter_choice(key: String) -> (r: LlmChoice)
    ensures
        is_openrouter_choice(r, key@),
{
    LlmChoice {
        backend: "openai".to_owned(),
        model: "google/gemini-2.5-flash".to_owned(),
        api_key: Some(key),
        base_url: Some("https://openrouter.ai/api/v1".to_owned()),
        max_tokens: None,
        response_format: Some("json".to_owned()),
    }
}

/// The backend for distributing a draft: the first local language model if
/// there is one, else OpenRouter, OpenAI or Gemini, in that order, by which
/// API key is set; `None` when nothing is available.
pub fn distribute_llm_choice(
    local_model: Option<String>,
    openrouter_key: Option<String>,
    openai_key: Option<String>,
    gemini_key: Option<String>,
) -> (r: Option<LlmChoice>)
    ensures
        match (local_model, openrouter_key, openai_key, gemini_key) {
            (Some(id), _, _, _) => r matches Some(c) && is_local_choice(c, id@),
            (None, Some(k), _, _) => r matches Some(c) && is_openrouter_choice(c, k@),
            (None, None, Some(k), _) => r matches Some(c) && is_openai_choice(c, k@),
            (None, None, None, Some(k)) => r matches Some(c) && is_gemini_choice(c, k@),
            (None, None, None, None) => r is None,
        },
{
    if let Some(id) = local_model {
        return Some(local_choice(id));
    }
    if let Some(k) = openrouter_key {
        return Some(openrouter_choice(k));
    }
    if let Some(k) = openai_key {
        return Some(
            LlmChoice {
                backend: "openai".to_owned(),
                model: "gpt-4o-mini".to_owned(),
                api_key: Some(k),
                base_url: None,
                max_tokens: None,
                response_format: Some("json".to_owned()),
            },
        );
    }
    if let Some(k) = gemini_key {
        return Some(
            LlmChoice {
                backend: "gemini".to_owned(),
                model: "gemini-1.5-flash".to_owned(),
                api_key: Some(k),
                base_url: None,
                max_tokens: None,
                response_format: Some("json".to_owned()),
            },
        );
    }
    None
}

/// The backend for a retrieval query: none unless query rewriting or
/// reranking needs one; then the first local language model, else
/// OpenRouter when its key is set, else none.
pub fn query_llm_choice(
    needs_llm: bool,
    local_model: Option<String>,
    openrouter_key: Option<String>,
) -> (r: Option<LlmChoice>)
    ensures
        !needs_llm ==> r is None,
        needs_llm ==> match (local_model, openrouter_key) {
            (Some(id), _) => r matches Some(c) && is_local_choice(c, id@),
            (None, Some(k)) => r matches Some(c) && is_openrouter_choice(c, k@),
            (None, None) => r is None,
        },
{
    if !needs_llm {
        return None;
    }
    match local_model {
        Some(id) => Some(local_choice(id)),
        None => match openrouter_key {
            Some(k) => Some(openrouter_choice(k)),
            None => None,
        },
    }
}

/// Whether an answer to a yes/no prompt confirms: after trimming and
/// lowercasing it is `y` or `yes`.
pub fn confirms(answer: &str) -> (r: bool)
    ensures
        r == (lowercase(trim_chars(answer@)) == "y"@ || lowercase(trim_chars(answer@)) == "yes"@),
{
    let trimmed = trim(answer);
    let lowered = to_lowercase(trimmed.as_str());
    str_eq(lowered.as_str(), "y") || str_eq(lowered.as_str(), "yes")
}

/// Longest preview of a hit's text printed by a query, in characters.
pub const PREVIEW_CHARS: usize = 180;

/// `s` with every newline replaced by a space.
pub open spec fn newlines_to_spaces(s: Seq<char>) -> Seq<char> {
    s.map_values(|c: char| if c == '\n' { ' ' } else { c })
}

/// The preview of a hit's text: trimmed, newlines turned into spaces, cut
/// after `PREVIEW_CHARS` characters; empty when the hit has no text.
pub open spec fn preview_of(text: Option<Seq<char>>) -> Seq<char> {
    let t = newlines_to_spaces(
        trim_chars(
            match text {
                Some(t) => t,
                None => Seq::empty(),
            },
        ),
    );
    if t.len() <= PREVIEW_CHARS {
        t
    } else {
        t.take(PREVIEW_CHARS as int)
    }
}

/// The one-line preview a query prints for a hit with text `text`.
pub fn hit_preview(text: Option<&str>) -> (r: String)
    ensures
        r@ == preview_of(
            match text {
                Some(t) => Some(t@),
                None => None,
            },
        ),
{
    let trimmed = match text {
        Some(t) => trim(t),
        None => String::new(),
    };
    let cs = chars_of(trimmed.as_str());
    let n = if cs.len() <= PREVIEW_CHARS {
        cs.len()
    } else {
        PREVIEW_CHARS
    };
    let mut out: Vec<char> = Vec::new();
    let mut i: usize = 0;
    while i < n
        invariant
            n <= cs@.len(),
            i <= n,
            out@ == newlines_to_spaces(cs@).take(i as int),
        decreases n - i,
    {
        let c = cs[i];
        out.push(if c == '\n' { ' ' } else { c });
        i = i + 1;
        assert(out@ =~= newlines_to_spaces(cs@).take(i as int));
    }
    proof {
        if n == cs@.len() {
            assert(newlines_to_spaces(cs@).take(n as int) =~= newlines_to_spaces(cs@));
        }
    }
    string_from_chars(out.as_slice())
}

} // verus!
