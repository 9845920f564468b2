//! Constants and defaults of the indexing and retrieval pipeline, and the
//! stopword set used by retrieval.
use vstd::prelude::*;

use crate::text::{lowercase, to_lowercase, views};

verus! {

/// Embedding model used by the indexer.
pub const EMBEDDING_MODEL: &'static str = "multilingual-e5-large-instruct-F16";

/// Dimension of the embedding vectors.
pub const EMBEDDING_DIM: usize = 1024;

/// Context window of the embedding model.
pub const EMBEDDING_CTX: usize = 2048;

/// Version of the indexing pipeline.
pub const INDEXING_VERSION: &'static str = "1";

/// Number of candidates fused by the hybrid search.
pub const FUSION_CANDIDATES: usize = 50;

/// Word count from which a query is considered long enough to skip HyDE.
pub const HYDE_WORD_THRESHOLD: usize = 4;

/// Number of fragments sampled to detect the vault's language.
pub const VAULT_LANG_SAMPLE_SIZE: usize = 50;

/// Texts shorter than this many bytes (after trimming) are not used to
/// detect a language.
pub const MIN_TEXT_LEN_FOR_LANG: usize = 10;

/// Default maximum number of tokens an LLM may generate.
pub const DEFAULT_LLM_MAX_TOKENS: u32 = 2048;

/// Model used when no LLM is configured.
pub const FALLBACK_LLM_MODEL: &'static str = "google/gemini-2.5-flash";

/// Base URL of the OpenRouter API.
pub const OPENROUTER_BASE_URL: &'static str = "https://openrouter.ai/api/v1";

/// The stop words that the `stop-words` crate lists for the ISO 639-1
/// language `code`.
pub uninterp spec fn iso_stop_words(code: Seq<char>) -> Seq<Seq<char>>;

/// The views of a sequence of string slices.
pub open spec fn str_views(v: Seq<&str>) -> Seq<Seq<char>> {
    v.map_values(|s: &str| s@)
}

/// Calls `stop_words::get` for `"en"` or `"ru"`, which the crate's default
/// `iso` data set provides; the result is the crate's list for that code.
#[verifier::external_body]
fn stop_word_list(code: &str) -> (r: &'static [&'static str])
    requires
        code@ == "en"@ || code@ == "ru"@,
    ensures
        str_views(r@) == iso_stop_words(code@),
{
    stop_words::get(code)
}

/// Question words added to the stop word lists.
pub open spec fn extra_stopwords() -> Seq<Seq<char>> {
    seq![
        "такое"@, "это"@, "как"@, "почему"@, "зачем"@, "какой"@, "какая"@, "какие"@,
        "является"@, "означает"@, "значит"@, "дай"@, "расскажи"@, "объясни"@, "что"@,
    ]
}

fn extra_stopword_list() -> (r: Vec<&'static str>)
    ensures
        str_views(r@) == extra_stopwords(),
{
    let v = vec![
        "такое", "это", "как", "почему", "зачем", "какой", "какая", "какие",
        "является", "означает", "значит", "дай", "расскажи", "объясни", "что",
    ];
    assert(str_views(v@) =~= extra_stopwords());
    v
}

/// Every word the stop word set is built from: the lowercased English and
/// Russian lists, then the extra question words.
pub open spec fn stopword_sources() -> Seq<Seq<char>> {
    iso_stop_words("en"@).map_values(|w: Seq<char>| lowercase(w)) + iso_stop_words(
        "ru"@,
    ).map_values(|w: Seq<char>| lowercase(w)) + extra_stopwords()
}

/// Adds `w` to `set` unless it is there already.
fn insert_unique(set: &mut Vec<String>, w: String)
    requires
        views(old(set)@).no_duplicates(),
    ensures
        views(final(set)@).no_duplicates(),
        forall|x: Seq<char>| views(final(set)@).contains(x) <==> (views(old(set)@).contains(x) || x == w@),
{
    let n = set.len();
    let mut i: usize = 0;
    while i < n
        invariant
            n == set@.len(),
            set@ == old(set)@,
            views(set@).no_duplicates(),
            i <= n,
            forall|k: int| 0 <= k < i ==> set@[k]@ != w@,
        decreases n - i,
    {
        if set[i] == w {
            assert(views(set@)[i as int] == w@);
            return;
        }
        i = i + 1;
    }
    let ghost before = set@;
    set.push(w);
    proof {
        assert(views(set@) =~= views(before).push(w@));
        assert(!views(before).contains(w@)) by {
            if views(before).contains(w@) {
                let k = choose|k: int| 0 <= k < views(before).len() && views(before)[k] == w@;
                assert(before[k]@ == w@);
            }
        }
        assert forall|x: Seq<char>| views(set@).contains(x) <==> (views(before).contains(x) || x == w@) by {
            if views(set@).contains(x) {
                let k = choose|k: int| 0 <= k < views(set@).len() && views(set@)[k] == x;
                if k < views(before).len() {
                    assert(views(before)[k] == x);
                }
            }
            if views(before).contains(x) {
                let k = choose|k: int| 0 <= k < views(before).len() && views(before)[k] == x;
                assert(views(set@)[k] == x);
            }
            if x == w@ {
                assert(views(set@)[views(before).len() as int] == x);
            }
        }
    }
}

/// Adds the lowercased forms of `words` to `set`.
fn insert_lowercased(set: &mut Vec<String>, words: &[&str], lower: bool)
    requires
        views(old(set)@).no_duplicates(),
    ensures
        views(final(set)@).no_duplicates(),
        forall|x: Seq<char>|
            views(final(set)@).contains(x) <==> (views(old(set)@).contains(x) || (if lower {
                str_views(words@).map_values(|w: Seq<char>| lowercase(w))
            } else {
                str_views(words@)
            }).contains(x)),
{
    let ghost added = if lower {
        str_views(words@).map_values(|w: Seq<char>| lowercase(w))
    } else {
        str_views(words@)
    };
    let n = words.len();
    let mut i: usize = 0;
    while i < n
        invariant
            n == words@.len(),
            i <= n,
            added == (if lower {
                str_views(words@).map_values(|w: Seq<char>| lowercase(w))
            } else {
                str_views(words@)
            }),
            views(set@).no_duplicates(),
            forall|x: Seq<char>|
                views(set@).contains(x) <==> (views(old(set)@).contains(x) || added.take(
                    i as int,
                ).contains(x)),
        decreases n - i,
    {
        let w = if lower {
            to_lowercase(words[i])
        } else {
            words[i].to_owned()
        };
        assert(w@ == added[i as int]);
        let ghost before = set@;
        insert_unique(set, w);
        proof {
            assert forall|x: Seq<char>|
                views(set@).contains(x) <==> (views(old(set)@).contains(x) || added.take(
                    i + 1,
                ).contains(x)) by {
                if added.take(i + 1).contains(x) {
                    let k = choose|k: int| 0 <= k < i + 1 && #[trigger] added.take(i + 1)[k] == x;
                    if k < i {
                        assert(added.take(i as int)[k] == x);
                    }
                }
                if added.take(i as int).contains(x) {
                    let k = choose|k: int| 0 <= k < i && #[trigger] added.take(i as int)[k] == x;
                    assert(added.take(i + 1)[k] == x);
                }
                if x == w@ {
                    assert(added.take(i + 1)[i as int] == x);
                }
            }
        }
        i = i + 1;
    }
    assert(added.take(n as int) =~= added);
}

/// The stop word set used by retrieval: the English and Russian lists of the
/// `stop-words` crate, lowercased, plus common Russian question words. Each
/// word occurs once.
pub fn get_stopwords() -> (r: Vec<String>)
    ensures
        views(r@).no_duplicates(),
        forall|w: Seq<char>| views(r@).contains(w) <==> stopword_sources().contains(w),
{
    let mut set: Vec<String> = Vec::new();
    assert(views(set@) =~= Seq::<Seq<char>>::empty());
    let en = stop_word_list("en");
    insert_lowercased(&mut set, en, true);
    let ru = stop_word_list("ru");
    insert_lowercased(&mut set, ru, true);
    let extra = extra_stopword_list();
    insert_lowercased(&mut set, extra.as_slice(), false);
    proof {
        let a = iso_stop_words("en"@).map_values(|w: Seq<char>| lowercase(w));
        let b = iso_stop_words("ru"@).map_values(|w: Seq<char>| lowercase(w));
        let c = extra_stopwords();
        assert forall|w: Seq<char>| (a + b + c).contains(w) <==> (a.contains(w) || b.contains(w) || c.contains(w)) by {
            if (a + b + c).contains(w) {
                let k = choose|k: int| 0 <= k < (a + b + c).len() && (a + b + c)[k] == w;
                if k < a.len() {
                    assert(a[k] == w);
                } else if k < a.len() + b.len() {
                    assert(b[k - a.len()] == w);
                } else {
                    assert(c[k - a.len() - b.len()] == w);
                }
            }
            if a.contains(w) {
                let k = choose|k: int| 0 <= k < a.len() && a[k] == w;
                assert((a + b + c)[k] == w);
            }
            if b.contains(w) {
                let k = choose|k: int| 0 <= k < b.len() && b[k] == w;
                assert((a + b + c)[a.len() + k] == w);
            }
            if c.contains(w) {
                let k = choose|k: int| 0 <= k < c.len() && c[k] == w;
                assert((a + b + c)[a.len() + b.len() + k] == w);
            }
        }
    }
    set
}

} // verus!
