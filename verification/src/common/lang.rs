//! Language detection: the `whatlang` detector, mapped to ISO 639-1 codes.
//! Languages without an explicit mapping, and undetected input, count as
//! English where a code is required.
use vstd::prelude::*;

use super::constants::MIN_TEXT_LEN_FOR_LANG;
use crate::text::{str_eq, string_from_chars, trim_chars, trim_to_chars};
use vstd::utf8::encode_utf8;

verus! {

/// The ISO 639-3 code of the language `whatlang::detect_lang` detects in
/// `text`, or `None` when it detects none.
pub uninterp spec fn whatlang_language_code(text: Seq<char>) -> Option<Seq<char>>;

/// Calls `whatlang::detect_lang` and converts the detected `Lang` to its
/// ISO 639-3 code with `Lang::code` (a one-to-one conversion).
#[verifier::external_body]
fn detected_language_code(text: &str) -> (r: Option<&'static str>)
    ensures
        match r {
            Some(c) => whatlang_language_code(text@) == Some(c@),
            None => whatlang_language_code(text@) is None,
        },
{
    whatlang::detect_lang(text).map(|lang| lang.code())
}

/// The ISO 639-1 code of the ISO 639-3 code `code`, for the languages the
/// application distinguishes; `"en"` for every other language.
pub open spec fn iso639_1(code: Seq<char>) -> Seq<char> {
    if code == "eng"@ {
        "en"@
    } else if code == "rus"@ {
        "ru"@
    } else if code == "ukr"@ {
        "uk"@
    } else if code == "bel"@ {
        "be"@
    } else if code == "deu"@ {
        "de"@
    } else if code == "fra"@ {
        "fr"@
    } else if code == "spa"@ {
        "es"@
    } else if code == "ita"@ {
        "it"@
    } else if code == "cmn"@ {
        "zh"@
    } else if code == "jpn"@ {
        "ja"@
    } else if code == "por"@ {
        "pt"@
    } else if code == "pol"@ {
        "pl"@
    } else if code == "nld"@ {
        "nl"@
    } else {
        "en"@
    }
}

/// Maps a `whatlang` language, given by its ISO 639-3 code, to its ISO
/// 639-1 code; unlisted languages map to `"en"`.
pub fn lang_to_iso639_1(code: &str) -> (r: &'static str)
    ensures
        r@ == iso639_1(code@),
{
    if str_eq(code, "eng") {
        "en"
    } else if str_eq(code, "rus") {
        "ru"
    } else if str_eq(code, "ukr") {
        "uk"
    } else if str_eq(code, "bel") {
        "be"
    } else if str_eq(code, "deu") {
        "de"
    } else if str_eq(code, "fra") {
        "fr"
    } else if str_eq(code, "spa") {
        "es"
    } else if str_eq(code, "ita") {
        "it"
    } else if str_eq(code, "cmn") {
        "zh"
    } else if str_eq(code, "jpn") {
        "ja"
    } else if str_eq(code, "por") {
        "pt"
    } else if str_eq(code, "pol") {
        "pl"
    } else if str_eq(code, "nld") {
        "nl"
    } else {
        "en"
    }
}

/// Whether `code` is one of the ISO 639-3 codes the application maps to
/// its own ISO 639-1 code.
pub open spec fn is_listed_language(code: Seq<char>) -> bool {
    ||| code == "eng"@
    ||| code == "rus"@
    ||| code == "ukr"@
    ||| code == "bel"@
    ||| code == "deu"@
    ||| code == "fra"@
    ||| code == "spa"@
    ||| code == "ita"@
    ||| code == "cmn"@
    ||| code == "jpn"@
    ||| code == "por"@
    ||| code == "pol"@
    ||| code == "nld"@
}

/// The ISO 639-3 code of an ISO 639-1 code of a listed language.
pub open spec fn iso639_3_of(code: Seq<char>) -> Seq<char> {
    if code == "en"@ {
        "eng"@
    } else if code == "ru"@ {
        "rus"@
    } else if code == "uk"@ {
        "ukr"@
    } else if code == "be"@ {
        "bel"@
    } else if code == "de"@ {
        "deu"@
    } else if code == "fr"@ {
        "fra"@
    } else if code == "es"@ {
        "spa"@
    } else if code == "it"@ {
        "ita"@
    } else if code == "zh"@ {
        "cmn"@
    } else if code == "ja"@ {
        "jpn"@
    } else if code == "pt"@ {
        "por"@
    } else if code == "pl"@ {
        "pol"@
    } else if code == "nl"@ {
        "nld"@
    } else {
        Seq::empty()
    }
}

/// The mapping to ISO 639-1 is the standard one: every result has two
/// letters, a listed language maps to the two-letter code that the ISO
/// tables pair with it (so no two listed languages share a code), and `en`
/// comes only from English and from unlisted languages.
pub proof fn lemma_iso639_1_standard(code: Seq<char>)
    ensures
        iso639_1(code).len() == 2,
        is_listed_language(code) ==> iso639_3_of(iso639_1(code)) == code,
        iso639_1(code) == "en"@ <==> (code == "eng"@ || !is_listed_language(code)),
{
    reveal_strlit("eng");
    reveal_strlit("rus");
    reveal_strlit("ukr");
    reveal_strlit("bel");
    reveal_strlit("deu");
    reveal_strlit("fra");
    reveal_strlit("spa");
    reveal_strlit("ita");
    reveal_strlit("cmn");
    reveal_strlit("jpn");
    reveal_strlit("por");
    reveal_strlit("pol");
    reveal_strlit("nld");
    reveal_strlit("en");
    reveal_strlit("ru");
    reveal_strlit("uk");
    reveal_strlit("be");
    reveal_strlit("de");
    reveal_strlit("fr");
    reveal_strlit("es");
    reveal_strlit("it");
    reveal_strlit("zh");
    reveal_strlit("ja");
    reveal_strlit("pt");
    reveal_strlit("pl");
    reveal_strlit("nl");
    assert("eng"@[0] == 'e' && "eng"@[1] == 'n' && "eng"@[2] == 'g');
    assert("rus"@[0] == 'r' && "rus"@[1] == 'u');
    assert("ukr"@[0] == 'u');
    assert("bel"@[0] == 'b');
    assert("deu"@[0] == 'd');
    assert("fra"@[0] == 'f');
    assert("spa"@[0] == 's');
    assert("ita"@[0] == 'i');
    assert("cmn"@[0] == 'c');
    assert("jpn"@[0] == 'j');
    assert("por"@[0] == 'p' && "por"@[1] == 'o' && "por"@[2] == 'r');
    assert("pol"@[0] == 'p' && "pol"@[1] == 'o' && "pol"@[2] == 'l');
    assert("nld"@[0] == 'n');
    assert("en"@.len() == 2 && "en"@[0] == 'e' && "en"@[1] == 'n');
    assert("ru"@.len() == 2 && "ru"@[0] == 'r');
    assert("uk"@.len() == 2 && "uk"@[0] == 'u');
    assert("be"@.len() == 2 && "be"@[0] == 'b');
    assert("de"@.len() == 2 && "de"@[0] == 'd');
    assert("fr"@.len() == 2 && "fr"@[0] == 'f');
    assert("es"@.len() == 2 && "es"@[0] == 'e' && "es"@[1] == 's');
    assert("it"@.len() == 2 && "it"@[0] == 'i');
    assert("zh"@.len() == 2 && "zh"@[0] == 'z');
    assert("ja"@.len() == 2 && "ja"@[0] == 'j');
    assert("pt"@.len() == 2 && "pt"@[0] == 'p' && "pt"@[1] == 't');
    assert("pl"@.len() == 2 && "pl"@[0] == 'p' && "pl"@[1] == 'l');
    assert("nl"@.len() == 2 && "nl"@[0] == 'n');
}

/// The ISO 639-1 code of the language detected in `text`, if any.
pub open spec fn detected_language(text: Seq<char>) -> Option<Seq<char>> {
    match whatlang_language_code(text) {
        Some(c) => Some(iso639_1(c)),
        None => None,
    }
}

/// Detects the language of `text` and returns its ISO 639-1 code; `None`
/// when no language can be determined.
pub fn detect_language(text: &str) -> (r: Option<String>)
    ensures
        match r {
            Some(s) => detected_language(text@) == Some(s@),
            None => detected_language(text@) is None,
        },
{
    match detected_language_code(text) {
        Some(c) => Some(lang_to_iso639_1(c).to_owned()),
        None => None,
    }
}

/// Whether the language detected in `text` is English; `false` when no
/// language is detected.
pub fn is_english(text: &str) -> (r: bool)
    ensures
        r == (whatlang_language_code(text@) == Some("eng"@)),
{
    match detected_language_code(text) {
        Some(c) => str_eq(c, "eng"),
        None => false,
    }
}

/// Whether `text` is long enough, once trimmed, to vote for a language.
pub open spec fn long_enough_for_lang(text: Seq<char>) -> bool {
    (encode_utf8(trim_chars(text)).len() as usize) >= MIN_TEXT_LEN_FOR_LANG
}

/// The languages the texts vote for: the detected language of each text that
/// is long enough, in order.
pub open spec fn language_votes(texts: Seq<Seq<char>>) -> Seq<Seq<char>>
    decreases texts.len(),
{
    if texts.len() == 0 {
        Seq::empty()
    } else {
        let init = language_votes(texts.drop_last());
        let t = texts.last();
        if long_enough_for_lang(t) && detected_language(t) is Some {
            init.push(detected_language(t)->0)
        } else {
            init
        }
    }
}

/// Number of occurrences of `x` in `s`.
pub open spec fn occurrences(s: Seq<Seq<char>>, x: Seq<char>) -> nat
    decreases s.len(),
{
    if s.len() == 0 {
        0
    } else {
        occurrences(s.drop_last(), x) + if s.last() == x {
            1nat
        } else {
            0nat
        }
    }
}

proof fn lemma_occurrences_push(s: Seq<Seq<char>>, v: Seq<char>)
    ensures
        forall|x: Seq<char>|
            #[trigger] occurrences(s.push(v), x) == occurrences(s, x) + if v == x {
                1nat
            } else {
                0nat
            },
{
    assert(s.push(v).drop_last() =~= s);
}

proof fn lemma_occurrences_contains(s: Seq<Seq<char>>, x: Seq<char>)
    ensures
        occurrences(s, x) > 0 <==> s.contains(x),
        occurrences(s, x) <= s.len(),
    decreases s.len(),
{
    if s.len() > 0 {
        lemma_occurrences_contains(s.drop_last(), x);
        if s.drop_last().contains(x) {
            let k = choose|k: int| 0 <= k < s.drop_last().len() && s.drop_last()[k] == x;
            assert(s[k] == x);
        }
        if s.contains(x) && s.last() != x {
            let k = choose|k: int| 0 <= k < s.len() && s[k] == x;
            assert(s.drop_last()[k] == x);
        }
        if s.last() == x {
            assert(s[s.len() - 1] == x);
        }
    }
}

/// The views of a slice of strings.
pub open spec fn text_views(texts: Seq<String>) -> Seq<Seq<char>> {
    texts.map_values(|t: String| t@)
}

/// Vote counts per language: `langs[k]` has `counts[k]` votes among `votes`,
/// every language with a vote is listed, and no language is listed twice.
spec fn tally_matches(langs: Seq<String>, counts: Seq<usize>, votes: Seq<Seq<char>>) -> bool {
    &&& langs.len() == counts.len()
    &&& forall|a: int, b: int| 0 <= a < b < langs.len() ==> langs[a]@ != langs[b]@
    &&& forall|k: int| 0 <= k < langs.len() ==> counts[k] == occurrences(votes, #[trigger] langs[k]@)
    &&& forall|k: int| 0 <= k < langs.len() ==> counts[k] >= 1
    &&& forall|x: Seq<char>| #[trigger] occurrences(votes, x) > 0 ==> exists|k: int| 0 <= k < langs.len() && langs[k]@ == x
}

/// Records one vote for `lang`.
fn add_vote(
    langs: &mut Vec<String>,
    counts: &mut Vec<usize>,
    lang: String,
    Ghost(votes): Ghost<Seq<Seq<char>>>,
)
    requires
        tally_matches(old(langs)@, old(counts)@, votes),
        votes.len() < usize::MAX,
    ensures
        tally_matches(final(langs)@, final(counts)@, votes.push(lang@)),
{
    let ghost nv = votes.push(lang@);
    assert(nv.drop_last() =~= votes);
    proof {
        lemma_occurrences_contains(votes, lang@);
        lemma_occurrences_push(votes, lang@);
    }
    let n = langs.len();
    let mut i: usize = 0;
    while i < n
        invariant
            n == langs@.len(),
            langs@ == old(langs)@,
            counts@ == old(counts)@,
            tally_matches(langs@, counts@, votes),
            votes.len() < usize::MAX,
            i <= n,
            forall|k: int| 0 <= k < i ==> langs@[k]@ != lang@,
        decreases n - i,
    {
        if langs[i] == lang {
            let c = counts[i];
            proof {
                lemma_occurrences_contains(votes, langs@[i as int]@);
            }
            counts.set(i, c + 1);
            proof {
                lemma_occurrences_push(votes, lang@);
                assert forall|k: int| 0 <= k < langs@.len() implies counts@[k] == occurrences(
                    votes.push(lang@),
                    #[trigger] langs@[k]@,
                ) by {
                    if k != i {
                        assert(langs@[k]@ != langs@[i as int]@);
                    }
                }
                assert forall|x: Seq<char>| #[trigger] occurrences(votes.push(lang@), x) > 0 implies exists|k: int|
                    0 <= k < langs@.len() && langs@[k]@ == x by {
                    if x != lang@ {
                        assert(occurrences(votes, x) > 0);
                    } else {
                        assert(langs@[i as int]@ == x);
                    }
                }
            }
            return;
        }
        i = i + 1;
    }
    proof {
        assert(occurrences(votes, lang@) == 0) by {
            if occurrences(votes, lang@) > 0 {
                let k = choose|k: int| 0 <= k < langs@.len() && langs@[k]@ == lang@;
                assert(langs@[k]@ != lang@);
            }
        }
    }
    let ghost old_langs = langs@;
    langs.push(lang);
    counts.push(1);
    proof {
        lemma_occurrences_push(votes, langs@[n as int]@);
        assert forall|k: int| 0 <= k < langs@.len() implies counts@[k] == occurrences(
            nv,
            #[trigger] langs@[k]@,
        ) by {
            if k < n {
                assert(langs@[k] == old_langs[k]);
                assert(langs@[k]@ != lang@);
            }
        }
        assert forall|a: int, b: int| 0 <= a < b < langs@.len() implies langs@[a]@ != langs@[b]@ by {
            if b == n {
                assert(langs@[a] == old_langs[a]);
            } else {
                assert(langs@[a] == old_langs[a]);
                assert(langs@[b] == old_langs[b]);
            }
        }
        assert forall|x: Seq<char>| #[trigger] occurrences(nv, x) > 0 implies exists|k: int|
            0 <= k < langs@.len() && langs@[k]@ == x by {
            if x != lang@ {
                assert(occurrences(votes, x) > 0);
                let k = choose|k: int| 0 <= k < old_langs.len() && old_langs[k]@ == x;
                assert(langs@[k] == old_langs[k]);
            } else {
                assert(langs@[n as int]@ == x);
            }
        }
    }
}

/// Picks the language most of `texts` are written in. Texts shorter than
/// `MIN_TEXT_LEN_FOR_LANG` bytes after trimming, and texts whose language is
/// not detected, do not vote. With no vote the result is `"en"`; otherwise it
/// is a language with the most votes. Which of several equally voted
/// languages is returned is left open.
pub fn pick_dominant_language(texts: &[String]) -> (r: String)
    ensures
        ({
            let votes = language_votes(text_views(texts@));
            &&& votes.len() == 0 ==> r@ == "en"@
            &&& votes.len() > 0 ==> votes.contains(r@)
            &&& forall|x: Seq<char>| #[trigger] occurrences(votes, x) <= occurrences(votes, r@)
        }),
{
    if texts.len() == 0 {
        proof {
            assert(text_views(texts@) =~= Seq::<Seq<char>>::empty());
        }
        return "en".to_owned();
    }
    let mut langs: Vec<String> = Vec::new();
    let mut counts: Vec<usize> = Vec::new();
    let n = texts.len();
    let mut i: usize = 0;
    proof {
        assert(text_views(texts@).take(0) =~= Seq::<Seq<char>>::empty());
    }
    while i < n
        invariant
            n == texts@.len(),
            i <= n,
            tally_matches(langs@, counts@, language_votes(text_views(texts@).take(i as int))),
            language_votes(text_views(texts@).take(i as int)).len() <= i,
        decreases n - i,
    {
        let ghost votes = language_votes(text_views(texts@).take(i as int));
        let ghost t = text_views(texts@).take(i + 1);
        proof {
            assert(t.drop_last() =~= text_views(texts@).take(i as int));
            assert(t.last() == texts@[i as int]@);
        }
        let text = &texts[i];
        let trimmed = trim_to_chars(text.as_str());
        let trimmed_text = string_from_chars(trimmed.as_slice());
        proof {
            assert(language_votes(t) == (if long_enough_for_lang(t.last()) && detected_language(
                t.last(),
            ) is Some {
                votes.push(detected_language(t.last())->0)
            } else {
                votes
            }));
        }
        if trimmed_text.as_str().len() >= MIN_TEXT_LEN_FOR_LANG {
            match detect_language(text.as_str()) {
                Some(lang) => {
                    add_vote(&mut langs, &mut counts, lang, Ghost(votes));
                },
                None => {},
            }
        }
        i = i + 1;
    }
    let ghost votes = language_votes(text_views(texts@).take(n as int));
    proof {
        assert(text_views(texts@).take(n as int) =~= text_views(texts@));
    }
    let mut best: usize = 0;
    let mut max_count: usize = 0;
    let m = langs.len();
    let mut j: usize = 0;
    while j < m
        invariant
            m == langs@.len(),
            tally_matches(langs@, counts@, votes),
            j <= m,
            forall|k: int| 0 <= k < j ==> counts@[k] <= max_count,
            j > 0 ==> best < j && counts@[best as int] == max_count,
            j == 0 ==> max_count == 0,
        decreases m - j,
    {
        if counts[j] > max_count {
            max_count = counts[j];
            best = j;
        }
        j = j + 1;
    }
    if m == 0 {
        proof {
            assert(votes.len() == 0) by {
                if votes.len() > 0 {
                    assert(votes.contains(votes[0]));
                    lemma_occurrences_contains(votes, votes[0]);
                }
            }
            assert forall|x: Seq<char>| #[trigger] occurrences(votes, x) <= occurrences(votes, "en"@) by {
                lemma_occurrences_contains(votes, x);
            }
        }
        return "en".to_owned();
    }
    let r = langs[best].clone();
    proof {
        lemma_occurrences_contains(votes, r@);
        assert(counts@[best as int] == occurrences(votes, langs@[best as int]@));
        assert forall|x: Seq<char>| #[trigger] occurrences(votes, x) <= occurrences(votes, r@) by {
            if occurrences(votes, x) > 0 {
                let k = choose|k: int| 0 <= k < langs@.len() && langs@[k]@ == x;
                assert(counts@[k] == occurrences(votes, langs@[k]@));
            }
        }
    }
    r
}

} // verus!
