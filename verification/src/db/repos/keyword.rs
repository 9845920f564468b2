//! Keyword (full-text) query construction.
//!
//! A query is lowercased, split into runs of alphanumeric characters, cleared
//! of common English and Russian stopwords, and each remaining word is quoted
//! for FTS5. When every word is a stopword, the words of the original query
//! are used instead.
use vstd::prelude::*;

use crate::text::{
    char_is_alphanumeric, chars_of, is_alphanumeric_char, join_seqs, join_strings, lowercase,
    push_all, push_char, str_eq, string_from_chars, to_lowercase, views,
};

verus! {

/// The pieces of `s` between characters that are not alphanumeric.
pub open spec fn alnum_runs(s: Seq<char>) -> Seq<Seq<char>>
    decreases s.len(),
{
    if s.len() == 0 {
        seq![Seq::empty()]
    } else {
        let init = alnum_runs(s.drop_last());
        if !is_alphanumeric_char(s.last()) {
            init.push(Seq::empty())
        } else {
            init.update(init.len() - 1, init.last().push(s.last()))
        }
    }
}

/// The non-empty pieces of `parts`, in order.
pub open spec fn non_empty(parts: Seq<Seq<char>>) -> Seq<Seq<char>>
    decreases parts.len(),
{
    if parts.len() == 0 {
        Seq::empty()
    } else if parts.last().len() == 0 {
        non_empty(parts.drop_last())
    } else {
        non_empty(parts.drop_last()).push(parts.last())
    }
}

/// The maximal runs of alphanumeric characters of `s`, in order.
pub open spec fn alnum_words(s: Seq<char>) -> Seq<Seq<char>> {
    non_empty(alnum_runs(s))
}

/// `w` between double quotes.
pub open spec fn quoted(w: Seq<char>) -> Seq<char> {
    seq!['"'] + w + seq!['"']
}

/// The words of `words` that are not stopwords, each quoted.
pub open spec fn quote_kept(words: Seq<Seq<char>>) -> Seq<Seq<char>>
    decreases words.len(),
{
    if words.len() == 0 {
        Seq::empty()
    } else if is_fts_stopword(words.last()) {
        quote_kept(words.drop_last())
    } else {
        quote_kept(words.drop_last()).push(quoted(words.last()))
    }
}

/// Every word of `words`, quoted.
pub open spec fn quote_all(words: Seq<Seq<char>>) -> Seq<Seq<char>> {
    words.map_values(|w: Seq<char>| quoted(w))
}

/// The FTS5 tokens of a query.
pub open spec fn fts_query_tokens(query: Seq<char>) -> Seq<Seq<char>> {
    let kept = quote_kept(alnum_words(lowercase(query)));
    if kept.len() > 0 {
        kept
    } else {
        quote_all(alnum_words(query))
    }
}

proof fn lemma_alnum_runs_nonempty(s: Seq<char>)
    ensures
        alnum_runs(s).len() >= 1,
    decreases s.len(),
{
    if s.len() > 0 {
        lemma_alnum_runs_nonempty(s.drop_last());
    }
}

/// The maximal runs of alphanumeric characters of `s`.
pub fn alnum_words_of(s: &str) -> (r: Vec<String>)
    ensures
        views(r@) == alnum_words(s@),
{
    let cs = chars_of(s);
    let n = cs.len();
    let mut out: Vec<String> = Vec::new();
    let mut cur: Vec<char> = Vec::new();
    let mut i: usize = 0;
    proof {
        assert(cs@.take(0) =~= Seq::<char>::empty());
        assert(alnum_runs(cs@.take(0)).drop_last() =~= Seq::<Seq<char>>::empty());
        assert(views(out@) =~= Seq::<Seq<char>>::empty());
    }
    while i < n
        invariant
            n == cs@.len(),
            cs@ == s@,
            i <= n,
            alnum_runs(cs@.take(i as int)).len() >= 1,
            alnum_runs(cs@.take(i as int)).last() == cur@,
            views(out@) == non_empty(alnum_runs(cs@.take(i as int)).drop_last()),
        decreases n - i,
    {
        let ghost parts = alnum_runs(cs@.take(i as int));
        proof {
            assert(cs@.take(i + 1).drop_last() =~= cs@.take(i as int));
            assert(cs@.take(i + 1).last() == cs@[i as int]);
            lemma_alnum_runs_nonempty(cs@.take(i + 1));
        }
        let c = cs[i];
        if !char_is_alphanumeric(c) {
            let ghost before = out@;
            if cur.len() > 0 {
                out.push(string_from_chars(cur.as_slice()));
            }
            proof {
                let next = alnum_runs(cs@.take(i + 1));
                assert(next == parts.push(Seq::empty()));
                assert(next.drop_last() =~= parts);
                assert(parts.drop_last().push(cur@) =~= parts);
                assert(views(out@) =~= (if cur@.len() == 0 {
                    views(before)
                } else {
                    views(before).push(cur@)
                }));
            }
            cur = Vec::new();
        } else {
            cur.push(c);
            proof {
                let next = alnum_runs(cs@.take(i + 1));
                assert(next == parts.update(parts.len() - 1, parts.last().push(c)));
                assert(next.drop_last() =~= parts.drop_last());
            }
        }
        i = i + 1;
    }
    let ghost parts = alnum_runs(cs@.take(n as int));
    let ghost before = out@;
    if cur.len() > 0 {
        out.push(string_from_chars(cur.as_slice()));
    }
    proof {
        assert(cs@.take(n as int) =~= s@);
        assert(parts.drop_last().push(cur@) =~= parts);
        assert(views(out@) =~= (if cur@.len() == 0 {
            views(before)
        } else {
            views(before).push(cur@)
        }));
    }
    out
}

/// `w` between double quotes.
pub fn quote(w: &str) -> (r: String)
    ensures
        r@ == quoted(w@),
{
    let mut q = String::new();
    push_char(&mut q, '"');
    push_all(&mut q, w);
    push_char(&mut q, '"');
    proof {
        assert(q@ =~= quoted(w@));
    }
    q
}

/// Tokenizes `query` for FTS5: lowercases it, keeps its alphanumeric words
/// that are not stopwords and quotes each; when none is left, quotes every
/// alphanumeric word of the query as written.
pub fn get_fts_query_tokens(query: &str) -> (r: Vec<String>)
    ensures
        views(r@) == fts_query_tokens(query@),
{
    let lower = to_lowercase(query);
    let words = alnum_words_of(lower.as_str());
    let mut kept: Vec<String> = Vec::new();
    let n = words.len();
    let mut i: usize = 0;
    while i < n
        invariant
            n == words@.len(),
            views(words@) == alnum_words(lowercase(query@)),
            i <= n,
            views(kept@) == quote_kept(views(words@).take(i as int)),
        decreases n - i,
    {
        let ghost before = kept@;
        proof {
            let t = views(words@).take(i + 1);
            assert(t.drop_last() =~= views(words@).take(i as int));
            assert(t.last() == words@[i as int]@);
        }
        if !fts_stopword(words[i].as_str()) {
            kept.push(quote(words[i].as_str()));
            assert(views(kept@) =~= views(before).push(quoted(words@[i as int]@)));
        }
        i = i + 1;
    }
    assert(views(words@).take(n as int) =~= views(words@));
    if kept.len() > 0 {
        return kept;
    }
    let original = alnum_words_of(query);
    let mut all: Vec<String> = Vec::new();
    let m = original.len();
    let mut j: usize = 0;
    while j < m
        invariant
            m == original@.len(),
            views(original@) == alnum_words(query@),
            j <= m,
            views(all@) == quote_all(views(original@).take(j as int)),
        decreases m - j,
    {
        let ghost before = all@;
        let q = quote(original[j].as_str());
        all.push(q);
        proof {
            assert(all@ == before.push(q));
            assert(views(before).len() == j);
            assert(before.len() == j);
            let t = views(original@).take(j + 1);
            let t0 = views(original@).take(j as int);
            assert(t[j as int] == original@[j as int]@);
            assert forall|k: int| 0 <= k < j + 1 implies views(all@)[k] == quote_all(t)[k] by {
                if k < j {
                    assert(t[k] == t0[k]);
                    assert(all@[k] == before[k]);
                    assert(views(before)[k] == quote_all(t0)[k]);
                } else {
                    assert(all@[k] == q);
                }
            }
            assert(views(all@) =~= quote_all(t));
        }
        j = j + 1;
    }
    assert(views(original@).take(m as int) =~= views(original@));
    all
}

/// The query's tokens joined with ` OR `.
pub fn clean_fts_query(query: &str) -> (r: String)
    ensures
        r@ == join_seqs(fts_query_tokens(query@), " OR "@),
{
    let tokens = get_fts_query_tokens(query);
    join_strings(tokens.as_slice(), " OR ")
}

/// The match expressions of a keyword search: all tokens required first, and
/// any token accepted as the fallback when there is more than one token.
#[derive(Debug, Clone)]
pub struct FtsQueryPlan {
    pub and_query: String,
    pub or_query: Option<String>,
}

/// Plans the keyword search for `query`; `None` when it has no token, in
/// which case the search returns nothing.
pub fn fts_query_plan(query: &str) -> (r: Option<FtsQueryPlan>)
    ensures
        ({
            let tokens = fts_query_tokens(query@);
            match r {
                None => tokens.len() == 0,
                Some(p) => {
                    &&& tokens.len() > 0
                    &&& p.and_query@ == join_seqs(tokens, " AND "@)
                    &&& (p.or_query is Some <==> tokens.len() > 1)
                    &&& (p.or_query matches Some(o) ==> o@ == join_seqs(tokens, " OR "@))
                }
            }
        }),
{
    let tokens = get_fts_query_tokens(query);
    if tokens.len() == 0 {
        return None;
    }
    let and_query = join_strings(tokens.as_slice(), " AND ");
    let or_query = if tokens.len() > 1 {
        Some(join_strings(tokens.as_slice(), " OR "))
    } else {
        None
    };
    Some(FtsQueryPlan { and_query, or_query })
}

/// The parts of `parts` joined with nothing between them.
pub open spec fn concat_parts(parts: Seq<Seq<char>>) -> Seq<char>
    decreases parts.len(),
{
    if parts.len() == 0 {
        Seq::empty()
    } else {
        concat_parts(parts.drop_last()) + parts.last()
    }
}

/// `s` without its characters that are not alphanumeric.
pub open spec fn alphanumeric_only(s: Seq<char>) -> Seq<char>
    decreases s.len(),
{
    if s.len() == 0 {
        Seq::empty()
    } else if is_alphanumeric_char(s.last()) {
        alphanumeric_only(s.drop_last()).push(s.last())
    } else {
        alphanumeric_only(s.drop_last())
    }
}

proof fn lemma_concat_update_last(p: Seq<Seq<char>>, x: Seq<char>)
    requires
        p.len() > 0,
    ensures
        concat_parts(p.update(p.len() - 1, x)) == concat_parts(p.drop_last()) + x,
        concat_parts(p) == concat_parts(p.drop_last()) + p.last(),
{
    assert(p.update(p.len() - 1, x).drop_last() =~= p.drop_last());
}

proof fn lemma_concat_runs(s: Seq<char>)
    ensures
        concat_parts(alnum_runs(s)) == alphanumeric_only(s),
    decreases s.len(),
{
    if s.len() == 0 {
        let r = alnum_runs(s);
        assert(r == seq![Seq::<char>::empty()]);
        assert(r.drop_last() =~= Seq::<Seq<char>>::empty());
        assert(concat_parts(r.drop_last()) == Seq::<char>::empty());
        assert(r.last() == Seq::<char>::empty());
        assert(concat_parts(r) =~= Seq::<char>::empty());
    } else {
        lemma_concat_runs(s.drop_last());
        lemma_alnum_runs_nonempty(s.drop_last());
        let init = alnum_runs(s.drop_last());
        if is_alphanumeric_char(s.last()) {
            lemma_concat_update_last(init, init.last().push(s.last()));
            assert(concat_parts(init.drop_last()) + init.last().push(s.last()) =~= (concat_parts(
                init.drop_last(),
            ) + init.last()).push(s.last()));
        } else {
            assert(init.push(Seq::<char>::empty()).drop_last() =~= init);
            assert(concat_parts(init) + Seq::<char>::empty() =~= concat_parts(init));
        }
    }
}

proof fn lemma_concat_non_empty(p: Seq<Seq<char>>)
    ensures
        concat_parts(non_empty(p)) == concat_parts(p),
    decreases p.len(),
{
    if p.len() > 0 {
        lemma_concat_non_empty(p.drop_last());
        if p.last().len() == 0 {
            assert(concat_parts(p.drop_last()) + p.last() =~= concat_parts(p.drop_last()));
        } else {
            assert(non_empty(p.drop_last()).push(p.last()).drop_last() =~= non_empty(p.drop_last()));
        }
    }
}

/// Splitting a query into words separates only at characters that are not
/// alphanumeric: the words, put back together, are the query with exactly
/// its non-alphanumeric characters removed (digits and letters all stay).
pub proof fn lemma_words_keep_every_alphanumeric(s: Seq<char>)
    ensures
        concat_parts(alnum_words(s)) == alphanumeric_only(s),
{
    lemma_concat_runs(s);
    lemma_concat_non_empty(alnum_runs(s));
}

/// Every word is a non-empty run of alphanumeric characters.
pub proof fn lemma_alnum_words_are_alphanumeric(s: Seq<char>)
    ensures
        forall|k: int|
            0 <= k < alnum_words(s).len() ==> (#[trigger] alnum_words(s)[k]).len() > 0 && forall|
                m: int,
            |
                0 <= m < alnum_words(s)[k].len() ==> is_alphanumeric_char(alnum_words(s)[k][m]),
{
    lemma_runs_alphanumeric(s);
    lemma_non_empty_keeps(alnum_runs(s));
}

proof fn lemma_runs_alphanumeric(s: Seq<char>)
    ensures
        forall|k: int, m: int|
            0 <= k < alnum_runs(s).len() && 0 <= m < alnum_runs(s)[k].len() ==> is_alphanumeric_char(
                #[trigger] alnum_runs(s)[k][m],
            ),
    decreases s.len(),
{
    if s.len() > 0 {
        lemma_runs_alphanumeric(s.drop_last());
        lemma_alnum_runs_nonempty(s.drop_last());
        let init = alnum_runs(s.drop_last());
        let runs = alnum_runs(s);
        assert forall|k: int, m: int|
            0 <= k < runs.len() && 0 <= m < runs[k].len() implies is_alphanumeric_char(
                #[trigger] runs[k][m],
            ) by {
            if is_alphanumeric_char(s.last()) && k == init.len() - 1 {
                if m < init.last().len() {
                    assert(runs[k][m] == init[k][m]);
                }
            } else if k < init.len() {
                assert(runs[k] == init[k]);
            }
        }
    }
}

proof fn lemma_non_empty_keeps(parts: Seq<Seq<char>>)
    requires
        forall|k: int, m: int|
            0 <= k < parts.len() && 0 <= m < parts[k].len() ==> is_alphanumeric_char(
                #[trigger] parts[k][m],
            ),
    ensures
        forall|k: int|
            0 <= k < non_empty(parts).len() ==> (#[trigger] non_empty(parts)[k]).len() > 0 && forall|
                m: int,
            |
                0 <= m < non_empty(parts)[k].len() ==> is_alphanumeric_char(non_empty(parts)[k][m]),
    decreases parts.len(),
{
    if parts.len() > 0 {
        let init = parts.drop_last();
        assert forall|k: int, m: int|
            0 <= k < init.len() && 0 <= m < init[k].len() implies is_alphanumeric_char(
                #[trigger] init[k][m],
            ) by {
            assert(init[k] == parts[k]);
        }
        lemma_non_empty_keeps(init);
        let ne = non_empty(parts);
        let prev = non_empty(init);
        assert forall|k: int|
            0 <= k < ne.len() implies (#[trigger] ne[k]).len() > 0 && forall|m: int|
                0 <= m < ne[k].len() ==> is_alphanumeric_char(ne[k][m]) by {
            if k < prev.len() {
                assert(ne[k] == prev[k]);
            } else {
                assert(ne[k] == parts.last());
                assert forall|m: int| 0 <= m < ne[k].len() implies is_alphanumeric_char(ne[k][m]) by {
                    assert(parts[parts.len() - 1][m] == ne[k][m]);
                }
            }
        }
    }
}

/// Whether `w` is one of the stopwords left out of keyword queries.
pub open spec fn is_fts_stopword(w: Seq<char>) -> bool {
        w == "a"@
        || w == "about"@
        || w == "above"@
        || w == "after"@
        || w == "again"@
        || w == "against"@
        || w == "all"@
        || w == "am"@
        || w == "an"@
        || w == "and"@
        || w == "any"@
        || w == "are"@
        || w == "as"@
        || w == "at"@
        || w == "be"@
        || w == "because"@
        || w == "been"@
        || w == "before"@
        || w == "being"@
        || w == "below"@
        || w == "between"@
        || w == "both"@
        || w == "but"@
        || w == "by"@
        || w == "did"@
        || w == "do"@
        || w == "does"@
        || w == "doing"@
        || w == "down"@
        || w == "during"@
        || w == "each"@
        || w == "few"@
        || w == "for"@
        || w == "from"@
        || w == "further"@
        || w == "had"@
        || w == "has"@
        || w == "have"@
        || w == "having"@
        || w == "he"@
        || w == "her"@
        || w == "here"@
        || w == "hers"@
        || w == "herself"@
        || w == "him"@
        || w == "himself"@
        || w == "his"@
        || w == "how"@
        || w == "i"@
        || w == "if"@
        || w == "in"@
        || w == "into"@
        || w == "is"@
        || w == "it"@
        || w == "its"@
        || w == "itself"@
        || w == "me"@
        || w == "more"@
        || w == "most"@
        || w == "my"@
        || w == "myself"@
        || w == "no"@
        || w == "nor"@
        || w == "not"@
        || w == "of"@
        || w == "off"@
        || w == "on"@
        || w == "once"@
        || w == "only"@
        || w == "or"@
        || w == "other"@
        || w == "our"@
        || w == "ours"@
        || w == "ourselves"@
        || w == "out"@
        || w == "over"@
        || w == "own"@
        || w == "same"@
        || w == "she"@
        || w == "should"@
        || w == "so"@
        || w == "some"@
        || w == "such"@
        || w == "than"@
        || w == "that"@
        || w == "the"@
        || w == "their"@
        || w == "theirs"@
        || w == "them"@
        || w == "themselves"@
        || w == "then"@
        || w == "there"@
        || w == "these"@
        || w == "they"@
        || w == "this"@
        || w == "those"@
        || w == "through"@
        || w == "to"@
        || w == "too"@
        || w == "under"@
        || w == "until"@
        || w == "up"@
        || w == "very"@
        || w == "was"@
        || w == "we"@
        || w == "were"@
        || w == "what"@
        || w == "when"@
        || w == "where"@
        || w == "which"@
        || w == "while"@
        || w == "who"@
        || w == "whom"@
        || w == "why"@
        || w == "with"@
        || w == "you"@
        || w == "your"@
        || w == "yours"@
        || w == "yourself"@
        || w == "yourselves"@
        || w == "и"@
        || w == "в"@
        || w == "во"@
        || w == "что"@
        || w == "такое"@
        || w == "как"@
        || w == "это"@
        || w == "не"@
        || w == "на"@
        || w == "с"@
        || w == "со"@
        || w == "он"@
        || w == "я"@
        || w == "у"@
        || w == "то"@
        || w == "так"@
        || w == "для"@
        || w == "о"@
        || w == "об"@
        || w == "обо"@
        || w == "по"@
        || w == "из"@
        || w == "от"@
        || w == "до"@
        || w == "или"@
        || w == "бы"@
        || w == "ли"@
        || w == "же"@
        || w == "чтобы"@
        || w == "если"@
        || w == "был"@
        || w == "была"@
        || w == "было"@
        || w == "были"@
        || w == "есть"@
        || w == "его"@
        || w == "ее"@
        || w == "их"@
        || w == "ему"@
        || w == "ей"@
        || w == "ими"@
        || w == "ком"@
        || w == "чем"@
        || w == "а"@
        || w == "но"@
        || w == "да"@
        || w == "уже"@
        || w == "когда"@
        || w == "кто"@
        || w == "где"@
        || w == "куда"@
        || w == "зачем"@
        || w == "почему"@
        || w == "кого"@
        || w == "кому"@
        || w == "кем"@
}

/// Whether `w` is a stopword of keyword queries.
pub fn fts_stopword(w: &str) -> (r: bool)
    ensures
        r == is_fts_stopword(w@),
{
        str_eq(w, "a")
        || str_eq(w, "about")
        || str_eq(w, "above")
        || str_eq(w, "after")
        || str_eq(w, "again")
        || str_eq(w, "against")
        || str_eq(w, "all")
        || str_eq(w, "am")
        || str_eq(w, "an")
        || str_eq(w, "and")
        || str_eq(w, "any")
        || str_eq(w, "are")
        || str_eq(w, "as")
        || str_eq(w, "at")
        || str_eq(w, "be")
        || str_eq(w, "because")
        || str_eq(w, "been")
        || str_eq(w, "before")
        || str_eq(w, "being")
        || str_eq(w, "below")
        || str_eq(w, "between")
        || str_eq(w, "both")
        || str_eq(w, "but")
        || str_eq(w, "by")
        || str_eq(w, "did")
        || str_eq(w, "do")
        || str_eq(w, "does")
        || str_eq(w, "doing")
        || str_eq(w, "down")
        || str_eq(w, "during")
        || str_eq(w, "each")
        || str_eq(w, "few")
        || str_eq(w, "for")
        || str_eq(w, "from")
        || str_eq(w, "further")
        || str_eq(w, "had")
        || str_eq(w, "has")
        || str_eq(w, "have")
        || str_eq(w, "having")
        || str_eq(w, "he")
        || str_eq(w, "her")
        || str_eq(w, "here")
        || str_eq(w, "hers")
        || str_eq(w, "herself")
        || str_eq(w, "him")
        || str_eq(w, "himself")
        || str_eq(w, "his")
        || str_eq(w, "how")
        || str_eq(w, "i")
        || str_eq(w, "if")
        || str_eq(w, "in")
        || str_eq(w, "into")
        || str_eq(w, "is")
        || str_eq(w, "it")
        || str_eq(w, "its")
        || str_eq(w, "itself")
        || str_eq(w, "me")
        || str_eq(w, "more")
        || str_eq(w, "most")
        || str_eq(w, "my")
        || str_eq(w, "myself")
        || str_eq(w, "no")
        || str_eq(w, "nor")
        || str_eq(w, "not")
        || str_eq(w, "of")
        || str_eq(w, "off")
        || str_eq(w, "on")
        || str_eq(w, "once")
        || str_eq(w, "only")
        || str_eq(w, "or")
        || str_eq(w, "other")
        || str_eq(w, "our")
        || str_eq(w, "ours")
        || str_eq(w, "ourselves")
        || str_eq(w, "out")
        || str_eq(w, "over")
        || str_eq(w, "own")
        || str_eq(w, "same")
        || str_eq(w, "she")
        || str_eq(w, "should")
        || str_eq(w, "so")
        || str_eq(w, "some")
        || str_eq(w, "such")
        || str_eq(w, "than")
        || str_eq(w, "that")
        || str_eq(w, "the")
        || str_eq(w, "their")
        || str_eq(w, "theirs")
        || str_eq(w, "them")
        || str_eq(w, "themselves")
        || str_eq(w, "then")
        || str_eq(w, "there")
        || str_eq(w, "these")
        || str_eq(w, "they")
        || str_eq(w, "this")
        || str_eq(w, "those")
        || str_eq(w, "through")
        || str_eq(w, "to")
        || str_eq(w, "too")
        || str_eq(w, "under")
        || str_eq(w, "until")
        || str_eq(w, "up")
        || str_eq(w, "very")
        || str_eq(w, "was")
        || str_eq(w, "we")
        || str_eq(w, "were")
        || str_eq(w, "what")
        || str_eq(w, "when")
        || str_eq(w, "where")
        || str_eq(w, "which")
        || str_eq(w, "while")
        || str_eq(w, "who")
        || str_eq(w, "whom")
        || str_eq(w, "why")
        || str_eq(w, "with")
        || str_eq(w, "you")
        || str_eq(w, "your")
        || str_eq(w, "yours")
        || str_eq(w, "yourself")
        || str_eq(w, "yourselves")
        || str_eq(w, "и")
        || str_eq(w, "в")
        || str_eq(w, "во")
        || str_eq(w, "что")
        || str_eq(w, "такое")
        || str_eq(w, "как")
        || str_eq(w, "это")
        || str_eq(w, "не")
        || str_eq(w, "на")
        || str_eq(w, "с")
        || str_eq(w, "со")
        || str_eq(w, "он")
        || str_eq(w, "я")
        || str_eq(w, "у")
        || str_eq(w, "то")
        || str_eq(w, "так")
        || str_eq(w, "для")
        || str_eq(w, "о")
        || str_eq(w, "об")
        || str_eq(w, "обо")
        || str_eq(w, "по")
        || str_eq(w, "из")
        || str_eq(w, "от")
        || str_eq(w, "до")
        || str_eq(w, "или")
        || str_eq(w, "бы")
        || str_eq(w, "ли")
        || str_eq(w, "же")
        || str_eq(w, "чтобы")
        || str_eq(w, "если")
        || str_eq(w, "был")
        || str_eq(w, "была")
        || str_eq(w, "было")
        || str_eq(w, "были")
        || str_eq(w, "есть")
        || str_eq(w, "его")
        || str_eq(w, "ее")
        || str_eq(w, "их")
        || str_eq(w, "ему")
        || str_eq(w, "ей")
        || str_eq(w, "ими")
        || str_eq(w, "ком")
        || str_eq(w, "чем")
        || str_eq(w, "а")
        || str_eq(w, "но")
        || str_eq(w, "да")
        || str_eq(w, "уже")
        || str_eq(w, "когда")
        || str_eq(w, "кто")
        || str_eq(w, "где")
        || str_eq(w, "куда")
        || str_eq(w, "зачем")
        || str_eq(w, "почему")
        || str_eq(w, "кого")
        || str_eq(w, "кому")
        || str_eq(w, "кем")
}

} // verus!
