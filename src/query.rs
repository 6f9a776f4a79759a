//! Query planning: which terms a free-text query yields, and the weighted
//! boolean query built from them, with phrase and tag clauses.
use vstd::prelude::*;

use crate::analyzer::{analyzed_texts, kept, kept_indices, rewritten, string_views, Analyzer};
use crate::segment::{token_texts, Segmenter, Token};
use crate::text::{chars_of, han_marks, is_han, is_latin, is_white_space, latin};

verus! {

/// Boost of a CJK term on the content field, in tenths.
pub const CJK_CONTENT_BOOST: u32 = 15;

/// Boost of any term on the title field, in tenths.
pub const TITLE_BOOST: u32 = 20;

/// Boost of a clause that is not boosted, in tenths.
pub const NO_BOOST: u32 = 10;

/// Boost of the phrase clause, in tenths.
pub const PHRASE_BOOST: u32 = 50;

/// The longest snippet shown for a hit, in characters of source text.
pub const SNIPPET_MAX_CHARS: usize = 200;

/// How far apart, in positions, the phrase terms may stand.
pub const PHRASE_SLOP: u32 = 10;

/// Every character is Han, and there is at least one.
pub open spec fn all_han(s: Seq<char>) -> bool {
    s.len() > 0 && forall|i: int| 0 <= i < s.len() ==> is_han(#[trigger] s[i])
}

/// Every character is a Latin letter or Han, and there is at least one.
pub open spec fn latin_or_han(s: Seq<char>) -> bool {
    s.len() > 0 && forall|i: int| 0 <= i < s.len() ==> is_latin(#[trigger] s[i]) || is_han(s[i])
}

/// Whether `s` is a non-empty run of Han characters.
pub fn contains_cjk(s: &str) -> (r: bool)
    ensures
        r == all_han(s@),
{
    let cs = chars_of(s);
    let han = han_marks(&cs);
    if cs.len() == 0 {
        return false;
    }
    let mut i: usize = 0;
    while i < cs.len()
        invariant
            i <= cs@.len(),
            han@.len() == cs@.len(),
            cs@ == s@,
            forall|k: int| 0 <= k < cs@.len() ==> han@[k] == is_han(#[trigger] cs@[k]),
            forall|k: int| 0 <= k < i ==> is_han(#[trigger] cs@[k]),
        decreases cs@.len() - i,
    {
        if !han[i] {
            assert(!is_han(s@[i as int]));
            return false;
        }
        i += 1;
    }
    true
}

/// Whether `s` is a non-empty run of Latin letters and Han characters.
pub fn is_cjk_or_en(s: &str) -> (r: bool)
    ensures
        r == latin_or_han(s@),
{
    let cs = chars_of(s);
    let han = han_marks(&cs);
    if cs.len() == 0 {
        return false;
    }
    let mut i: usize = 0;
    while i < cs.len()
        invariant
            i <= cs@.len(),
            han@.len() == cs@.len(),
            cs@ == s@,
            forall|k: int| 0 <= k < cs@.len() ==> han@[k] == is_han(#[trigger] cs@[k]),
            forall|k: int| 0 <= k < i ==> is_latin(#[trigger] cs@[k]) || is_han(cs@[k]),
        decreases cs@.len() - i,
    {
        if !(latin(cs[i]) || han[i]) {
            assert(!(is_latin(s@[i as int]) || is_han(s@[i as int])));
            return false;
        }
        i += 1;
    }
    true
}

/// The two kinds of query term, which are weighted differently.
#[derive(Clone, Copy, Debug, PartialEq, Eq)]
pub enum TokenClass {
    Cjk,
    Other,
}

pub open spec fn class_of(s: Seq<char>) -> TokenClass {
    if all_han(s) {
        TokenClass::Cjk
    } else {
        TokenClass::Other
    }
}

pub fn classify(s: &str) -> (r: TokenClass)
    ensures
        r == class_of(s@),
{
    if contains_cjk(s) {
        TokenClass::Cjk
    } else {
        TokenClass::Other
    }
}

#[derive(Clone, Copy, Debug, PartialEq, Eq)]
pub enum Occur {
    Must,
    Should,
}

#[derive(Clone, Copy, Debug, PartialEq, Eq)]
pub enum Field {
    Content,
    Title,
}

/// One term clause of the boolean query; the boost is in tenths.
pub struct Clause {
    pub occur: Occur,
    pub field: Field,
    pub term: String,
    pub boost: u32,
}

pub open spec fn clause_is(c: Clause, occur: Occur, field: Field, term: Seq<char>, boost: u32) -> bool {
    c.occur == occur && c.field == field && c.term@ == term && c.boost == boost
}

/// The clauses for `terms`: two per term, in order. A CJK term only adds to
/// the score, on content (x1.5) and title (x2); any other term must match on
/// content and adds to the score on title (x2).
pub open spec fn clauses_for(cs: Seq<Clause>, terms: Seq<Seq<char>>) -> bool {
    &&& cs.len() == 2 * terms.len()
    &&& forall|i: int|
        0 <= i < terms.len() ==> if class_of(#[trigger] terms[i]) == TokenClass::Cjk {
            clause_is(cs[2 * i], Occur::Should, Field::Content, terms[i], CJK_CONTENT_BOOST)
                && clause_is(cs[2 * i + 1], Occur::Should, Field::Title, terms[i], TITLE_BOOST)
        } else {
            clause_is(cs[2 * i], Occur::Must, Field::Content, terms[i], NO_BOOST)
                && clause_is(cs[2 * i + 1], Occur::Should, Field::Title, terms[i], TITLE_BOOST)
        }
}

pub fn build_clauses(terms: &Vec<String>) -> (r: Vec<Clause>)
    ensures
        clauses_for(r@, string_views(terms@)),
{
    let ghost ts = string_views(terms@);
    let mut out: Vec<Clause> = Vec::new();
    let mut i: usize = 0;
    while i < terms.len()
        invariant
            i <= terms@.len(),
            ts == string_views(terms@),
            out@.len() == 2 * i,
            forall|k: int|
                0 <= k < i ==> if class_of(#[trigger] ts[k]) == TokenClass::Cjk {
                    clause_is(out@[2 * k], Occur::Should, Field::Content, ts[k], CJK_CONTENT_BOOST)
                        && clause_is(out@[2 * k + 1], Occur::Should, Field::Title, ts[k], TITLE_BOOST)
                } else {
                    clause_is(out@[2 * k], Occur::Must, Field::Content, ts[k], NO_BOOST)
                        && clause_is(out@[2 * k + 1], Occur::Should, Field::Title, ts[k], TITLE_BOOST)
                },
        decreases terms@.len() - i,
    {
        let t = &terms[i];
        assert(ts[i as int] == t@);
        match classify(t.as_str()) {
            TokenClass::Cjk => {
                out.push(Clause { occur: Occur::Should, field: Field::Content, term: t.clone(), boost: CJK_CONTENT_BOOST });
                out.push(Clause { occur: Occur::Should, field: Field::Title, term: t.clone(), boost: TITLE_BOOST });
            },
            TokenClass::Other => {
                out.push(Clause { occur: Occur::Must, field: Field::Content, term: t.clone(), boost: NO_BOOST });
                out.push(Clause { occur: Occur::Should, field: Field::Title, term: t.clone(), boost: TITLE_BOOST });
            },
        }
        i += 1;
    }
    out
}

/// The analyzed texts that can serve as query terms: those made of Latin
/// letters and Han characters only, in order.
pub open spec fn usable_terms(ts: Seq<Seq<char>>) -> Seq<Seq<char>>
    decreases ts.len(),
{
    if ts.len() == 0 {
        seq![]
    } else if latin_or_han(ts.last()) {
        usable_terms(ts.drop_last()).push(ts.last())
    } else {
        usable_terms(ts.drop_last())
    }
}

/// The texts of `tokens` that can serve as query terms.
pub fn query_terms(tokens: &Vec<Token>) -> (r: Vec<String>)
    ensures
        string_views(r@) == usable_terms(token_texts(tokens@)),
{
    let ghost ts = token_texts(tokens@);
    let mut out: Vec<String> = Vec::new();
    let mut i: usize = 0;
    assert(ts.take(0) =~= Seq::<Seq<char>>::empty());
    assert(string_views(out@) =~= usable_terms(ts.take(0)));
    while i < tokens.len()
        invariant
            i <= tokens@.len(),
            ts == token_texts(tokens@),
            string_views(out@) == usable_terms(ts.take(i as int)),
        decreases tokens@.len() - i,
    {
        let t = &tokens[i];
        assert(ts.take(i as int + 1).drop_last() =~= ts.take(i as int));
        assert(ts.take(i as int + 1).last() == t.text@);
        if is_cjk_or_en(t.text.as_str()) {
            let ghost before = out@;
            out.push(t.text.clone());
            assert(string_views(out@) =~= string_views(before).push(t.text@));
        }
        i += 1;
    }
    assert(ts.take(tokens@.len() as int) =~= ts);
    out
}

/// `"/"` followed by the tag: the facet path of a tag.
pub open spec fn facet_of(tag: Seq<char>) -> Seq<char> {
    seq!['/'] + tag
}

pub fn facet_path(tag: &String) -> (r: String)
    ensures
        r@ == facet_of(tag@),
{
    proof {
        reveal_strlit("/");
    }
    String::from_str("/").concat(tag.as_str())
}

/// A query ready to run: the term clauses, the phrase terms (empty when no
/// phrase clause is wanted) and the facet paths that a hit must carry.
pub struct QueryPlan {
    pub clauses: Vec<Clause>,
    pub phrase: Vec<String>,
    pub tag_facets: Option<Vec<String>>,
}

/// The terms that the index-time analyzer yields for `query`.
pub open spec fn index_terms(an: Analyzer, query: Seq<char>) -> Seq<Seq<char>> {
    usable_terms(analyzed_texts(an.words(query), an.cjk_stop()))
}

/// The phrase terms: those of the query-time analyzer, when there are two or
/// more of them, else none.
pub open spec fn phrase_terms(an: Analyzer, query: Seq<char>) -> Seq<Seq<char>> {
    let ts = usable_terms(analyzed_texts(an.words(query), an.cjk_stop()));
    if ts.len() > 1 {
        ts
    } else {
        seq![]
    }
}

/// The texts of what `an.analyze` returned are the analyzed texts of the
/// query's words.
proof fn lemma_analyzed_texts(an: Analyzer, query: Seq<char>, tokens: Seq<Token>)
    requires
        tokens.len() == kept_indices(an.words(query), an.cjk_stop()).len(),
        forall|j: int|
            0 <= j < tokens.len() ==> (#[trigger] tokens[j]).text@ == rewritten(
                an.words(query)[kept_indices(an.words(query), an.cjk_stop())[j]],
            ),
    ensures
        token_texts(tokens) == analyzed_texts(an.words(query), an.cjk_stop()),
{
    assert(token_texts(tokens) =~= analyzed_texts(an.words(query), an.cjk_stop()));
}

fn analyzed_terms(an: &Analyzer, seg: &Segmenter, query: &str) -> (r: Vec<String>)
    ensures
        string_views(r@) == usable_terms(analyzed_texts(an.words(query@), an.cjk_stop())),
{
    let tokens = an.analyze(seg, query);
    proof {
        lemma_analyzed_texts(*an, query@, tokens@);
    }
    query_terms(&tokens)
}

/// The tags as the plan sees them.
pub open spec fn tag_views(tags: Option<&Vec<String>>) -> Option<Seq<Seq<char>>> {
    match tags {
        Some(ts) => Some(string_views(ts@)),
        None => None,
    }
}

/// `p` is the plan of `query` with `tags`: the term clauses of the
/// index-time terms, the phrase terms of the query-time analyzer, and one
/// facet path per tag.
pub open spec fn is_plan_for(
    p: QueryPlan,
    index_an: Analyzer,
    query_an: Analyzer,
    query: Seq<char>,
    tags: Option<Seq<Seq<char>>>,
) -> bool {
    &&& clauses_for(p.clauses@, index_terms(index_an, query))
    &&& string_views(p.phrase@) == phrase_terms(query_an, query)
    &&& match tags {
        None => p.tag_facets is None,
        Some(ts) => p.tag_facets matches Some(fs) && string_views(fs@)
            == ts.map_values(|t: Seq<char>| facet_of(t)),
    }
}

/// What a clause says, without its string.
pub open spec fn clause_view(c: Clause) -> (Occur, Field, Seq<char>, u32) {
    (c.occur, c.field, c.term@, c.boost)
}

/// Planning is a function of the query, the tags and the analyzers: two
/// plans of the same query hold the same clauses, phrase terms and facets,
/// so rebuilding leaves what is searched unchanged.
pub proof fn law_plan_deterministic(
    first: QueryPlan,
    second: QueryPlan,
    index_an: Analyzer,
    query_an: Analyzer,
    query: Seq<char>,
    tags: Option<Seq<Seq<char>>>,
)
    requires
        is_plan_for(first, index_an, query_an, query, tags),
        is_plan_for(second, index_an, query_an, query, tags),
    ensures
        first.clauses@.map_values(|c: Clause| clause_view(c)) == second.clauses@.map_values(|c: Clause| clause_view(c)),
        string_views(first.phrase@) == string_views(second.phrase@),
        match (first.tag_facets, second.tag_facets) {
            (Some(f1), Some(f2)) => string_views(f1@) == string_views(f2@),
            (None, None) => true,
            _ => false,
        },
{
    let ts = index_terms(index_an, query);
    let v1 = first.clauses@.map_values(|c: Clause| clause_view(c));
    let v2 = second.clauses@.map_values(|c: Clause| clause_view(c));
    assert forall|x: int| 0 <= x < v1.len() implies v1[x] == v2[x] by {
        let i = x / 2;
        assert(x == 2 * i || x == 2 * i + 1);
        assert(0 <= i < ts.len());
        if class_of(ts[i]) == TokenClass::Cjk {
        } else {
        }
    }
    assert(v1 =~= v2);
}

/// Plans a free-text query, with an optional set of tags that every hit must
/// carry. `None` when the query yields no usable term: then nothing is to be
/// searched.
pub fn plan_query(
    index_an: &Analyzer,
    query_an: &Analyzer,
    seg: &Segmenter,
    query: &str,
    tags: Option<&Vec<String>>,
) -> (r: Option<QueryPlan>)
    ensures
        r is None <==> index_terms(*index_an, query@).len() == 0,
        r matches Some(p) ==> is_plan_for(p, *index_an, *query_an, query@, tag_views(tags)),
{
    let terms = analyzed_terms(index_an, seg, query);
    if terms.len() == 0 {
        return None;
    }
    let clauses = build_clauses(&terms);
    let mut phrase = analyzed_terms(query_an, seg, query);
    if phrase.len() <= 1 {
        phrase = Vec::new();
        assert(string_views(phrase@) =~= seq![]);
    }
    let tag_facets = match tags {
        None => None,
        Some(ts) => {
            let mut fs: Vec<String> = Vec::new();
            let mut i: usize = 0;
            while i < ts.len()
                invariant
                    i <= ts@.len(),
                    fs@.len() == i,
                    forall|k: int| 0 <= k < i ==> (#[trigger] fs@[k])@ == facet_of(ts@[k]@),
                decreases ts@.len() - i,
            {
                fs.push(facet_path(&ts[i]));
                i += 1;
            }
            assert(string_views(fs@) =~= string_views(ts@).map_values(
                |t: Seq<char>| facet_of(t),
            ));
            Some(fs)
        },
    };
    Some(QueryPlan { clauses, phrase, tag_facets })
}

proof fn lemma_kept_indices_sound(ws: Seq<Seq<char>>, stop: Seq<Seq<char>>)
    ensures
        forall|j: int|
            0 <= j < kept_indices(ws, stop).len() ==> 0 <= #[trigger] kept_indices(ws, stop)[j] < ws.len()
                && kept(ws[kept_indices(ws, stop)[j]], stop),
    decreases ws.len(),
{
    if ws.len() > 0 {
        let p = ws.drop_last();
        lemma_kept_indices_sound(p, stop);
        let m = kept_indices(ws, stop);
        let mp = kept_indices(p, stop);
        assert forall|j: int| 0 <= j < m.len() implies 0 <= #[trigger] m[j] < ws.len() && kept(ws[m[j]], stop) by {
            if j < mp.len() {
                assert(m[j] == mp[j]);
                assert(p[mp[j]] == ws[mp[j]]);
            } else {
                assert(m[j] == ws.len() - 1);
            }
        }
    }
}

proof fn lemma_none_usable(ts: Seq<Seq<char>>)
    requires
        forall|i: int| 0 <= i < ts.len() ==> !latin_or_han(#[trigger] ts[i]),
    ensures
        usable_terms(ts).len() == 0,
    decreases ts.len(),
{
    if ts.len() > 0 {
        let p = ts.drop_last();
        assert forall|i: int| 0 <= i < p.len() implies !latin_or_han(#[trigger] p[i]) by {
            assert(p[i] == ts[i]);
        }
        lemma_none_usable(p);
        assert(!latin_or_han(ts[ts.len() - 1]));
    }
}

/// A non-empty run of white space.
pub open spec fn is_blank(s: Seq<char>) -> bool {
    s.len() > 0 && forall|i: int| 0 <= i < s.len() ==> is_white_space(#[trigger] s[i])
}

/// A blank text is no query term: white space is neither Latin nor Han.
pub proof fn law_blank_is_unusable(s: Seq<char>)
    requires
        is_blank(s),
    ensures
        !latin_or_han(s),
{
    assert(is_white_space(s[0]));
    assert(!is_latin(s[0]) && !is_han(s[0]));
}

/// A query each of whose words is over-long or a stop word (a CJK one, or an
/// English one once stemmed), or is rewritten into a blank text or one that
/// is not purely Latin letters and Han, yields no term: `plan_query` returns
/// `None`, and no index is scanned.
pub proof fn law_stop_words_plan_nothing(an: Analyzer, query: Seq<char>)
    requires
        forall|i: int|
            0 <= i < an.words(query).len() ==> {
                let w = #[trigger] an.words(query)[i];
                !kept(w, an.cjk_stop()) || is_blank(rewritten(w)) || !latin_or_han(rewritten(w))
            },
    ensures
        index_terms(an, query).len() == 0,
{
    let ws = an.words(query);
    let stop = an.cjk_stop();
    let ts = analyzed_texts(ws, stop);
    lemma_kept_indices_sound(ws, stop);
    assert forall|j: int| 0 <= j < ts.len() implies !latin_or_han(#[trigger] ts[j]) by {
        let k = kept_indices(ws, stop)[j];
        assert(ts[j] == rewritten(ws[k]));
        if is_blank(rewritten(ws[k])) {
            law_blank_is_unusable(rewritten(ws[k]));
        }
    }
    lemma_none_usable(ts);
}

/// A term of Latin letters only is a must clause on the content field: a
/// title match alone never admits an article.
pub proof fn law_latin_term_must_match_content(cs: Seq<Clause>, terms: Seq<Seq<char>>, i: int)
    requires
        clauses_for(cs, terms),
        0 <= i < terms.len(),
        forall|k: int| 0 <= k < terms[i].len() ==> is_latin(#[trigger] terms[i][k]),
    ensures
        clause_is(cs[2 * i], Occur::Must, Field::Content, terms[i], NO_BOOST),
        clause_is(cs[2 * i + 1], Occur::Should, Field::Title, terms[i], TITLE_BOOST),
{
    if terms[i].len() > 0 {
        assert(is_latin(terms[i][0]));
        assert(!is_han(terms[i][0]));
    }
    assert(class_of(terms[i]) == TokenClass::Other);
}

} // verus!
