//! The analyzer chain: segmentation, then a length limit, CJK stop words,
//! English stemming, English stop words and lowercasing, in that order.
use tantivy::tokenizer::TokenStream;
use vstd::prelude::*;
use vstd::string::StrSliceExecFns;

use crate::segment::{
    piece_in, pieces_within, token_for, tokens_for, words_of, JiebaMode, JiebaTokenizer, Segmenter,
    Token,
};

verus! {

/// Tokens longer than this many characters are dropped.
pub const MAX_TOKEN_CHARS: usize = 40;

/// The English Snowball stem of a word.
pub uninterp spec fn stem_of(w: Seq<char>) -> Seq<char>;

/// A word with each character lowercased (no special case for final sigma).
pub uninterp spec fn lowercase_of(w: Seq<char>) -> Seq<char>;

/// Relies on tantivy's `Stemmer` for `Language::English`, run over the single
/// token `w`.
#[verifier::external_body]
fn english_stem(w: &str) -> (r: String)
    ensures
        r@ == stem_of(w@),
{
    let mut analyzer = tantivy::tokenizer::TextAnalyzer::builder(
        tantivy::tokenizer::RawTokenizer::default(),
    ).filter(tantivy::tokenizer::Stemmer::new(tantivy::tokenizer::Language::English)).build();
    let mut stream = analyzer.token_stream(w);
    stream.next().map_or(String::new(), |t| t.text.clone())
}

/// Relies on tantivy's `LowerCaser`, run over the single token `w`.
#[verifier::external_body]
fn lowercase(w: &str) -> (r: String)
    ensures
        r@ == lowercase_of(w@),
{
    let mut analyzer = tantivy::tokenizer::TextAnalyzer::builder(
        tantivy::tokenizer::RawTokenizer::default(),
    ).filter(tantivy::tokenizer::LowerCaser).build();
    let mut stream = analyzer.token_stream(w);
    stream.next().map_or(String::new(), |t| t.text.clone())
}

/// The English stop word list (the one Lucene uses).
pub open spec fn english_stopwords() -> Seq<Seq<char>> {
    seq![
        "a"@, "an"@, "and"@, "are"@, "as"@, "at"@, "be"@, "but"@, "by"@, "for"@, "if"@,
        "in"@, "into"@, "is"@, "it"@, "no"@, "not"@, "of"@, "on"@, "or"@, "such"@, "that"@,
        "the"@, "their"@, "then"@, "there"@, "these"@, "they"@, "this"@, "to"@, "was"@,
        "will"@, "with"@,
    ]
}

/// Relies on tantivy's `StopWordFilter::new(Language::English)`, run over the
/// single token `w`: whether the filter drops it, that is whether `w` is one
/// of the words of its English list.
#[verifier::external_body]
fn english_stopword(w: &str) -> (r: bool)
    ensures
        r == english_stopwords().contains(w@),
{
    let filter = tantivy::tokenizer::StopWordFilter::new(tantivy::tokenizer::Language::English).unwrap();
    let mut analyzer = tantivy::tokenizer::TextAnalyzer::builder(
        tantivy::tokenizer::RawTokenizer::default(),
    ).filter(filter).build();
    let mut stream = analyzer.token_stream(w);
    stream.next().is_none()
}

pub open spec fn string_views(v: Seq<String>) -> Seq<Seq<char>> {
    v.map_values(|s: String| s@)
}

/// A token text survives the filters: it is at most forty characters long,
/// is no CJK stop word, and its stem is no English stop word.
pub open spec fn kept(t: Seq<char>, cjk_stop: Seq<Seq<char>>) -> bool {
    &&& t.len() <= MAX_TOKEN_CHARS
    &&& !cjk_stop.contains(t)
    &&& !english_stopwords().contains(stem_of(t))
}

/// What the filters make of a surviving token text.
pub open spec fn rewritten(t: Seq<char>) -> Seq<char> {
    lowercase_of(stem_of(t))
}

/// The indices of the words that survive the filters, in order.
pub open spec fn kept_indices(ws: Seq<Seq<char>>, cjk_stop: Seq<Seq<char>>) -> Seq<int>
    decreases ws.len(),
{
    if ws.len() == 0 {
        seq![]
    } else {
        let p = kept_indices(ws.drop_last(), cjk_stop);
        if kept(ws.last(), cjk_stop) {
            p.push(ws.len() - 1)
        } else {
            p
        }
    }
}

/// The texts that the analyzer emits for the words `ws`.
pub open spec fn analyzed_texts(ws: Seq<Seq<char>>, cjk_stop: Seq<Seq<char>>) -> Seq<Seq<char>> {
    kept_indices(ws, cjk_stop).map_values(|k: int| rewritten(ws[k]))
}

/// Whether `w` is one of `list`.
pub fn contains_word(list: &Vec<String>, w: &String) -> (r: bool)
    ensures
        r == string_views(list@).contains(w@),
{
    let mut i: usize = 0;
    while i < list.len()
        invariant
            i <= list@.len(),
            forall|k: int| 0 <= k < i ==> list@[k]@ != w@,
        decreases list@.len() - i,
    {
        if list[i] == *w {
            assert(string_views(list@)[i as int] == w@);
            return true;
        }
        i += 1;
    }
    assert forall|k: int| 0 <= k < list@.len() implies string_views(list@)[k] != w@ by {}
    false
}

/// A tokenizer followed by the filter chain. The CJK stop words are given;
/// the English ones are tantivy's.
pub struct Analyzer {
    pub tokenizer: JiebaTokenizer,
    pub cjk_stopwords: Vec<String>,
}

impl Analyzer {
    pub open spec fn cjk_stop(&self) -> Seq<Seq<char>> {
        string_views(self.cjk_stopwords@)
    }

    /// The words that this analyzer's tokenizer finds in `text`.
    pub open spec fn words(&self, text: Seq<char>) -> Seq<Seq<char>> {
        words_of(self.tokenizer.pieces(text))
    }

    pub fn new(tokenizer: JiebaTokenizer, cjk_stopwords: Vec<String>) -> (r: Analyzer)
        ensures
            r.tokenizer == tokenizer,
            r.cjk_stopwords@ == cjk_stopwords@,
    {
        Analyzer { tokenizer, cjk_stopwords }
    }

    /// The index-time analyzer: all cuts, so that every dictionary word of a
    /// text can be found.
    pub fn index_time(cjk_stopwords: Vec<String>) -> (r: Analyzer)
        ensures
            r.tokenizer.mode == JiebaMode::CutAll,
            r.tokenizer.hmm == false,
            r.cjk_stopwords@ == cjk_stopwords@,
    {
        Analyzer::new(JiebaTokenizer::with_mode(JiebaMode::CutAll), cjk_stopwords)
    }

    /// The query-time analyzer for phrase detection: search-mode cuts.
    pub fn query_time(cjk_stopwords: Vec<String>) -> (r: Analyzer)
        ensures
            r.tokenizer.mode == JiebaMode::Search,
            r.tokenizer.hmm == false,
            r.cjk_stopwords@ == cjk_stopwords@,
    {
        Analyzer::new(JiebaTokenizer::with_mode(JiebaMode::Search), cjk_stopwords)
    }

    /// Runs the filters on one token text: `None` when a filter drops it,
    /// else the rewritten text.
    pub fn filter_text(&self, t: &String) -> (r: Option<String>)
        ensures
            r is Some <==> kept(t@, self.cjk_stop()),
            r is Some ==> r->0@ == rewritten(t@),
    {
        if t.as_str().unicode_len() > MAX_TOKEN_CHARS {
            return None;
        }
        if contains_word(&self.cjk_stopwords, t) {
            return None;
        }
        let stemmed = english_stem(t.as_str());
        if english_stopword(stemmed.as_str()) {
            return None;
        }
        Some(lowercase(stemmed.as_str()))
    }

    /// The token stream of `text`: each surviving token rewritten, with the
    /// byte range and character range of the piece it came from.
    pub fn analyze(&self, seg: &Segmenter, text: &str) -> (r: Vec<Token>)
        ensures
            pieces_within(self.tokenizer.pieces(text@), text@),
            r@.len() == kept_indices(self.words(text@), self.cjk_stop()).len(),
            forall|j: int|
                0 <= j < r@.len() ==> {
                    let k = #[trigger] kept_indices(self.words(text@), self.cjk_stop())[j];
                    let p = self.tokenizer.pieces(text@)[k];
                    &&& 0 <= k < self.tokenizer.pieces(text@).len()
                    &&& r@[j].text@ == rewritten(p.0)
                    &&& r@[j].offset_from == p.1
                    &&& r@[j].offset_to == p.2
                    &&& r@[j].position == p.3
                    &&& r@[j].position + r@[j].position_length == p.4
                },
    {
        let ghost ps = self.tokenizer.pieces(text@);
        let ghost ws = self.words(text@);
        let ghost stop = self.cjk_stop();
        let tokens = self.tokenizer.tokens(seg, text);
        let mut out: Vec<Token> = Vec::new();
        let mut i: usize = 0;
        assert(ws.take(0).len() == 0);
        while i < tokens.len()
            invariant
                i <= tokens@.len(),
                tokens_for(tokens@, ps),
                ws == words_of(ps),
                ps == self.tokenizer.pieces(text@),
                ws == self.words(text@),
                stop == self.cjk_stop(),
                out@.len() == kept_indices(ws.take(i as int), stop).len(),
                forall|j: int|
                    0 <= j < out@.len() ==> {
                        let k = #[trigger] kept_indices(ws.take(i as int), stop)[j];
                        &&& 0 <= k < i
                        &&& out@[j].text@ == rewritten(ps[k].0)
                        &&& out@[j].offset_from == ps[k].1
                        &&& out@[j].offset_to == ps[k].2
                        &&& out@[j].position == ps[k].3
                        &&& out@[j].position + out@[j].position_length == ps[k].4
                    },
            decreases tokens@.len() - i,
        {
            let ghost before = kept_indices(ws.take(i as int), stop);
            assert(ws.take(i as int + 1).drop_last() =~= ws.take(i as int));
            assert(ws.take(i as int + 1).last() == ws[i as int]);
            let t = &tokens[i];
            assert(token_for(tokens@[i as int], ps[i as int]));
            assert(t.text@ == ws[i as int]);
            match self.filter_text(&t.text) {
                Some(text_out) => {
                    out.push(
                        Token {
                            text: text_out,
                            offset_from: t.offset_from,
                            offset_to: t.offset_to,
                            position: t.position,
                            position_length: t.position_length,
                        },
                    );
                    assert(kept_indices(ws.take(i as int + 1), stop) == before.push(i as int));
                },
                None => {
                    assert(kept_indices(ws.take(i as int + 1), stop) == before);
                },
            }
            i += 1;
        }
        assert(ws.take(tokens@.len() as int) =~= ws);
        out
    }
}

} // verus!
