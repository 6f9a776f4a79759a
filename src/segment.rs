//! Word segmentation of CJK text and its bridge to positioned tokens.
use vstd::prelude::*;
use vstd::utf8::encode_utf8;

verus! {

#[verifier::external_type_specification]
#[verifier::external_body]
pub struct ExJieba(jieba_rs::Jieba);

/// The pieces of `s` in exact-cut mode: each word with its byte range and
/// character range in `s`.
pub uninterp spec fn cut_pieces(s: Seq<char>, hmm: bool) -> Seq<(Seq<char>, usize, usize, usize, usize)>;

/// Every dictionary word found in `s`, overlapping ones included, with its
/// byte range and character range.
pub uninterp spec fn cut_all_pieces(s: Seq<char>) -> Seq<(Seq<char>, usize, usize, usize, usize)>;

/// The pieces of `s` in search mode: the exact cut plus shorter words inside
/// long ones, with their byte ranges and character ranges.
pub uninterp spec fn cut_search_pieces(s: Seq<char>, hmm: bool) -> Seq<(Seq<char>, usize, usize, usize, usize)>;

/// One word that segmentation found, with its byte range and its character
/// range in the source text.
pub struct Piece {
    pub word: String,
    pub byte_start: usize,
    pub byte_end: usize,
    pub char_start: usize,
    pub char_end: usize,
}

/// A token of the token stream: its text, its byte range in the source
/// text, and its character position and width.
pub struct Token {
    pub text: String,
    pub offset_from: usize,
    pub offset_to: usize,
    pub position: usize,
    pub position_length: usize,
}

pub open spec fn piece_view(p: Piece) -> (Seq<char>, usize, usize, usize, usize) {
    (p.word@, p.byte_start, p.byte_end, p.char_start, p.char_end)
}

pub open spec fn piece_views(p: Seq<Piece>) -> Seq<(Seq<char>, usize, usize, usize, usize)> {
    p.map_values(|x: Piece| piece_view(x))
}

/// The words of some pieces.
pub open spec fn words_of(p: Seq<(Seq<char>, usize, usize, usize, usize)>) -> Seq<Seq<char>> {
    p.map_values(|x: (Seq<char>, usize, usize, usize, usize)| x.0)
}

pub open spec fn token_texts(t: Seq<Token>) -> Seq<Seq<char>> {
    t.map_values(|x: Token| x.text@)
}

/// The byte range `[from, to)` of `s` holds exactly `word`.
pub open spec fn slice_of(s: Seq<char>, from: usize, to: usize, word: Seq<char>) -> bool {
    &&& from <= to <= encode_utf8(s).len()
    &&& encode_utf8(s).subrange(from as int, to as int) == encode_utf8(word)
}

/// The piece is a slice of `s`, at its byte range and at its character range.
pub open spec fn piece_in(s: Seq<char>, p: (Seq<char>, usize, usize, usize, usize)) -> bool {
    &&& slice_of(s, p.1, p.2, p.0)
    &&& p.3 <= p.4 <= s.len()
    &&& s.subrange(p.3 as int, p.4 as int) == p.0
}

/// Every piece is a slice of `s` where it says.
pub open spec fn pieces_within(p: Seq<(Seq<char>, usize, usize, usize, usize)>, s: Seq<char>) -> bool {
    forall|i: int| 0 <= i < p.len() ==> piece_in(s, #[trigger] p[i])
}

/// Token `t` stands for piece `p`: same text, byte range and character range.
pub open spec fn token_for(t: Token, p: (Seq<char>, usize, usize, usize, usize)) -> bool {
    &&& t.text@ == p.0
    &&& t.offset_from == p.1
    &&& t.offset_to == p.2
    &&& t.position == p.3
    &&& t.position + t.position_length == p.4
}

/// Tokens `t` stand for the pieces `p`, one for one, in order.
pub open spec fn tokens_for(t: Seq<Token>, p: Seq<(Seq<char>, usize, usize, usize, usize)>) -> bool {
    t.len() == p.len() && forall|i: int| 0 <= i < t.len() ==> token_for(#[trigger] t[i], p[i])
}

#[derive(Clone, Copy, Debug, PartialEq, Eq)]
pub enum JiebaMode {
    Default,
    CutAll,
    Search,
}

/// The pieces that segmentation in `mode` yields for `s`.
pub open spec fn segment_pieces(mode: JiebaMode, hmm: bool, s: Seq<char>) -> Seq<(Seq<char>, usize, usize, usize, usize)> {
    match mode {
        JiebaMode::Default => cut_pieces(s, hmm),
        JiebaMode::CutAll => cut_all_pieces(s),
        JiebaMode::Search => cut_search_pieces(s, hmm),
    }
}

/// Holds a segmenter loaded with the default dictionary; it is never changed.
pub struct Segmenter {
    jieba: jieba_rs::Jieba,
}

/// Relies on jieba_rs::Jieba::new: a segmenter with the default dictionary.
#[verifier::external_body]
fn default_jieba() -> jieba_rs::Jieba {
    jieba_rs::Jieba::new()
}

impl Segmenter {
    pub fn new() -> Segmenter {
        Segmenter { jieba: default_jieba() }
    }

    /// Relies on jieba_rs::Jieba::cut: the exact cut, each word a slice of
    /// `s` with its byte and character ranges.
    #[verifier::external_body]
    fn cut(&self, s: &str, hmm: bool) -> (r: Vec<Piece>)
        ensures
            piece_views(r@) == cut_pieces(s@, hmm),
            pieces_within(piece_views(r@), s@),
    {
        self.jieba.cut(s, hmm).into_iter().map(|t| Piece {
            word: t.word.to_string(), byte_start: t.byte_start, byte_end: t.byte_end, char_start: t.start, char_end: t.end,
        }).collect()
    }

    /// Relies on jieba_rs::Jieba::cut_all: all dictionary words, each a slice
    /// of `s` with its byte and character ranges.
    #[verifier::external_body]
    fn cut_all(&self, s: &str) -> (r: Vec<Piece>)
        ensures
            piece_views(r@) == cut_all_pieces(s@),
            pieces_within(piece_views(r@), s@),
    {
        self.jieba.cut_all(s).into_iter().map(|t| Piece {
            word: t.word.to_string(), byte_start: t.byte_start, byte_end: t.byte_end, char_start: t.start, char_end: t.end,
        }).collect()
    }

    /// Relies on jieba_rs::Jieba::cut_for_search: the search-mode cut, each
    /// word a slice of `s` with its byte and character ranges.
    #[verifier::external_body]
    fn cut_for_search(&self, s: &str, hmm: bool) -> (r: Vec<Piece>)
        ensures
            piece_views(r@) == cut_search_pieces(s@, hmm),
            pieces_within(piece_views(r@), s@),
    {
        self.jieba.cut_for_search(s, hmm).into_iter().map(|t| Piece {
            word: t.word.to_string(), byte_start: t.byte_start, byte_end: t.byte_end, char_start: t.start, char_end: t.end,
        }).collect()
    }
}

/// Turns segmented pieces into tokens: each keeps its word, its byte range,
/// and its character range as position and width.
pub fn basic_tokenize(pieces: Vec<Piece>) -> (r: Vec<Token>)
    requires
        forall|i: int| 0 <= i < pieces@.len() ==> (#[trigger] pieces@[i]).char_start <= pieces@[i].char_end,
    ensures
        tokens_for(r@, piece_views(pieces@)),
{
    let mut tokens: Vec<Token> = Vec::new();
    let mut i: usize = 0;
    while i < pieces.len()
        invariant
            i <= pieces@.len(),
            forall|k: int| 0 <= k < pieces@.len() ==> (#[trigger] pieces@[k]).char_start <= pieces@[k].char_end,
            tokens@.len() == i,
            forall|k: int| 0 <= k < i ==> token_for(#[trigger] tokens@[k], piece_view(pieces@[k])),
        decreases pieces@.len() - i,
    {
        let piece = &pieces[i];
        tokens.push(
            Token {
                text: piece.word.clone(),
                offset_from: piece.byte_start,
                offset_to: piece.byte_end,
                position: piece.char_start,
                position_length: piece.char_end - piece.char_start,
            },
        );
        i += 1;
    }
    tokens
}

/// Segmentation settings: the cut mode and whether unknown words are guessed
/// with the hidden Markov model.
#[derive(Clone, Copy)]
pub struct JiebaTokenizer {
    pub hmm: bool,
    pub mode: JiebaMode,
}

impl Default for JiebaTokenizer {
    fn default() -> (r: Self)
        ensures
            r.hmm == false,
            r.mode == JiebaMode::Default,
    {
        JiebaTokenizer { hmm: false, mode: JiebaMode::Default }
    }
}

impl JiebaTokenizer {
    pub fn new(mode: JiebaMode, hmm: bool) -> (r: Self)
        ensures
            r.mode == mode,
            r.hmm == hmm,
    {
        JiebaTokenizer { hmm, mode }
    }

    pub fn with_mode(mode: JiebaMode) -> (r: Self)
        ensures
            r.mode == mode,
            r.hmm == false,
    {
        JiebaTokenizer { mode, hmm: false }
    }

    pub fn set_hmm(&mut self, hmm: bool)
        ensures
            final(self).hmm == hmm,
            final(self).mode == old(self).mode,
    {
        self.hmm = hmm;
    }

    pub fn set_mode(&mut self, mode: JiebaMode)
        ensures
            final(self).mode == mode,
            final(self).hmm == old(self).hmm,
    {
        self.mode = mode;
    }

    /// The pieces that this tokenizer's segmentation finds in `text`.
    pub open spec fn pieces(&self, text: Seq<char>) -> Seq<(Seq<char>, usize, usize, usize, usize)> {
        segment_pieces(self.mode, self.hmm, text)
    }

    /// The tokens of `text`: one per piece that segmentation in this mode
    /// finds, in order, each at its byte range and character range.
    pub fn tokens(&self, seg: &Segmenter, text: &str) -> (r: Vec<Token>)
        ensures
            tokens_for(r@, self.pieces(text@)),
            pieces_within(self.pieces(text@), text@),
    {
        let pieces = match self.mode {
            JiebaMode::Default => seg.cut(text, self.hmm),
            JiebaMode::CutAll => seg.cut_all(text),
            JiebaMode::Search => seg.cut_for_search(text, self.hmm),
        };
        assert forall|i: int| 0 <= i < pieces@.len() implies (#[trigger] pieces@[i]).char_start <= pieces@[i].char_end by {
            assert(piece_views(pieces@)[i] == piece_view(pieces@[i]));
            assert(piece_in(text@, self.pieces(text@)[i]));
        }
        basic_tokenize(pieces)
    }
}

} // verus!
