use std::sync::Arc;

use my_blog::analyzer::Analyzer;
use my_blog::articles::{FrontMatter, TimeStamp};
use my_blog::document::index_document;
use my_blog::markdown::MdOptions;
use my_blog::query::{
    plan_query, Field as PlanField, Occur as PlanOccur, QueryPlan, PHRASE_SLOP, SNIPPET_MAX_CHARS,
};
use my_blog::segment::Segmenter;
use tantivy::collector::{Count, TopDocs};
use tantivy::snippet::SnippetGenerator;
use tantivy::query::{BooleanQuery, BoostQuery, Occur, PhraseQuery, Query, TermQuery};
use tantivy::schema::{
    Facet, FacetOptions, IndexRecordOption, Schema, TextFieldIndexing, TextOptions, Value, STORED,
};
use tantivy::tokenizer::{TextAnalyzer, Token, TokenStream, Tokenizer};
use tantivy::{Index, TantivyDocument, Term};

#[derive(Clone)]
struct LibTokenizer {
    analyzer: Arc<Analyzer>,
    seg: Arc<Segmenter>,
}

struct VecStream {
    tokens: Vec<Token>,
    next: usize,
}

impl TokenStream for VecStream {
    fn advance(&mut self) -> bool {
        if self.next < self.tokens.len() {
            self.next += 1;
            true
        } else {
            false
        }
    }
    fn token(&self) -> &Token {
        &self.tokens[self.next - 1]
    }
    fn token_mut(&mut self) -> &mut Token {
        &mut self.tokens[self.next - 1]
    }
}

impl Tokenizer for LibTokenizer {
    type TokenStream<'a> = VecStream;
    fn token_stream<'a>(&'a mut self, text: &'a str) -> VecStream {
        let tokens = self
            .analyzer
            .analyze(&self.seg, text)
            .into_iter()
            .map(|t| Token {
                offset_from: t.offset_from,
                offset_to: t.offset_to,
                position: t.position,
                text: t.text,
                position_length: t.position_length,
            })
            .collect();
        VecStream { tokens, next: 0 }
    }
}

struct Fixture {
    index: Index,
    content: tantivy::schema::Field,
    title: tantivy::schema::Field,
    tags: tantivy::schema::Field,
    path: tantivy::schema::Field,
    seg: Arc<Segmenter>,
    index_an: Arc<Analyzer>,
    query_an: Arc<Analyzer>,
}

fn article(name: &str, title: &str, tags: &[&str]) -> FrontMatter {
    let t = TimeStamp { seconds: 0, nanos: 0, offset_seconds: 0 };
    FrontMatter {
        title: title.to_string(),
        file_name: name.to_string(),
        description: String::new(),
        posted: t,
        updated: t,
        tags: tags.iter().map(|s| s.to_string()).collect(),
        author: String::new(),
        estimated_reading_time: 1,
        cover_image: None,
    }
}

fn build(articles: &[(FrontMatter, &str)]) -> Fixture {
    let seg = Arc::new(Segmenter::new());
    let index_an = Arc::new(Analyzer::index_time(vec![]));
    let query_an = Arc::new(Analyzer::query_time(vec![]));
    let mut sb = Schema::builder();
    let indexing = TextFieldIndexing::default()
        .set_tokenizer("jieba")
        .set_index_option(IndexRecordOption::WithFreqsAndPositions);
    let opts = TextOptions::default().set_indexing_options(indexing).set_stored();
    let content = sb.add_text_field("content_zh", opts.clone());
    let title = sb.add_text_field("title", opts);
    let tags = sb.add_facet_field("tags", FacetOptions::default());
    let path = sb.add_text_field("path", STORED);
    let index = Index::create_in_ram(sb.build());
    let tok = LibTokenizer { analyzer: index_an.clone(), seg: seg.clone() };
    index.tokenizers().register("jieba", TextAnalyzer::builder(tok).build());
    let mut writer = index.writer::<TantivyDocument>(15_000_000).unwrap();
    for (fm, body) in articles {
        let d = index_document(fm, body, &MdOptions::blog());
        let mut doc = TantivyDocument::default();
        for f in &d.facets {
            doc.add_facet(tags, Facet::from(f.as_str()));
        }
        doc.add_text(content, &d.content);
        doc.add_text(title, &d.title);
        doc.add_text(path, &d.path);
        writer.add_document(doc).unwrap();
    }
    writer.commit().unwrap();
    Fixture { index, content, title, tags, path, seg, index_an, query_an }
}

fn to_query(fx: &Fixture, plan: &QueryPlan) -> Box<dyn Query> {
    let mut clauses: Vec<(Occur, Box<dyn Query>)> = Vec::new();
    for c in &plan.clauses {
        let field = match c.field {
            PlanField::Content => fx.content,
            PlanField::Title => fx.title,
        };
        let tq = TermQuery::new(
            Term::from_field_text(field, &c.term),
            IndexRecordOption::WithFreqsAndPositions,
        );
        let q: Box<dyn Query> = Box::new(BoostQuery::new(Box::new(tq), c.boost as f32 / 10.0));
        let occur = match c.occur {
            PlanOccur::Must => Occur::Must,
            PlanOccur::Should => Occur::Should,
        };
        clauses.push((occur, q));
    }
    let mut query: Box<dyn Query> = Box::new(BooleanQuery::new(clauses));
    if plan.phrase.len() > 1 {
        let terms = plan.phrase.iter().map(|t| Term::from_field_text(fx.content, t)).collect();
        let mut pq = PhraseQuery::new(terms);
        pq.set_slop(PHRASE_SLOP);
        query = Box::new(BooleanQuery::new(vec![
            (Occur::Must, query),
            (Occur::Should, Box::new(BoostQuery::new(Box::new(pq), 5.0))),
        ]));
    }
    if let Some(facets) = &plan.tag_facets {
        let tag_clauses: Vec<(Occur, Box<dyn Query>)> = facets
            .iter()
            .map(|f| {
                let term = Term::from_facet(fx.tags, &Facet::from(f.as_str()));
                (Occur::Must, Box::new(TermQuery::new(term, IndexRecordOption::Basic)) as Box<dyn Query>)
            })
            .collect();
        query = Box::new(BooleanQuery::new(vec![
            (Occur::Must, query),
            (Occur::Must, Box::new(BooleanQuery::new(tag_clauses))),
        ]));
    }
    query
}

fn run(fx: &Fixture, text: &str, tags: Option<&Vec<String>>, limit: usize, offset: usize) -> (usize, Vec<String>) {
    let plan = match plan_query(&fx.index_an, &fx.query_an, &fx.seg, text, tags) {
        Some(p) => p,
        None => return (0, vec![]),
    };
    let query = to_query(fx, &plan);
    let searcher = fx.index.reader().unwrap().searcher();
    let top = searcher
        .search(&*query, &TopDocs::with_limit(limit).and_offset(offset).order_by_score())
        .unwrap();
    let count = searcher.search(&*query, &Count).unwrap();
    let paths = top
        .into_iter()
        .map(|(_, addr)| {
            let doc: TantivyDocument = searcher.doc(addr).unwrap();
            doc.get_first(fx.path).and_then(|v| v.as_str()).unwrap().to_string()
        })
        .collect();
    (count, paths)
}

fn corpus() -> Fixture {
    build(&[
        (
            article("b", "Cooking at home", &["food"]),
            "Pasta needs water, salt and patience. A learning cook burns the sauce.",
        ),
        (
            article("a", "Machine Learning Primer", &["AI", "Rust"]),
            "This primer explains machine learning from the ground up.",
        ),
        (
            article("c", "Elephantine notes", &["misc"]),
            "Notes about large things. 机器学习也很有趣。",
        ),
    ])
}

#[test]
fn title_and_phrase_boost_rank_the_primer_first() {
    let fx = corpus();
    let (count, paths) = run(&fx, "machine learning", None, 10, 0);
    assert!(count >= 1);
    assert_eq!(paths[0], "a");
    assert!(!paths.contains(&"b".to_string()) || paths.iter().position(|p| p == "b") > Some(0));
}

#[test]
fn must_match_is_on_content_only() {
    let fx = corpus();
    let (count, paths) = run(&fx, "elephant", None, 10, 0);
    assert_eq!(count, 0);
    assert!(paths.is_empty());
}

#[test]
fn stop_words_return_empty_result() {
    let fx = corpus();
    assert_eq!(run(&fx, "the and of", None, 10, 0), (0, vec![]));
}

#[test]
fn tags_filter_text_search() {
    let fx = corpus();
    let rust = vec!["rust".to_string()];
    let (count, paths) = run(&fx, "primer", Some(&rust), 10, 0);
    assert_eq!((count, paths), (1, vec!["a".to_string()]));
    let food = vec!["food".to_string()];
    assert_eq!(run(&fx, "primer", Some(&food), 10, 0).0, 0);
}

#[test]
fn pages_are_bounded_by_limit_and_count() {
    let fx = corpus();
    for limit in 1..4 {
        for offset in 0..4 {
            let (count, paths) = run(&fx, "机器学习", None, limit, offset);
            assert!(paths.len() <= limit);
            assert!(paths.len() <= count);
        }
    }
}

#[test]
fn rebuilding_gives_identical_results() {
    let one = corpus();
    let two = corpus();
    for q in ["machine learning", "机器学习", "primer", "elephant"] {
        assert_eq!(run(&one, q, None, 10, 0), run(&two, q, None, 10, 0));
    }
}

fn strip_tags(html: &str) -> String {
    let mut out = String::new();
    let mut in_tag = false;
    for c in html.chars() {
        match c {
            '<' => in_tag = true,
            '>' => in_tag = false,
            _ if !in_tag => out.push(c),
            _ => {}
        }
    }
    out
}

#[test]
fn snippets_stay_within_the_limit() {
    let long_body = "machine learning is fun. ".repeat(60);
    let fx = build(&[(article("long", "Long read", &[]), long_body.as_str())]);
    let plan = plan_query(&fx.index_an, &fx.query_an, &fx.seg, "machine learning", None).unwrap();
    let query = to_query(&fx, &plan);
    let searcher = fx.index.reader().unwrap().searcher();
    let mut generator = SnippetGenerator::create(&searcher, &*query, fx.content).unwrap();
    generator.set_max_num_chars(SNIPPET_MAX_CHARS);
    let top = searcher.search(&*query, &TopDocs::with_limit(1).order_by_score()).unwrap();
    assert_eq!(top.len(), 1);
    let doc: TantivyDocument = searcher.doc(top[0].1).unwrap();
    let text = doc.get_first(fx.content).and_then(|v| v.as_str()).unwrap();
    let html = generator.snippet(text).to_html();
    assert!(html.contains("<b>"));
    let plain = strip_tags(&html).replace("&#x27;", "'");
    assert!(plain.chars().count() <= SNIPPET_MAX_CHARS);
}

#[test]
fn phrase_and_title_outrank_scattered_terms() {
    let fx = build(&[
        (
            article("scattered", "Workshop diary", &[]),
            "Learning to weld took weeks; the old machine in the back finally works.",
        ),
        (
            article("primer", "Machine Learning Primer", &[]),
            "This primer explains machine learning from the ground up.",
        ),
    ]);
    let (count, paths) = run(&fx, "machine learning", None, 10, 0);
    assert_eq!(count, 2);
    assert_eq!(paths, vec!["primer".to_string(), "scattered".to_string()]);
}
