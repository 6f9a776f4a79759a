use my_blog::analyzer::Analyzer;
use my_blog::paging::{page_count, page_links, paginate, PageUtil, SearchResult};
use my_blog::query::{
    build_clauses, facet_path, plan_query, Field, Occur, CJK_CONTENT_BOOST, NO_BOOST, TITLE_BOOST,
};
use my_blog::segment::Segmenter;
use my_blog::errors::RespError;

fn analyzers() -> (Analyzer, Analyzer) {
    let stop = vec!["的".to_string(), "了".to_string()];
    (Analyzer::index_time(stop.clone()), Analyzer::query_time(stop))
}

#[test]
fn stop_word_query_plans_nothing() {
    let seg = Segmenter::new();
    let (i, q) = analyzers();
    assert!(plan_query(&i, &q, &seg, "the and of", None).is_none());
    assert!(plan_query(&i, &q, &seg, "的了", None).is_none());
    assert!(plan_query(&i, &q, &seg, &"z".repeat(41), None).is_none());
    assert!(plan_query(&i, &q, &seg, "", None).is_none());
    assert!(plan_query(&i, &q, &seg, "!!! ???", None).is_none());
    assert!(plan_query(&i, &q, &seg, "   \u{3000} \t", None).is_none());
}

#[test]
fn latin_terms_must_match_content() {
    let seg = Segmenter::new();
    let (i, q) = analyzers();
    let plan = plan_query(&i, &q, &seg, "machine learning", None).unwrap();
    let terms: Vec<(Occur, Field, &str, u32)> =
        plan.clauses.iter().map(|c| (c.occur, c.field, c.term.as_str(), c.boost)).collect();
    assert_eq!(
        terms,
        vec![
            (Occur::Must, Field::Content, "machin", NO_BOOST),
            (Occur::Should, Field::Title, "machin", TITLE_BOOST),
            (Occur::Must, Field::Content, "learn", NO_BOOST),
            (Occur::Should, Field::Title, "learn", TITLE_BOOST),
        ]
    );
    assert_eq!(plan.phrase, vec!["machin".to_string(), "learn".to_string()]);
    assert!(plan.tag_facets.is_none());
}

#[test]
fn cjk_terms_only_add_to_score() {
    let seg = Segmenter::new();
    let (i, q) = analyzers();
    let plan = plan_query(&i, &q, &seg, "机器学习", None).unwrap();
    assert!(!plan.clauses.is_empty());
    for pair in plan.clauses.chunks(2) {
        assert_eq!(pair[0].occur, Occur::Should);
        assert_eq!(pair[0].field, Field::Content);
        assert_eq!(pair[0].boost, CJK_CONTENT_BOOST);
        assert_eq!(pair[1].occur, Occur::Should);
        assert_eq!(pair[1].field, Field::Title);
        assert_eq!(pair[1].boost, TITLE_BOOST);
        assert_eq!(pair[0].term, pair[1].term);
    }
}

#[test]
fn single_term_has_no_phrase_and_tags_become_facets() {
    let seg = Segmenter::new();
    let (i, q) = analyzers();
    let tags = vec!["rust".to_string(), "web".to_string()];
    let plan = plan_query(&i, &q, &seg, "rust", Some(&tags)).unwrap();
    assert!(plan.phrase.is_empty());
    assert_eq!(plan.tag_facets, Some(vec!["/rust".to_string(), "/web".to_string()]));
}

#[test]
fn clauses_for_mixed_terms() {
    let terms = vec!["学习".to_string(), "rust".to_string()];
    let cs = build_clauses(&terms);
    assert_eq!(cs.len(), 4);
    assert_eq!((cs[0].occur, cs[0].boost), (Occur::Should, CJK_CONTENT_BOOST));
    assert_eq!((cs[2].occur, cs[2].field, cs[2].boost), (Occur::Must, Field::Content, NO_BOOST));
    assert_eq!(facet_path(&"rust".to_string()), "/rust");
}

#[test]
fn page_counts_round_up() {
    assert_eq!(page_count(0, 7), 0);
    assert_eq!(page_count(7, 7), 1);
    assert_eq!(page_count(8, 7), 2);
    assert_eq!(page_count(15, 7), 3);
}

#[test]
fn pages_are_bounded() {
    let v: Vec<usize> = (0..10).collect();
    assert_eq!(paginate(&v, 3, 0), vec![0, 1, 2]);
    assert_eq!(paginate(&v, 3, 9), vec![9]);
    assert_eq!(paginate(&v, 3, 12), Vec::<usize>::new());
    assert_eq!(paginate(&v, 0, 2), Vec::<usize>::new());
    for limit in 0..12 {
        for offset in 0..12 {
            let p = paginate(&v, limit, offset);
            assert!(p.len() <= limit && p.len() <= v.len());
        }
    }
}

#[test]
fn pages_concatenate_to_the_ranking() {
    let v: Vec<usize> = (100..117).collect();
    let limit = 5;
    let mut all = Vec::new();
    let mut offset = 0;
    while offset < v.len() {
        all.extend(paginate(&v, limit, offset));
        offset += limit;
    }
    assert_eq!(all, v);
}

#[test]
fn page_links_around_current_page() {
    assert_eq!(PageUtil::new(1, 5), PageUtil { start: 2, end: 3, skip_back: 1, skip_forward: 5 });
    assert_eq!(PageUtil::new(3, 5), PageUtil { start: 2, end: 4, skip_back: 1, skip_forward: 5 });
    assert_eq!(PageUtil::new(5, 5), PageUtil { start: 3, end: 4, skip_back: 1, skip_forward: 5 });
    assert_eq!(PageUtil::new(6, 10), PageUtil { start: 5, end: 7, skip_back: 3, skip_forward: 9 });
    assert_eq!(PageUtil::new(1, 1), PageUtil { start: 2, end: 0, skip_back: 1, skip_forward: 1 });
}

#[test]
fn page_links_reject_missing_pages() {
    assert!(matches!(page_links(0, 10, 7), Err(RespError::NotFound)));
    assert!(matches!(page_links(3, 14, 7), Err(RespError::NotFound)));
    assert!(matches!(page_links(2, 0, 7), Ok(None)));
    assert!(matches!(page_links(2, 14, 7), Ok(Some(_))));
}

#[test]
fn empty_result_is_valid() {
    let r: SearchResult<usize> = SearchResult::default();
    assert_eq!(r.count, 0);
    assert!(r.terms.is_empty());
}
