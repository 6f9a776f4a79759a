use my_blog::archive::Month;
use my_blog::articles::lex_le_chars;
use my_blog::articles::{
    extract_frontmatter, initial_sort_by_posted_fm, initial_sort_by_updated_fm, neighbours,
    parse_tags, resolve_hits, search_by_tags, FrontMatter, TimeStamp,
};
use my_blog::document::index_document;
use my_blog::errors::{CatError, RespError};
use my_blog::friends::{admit_request, request_file_stem, FriendRequest};
use my_blog::lock::Lock;
use my_blog::markdown::MdOptions;
use my_blog::reload::{on_message, reply, Msg, ReloadAction};
use my_blog::routes::{nonempty_query, route_search, SearchRoute};

fn ts(seconds: i64) -> TimeStamp {
    TimeStamp { seconds, nanos: 0, offset_seconds: 28800 }
}

fn fm(name: &str, tags: &[&str], posted: i64, updated: i64) -> FrontMatter {
    FrontMatter {
        title: format!("Title of {name}"),
        file_name: name.to_string(),
        description: "描述desc".to_string(),
        posted: ts(posted),
        updated: ts(updated),
        tags: tags.iter().map(|t| t.to_string()).collect(),
        author: "someone".to_string(),
        estimated_reading_time: 3,
        cover_image: None,
    }
}

fn corpus() -> Vec<FrontMatter> {
    vec![
        fm("a", &["Rust", "Web"], 10, 40),
        fm("b", &["rust"], 30, 20),
        fm("c", &["web", "RUST", "x"], 20, 30),
        fm("d", &[], 40, 10),
    ]
}

#[test]
fn tag_search_is_exact_and_case_insensitive() {
    let fms = corpus();
    let tags = vec!["rust".to_string(), "web".to_string()];
    let r = search_by_tags(&fms, &tags, 10, 0);
    assert_eq!(r.count, 2);
    assert_eq!(r.terms, vec![0, 2]);
    let r = search_by_tags(&fms, &tags, 1, 1);
    assert_eq!(r.count, 2);
    assert_eq!(r.terms, vec![2]);
    let none = search_by_tags(&fms, &vec!["go".to_string()], 10, 0);
    assert_eq!(none.count, 0);
    assert!(none.terms.is_empty());
    let all = search_by_tags(&fms, &vec![], 10, 0);
    assert_eq!(all.terms, vec![0, 1, 2, 3]);
}

#[test]
fn tag_parameter_parsing() {
    assert_eq!(parse_tags("Rust,web,rust"), vec!["rust".to_string(), "web".to_string()]);
    assert_eq!(parse_tags(""), vec!["".to_string()]);
    assert_eq!(parse_tags("a,,b"), vec!["a".to_string(), "".to_string(), "b".to_string()]);
}

#[test]
fn lookups_by_id() {
    let fms = corpus();
    assert!(matches!(extract_frontmatter(&fms, &"c".to_string()), Ok(2)));
    match extract_frontmatter(&fms, &"zz".to_string()) {
        Err(CatError::IO(m)) => assert_eq!(m, "Frontmatter for post 'zz' not found"),
        _ => panic!("expected a not-found error"),
    }
    let ok = resolve_hits(&fms, &vec!["d".to_string(), "a".to_string()]);
    assert_eq!(ok.ok(), Some(vec![3, 0]));
    let missing = resolve_hits(&fms, &vec!["a".to_string(), "gone".to_string()]);
    match missing {
        Err(CatError::IO(m)) => assert_eq!(m, "Frontmatter for post 'gone' not found"),
        _ => panic!("expected a not-found error"),
    }
    assert_eq!(neighbours(&fms, &"a".to_string()), (Some(1), None));
    assert_eq!(neighbours(&fms, &"c".to_string()), (Some(3), Some(1)));
    assert_eq!(neighbours(&fms, &"d".to_string()), (None, Some(2)));
    assert_eq!(neighbours(&fms, &"q".to_string()), (None, None));
}

#[test]
fn newest_first_orders() {
    let fms = corpus();
    assert_eq!(initial_sort_by_posted_fm(&fms), vec![3, 1, 2, 0]);
    assert_eq!(initial_sort_by_updated_fm(&fms), vec![0, 2, 1, 3]);
    let mut same = corpus();
    same[1].posted = TimeStamp { seconds: 10, nanos: 5, offset_seconds: 0 };
    assert_eq!(initial_sort_by_posted_fm(&same), vec![3, 2, 1, 0]);
}

#[test]
fn index_document_fields() {
    let f = fm("post-1", &["Rust", "Web开发"], 1, 1);
    let doc = index_document(&f, "Hello *world*", &MdOptions::blog());
    assert_eq!(doc.content, "描述 desc Hello world ");
    assert_eq!(doc.title, "Title of post-1");
    assert_eq!(doc.path, "post-1");
    assert_eq!(doc.facets, vec!["/rust".to_string(), "/web开发".to_string()]);
}

#[test]
fn index_document_is_deterministic() {
    let f = fm("p", &["A"], 1, 1);
    let one = index_document(&f, "# 标题\n\n正文text", &MdOptions::blog());
    let two = index_document(&f, "# 标题\n\n正文text", &MdOptions::blog());
    assert_eq!(one.content, two.content);
    assert_eq!(one.facets, two.facets);
}

#[test]
fn errors_map_to_responses() {
    assert!(matches!(RespError::from(CatError::TomlDe("x".into())), RespError::NotFound));
    assert!(matches!(RespError::from(CatError::Walker("x".into())), RespError::NotFound));
    assert!(matches!(RespError::from(CatError::IO("x".into())), RespError::InternalServerError));
    assert!(matches!(RespError::from(CatError::TomlSer("x".into())), RespError::InternalServerError));
    match RespError::from(CatError::internal("boom".to_string())) {
        RespError::Custom(s) => assert_eq!(s, "boom"),
        _ => panic!("expected a custom error"),
    }
}

#[test]
fn months_by_number() {
    assert_eq!(Month::from_u32(1), Some(Month::January));
    assert_eq!(Month::from_u32(12), Some(Month::December));
    assert_eq!(Month::from_u32(0), None);
    assert_eq!(Month::from_u32(13), None);
    assert_eq!(Month::March.as_str(), "March");
    assert_eq!(Month::October.number(), 10);
}

#[test]
fn friend_request_file_names() {
    let req = FriendRequest {
        name: "n".to_string(),
        url: "https://example.com".to_string(),
        avatar: String::new(),
        description: String::new(),
        email: String::new(),
    };
    assert_eq!(request_file_stem(&req), "Mnw_2ofOKGhIpXSYLd0LfHSH-BY");
    assert!(admit_request(1000).is_ok());
    match admit_request(1001) {
        Err(CatError::Custom(m)) => assert_eq!(m, "Too many friend requests"),
        _ => panic!("expected a refusal"),
    }
}

#[test]
fn reload_messages() {
    assert_eq!(on_message(1), ReloadAction::Reload);
    assert_eq!(on_message(4), ReloadAction::Exit);
    assert_eq!(on_message(2), ReloadAction::Ignore);
    assert_eq!(on_message(0), ReloadAction::Ignore);
    assert_eq!(reply(true), 2);
    assert_eq!(reply(false), 3);
    assert_eq!(Msg::from_u8(3), Some(Msg::Error));
    assert_eq!(Msg::from_u8(9), None);
}

#[test]
fn search_routes() {
    assert!(matches!(route_search(None, None, Some(2)), Err(RespError::BadRequest)));
    assert!(matches!(route_search(None, None, None), Ok((SearchRoute::Blank, 1))));
    match route_search(Some(vec!["a".to_string()]), None, Some(3)) {
        Ok((SearchRoute::ByTags(t), 3)) => assert_eq!(t, vec!["a".to_string()]),
        _ => panic!("expected a tag search"),
    }
    match route_search(Some(vec!["a".to_string()]), Some("q".to_string()), None) {
        Ok((SearchRoute::ByText(q, Some(t)), 1)) => {
            assert_eq!(q, "q");
            assert_eq!(t, vec!["a".to_string()]);
        }
        _ => panic!("expected a text search"),
    }
    assert_eq!(nonempty_query(Some(String::new())), None);
    assert_eq!(nonempty_query(Some("x".to_string())), Some("x".to_string()));
}

#[test]
fn lock_holds_and_replaces() {
    let mut l = Lock::new(vec![1, 2]);
    assert_eq!(l.get(), &vec![1, 2]);
    *l.get_mut() = vec![3];
    assert_eq!(l.get(), &vec![3]);
}

#[test]
fn all_tags_distinct_by_lowercase() {
    let fms = corpus();
    assert_eq!(
        my_blog::articles::all_tags(&fms),
        vec!["Rust".to_string(), "rust".to_string(), "RUST".to_string(), "Web".to_string(), "web".to_string(), "x".to_string()]
    );
}

#[test]
fn lucky_pick_is_a_match() {
    let fms = corpus();
    let tags = vec!["web".to_string()];
    for _ in 0..20 {
        let i = my_blog::articles::lucky_by_tags(&fms, &tags).unwrap();
        assert!(i == 0 || i == 2);
    }
    assert_eq!(my_blog::articles::lucky_by_tags(&fms, &vec!["none".to_string()]), None);
    assert_eq!(my_blog::articles::pick_one(&vec![]), None);
    assert_eq!(my_blog::articles::pick_one(&vec![7]), Some(7));
}

#[test]
fn lexicographic_order_of_chars() {
    let v = |s: &str| s.chars().collect::<Vec<char>>();
    assert!(lex_le_chars(&v("abc"), &v("abd")));
    assert!(lex_le_chars(&v("ab"), &v("abc")));
    assert!(!lex_le_chars(&v("abc"), &v("ab")));
    assert!(lex_le_chars(&v(""), &v("")));
    assert!(!lex_le_chars(&v("b"), &v("a")));
}
