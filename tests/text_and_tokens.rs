use my_blog::analyzer::Analyzer;
use my_blog::markdown::{classify_node, md_to_plain, render_plain, MdEvent, MdOptions, NodeClass};
use my_blog::query::{classify, contains_cjk, is_cjk_or_en, TokenClass};
use my_blog::segment::{basic_tokenize, JiebaMode, JiebaTokenizer, Piece, Segmenter};
use my_blog::text::preprocess_text;

#[test]
fn spacing_between_latin_and_han() {
    assert_eq!(preprocess_text("Rust语言abc"), "Rust 语言 abc");
    assert_eq!(preprocess_text("中文English中文"), "中文 English 中文");
}

#[test]
fn white_space_runs_collapse() {
    assert_eq!(preprocess_text("a  \n\t b"), "a b");
    assert_eq!(preprocess_text("  lead and trail  "), " lead and trail ");
    assert_eq!(preprocess_text(""), "");
}

#[test]
fn han_and_latin_classes() {
    assert!(contains_cjk("中文"));
    assert!(!contains_cjk("中a"));
    assert!(!contains_cjk(""));
    assert!(is_cjk_or_en("abc中"));
    assert!(!is_cjk_or_en("a1"));
    assert!(!is_cjk_or_en(" "));
    assert!(!is_cjk_or_en(""));
    assert_eq!(classify("学习"), TokenClass::Cjk);
    assert_eq!(classify("learn"), TokenClass::Other);
    assert_eq!(classify("rust语言"), TokenClass::Other);
}

#[test]
fn tokenize_keeps_char_ranges() {
    let pieces = vec![
        Piece { word: "我们".to_string(), byte_start: 0, byte_end: 6, char_start: 0, char_end: 2 },
        Piece { word: "们".to_string(), byte_start: 3, byte_end: 6, char_start: 1, char_end: 2 },
        Piece { word: "ab".to_string(), byte_start: 6, byte_end: 8, char_start: 2, char_end: 4 },
    ];
    let tokens = basic_tokenize(pieces);
    let positions: Vec<(usize, usize)> =
        tokens.iter().map(|t| (t.position, t.position_length)).collect();
    assert_eq!(positions, vec![(0, 2), (1, 1), (2, 2)]);
    assert_eq!(tokens[2].offset_from, 6);
    assert_eq!(tokens[2].offset_to, 8);
    assert_eq!(tokens[2].text, "ab");
}

#[test]
fn segmenter_tokens_are_slices_of_the_text() {
    let seg = Segmenter::new();
    let text = "我们在学习机器学习 with Rust";
    let chars: Vec<char> = text.chars().collect();
    for mode in [JiebaMode::Default, JiebaMode::CutAll, JiebaMode::Search] {
        let tokens = JiebaTokenizer::with_mode(mode).tokens(&seg, text);
        assert!(!tokens.is_empty());
        for t in &tokens {
            assert_eq!(&text[t.offset_from..t.offset_to], t.text);
            let end = t.position + t.position_length;
            assert!(end <= chars.len());
            assert_eq!(chars[t.position..end].iter().collect::<String>(), t.text);
        }
        let again = JiebaTokenizer::new(mode, false).tokens(&seg, text);
        let key = |v: &Vec<my_blog::segment::Token>| -> Vec<(String, usize, usize, usize, usize)> {
            v.iter().map(|t| (t.text.clone(), t.offset_from, t.offset_to, t.position, t.position_length)).collect()
        };
        assert_eq!(key(&tokens), key(&again));
    }
}

#[test]
fn search_mode_finds_shorter_words() {
    let seg = Segmenter::new();
    let exact = JiebaTokenizer::new(JiebaMode::Default, false).tokens(&seg, "中华人民共和国");
    let search = JiebaTokenizer::new(JiebaMode::Search, false).tokens(&seg, "中华人民共和国");
    assert!(search.len() > exact.len());
}

#[test]
fn tokenizer_settings() {
    let mut t = JiebaTokenizer::default();
    assert_eq!(t.mode, JiebaMode::Default);
    assert!(!t.hmm);
    t.set_hmm(true);
    t.set_mode(JiebaMode::Search);
    assert!(t.hmm);
    assert_eq!(t.mode, JiebaMode::Search);
}

#[test]
fn filters_stem_lowercase_and_drop() {
    let an = Analyzer::index_time(vec!["的".to_string()]);
    assert_eq!(an.filter_text(&"learning".to_string()), Some("learn".to_string()));
    assert_eq!(an.filter_text(&"Rust".to_string()), Some("rust".to_string()));
    assert_eq!(an.filter_text(&"the".to_string()), None);
    assert_eq!(an.filter_text(&"的".to_string()), None);
    assert_eq!(an.filter_text(&"x".repeat(41)), None);
    assert_eq!(an.filter_text(&"x".repeat(40)), Some("x".repeat(40)));
}

#[test]
fn lowercasing_has_no_final_sigma() {
    let an = Analyzer::index_time(vec![]);
    assert_eq!(an.filter_text(&"ΟΔΟΣ".to_string()), Some("οδοσ".to_string()));
}

#[test]
fn analyze_keeps_offsets_of_surviving_words() {
    let seg = Segmenter::new();
    let an = Analyzer::index_time(vec![]);
    let text = "the machines";
    let tokens = an.analyze(&seg, text);
    let texts: Vec<&str> = tokens.iter().map(|t| t.text.as_str()).collect();
    assert!(!texts.contains(&"the"));
    let m = tokens.iter().find(|t| t.text == "machin").unwrap();
    assert_eq!(&text[m.offset_from..m.offset_to], "machines");
}

#[test]
fn markdown_to_plain_text() {
    let md = "# Title\n\nSome *emph* text with [link](http://x.com).\n\n```\ncode\n```\n";
    assert_eq!(md_to_plain(md, &MdOptions::blog()), "Title Some emph text with link. code ");
}

#[test]
fn markdown_tables_and_chinese() {
    let md = "| a | b |\n|---|---|\n| 中文 | x |\n";
    let plain = md_to_plain(md, &MdOptions::blog());
    assert_eq!(plain, "a b 中文 x ");
}

fn enter(name: &str, lit: &str) -> MdEvent {
    MdEvent::Enter(name.to_string(), lit.to_string())
}

#[test]
fn render_plain_walk() {
    let events = vec![
        enter("document", ""),
        enter("paragraph", ""),
        enter("text", "hi"),
        MdEvent::Leave,
        enter("softbreak", ""),
        MdEvent::Leave,
        enter("emph", ""),
        enter("code", "x"),
        MdEvent::Leave,
        MdEvent::Leave,
        MdEvent::Leave,
        enter("code_block", "fn f()"),
        MdEvent::Leave,
        MdEvent::Leave,
    ];
    assert_eq!(render_plain(&events), "hi\nx\nfn f()\n");
}

#[test]
fn node_classes_by_name() {
    assert_eq!(classify_node(&"text".to_string()), NodeClass::Text);
    assert_eq!(classify_node(&"table_cell".to_string()), NodeClass::Block);
    assert_eq!(classify_node(&"linebreak".to_string()), NodeClass::Break);
    assert_eq!(classify_node(&"link".to_string()), NodeClass::Inline);
    assert_eq!(classify_node(&"code_block".to_string()), NodeClass::CodeBlock);
}

#[test]
fn markdown_strikethrough_and_footnotes() {
    let md = "Some ~~old~~ text[^1].\n\n[^1]: A note.\n";
    let plain = md_to_plain(md, &MdOptions::blog());
    assert!(plain.starts_with("Some old text"));
    assert!(plain.contains("A note."));
    assert!(!plain.contains('~'));
}
