//! The document that the index holds for one article.
use vstd::prelude::*;

use crate::analyzer::string_views;
use crate::articles::{lower_of, tags_of, to_lower, FrontMatter};
use crate::markdown::{markdown_events, md_to_plain, plain_of, MdOptions};
use crate::query::{facet_of, facet_path};
use crate::text::{normalize_spacing, preprocess_text};

verus! {

/// One indexed article: its searchable text, its title, its id, and one
/// facet path (`/tag`, lowercased) per tag.
pub struct IndexDocument {
    pub content: String,
    pub title: String,
    pub path: String,
    pub facets: Vec<String>,
}

/// The searchable text of an article: its normalised description, a space,
/// then the normalised plain text of its body.
pub open spec fn content_of(description: Seq<char>, body: Seq<char>, opts: MdOptions) -> Seq<char> {
    normalize_spacing(description) + seq![' '] + normalize_spacing(plain_of(markdown_events(body, opts)))
}

/// The index document of article `fm` whose markdown body is `body`.
pub fn index_document(fm: &FrontMatter, body: &str, opts: &MdOptions) -> (r: IndexDocument)
    ensures
        r.content@ == content_of(fm.description@, body@, *opts),
        r.title@ == fm.title@,
        r.path@ == fm.file_name@,
        string_views(r.facets@) == tags_of(*fm).map_values(|t: Seq<char>| facet_of(lower_of(t))),
{
    let text = md_to_plain(body, opts);
    let description = preprocess_text(fm.description.as_str());
    proof {
        reveal_strlit(" ");
    }
    let content = description.concat(" ").concat(text.as_str());
    let mut facets: Vec<String> = Vec::new();
    let mut i: usize = 0;
    while i < fm.tags.len()
        invariant
            i <= fm.tags@.len(),
            facets@.len() == i,
            forall|k: int| 0 <= k < i ==> (#[trigger] facets@[k])@ == facet_of(lower_of(fm.tags@[k]@)),
        decreases fm.tags@.len() - i,
    {
        let low = to_lower(fm.tags[i].as_str());
        facets.push(facet_path(&low));
        i += 1;
    }
    assert(string_views(facets@) =~= tags_of(*fm).map_values(|t: Seq<char>| facet_of(lower_of(t))));
    IndexDocument { content, title: fm.title.clone(), path: fm.file_name.clone(), facets }
}

} // verus!
