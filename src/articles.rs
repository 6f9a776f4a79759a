//! Article metadata ("front matter"), tag search over it, and lookups by
//! article id.
use vstd::prelude::*;

use crate::analyzer::{contains_word, string_views};
use crate::errors::CatError;
use crate::paging::{page_of, paginate, SearchResult};
use crate::text::{chars_of, string_of};

verus! {

/// The lowercase form of a string in the full Unicode sense.
pub uninterp spec fn lower_of(s: Seq<char>) -> Seq<char>;

/// Relies on str::to_lowercase: the lowercase form of `s`.
#[verifier::external_body]
pub(crate) fn to_lower(s: &str) -> (r: String)
    ensures
        r@ == lower_of(s@),
{
    s.to_lowercase()
}

/// A point in time, as seconds and nanoseconds since the Unix epoch (UTC),
/// with the UTC offset it was written in.
#[derive(Clone, Copy, Debug, PartialEq, Eq)]
pub struct TimeStamp {
    pub seconds: i64,
    pub nanos: u32,
    pub offset_seconds: i32,
}

/// `a` is the same instant as `b` or later: time stamps order by seconds,
/// then by nanoseconds.
pub open spec fn at_or_after(a: TimeStamp, b: TimeStamp) -> bool {
    a.seconds > b.seconds || (a.seconds == b.seconds && a.nanos >= b.nanos)
}

pub fn is_at_or_after(a: &TimeStamp, b: &TimeStamp) -> (r: bool)
    ensures
        r == at_or_after(*a, *b),
{
    a.seconds > b.seconds || (a.seconds == b.seconds && a.nanos >= b.nanos)
}

/// `r` lists each index of `keys` once, newest first.
pub open spec fn newest_first_order(keys: Seq<TimeStamp>, r: Seq<usize>) -> bool {
    &&& r.len() == keys.len()
    &&& forall|x: usize| #[trigger] r.contains(x) <==> x < keys.len()
    &&& forall|q: int| 0 <= q < r.len() ==> #[trigger] r[q] < keys.len()
    &&& forall|q1: int, q2: int| 0 <= q1 < q2 < r.len() ==> #[trigger] r[q1] != #[trigger] r[q2]
    &&& forall|q1: int, q2: int|
        0 <= q1 < q2 < r.len() ==> at_or_after(keys[#[trigger] r[q1] as int], keys[#[trigger] r[q2] as int])
}

/// The indices of `keys`, newest first.
pub fn newest_first(keys: &Vec<TimeStamp>) -> (r: Vec<usize>)
    ensures
        newest_first_order(keys@, r@),
{
    let mut out: Vec<usize> = Vec::new();
    let mut i: usize = 0;
    while i < keys.len()
        invariant
            i <= keys@.len(),
            out@.len() == i,
            forall|q: int| 0 <= q < out@.len() ==> #[trigger] out@[q] < i,
            forall|x: usize| #[trigger] out@.contains(x) <==> x < i,
            forall|q1: int, q2: int| 0 <= q1 < q2 < out@.len() ==> #[trigger] out@[q1] != #[trigger] out@[q2],
            forall|q1: int, q2: int|
                0 <= q1 < q2 < out@.len() ==> at_or_after(keys@[#[trigger] out@[q1] as int], keys@[#[trigger] out@[q2] as int]),
        decreases keys@.len() - i,
    {
        let key = &keys[i];
        let mut p: usize = 0;
        let mut scanning = true;
        while scanning && p < out.len()
            invariant
                !scanning ==> p < out@.len() && !at_or_after(keys@[out@[p as int] as int], keys@[i as int]),
                p <= out@.len(),
                out@.len() == i,
                i < keys@.len(),
                forall|q: int| 0 <= q < out@.len() ==> #[trigger] out@[q] < i,
                forall|q: int| 0 <= q < p ==> at_or_after(keys@[#[trigger] out@[q] as int], keys@[i as int]),
                *key == keys@[i as int],
            decreases out@.len() - p, (if scanning { 1int } else { 0int }),
        {
            if is_at_or_after(&keys[out[p]], key) {
                p += 1;
            } else {
                scanning = false;
            }
        }
        let next = insert_at(&out, p, i);
        let ghost o = out@;
        let ghost n = next@;
        assert(n.len() == o.len() + 1);
        proof {
            lemma_inserted_members(o, p as int, i);
        }
        assert forall|x: int| 0 <= x < n.len() implies #[trigger] n[x] == (if x < p { o[x] } else if x == p { i } else { o[x - 1] }) by {}
        proof {
            if p < o.len() {
                assert(!at_or_after(keys@[o[p as int] as int], keys@[i as int]));
            }
            assert forall|q1: int, q2: int| 0 <= q1 < q2 < n.len() implies at_or_after(keys@[#[trigger] n[q1] as int], keys@[#[trigger] n[q2] as int]) by {
                if q2 == p {
                } else if q1 == p {
                    let j = q2 - 1;
                    if j > p {
                        assert(at_or_after(keys@[o[p as int] as int], keys@[o[j] as int]));
                    }
                } else if q1 < p && q2 > p {
                    assert(at_or_after(keys@[o[q1] as int], keys@[o[q2 - 1] as int]));
                } else if q1 > p {
                    assert(at_or_after(keys@[o[q1 - 1] as int], keys@[o[q2 - 1] as int]));
                } else {
                    assert(at_or_after(keys@[o[q1] as int], keys@[o[q2] as int]));
                }
            }
            assert forall|q1: int, q2: int| 0 <= q1 < q2 < n.len() implies #[trigger] n[q1] != #[trigger] n[q2] by {
                if q1 < p && q2 > p {
                    assert(o[q1] != o[q2 - 1]);
                } else if q1 > p {
                    assert(o[q1 - 1] != o[q2 - 1]);
                } else if q2 < p {
                    assert(o[q1] != o[q2]);
                }
            }
        }
        out = next;
        i += 1;
    }
    out
}

/// The articles by index, most recently posted first.
pub fn initial_sort_by_posted_fm(fms: &Vec<FrontMatter>) -> (r: Vec<usize>)
    ensures
        newest_first_order(fms@.map_values(|f: FrontMatter| f.posted), r@),
{
    let mut keys: Vec<TimeStamp> = Vec::new();
    let mut i: usize = 0;
    while i < fms.len()
        invariant
            i <= fms@.len(),
            keys@ == fms@.take(i as int).map_values(|f: FrontMatter| f.posted),
        decreases fms@.len() - i,
    {
        keys.push(fms[i].posted);
        i += 1;
        assert(keys@ =~= fms@.take(i as int).map_values(|f: FrontMatter| f.posted));
    }
    assert(fms@.take(fms@.len() as int) =~= fms@);
    newest_first(&keys)
}

/// The articles by index, most recently updated first.
pub fn initial_sort_by_updated_fm(fms: &Vec<FrontMatter>) -> (r: Vec<usize>)
    ensures
        newest_first_order(fms@.map_values(|f: FrontMatter| f.updated), r@),
{
    let mut keys: Vec<TimeStamp> = Vec::new();
    let mut i: usize = 0;
    while i < fms.len()
        invariant
            i <= fms@.len(),
            keys@ == fms@.take(i as int).map_values(|f: FrontMatter| f.updated),
        decreases fms@.len() - i,
    {
        keys.push(fms[i].updated);
        i += 1;
        assert(keys@ =~= fms@.take(i as int).map_values(|f: FrontMatter| f.updated));
    }
    assert(fms@.take(fms@.len() as int) =~= fms@);
    newest_first(&keys)
}

/// The metadata of one article; `file_name` is its unique id.
pub struct FrontMatter {
    pub title: String,
    pub file_name: String,
    pub description: String,
    pub posted: TimeStamp,
    pub updated: TimeStamp,
    pub tags: Vec<String>,
    pub author: String,
    pub estimated_reading_time: u32,
    pub cover_image: Option<String>,
}

pub open spec fn lowered(s: Seq<Seq<char>>) -> Seq<Seq<char>> {
    s.map_values(|u: Seq<char>| lower_of(u))
}

/// An article's tags, lowercased, include every one of `tags`.
pub open spec fn has_all_tags(article_tags: Seq<Seq<char>>, tags: Seq<Seq<char>>) -> bool {
    forall|j: int| 0 <= j < tags.len() ==> lowered(article_tags).contains(#[trigger] tags[j])
}

pub open spec fn tags_of(fm: FrontMatter) -> Seq<Seq<char>> {
    string_views(fm.tags@)
}

/// The indices of the articles that carry all of `tags`, in list order.
pub open spec fn matching(fms: Seq<FrontMatter>, tags: Seq<Seq<char>>) -> Seq<int>
    decreases fms.len(),
{
    if fms.len() == 0 {
        seq![]
    } else if has_all_tags(tags_of(fms.last()), tags) {
        matching(fms.drop_last(), tags).push(fms.len() - 1)
    } else {
        matching(fms.drop_last(), tags)
    }
}

pub open spec fn as_ints(v: Seq<usize>) -> Seq<int> {
    v.map_values(|i: usize| i as int)
}

/// Whether the lowercased tags of `fm` include every one of `tags`.
pub fn has_tags(fm: &FrontMatter, tags: &Vec<String>) -> (r: bool)
    ensures
        r == has_all_tags(tags_of(*fm), string_views(tags@)),
{
    let mut lower: Vec<String> = Vec::new();
    let mut i: usize = 0;
    while i < fm.tags.len()
        invariant
            i <= fm.tags@.len(),
            lower@.len() == i,
            forall|k: int| 0 <= k < i ==> (#[trigger] lower@[k])@ == lower_of(fm.tags@[k]@),
        decreases fm.tags@.len() - i,
    {
        lower.push(to_lower(fm.tags[i].as_str()));
        i += 1;
    }
    assert(string_views(lower@) =~= lowered(tags_of(*fm)));
    let mut j: usize = 0;
    while j < tags.len()
        invariant
            j <= tags@.len(),
            string_views(lower@) == lowered(tags_of(*fm)),
            forall|k: int| 0 <= k < j ==> lowered(tags_of(*fm)).contains(#[trigger] string_views(tags@)[k]),
        decreases tags@.len() - j,
    {
        if !contains_word(&lower, &tags[j]) {
            assert(string_views(tags@)[j as int] == tags@[j as int]@);
            return false;
        }
        j += 1;
    }
    true
}

/// The articles, by index, whose lowercased tags include all of `tags`, in
/// list order.
pub fn filter_tags(fms: &Vec<FrontMatter>, tags: &Vec<String>) -> (r: Vec<usize>)
    ensures
        as_ints(r@) == matching(fms@, string_views(tags@)),
{
    let ghost ts = string_views(tags@);
    let mut out: Vec<usize> = Vec::new();
    let mut i: usize = 0;
    assert(fms@.take(0) =~= Seq::<FrontMatter>::empty());
    assert(as_ints(out@) =~= matching(fms@.take(0), ts));
    while i < fms.len()
        invariant
            i <= fms@.len(),
            ts == string_views(tags@),
            as_ints(out@) == matching(fms@.take(i as int), ts),
        decreases fms@.len() - i,
    {
        assert(fms@.take(i as int + 1).drop_last() =~= fms@.take(i as int));
        assert(fms@.take(i as int + 1).last() == fms@[i as int]);
        if has_tags(&fms[i], tags) {
            let ghost before = out@;
            out.push(i);
            assert(as_ints(out@) =~= as_ints(before).push(i as int));
        }
        i += 1;
    }
    assert(fms@.take(fms@.len() as int) =~= fms@);
    out
}

/// Tag-only search over a list of articles kept in display order: the
/// articles that carry all of `tags`, counted, and the page that skips
/// `offset` of them and holds at most `limit`. No score is computed; the
/// time is left for the caller to record.
pub fn search_by_tags(fms: &Vec<FrontMatter>, tags: &Vec<String>, limit: usize, offset: usize) -> (r: SearchResult<usize>)
    ensures
        r.count == matching(fms@, string_views(tags@)).len(),
        as_ints(r.terms@) == page_of(matching(fms@, string_views(tags@)), limit as int, offset as int),
        r.time_cost == 0,
{
    let all = filter_tags(fms, tags);
    let page = paginate(&all, limit, offset);
    assert(as_ints(page@) =~= page_of(as_ints(all@), limit as int, offset as int));
    SearchResult { count: all.len(), time_cost: 0, terms: page }
}

/// An article is matched when it carries all the tags.
pub open spec fn is_match(fms: Seq<FrontMatter>, tags: Seq<Seq<char>>, i: int) -> bool {
    0 <= i < fms.len() && has_all_tags(tags_of(fms[i]), tags)
}

proof fn lemma_matching_members(fms: Seq<FrontMatter>, tags: Seq<Seq<char>>)
    ensures
        forall|i: int| #[trigger] matching(fms, tags).contains(i) <==> is_match(fms, tags, i),
        forall|a: int, b: int|
            0 <= a < b < matching(fms, tags).len() ==> #[trigger] matching(fms, tags)[a]
                < #[trigger] matching(fms, tags)[b],
    decreases fms.len(),
{
    if fms.len() > 0 {
        let p = fms.drop_last();
        let n = fms.len() - 1;
        lemma_matching_members(p, tags);
        let m = matching(fms, tags);
        let mp = matching(p, tags);
        assert forall|i: int| 0 <= i < p.len() implies is_match(p, tags, i) == is_match(fms, tags, i) by {
            assert(p[i] == fms[i]);
        }
        assert forall|k: int| 0 <= k < mp.len() implies 0 <= #[trigger] mp[k] < n by {
            assert(mp.contains(mp[k]));
        }
        if has_all_tags(tags_of(fms.last()), tags) {
            assert(m == mp.push(n));
            assert forall|i: int| #[trigger] m.contains(i) <==> is_match(fms, tags, i) by {
                if m.contains(i) {
                    let k = choose|k: int| 0 <= k < m.len() && m[k] == i;
                    if k < mp.len() {
                        assert(mp.contains(i));
                    }
                }
                if is_match(fms, tags, i) {
                    if i < n {
                        assert(mp.contains(i));
                        let k = choose|k: int| 0 <= k < mp.len() && mp[k] == i;
                        assert(m[k] == i);
                    } else {
                        assert(m[m.len() - 1] == i);
                    }
                }
            }
        } else {
            assert(m == mp);
            assert forall|i: int| #[trigger] m.contains(i) <==> is_match(fms, tags, i) by {
                if is_match(fms, tags, i) && i == n {
                    assert(!mp.contains(i));
                }
            }
        }
    }
}

/// Tag search finds exactly the articles whose lowercased tags include all
/// of the asked tags, each once, in list order.
pub proof fn law_tag_search_exact(fms: Seq<FrontMatter>, tags: Seq<Seq<char>>)
    ensures
        forall|i: int| #[trigger] matching(fms, tags).contains(i) <==> is_match(fms, tags, i),
        forall|a: int, b: int|
            0 <= a < b < matching(fms, tags).len() ==> #[trigger] matching(fms, tags)[a]
                < #[trigger] matching(fms, tags)[b],
{
    lemma_matching_members(fms, tags);
}

/// No article before index `end` has id `name`.
pub open spec fn absent_before(fms: Seq<FrontMatter>, name: Seq<char>, end: int) -> bool {
    forall|k: int| 0 <= k < end ==> (#[trigger] fms[k]).file_name@ != name
}

/// `i` is the first article with id `name`.
pub open spec fn first_named(fms: Seq<FrontMatter>, name: Seq<char>, i: int) -> bool {
    0 <= i < fms.len() && fms[i].file_name@ == name && absent_before(fms, name, i)
}

/// The index of the first article with id `name`, if any.
pub fn position(fms: &Vec<FrontMatter>, name: &String) -> (r: Option<usize>)
    ensures
        match r {
            Some(i) => first_named(fms@, name@, i as int),
            None => absent_before(fms@, name@, fms@.len() as int),
        },
{
    let mut i: usize = 0;
    while i < fms.len()
        invariant
            i <= fms@.len(),
            absent_before(fms@, name@, i as int),
        decreases fms@.len() - i,
    {
        if fms[i].file_name == *name {
            return Some(i);
        }
        i += 1;
    }
    None
}

/// The message of a failed lookup: it names the article.
pub open spec fn not_found_message(name: Seq<char>) -> Seq<char> {
    "Frontmatter for post '"@ + name + "' not found"@
}

/// The metadata of article `post_name`, by index; an I/O error (not found)
/// when the list holds no such article.
pub fn extract_frontmatter(fms: &Vec<FrontMatter>, post_name: &String) -> (r: Result<usize, CatError>)
    ensures
        match r {
            Ok(i) => first_named(fms@, post_name@, i as int),
            Err(e) => absent_before(fms@, post_name@, fms@.len() as int) && (e matches CatError::IO(m)
                && m@ == not_found_message(post_name@)),
        },
{
    match position(fms, post_name) {
        Some(i) => Ok(i),
        None => {
            let msg = String::from_str("Frontmatter for post '").concat(post_name.as_str()).concat("' not found");
            Err(CatError::IO(msg))
        },
    }
}

/// Joins ranked hits, given by article id, with their metadata, keeping the
/// rank order. Fails on the first id that the list does not hold.
pub fn resolve_hits(fms: &Vec<FrontMatter>, paths: &Vec<String>) -> (r: Result<Vec<usize>, CatError>)
    ensures
        match r {
            Ok(v) => v@.len() == paths@.len() && forall|k: int|
                0 <= k < v@.len() ==> first_named(fms@, paths@[k]@, #[trigger] v@[k] as int),
            Err(e) => exists|k: int|
                0 <= k < paths@.len() && absent_before(fms@, #[trigger] paths@[k]@, fms@.len() as int)
                    && (forall|j: int| 0 <= j < k ==> !absent_before(fms@, #[trigger] paths@[j]@, fms@.len() as int))
                    && (e matches CatError::IO(m) && m@ == not_found_message(paths@[k]@)),
        },
{
    let mut out: Vec<usize> = Vec::new();
    let mut k: usize = 0;
    while k < paths.len()
        invariant
            k <= paths@.len(),
            out@.len() == k,
            forall|j: int| 0 <= j < k ==> first_named(fms@, paths@[j]@, #[trigger] out@[j] as int),
        decreases paths@.len() - k,
    {
        match extract_frontmatter(fms, &paths[k]) {
            Ok(i) => out.push(i),
            Err(e) => {
                assert forall|j: int| 0 <= j < k implies !absent_before(fms@, #[trigger] paths@[j]@, fms@.len() as int) by {
                    assert(first_named(fms@, paths@[j]@, out@[j] as int));
                    assert(fms@[out@[j] as int].file_name@ == paths@[j]@);
                }
                return Err(e);
            },
        }
        k += 1;
    }
    Ok(out)
}

/// The articles next to article `name` in the list: the one after it and
/// the one before it, where they exist.
pub fn neighbours(fms: &Vec<FrontMatter>, name: &String) -> (r: (Option<usize>, Option<usize>))
    ensures
        match position_spec(fms@, name@) {
            Some(i) => r.0 == (if i + 1 < fms@.len() { Some((i + 1) as usize) } else { None::<usize> })
                && r.1 == (if i > 0 { Some((i - 1) as usize) } else { None::<usize> }),
            None => r.0 is None && r.1 is None,
        },
{
    match position(fms, name) {
        Some(i) => {
            proof { lemma_position_unique(fms@, name@, i as int); }
            let next = if i < fms.len() - 1 { Some(i + 1) } else { None };
            let prev = if i > 0 { Some(i - 1) } else { None };
            (next, prev)
        },
        None => (None, None),
    }
}

/// The index of the first article with id `name`, if any.
pub open spec fn position_spec(fms: Seq<FrontMatter>, name: Seq<char>) -> Option<int> {
    if exists|i: int| first_named(fms, name, i) {
        Some(choose|i: int| first_named(fms, name, i))
    } else {
        None
    }
}

proof fn lemma_position_unique(fms: Seq<FrontMatter>, name: Seq<char>, i: int)
    requires
        first_named(fms, name, i),
    ensures
        position_spec(fms, name) == Some(i),
{
    let j = choose|j: int| first_named(fms, name, j);
    if j < i {
        assert(fms[j].file_name@ != name);
    }
    if i < j {
        assert(fms[i].file_name@ != name);
    }
}

/// A comma-separated list split at each comma (an empty text is one empty
/// piece).
pub open spec fn split_commas(s: Seq<char>) -> Seq<Seq<char>>
    decreases s.len(),
{
    if s.len() == 0 {
        seq![seq![]]
    } else {
        let p = split_commas(s.drop_last());
        if s.last() == ',' {
            p.push(seq![])
        } else {
            p.update(p.len() - 1, p.last().push(s.last()))
        }
    }
}

/// `s` with later repeats of an item left out.
pub open spec fn distinct(s: Seq<Seq<char>>) -> Seq<Seq<char>>
    decreases s.len(),
{
    if s.len() == 0 {
        seq![]
    } else {
        let p = distinct(s.drop_last());
        if p.contains(s.last()) {
            p
        } else {
            p.push(s.last())
        }
    }
}

proof fn lemma_split_nonempty(s: Seq<char>)
    ensures
        split_commas(s).len() >= 1,
    decreases s.len(),
{
    if s.len() > 0 {
        lemma_split_nonempty(s.drop_last());
    }
}

/// The tags of a query parameter: split at commas, lowercased, each kept
/// once in order of first appearance.
pub fn parse_tags(s: &str) -> (r: Vec<String>)
    ensures
        string_views(r@) == distinct(lowered(split_commas(s@))),
{
    let cs = chars_of(s);
    let mut pieces: Vec<String> = Vec::new();
    let mut cur: Vec<char> = Vec::new();
    let mut i: usize = 0;
    assert(cs@.take(0) =~= Seq::<char>::empty());
    while i < cs.len()
        invariant
            i <= cs@.len(),
            cs@ == s@,
            string_views(pieces@).push(cur@) == split_commas(cs@.take(i as int)),
        decreases cs@.len() - i,
    {
        let c = cs[i];
        let ghost before = string_views(pieces@).push(cur@);
        assert(cs@.take(i as int + 1).drop_last() =~= cs@.take(i as int));
        proof { lemma_split_nonempty(cs@.take(i as int)); }
        if c == ',' {
            let piece = string_of(&cur);
            pieces.push(piece);
            cur = Vec::new();
            assert(string_views(pieces@).push(cur@) =~= before.push(seq![]));
        } else {
            cur.push(c);
            assert(string_views(pieces@).push(cur@) =~= before.update(before.len() - 1, before.last().push(c)));
        }
        i += 1;
    }
    assert(cs@.take(cs@.len() as int) =~= cs@);
    let last = string_of(&cur);
    pieces.push(last);
    let ghost all = string_views(pieces@);
    assert(all == split_commas(s@));
    let mut out: Vec<String> = Vec::new();
    let mut k: usize = 0;
    assert(lowered(all).take(0) =~= Seq::<Seq<char>>::empty());
    while k < pieces.len()
        invariant
            k <= pieces@.len(),
            all == string_views(pieces@),
            string_views(out@) == distinct(lowered(all).take(k as int)),
        decreases pieces@.len() - k,
    {
        let low = to_lower(pieces[k].as_str());
        assert(lowered(all).take(k as int + 1).drop_last() =~= lowered(all).take(k as int));
        assert(lowered(all).take(k as int + 1).last() == low@);
        if !contains_word(&out, &low) {
            let ghost before = string_views(out@);
            out.push(low);
            assert(string_views(out@) =~= before.push(lowered(all)[k as int]));
        }
        k += 1;
    }
    assert(lowered(all).take(pieces@.len() as int) =~= lowered(all));
    out
}

/// Relies on rand::random_range: a number drawn below `n`.
#[verifier::external_body]
fn random_below(n: usize) -> (r: usize)
    requires
        n > 0,
    ensures
        r < n,
{
    rand::random_range(0..n)
}

/// One of `items`, drawn at random; `None` when there is none.
pub fn pick_one(items: &Vec<usize>) -> (r: Option<usize>)
    ensures
        r is None <==> items@.len() == 0,
        r matches Some(x) ==> items@.contains(x),
{
    if items.len() == 0 {
        return None;
    }
    let k = random_below(items.len());
    assert(items@[k as int] == items[k as int]);
    Some(items[k])
}

/// A random article among those that carry all of `tags`, by index.
pub fn lucky_by_tags(fms: &Vec<FrontMatter>, tags: &Vec<String>) -> (r: Option<usize>)
    ensures
        r is None <==> matching(fms@, string_views(tags@)).len() == 0,
        r matches Some(i) ==> is_match(fms@, string_views(tags@), i as int),
{
    let all = filter_tags(fms, tags);
    proof {
        lemma_matching_members(fms@, string_views(tags@));
    }
    let r = pick_one(&all);
    proof {
        if let Some(i) = r {
            let k = choose|k: int| 0 <= k < all@.len() && all@[k] == i;
            assert(as_ints(all@)[k] == i as int);
            assert(matching(fms@, string_views(tags@)).contains(i as int));
        }
    }
    r
}

/// `a` comes no later than `b` in lexicographic order of character codes
/// (the order of `String`s, as UTF-8 keeps code point order).
pub open spec fn lex_le(a: Seq<char>, b: Seq<char>) -> bool
    decreases a.len(),
{
    if a.len() == 0 {
        true
    } else if b.len() == 0 {
        false
    } else if (a[0] as u32) < (b[0] as u32) {
        true
    } else if (a[0] as u32) == (b[0] as u32) {
        lex_le(a.drop_first(), b.drop_first())
    } else {
        false
    }
}

proof fn lemma_lex_total(a: Seq<char>, b: Seq<char>)
    ensures
        lex_le(a, b) || lex_le(b, a),
    decreases a.len(),
{
    if a.len() > 0 && b.len() > 0 && (a[0] as u32) == (b[0] as u32) {
        lemma_lex_total(a.drop_first(), b.drop_first());
    }
}

proof fn lemma_lex_trans(a: Seq<char>, b: Seq<char>, c: Seq<char>)
    requires
        lex_le(a, b),
        lex_le(b, c),
    ensures
        lex_le(a, c),
    decreases a.len(),
{
    if a.len() > 0 && b.len() > 0 && c.len() > 0 && (a[0] as u32) == (b[0] as u32) && (b[0] as u32)
        == (c[0] as u32) {
        lemma_lex_trans(a.drop_first(), b.drop_first(), c.drop_first());
    }
}

/// Whether `a` comes no later than `b`.
pub fn lex_le_chars(a: &Vec<char>, b: &Vec<char>) -> (r: bool)
    ensures
        r == lex_le(a@, b@),
{
    let mut i: usize = 0;
    assert(a@.skip(0) =~= a@ && b@.skip(0) =~= b@);
    assert(a@.take(0) =~= b@.take(0));
    while i < a.len() && i < b.len()
        invariant
            i <= a@.len(),
            i <= b@.len(),
            lex_le(a@, b@) == lex_le(a@.skip(i as int), b@.skip(i as int)),
        decreases a@.len() - i,
    {
        let x = a[i];
        let y = b[i];
        assert(a@.skip(i as int)[0] == x && b@.skip(i as int)[0] == y);
        if (x as u32) < (y as u32) {
            return true;
        }
        if (x as u32) != (y as u32) {
            return false;
        }
        assert(a@.skip(i as int).drop_first() =~= a@.skip(i as int + 1));
        assert(b@.skip(i as int).drop_first() =~= b@.skip(i as int + 1));
        i += 1;
    }
    i == a.len()
}

/// Some article carries tag `t`.
pub open spec fn tag_in_use(fms: Seq<FrontMatter>, t: Seq<char>) -> bool {
    exists|i: int, j: int| 0 <= i < fms.len() && 0 <= j < fms[i].tags@.len() && (#[trigger] fms[i].tags@[j])@ == t
}

/// Every tag that some article carries, each spelling once, ordered by its
/// lowercase form.
pub fn all_tags(fms: &Vec<FrontMatter>) -> (r: Vec<String>)
    ensures
        forall|t: Seq<char>| #[trigger] string_views(r@).contains(t) <==> tag_in_use(fms@, t),
        forall|a: int, b: int| 0 <= a < b < r@.len() ==> r@[a]@ != r@[b]@,
        forall|a: int, b: int|
            0 <= a < b < r@.len() ==> lex_le(lower_of(#[trigger] r@[a]@), lower_of(#[trigger] r@[b]@)),
{
    let mut tags: Vec<String> = Vec::new();
    let mut i: usize = 0;
    while i < fms.len()
        invariant
            i <= fms@.len(),
            forall|t: Seq<char>| #[trigger] string_views(tags@).contains(t) <==> exists|i2: int, j: int|
                0 <= i2 < i && 0 <= j < fms@[i2].tags@.len() && (#[trigger] fms@[i2].tags@[j])@ == t,
            forall|a: int, b: int| 0 <= a < b < tags@.len() ==> tags@[a]@ != tags@[b]@,
        decreases fms@.len() - i,
    {
        let own = &fms[i].tags;
        let mut j: usize = 0;
        while j < own.len()
            invariant
                i < fms@.len(),
                own@ == fms@[i as int].tags@,
                j <= own@.len(),
                forall|t: Seq<char>| #[trigger] string_views(tags@).contains(t) <==> (exists|i2: int, j2: int|
                    0 <= i2 < i && 0 <= j2 < fms@[i2].tags@.len() && (#[trigger] fms@[i2].tags@[j2])@ == t)
                    || (exists|j2: int| 0 <= j2 < j && (#[trigger] own@[j2])@ == t),
                forall|a: int, b: int| 0 <= a < b < tags@.len() ==> tags@[a]@ != tags@[b]@,
            decreases own@.len() - j,
        {
            let t = &own[j];
            let ghost before = string_views(tags@);
            if !contains_word(&tags, t) {
                let ghost old_tags = tags@;
                tags.push(t.clone());
                assert(string_views(tags@) =~= before.push(t@));
                assert forall|a: int, b: int| 0 <= a < b < tags@.len() implies tags@[a]@ != tags@[b]@ by {
                    if b == old_tags.len() {
                        assert(before[a] == old_tags[a]@);
                    }
                }
            }
            assert forall|u: Seq<char>| #[trigger] string_views(tags@).contains(u) <==> before.contains(u) || u == t@ by {
                if string_views(tags@).contains(u) && !before.contains(u) {
                    let k = choose|k: int| 0 <= k < string_views(tags@).len() && string_views(tags@)[k] == u;
                    if k < before.len() {
                        assert(before[k] == u);
                    }
                }
                if before.contains(u) && string_views(tags@) != before {
                    let k = choose|k: int| 0 <= k < before.len() && before[k] == u;
                    assert(string_views(tags@)[k] == u);
                }
                if u == t@ && string_views(tags@) != before {
                    assert(string_views(tags@)[before.len() as int] == u);
                }
            }
            assert forall|u: Seq<char>| #[trigger] string_views(tags@).contains(u) <==> (exists|i2: int, j2: int|
                0 <= i2 < i && 0 <= j2 < fms@[i2].tags@.len() && (#[trigger] fms@[i2].tags@[j2])@ == u)
                || (exists|j2: int| 0 <= j2 < j + 1 && (#[trigger] own@[j2])@ == u) by {
                if u == t@ {
                    assert(own@[j as int]@ == u);
                }
                if exists|j2: int| 0 <= j2 < j + 1 && (#[trigger] own@[j2])@ == u {
                    let j2 = choose|j2: int| 0 <= j2 < j + 1 && (#[trigger] own@[j2])@ == u;
                    if j2 < j {
                        assert(before.contains(u));
                    }
                }
            }
            j += 1;
        }
        assert forall|u: Seq<char>| #[trigger] string_views(tags@).contains(u) <==> exists|i2: int, j2: int|
            0 <= i2 < i + 1 && 0 <= j2 < fms@[i2].tags@.len() && (#[trigger] fms@[i2].tags@[j2])@ == u by {
            if exists|j2: int| 0 <= j2 < own@.len() && (#[trigger] own@[j2])@ == u {
                let j2 = choose|j2: int| 0 <= j2 < own@.len() && (#[trigger] own@[j2])@ == u;
                assert(fms@[i as int].tags@[j2]@ == u);
            }
            if exists|i2: int, j2: int| 0 <= i2 < i + 1 && 0 <= j2 < fms@[i2].tags@.len() && (#[trigger] fms@[i2].tags@[j2])@ == u {
                let (i2, j2) = choose|i2: int, j2: int| 0 <= i2 < i + 1 && 0 <= j2 < fms@[i2].tags@.len() && (#[trigger] fms@[i2].tags@[j2])@ == u;
                if i2 == i {
                    assert(own@[j2]@ == u);
                }
            }
        }
        i += 1;
    }
    sort_by_lowercase(tags)
}

/// Inserts `i` at position `p` of `o`.
pub open spec fn inserted(o: Seq<usize>, p: int, i: usize) -> Seq<usize> {
    o.take(p).push(i) + o.skip(p)
}

/// `out` with `i` inserted at position `p`.
fn insert_at(out: &Vec<usize>, p: usize, i: usize) -> (r: Vec<usize>)
    requires
        p <= out@.len(),
    ensures
        r@ == inserted(out@, p as int, i),
{
    let mut next: Vec<usize> = Vec::new();
    let mut q: usize = 0;
    while q < p
        invariant
            q <= p <= out@.len(),
            next@ == out@.take(q as int),
        decreases p - q,
    {
        next.push(out[q]);
        q += 1;
        assert(next@ =~= out@.take(q as int));
    }
    next.push(i);
    while q < out.len()
        invariant
            p <= q <= out@.len(),
            next@ == out@.take(p as int).push(i) + out@.subrange(p as int, q as int),
        decreases out@.len() - q,
    {
        next.push(out[q]);
        q += 1;
        assert(next@ =~= out@.take(p as int).push(i) + out@.subrange(p as int, q as int));
    }
    assert(next@ =~= inserted(out@, p as int, i));
    next
}

proof fn lemma_insert_sorted(keys: Seq<Seq<char>>, o: Seq<usize>, p: int, i: usize)
    requires
        0 <= p <= o.len(),
        i < keys.len(),
        forall|q: int| 0 <= q < o.len() ==> #[trigger] o[q] < i,
        forall|q1: int, q2: int| 0 <= q1 < q2 < o.len() ==> #[trigger] o[q1] != #[trigger] o[q2],
        forall|q1: int, q2: int|
            0 <= q1 < q2 < o.len() ==> lex_le(keys[#[trigger] o[q1] as int], keys[#[trigger] o[q2] as int]),
        forall|q: int| 0 <= q < p ==> lex_le(keys[#[trigger] o[q] as int], keys[i as int]),
        p < o.len() ==> !lex_le(keys[o[p] as int], keys[i as int]),
    ensures
        ({
            let n = inserted(o, p, i);
            &&& n.len() == o.len() + 1
            &&& forall|q1: int, q2: int| 0 <= q1 < q2 < n.len() ==> #[trigger] n[q1] != #[trigger] n[q2]
            &&& forall|q1: int, q2: int|
                0 <= q1 < q2 < n.len() ==> lex_le(keys[#[trigger] n[q1] as int], keys[#[trigger] n[q2] as int])
            &&& forall|x: usize| #[trigger] n.contains(x) <==> (o.contains(x) || x == i)
        }),
{
    let n = inserted(o, p, i);
    assert forall|x: int| 0 <= x < n.len() implies #[trigger] n[x] == (if x < p { o[x] } else if x == p { i } else { o[x - 1] }) by {}
    if p < o.len() {
        lemma_lex_total(keys[o[p] as int], keys[i as int]);
    }
    assert forall|q1: int, q2: int| 0 <= q1 < q2 < n.len() implies lex_le(keys[#[trigger] n[q1] as int], keys[#[trigger] n[q2] as int]) by {
        if q1 == p {
            let j = q2 - 1;
            if j > p {
                lemma_lex_trans(keys[i as int], keys[o[p] as int], keys[o[j] as int]);
            }
        } else if q1 < p && q2 > p {
            assert(lex_le(keys[o[q1] as int], keys[o[q2 - 1] as int]));
        } else if q1 > p {
            assert(lex_le(keys[o[q1 - 1] as int], keys[o[q2 - 1] as int]));
        } else if q2 < p {
            assert(lex_le(keys[o[q1] as int], keys[o[q2] as int]));
        }
    }
    assert forall|q1: int, q2: int| 0 <= q1 < q2 < n.len() implies #[trigger] n[q1] != #[trigger] n[q2] by {
        if q1 < p && q2 > p {
            assert(o[q1] != o[q2 - 1]);
        } else if q1 > p {
            assert(o[q1 - 1] != o[q2 - 1]);
        } else if q2 < p {
            assert(o[q1] != o[q2]);
        }
    }
    lemma_inserted_members(o, p, i);
}

proof fn lemma_inserted_members(o: Seq<usize>, p: int, i: usize)
    requires
        0 <= p <= o.len(),
    ensures
        forall|x: usize| #[trigger] inserted(o, p, i).contains(x) <==> (o.contains(x) || x == i),
{
    let n = inserted(o, p, i);
    assert forall|x: int| 0 <= x < n.len() implies #[trigger] n[x] == (if x < p { o[x] } else if x == p { i } else { o[x - 1] }) by {}
    assert forall|x: usize| #[trigger] n.contains(x) <==> (o.contains(x) || x == i) by {
        if n.contains(x) {
            let k = choose|k: int| 0 <= k < n.len() && n[k] == x;
            if k < p {
                assert(o[k] == x);
            } else if k > p {
                assert(o[k - 1] == x);
            }
        }
        if o.contains(x) {
            let k = choose|k: int| 0 <= k < o.len() && o[k] == x;
            if k < p {
                assert(n[k] == x);
            } else {
                assert(n[k + 1] == x);
            }
        }
        if x == i {
            assert(n[p] == x);
        }
    }
}

/// The indices of `keys` in order, each once.
fn sort_indices(keys: &Vec<Vec<char>>) -> (r: Vec<usize>)
    ensures
        r@.len() == keys@.len(),
        forall|x: usize| #[trigger] r@.contains(x) <==> x < keys@.len(),
        forall|q1: int, q2: int| 0 <= q1 < q2 < r@.len() ==> #[trigger] r@[q1] != #[trigger] r@[q2],
        forall|q1: int, q2: int|
            0 <= q1 < q2 < r@.len() ==> lex_le(keys@[#[trigger] r@[q1] as int]@, keys@[#[trigger] r@[q2] as int]@),
{
    let ghost kv = keys@.map_values(|k: Vec<char>| k@);
    let mut out: Vec<usize> = Vec::new();
    let mut i: usize = 0;
    while i < keys.len()
        invariant
            i <= keys@.len(),
            kv == keys@.map_values(|k: Vec<char>| k@),
            out@.len() == i,
            forall|q: int| 0 <= q < out@.len() ==> #[trigger] out@[q] < i,
            forall|x: usize| #[trigger] out@.contains(x) <==> x < i,
            forall|q1: int, q2: int| 0 <= q1 < q2 < out@.len() ==> #[trigger] out@[q1] != #[trigger] out@[q2],
            forall|q1: int, q2: int|
                0 <= q1 < q2 < out@.len() ==> lex_le(kv[#[trigger] out@[q1] as int], kv[#[trigger] out@[q2] as int]),
        decreases keys@.len() - i,
    {
        let mut p: usize = 0;
        let mut scanning = true;
        while scanning && p < out.len()
            invariant
                !scanning ==> p < out@.len() && !lex_le(kv[out@[p as int] as int], kv[i as int]),
                forall|q: int| 0 <= q < p ==> lex_le(kv[#[trigger] out@[q] as int], kv[i as int]),
                p <= out@.len(),
                out@.len() == i,
                i < keys@.len(),
                kv == keys@.map_values(|k: Vec<char>| k@),
                forall|q: int| 0 <= q < out@.len() ==> #[trigger] out@[q] < i,
            decreases out@.len() - p, (if scanning { 1int } else { 0int }),
        {
            if lex_le_chars(&keys[out[p]], &keys[i]) {
                p += 1;
            } else {
                scanning = false;
            }
        }
        proof {
            lemma_insert_sorted(kv, out@, p as int, i);
        }
        let next = insert_at(&out, p, i);
        out = next;
        i += 1;
    }
    out
}

/// `tags` ordered by lowercase form (the same strings, each where it sorts).
fn sort_by_lowercase(tags: Vec<String>) -> (r: Vec<String>)
    requires
        forall|a: int, b: int| 0 <= a < b < tags@.len() ==> tags@[a]@ != tags@[b]@,
    ensures
        forall|t: Seq<char>| #[trigger] string_views(r@).contains(t) <==> string_views(tags@).contains(t),
        forall|a: int, b: int| 0 <= a < b < r@.len() ==> r@[a]@ != r@[b]@,
        forall|a: int, b: int|
            0 <= a < b < r@.len() ==> lex_le(lower_of(#[trigger] r@[a]@), lower_of(#[trigger] r@[b]@)),
{
    let mut keys: Vec<Vec<char>> = Vec::new();
    let mut k: usize = 0;
    while k < tags.len()
        invariant
            k <= tags@.len(),
            keys@.len() == k,
            forall|x: int| 0 <= x < k ==> (#[trigger] keys@[x])@ == lower_of(tags@[x]@),
        decreases tags@.len() - k,
    {
        let low = to_lower(tags[k].as_str());
        keys.push(chars_of(low.as_str()));
        k += 1;
    }
    let order = sort_indices(&keys);
    assert forall|q: int| 0 <= q < order@.len() implies #[trigger] order@[q] < tags@.len() by {
        assert(order@.contains(order@[q]));
    }
    let mut r: Vec<String> = Vec::new();
    let mut j: usize = 0;
    while j < order.len()
        invariant
            j <= order@.len(),
            order@.len() == tags@.len(),
            keys@.len() == tags@.len(),
            forall|x: int| 0 <= x < keys@.len() ==> (#[trigger] keys@[x])@ == lower_of(tags@[x]@),
            forall|q: int| 0 <= q < order@.len() ==> #[trigger] order@[q] < tags@.len(),
            r@.len() == j,
            forall|q: int| 0 <= q < j ==> #[trigger] r@[q] == tags@[order@[q] as int],
        decreases order@.len() - j,
    {
        assert(order@.contains(order@[j as int]));
        r.push(tags[order[j]].clone());
        j += 1;
    }
    assert forall|a: int, b: int| 0 <= a < b < r@.len() implies lex_le(lower_of(#[trigger] r@[a]@), lower_of(#[trigger] r@[b]@)) by {
        assert(keys@[order@[a] as int]@ == lower_of(tags@[order@[a] as int]@));
        assert(keys@[order@[b] as int]@ == lower_of(tags@[order@[b] as int]@));
    }
    assert forall|a: int, b: int| 0 <= a < b < r@.len() implies r@[a]@ != r@[b]@ by {
        assert(order@[a] != order@[b]);
        assert(order@.contains(order@[a]) && order@.contains(order@[b]));
        let (x, y) = (order@[a] as int, order@[b] as int);
        if x < y {
            assert(tags@[x]@ != tags@[y]@);
        } else {
            assert(tags@[y]@ != tags@[x]@);
        }
    }
    assert forall|t: Seq<char>| #[trigger] string_views(r@).contains(t) <==> string_views(tags@).contains(t) by {
        if string_views(r@).contains(t) {
            let q = choose|q: int| 0 <= q < r@.len() && string_views(r@)[q] == t;
            assert(string_views(tags@)[order@[q] as int] == t);
        }
        if string_views(tags@).contains(t) {
            let x = choose|x: int| 0 <= x < tags@.len() && string_views(tags@)[x] == t;
            assert(order@.contains(x as usize));
            let q = choose|q: int| 0 <= q < order@.len() && order@[q] == x as usize;
            assert(string_views(r@)[q] == t);
        }
    }
    r
}

} // verus!
