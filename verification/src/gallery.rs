//! The gallery stub and the rule that makes its title safe as a directory name.

use crate::text::{chars_of, is_space, string_of, trim_bounds, trim_end, trim_start, trimmed};
use vstd::prelude::*;

verus! {

/// The characters that may not stand in a file name: `/ \ : * ? " < > |`.
pub open spec fn is_reserved(c: char) -> bool {
    c == '/' || c == '\\' || c == ':' || c == '*' || c == '?' || c == '"' || c == '<' || c == '>'
        || c == '|'
}

/// `s` without its reserved characters.
pub open spec fn strip_reserved(s: Seq<char>) -> Seq<char> {
    s.filter(|c: char| !is_reserved(c))
}

/// The title that a raw title text becomes: reserved characters go first, then
/// the white space at either end.
pub open spec fn sanitized(raw: Seq<char>) -> Seq<char> {
    trimmed(strip_reserved(raw))
}

/// A title that can name a directory: no reserved character, and no white
/// space at either end.
pub open spec fn is_clean_title(title: Seq<char>) -> bool {
    &&& forall|i: int| 0 <= i < title.len() ==> !is_reserved(#[trigger] title[i])
    &&& title.len() > 0 ==> !is_space(title.first()) && !is_space(title.last())
}

/// Whether `c` is reserved.
pub fn is_reserved_char(c: char) -> (reserved: bool)
    ensures
        reserved == is_reserved(c),
{
    c == '/' || c == '\\' || c == ':' || c == '*' || c == '?' || c == '"' || c == '<' || c == '>'
        || c == '|'
}

/// `trim_start` cuts a prefix off: what is left is a suffix of `s` that does
/// not begin with white space.
proof fn lemma_trim_start_shape(s: Seq<char>) -> (n: int)
    ensures
        0 <= n <= s.len(),
        trim_start(s) == s.skip(n),
        n < s.len() ==> !is_space(s[n]),
    decreases s.len(),
{
    if s.len() > 0 && is_space(s.first()) {
        let m = lemma_trim_start_shape(s.drop_first());
        assert(s.drop_first().skip(m) =~= s.skip(m + 1));
        m + 1
    } else {
        assert(s.skip(0) =~= s);
        0
    }
}

/// `trim_end` cuts a suffix off: what is left is a prefix of `s` that does
/// not end with white space.
proof fn lemma_trim_end_shape(s: Seq<char>) -> (n: int)
    ensures
        0 <= n <= s.len(),
        trim_end(s) == s.take(n),
        n > 0 ==> !is_space(s[n - 1]),
    decreases s.len(),
{
    if s.len() > 0 && is_space(s.last()) {
        let m = lemma_trim_end_shape(s.drop_last());
        assert(s.drop_last().take(m) =~= s.take(m));
        m
    } else {
        assert(s.take(s.len() as int) =~= s);
        s.len() as int
    }
}

/// Every sanitized title is clean: it holds none of the nine reserved
/// characters, so in particular no path separator, and neither begins nor ends
/// with white space.
pub proof fn law_sanitized_is_clean(raw: Seq<char>)
    ensures
        is_clean_title(sanitized(raw)),
{
    let kept = strip_reserved(raw);
    let from = lemma_trim_start_shape(kept);
    let tail = kept.skip(from);
    let to = lemma_trim_end_shape(tail);
    let title = sanitized(raw);
    assert(title == tail.take(to));
    assert forall|i: int| 0 <= i < title.len() implies !is_reserved(#[trigger] title[i]) by {
        assert(title[i] == kept[from + i]);
        raw.lemma_filter_pred(|c: char| !is_reserved(c), from + i);
    }
    if title.len() > 0 {
        assert(title.first() == tail[0]);
        assert(tail[0] == kept[from]);
        assert(title.last() == tail[to - 1]);
    }
}

/// A clean title is left as it is.
pub proof fn law_sanitize_keeps_clean(title: Seq<char>)
    requires
        is_clean_title(title),
    ensures
        sanitized(title) == title,
{
    let keep = |c: char| !is_reserved(c);
    lemma_filter_all(title, keep);
}

/// A filter keeps a sequence whose every item passes.
proof fn lemma_filter_all(s: Seq<char>, keep: spec_fn(char) -> bool)
    requires
        forall|i: int| 0 <= i < s.len() ==> keep(#[trigger] s[i]),
    ensures
        s.filter(keep) == s,
    decreases s.len(),
{
    reveal(Seq::filter);
    if s.len() > 0 {
        lemma_filter_all(s.drop_last(), keep);
        assert(s.drop_last().push(s.last()) =~= s);
    }
}

/// Filtering a sequence with one more item at its end.
proof fn lemma_filter_push(s: Seq<char>, c: char, keep: spec_fn(char) -> bool)
    ensures
        s.push(c).filter(keep) == if keep(c) {
            s.filter(keep).push(c)
        } else {
            s.filter(keep)
        },
{
    reveal(Seq::filter);
    assert(s.push(c).drop_last() =~= s);
}

/// Makes a raw title safe as a directory name: drops the reserved characters,
/// then the white space at either end.
pub fn sanitize_title(raw: &str) -> (title: String)
    ensures
        title@ == sanitized(raw@),
        is_clean_title(title@),
{
    let chars = chars_of(raw);
    let mut kept: Vec<char> = Vec::new();
    let mut i: usize = 0;
    while i < chars.len()
        invariant
            i <= chars.len(),
            kept@ == strip_reserved(chars@.take(i as int)),
        decreases chars.len() - i,
    {
        let c: char = chars[i];
        proof {
            assert(chars@.take(i + 1) =~= chars@.take(i as int).push(c));
            lemma_filter_push(chars@.take(i as int), c, |c: char| !is_reserved(c));
        }
        if !is_reserved_char(c) {
            kept.push(c);
        }
        i += 1;
    }
    assert(chars@.take(i as int) =~= chars@);
    let (from, to) = trim_bounds(kept.as_slice());
    let mut title: Vec<char> = Vec::new();
    let mut j: usize = from;
    while j < to
        invariant
            from <= j <= to <= kept.len(),
            title@ == kept@.subrange(from as int, j as int),
        decreases to - j,
    {
        title.push(kept[j]);
        assert(title@ =~= kept@.subrange(from as int, j + 1));
        j += 1;
    }
    proof {
        law_sanitized_is_clean(raw@);
    }
    string_of(title.as_slice())
}

/// A gallery: where its detail pages start, the directory name its images go
/// under, and the addresses of its image pages in the order the detail pages
/// list them.
#[derive(Clone, Debug, PartialEq, Eq)]
pub struct Gallery {
    pub url: String,
    pub title: String,
    pub images: Vec<String>,
}

/// What a `Gallery` stands for.
pub struct GalleryView {
    pub url: Seq<char>,
    pub title: Seq<char>,
    pub images: Seq<Seq<char>>,
}

impl View for Gallery {
    type V = GalleryView;

    open spec fn view(&self) -> GalleryView {
        GalleryView { url: self.url@, title: self.title@, images: self.images.deep_view() }
    }
}

impl DeepView for Gallery {
    type V = GalleryView;

    open spec fn deep_view(&self) -> GalleryView {
        self@
    }
}

impl Gallery {
    /// The title can name a directory.
    pub open spec fn wf(&self) -> bool {
        is_clean_title(self.title@)
    }

    /// A gallery as a listing page announces it: no image page is known yet,
    /// and the title is sanitized.
    pub fn new(url: String, raw_title: &str) -> (gallery: Gallery)
        ensures
            gallery.wf(),
            gallery@ == (GalleryView {
                url: url@,
                title: sanitized(raw_title@),
                images: Seq::empty(),
            }),
    {
        let gallery = Gallery { url, title: sanitize_title(raw_title), images: Vec::new() };
        assert(gallery.images.deep_view() =~= Seq::<Seq<char>>::empty());
        gallery
    }
}

} // verus!
