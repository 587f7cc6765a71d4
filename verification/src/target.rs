//! Where a resolved image goes on disk:
//! `<root>/<title>/<index>.<extension>`.

use crate::text::{chars_of, decimal, is_digit, law_decimal_reads_back, push_decimal, string_of};
use vstd::prelude::*;

verus! {

/// What follows the last `.` of `url`; the whole of `url` where it holds no
/// `.`.
pub open spec fn extension_of(url: Seq<char>) -> Seq<char>
    decreases url.len(),
{
    if url.len() == 0 || url.last() == '.' {
        Seq::empty()
    } else {
        extension_of(url.drop_last()).push(url.last())
    }
}

/// The extension is the longest tail of the URL without a `.`.
pub proof fn law_extension_is_tail(url: Seq<char>) -> (from: int)
    ensures
        0 <= from <= url.len(),
        extension_of(url) == url.skip(from),
        forall|i: int| from <= i < url.len() ==> url[i] != '.',
        from > 0 ==> url[from - 1] == '.',
    decreases url.len(),
{
    if url.len() == 0 || url.last() == '.' {
        assert(url.skip(url.len() as int) =~= Seq::<char>::empty());
        url.len() as int
    } else {
        let head = url.drop_last();
        let from = law_extension_is_tail(head);
        assert(head.skip(from).push(url.last()) =~= url.skip(from));
        assert forall|i: int| from <= i < url.len() implies url[i] != '.' by {
            if i < head.len() {
                assert(head[i] == url[i]);
            }
        }
        if from > 0 {
            assert(head[from - 1] == url[from - 1]);
        }
        from
    }
}

/// A tail without a `.` that follows a `.`, or is the whole URL, is the
/// extension.
proof fn lemma_extension_from(url: Seq<char>, from: int)
    requires
        0 <= from <= url.len(),
        forall|i: int| from <= i < url.len() ==> url[i] != '.',
        from > 0 ==> url[from - 1] == '.',
    ensures
        extension_of(url) == url.skip(from),
    decreases url.len() - from,
{
    if from == url.len() {
        assert(url.skip(from) =~= Seq::<char>::empty());
    } else {
        let head = url.drop_last();
        assert forall|i: int| from <= i < head.len() implies head[i] != '.' by {
            assert(head[i] == url[i]);
        }
        if from > 0 {
            assert(head[from - 1] == url[from - 1]);
        }
        lemma_extension_from(head, from);
        assert(head.skip(from).push(url.last()) =~= url.skip(from));
    }
}

/// The file that image number `index` of the gallery titled `title` goes to
/// under `root`.
pub open spec fn path_of(root: Seq<char>, title: Seq<char>, index: nat, extension: Seq<char>) -> Seq<
    char,
> {
    root + seq!['/'] + title + seq!['/'] + decimal(index) + seq!['.'] + extension
}

/// Two images of one gallery never go to the same file: under one root and
/// one title, different image numbers give different paths, whatever the
/// extensions.
pub proof fn law_paths_differ(
    root: Seq<char>,
    title: Seq<char>,
    first: nat,
    second: nat,
    first_extension: Seq<char>,
    second_extension: Seq<char>,
)
    requires
        first != second,
    ensures
        path_of(root, title, first, first_extension) != path_of(
            root,
            title,
            second,
            second_extension,
        ),
{
    let dir = root + seq!['/'] + title + seq!['/'];
    let a = decimal(first);
    let b = decimal(second);
    let name_a = a + seq!['.'] + first_extension;
    let name_b = b + seq!['.'] + second_extension;
    let path_a = path_of(root, title, first, first_extension);
    let path_b = path_of(root, title, second, second_extension);
    law_decimal_reads_back(first);
    law_decimal_reads_back(second);
    if path_a == path_b {
        assert(path_a =~= dir + name_a);
        assert(path_b =~= dir + name_b);
        assert((dir + name_a).skip(dir.len() as int) =~= name_a);
        assert((dir + name_b).skip(dir.len() as int) =~= name_b);
        assert(name_a == name_b);
        if a.len() < b.len() {
            assert(name_a[a.len() as int] == '.');
            assert(name_b[a.len() as int] == b[a.len() as int]);
            assert(is_digit(b[a.len() as int]));
        } else if b.len() < a.len() {
            assert(name_b[b.len() as int] == '.');
            assert(name_a[b.len() as int] == a[b.len() as int]);
            assert(is_digit(a[b.len() as int]));
        } else {
            assert(name_a.take(a.len() as int) =~= a);
            assert(name_b.take(b.len() as int) =~= b);
        }
    }
}

/// Why no target could be made up for an image.
#[derive(Clone, Copy, Debug, PartialEq, Eq, Structural)]
pub enum TargetError {
    /// Nothing follows the last `.` of the image's address, or the address
    /// is empty.
    NoExtension,
}

/// Infers the file extension from the address of an image: what follows its
/// last `.`. An address that yields an empty extension is refused.
pub fn file_extension(url: &str) -> (extension: Result<String, TargetError>)
    ensures
        match extension {
            Ok(ext) => ext@ == extension_of(url@) && ext@.len() > 0,
            Err(e) => e == TargetError::NoExtension && extension_of(url@).len() == 0,
        },
{
    let chars = chars_of(url);
    let mut from: usize = chars.len();
    while from > 0 && chars[from - 1] != '.'
        invariant
            from <= chars.len(),
            forall|i: int| from <= i < chars.len() ==> chars@[i] != '.',
        decreases from,
    {
        from -= 1;
    }
    proof {
        lemma_extension_from(chars@, from as int);
    }
    if from == chars.len() {
        return Err(TargetError::NoExtension);
    }
    let mut tail: Vec<char> = Vec::new();
    let mut i: usize = from;
    while i < chars.len()
        invariant
            from <= i <= chars.len(),
            tail@ == chars@.subrange(from as int, i as int),
        decreases chars.len() - i,
    {
        tail.push(chars[i]);
        assert(tail@ =~= chars@.subrange(from as int, i + 1));
        i += 1;
    }
    assert(tail@ =~= chars@.skip(from as int));
    Ok(string_of(tail.as_slice()))
}

/// Appends the characters of `part` to `out`.
fn push_str(out: &mut Vec<char>, part: &str)
    ensures
        final(out)@ == old(out)@ + part@,
{
    let chars = chars_of(part);
    let mut i: usize = 0;
    while i < chars.len()
        invariant
            i <= chars.len(),
            chars@ == part@,
            out@ == old(out)@ + chars@.take(i as int),
        decreases chars.len() - i,
    {
        out.push(chars[i]);
        assert(out@ =~= old(out)@ + chars@.take(i + 1));
        i += 1;
    }
    assert(chars@.take(i as int) =~= chars@);
}

/// Makes up the path of the file that image number `index` of the gallery
/// titled `title` goes to under `root`.
pub fn output_path(root: &str, title: &str, index: usize, extension: &str) -> (path: String)
    ensures
        path@ == path_of(root@, title@, index as nat, extension@),
{
    let mut out: Vec<char> = Vec::new();
    push_str(&mut out, root);
    out.push('/');
    push_str(&mut out, title);
    out.push('/');
    push_decimal(&mut out, index);
    out.push('.');
    push_str(&mut out, extension);
    assert(out@ =~= path_of(root@, title@, index as nat, extension@));
    string_of(out.as_slice())
}

/// Where an image is fetched from and where it is written to.
#[derive(Clone, Debug, PartialEq, Eq)]
pub struct Target {
    pub url: String,
    pub path: String,
}

/// What a `Target` stands for.
pub struct TargetView {
    pub url: Seq<char>,
    pub path: Seq<char>,
}

impl View for Target {
    type V = TargetView;

    open spec fn view(&self) -> TargetView {
        TargetView { url: self.url@, path: self.path@ }
    }
}

impl Target {
    /// A copy of the target.
    pub fn copy(&self) -> (target: Target)
        ensures
            target@ == self@,
    {
        Target { url: self.url.clone(), path: self.path.clone() }
    }
}

impl DeepView for Target {
    type V = TargetView;

    open spec fn deep_view(&self) -> TargetView {
        self@
    }
}

/// The target of image number `index` of the gallery titled `title`, given
/// the address `url` that its image page resolved to.
pub open spec fn target_of(root: Seq<char>, title: Seq<char>, index: nat, url: Seq<char>) -> Result<
    TargetView,
    TargetError,
> {
    if extension_of(url).len() == 0 {
        Err(TargetError::NoExtension)
    } else {
        Ok(TargetView { url, path: path_of(root, title, index, extension_of(url)) })
    }
}

/// Makes up the target of an image from the address that its image page
/// resolved to.
pub fn plan_target(root: &str, title: &str, index: usize, url: String) -> (target: Result<
    Target,
    TargetError,
>)
    ensures
        match target {
            Ok(t) => target_of(root@, title@, index as nat, url@) == Ok::<TargetView, TargetError>(
                t@,
            ),
            Err(e) => target_of(root@, title@, index as nat, url@) == Err::<TargetView, TargetError>(
                e,
            ),
        },
{
    match file_extension(url.as_str()) {
        Ok(ext) => {
            let path = output_path(root, title, index, ext.as_str());
            Ok(Target { url, path })
        },
        Err(e) => Err(e),
    }
}

} // verus!
