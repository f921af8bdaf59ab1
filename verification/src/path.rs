//! Paths as text.
//!
//! A path is a string whose components are separated by [`SEPARATOR`]. Separators
//! at the end of a path are not part of it. The last component is the path's name;
//! what stands before the separator in front of the name is its parent. A path with
//! no separator in front of its name has no parent.

use vstd::prelude::*;
use crate::text::after_last;
use crate::text::chars_of;
use crate::text::ends_with;
use crate::text::find_after_last;
use crate::text::lemma_after_last;
use crate::text::text_of;
use crate::text::text_of_owned;

verus! {

/// The character that stands between the components of a path.
pub const SEPARATOR: char = '/';

/// The separator as a string of one character.
pub open spec fn separator() -> Seq<char> {
    seq![SEPARATOR]
}

/// The extension by which a file of the recognized format is known.
pub const EXTENSION: &'static str = "dcm";

/// The characters of [`EXTENSION`].
pub open spec fn dicom_extension() -> Seq<char> {
    EXTENSION@
}

/// `p` without the separators at its end.
pub open spec fn trimmed(p: Seq<char>) -> Seq<char>
    decreases p.len(),
{
    if p.len() > 0 && p.last() == SEPARATOR {
        trimmed(p.drop_last())
    } else {
        p
    }
}

/// The last component of `p`; empty where `p` is empty or holds separators only.
pub open spec fn file_name(p: Seq<char>) -> Seq<char> {
    let t = trimmed(p);
    t.subrange(after_last(t, SEPARATOR), t.len() as int)
}

/// What stands before the separator in front of the name of `p`.
pub open spec fn parent(p: Seq<char>) -> Option<Seq<char>> {
    let t = trimmed(p);
    let k: int = after_last(t, SEPARATOR);
    if k == 0 {
        None
    } else {
        Some(t.subrange(0, k - 1))
    }
}

/// The path of `name` inside the directory `dir`.
pub open spec fn join(dir: Seq<char>, name: Seq<char>) -> Seq<char> {
    dir + separator() + name
}

/// The path of `name` beside its parent: inside it, or `name` alone where there is none.
pub open spec fn beside(dir: Option<Seq<char>>, name: Seq<char>) -> Seq<char> {
    match dir {
        Some(d) => join(d, name),
        None => name,
    }
}

/// What follows the last dot of a file name. A name without a dot has no
/// extension, nor has one whose only dot is its first character.
pub open spec fn extension(name: Seq<char>) -> Option<Seq<char>> {
    let k = after_last(name, '.');
    if k <= 1 {
        None
    } else {
        Some(name.subrange(k, name.len() as int))
    }
}

/// The shallow test: the path as a whole ends in the recognized extension.
pub open spec fn has_dicom_suffix(p: Seq<char>) -> bool {
    dicom_extension().is_suffix_of(p)
}

/// The recursive test: the extension of the path's name is the recognized one.
pub open spec fn has_dicom_extension(p: Seq<char>) -> bool {
    extension(file_name(p)) == Some(dicom_extension())
}

/// `trimmed(p)` is the longest prefix of `p` that does not end in a separator.
pub proof fn lemma_trimmed(p: Seq<char>)
    ensures
        trimmed(p).len() <= p.len(),
        trimmed(p) == p.subrange(0, trimmed(p).len() as int),
        trimmed(p).len() > 0 ==> trimmed(p).last() != SEPARATOR,
        forall|j: int| trimmed(p).len() <= j < p.len() ==> p[j] == SEPARATOR,
        trimmed(trimmed(p)) == trimmed(p),
    decreases p.len(),
{
    if p.len() > 0 && p.last() == SEPARATOR {
        let q = p.drop_last();
        lemma_trimmed(q);
        let n: int = trimmed(q).len() as int;
        assert(q.subrange(0, n) == p.subrange(0, n));
        assert forall|j: int| n <= j < p.len() implies p[j] == SEPARATOR by {
            if j < q.len() {
                assert(q[j] == p[j]);
            }
        }
    } else {
        assert(p.subrange(0, p.len() as int) == p);
    }
}

/// A path is its name beside its parent, and the name holds no separator.
pub proof fn lemma_split(p: Seq<char>)
    ensures
        beside(parent(p), file_name(p)) == trimmed(p),
        !file_name(p).contains(SEPARATOR),
        trimmed(p).len() > 0 ==> file_name(p).len() > 0,
{
    let t = trimmed(p);
    let k: int = after_last(t, SEPARATOR);
    lemma_trimmed(p);
    lemma_after_last(t, SEPARATOR);
    let name = file_name(p);
    if k > 0 {
        assert(t.subrange(0, k - 1) + separator() + name == t);
    } else {
        assert(name == t);
    }
    if name.contains(SEPARATOR) {
        let i: int = choose|i: int| 0 <= i < name.len() && name[i] == SEPARATOR;
        assert(t[k + i] == SEPARATOR);
    }
}

/// A path that the recursive test accepts ends in the recognized extension once
/// the separators at its end are dropped, so the shallow test accepts it too.
pub proof fn lemma_extension_is_suffix(p: Seq<char>)
    requires
        has_dicom_extension(p),
    ensures
        has_dicom_suffix(trimmed(p)),
        file_name(p).len() > 4,
{
    reveal_strlit("dcm");
    let t = trimmed(p);
    let k: int = after_last(t, SEPARATOR);
    let name = file_name(p);
    let d: int = after_last(name, '.');
    lemma_after_last(t, SEPARATOR);
    lemma_after_last(name, '.');
    let ext = name.subrange(d, name.len() as int);
    assert(ext == dicom_extension());
    assert(ext.len() == 3);
    assert(dicom_extension() =~= t.subrange(t.len() - 3, t.len() as int)) by {
        assert forall|i: int| 0 <= i < 3 implies dicom_extension()[i] == t.subrange(
            t.len() - 3,
            t.len() as int,
        )[i] by {
            assert(ext[i] == name[d + i]);
            assert(name[d + i] == t[k + d + i]);
        }
    }
}

/// A path that ends in the recognized extension does not end in a separator,
/// and its name ends in the extension too: such a path has a name.
pub proof fn lemma_suffix_is_in_name(p: Seq<char>)
    requires
        has_dicom_suffix(p),
    ensures
        trimmed(p) == p,
        has_dicom_suffix(file_name(p)),
        file_name(p).len() >= 3,
{
    reveal_strlit("dcm");
    let n: int = p.len() as int;
    let tail = p.subrange(n - 3, n);
    assert(tail[0] == 'd' && tail[1] == 'c' && tail[2] == 'm');
    assert(p[n - 3] == 'd' && p[n - 2] == 'c' && p[n - 1] == 'm');
    let k: int = after_last(p, SEPARATOR);
    lemma_after_last(p, SEPARATOR);
    assert(k <= n - 3) by {
        if k > n - 3 {
            assert(p[k - 1] == SEPARATOR);
        }
    }
    let name = file_name(p);
    assert(name.subrange(name.len() - 3, name.len() as int) =~= tail);
}

/// The number of characters of `v` before the separators at its end.
fn trimmed_len(v: &Vec<char>) -> (n: usize)
    ensures
        n <= v.len(),
        v@.subrange(0, n as int) == trimmed(v@),
{
    let mut n: usize = v.len();
    proof {
        assert(v@.subrange(0, n as int) == v@);
    }
    while n > 0 && v[n - 1] == SEPARATOR
        invariant
            n <= v.len(),
            trimmed(v@.subrange(0, n as int)) == trimmed(v@),
        decreases n,
    {
        proof {
            assert(v@.subrange(0, n as int).drop_last() == v@.subrange(0, n - 1));
        }
        n -= 1;
    }
    n
}

/// The parent and the name of `p`.
pub fn split_path(p: &str) -> (parts: (Option<String>, String))
    ensures
        text_of_owned(parts.0) == parent(p@),
        parts.1@ == file_name(p@),
{
    let v = chars_of(p);
    let end: usize = trimmed_len(&v);
    let k: usize = find_after_last(&v, 0, end, SEPARATOR);
    proof {
        assert(v@.subrange(0, end as int).subrange(k as int, end as int) == p@.subrange(
            k as int,
            end as int,
        ));
    }
    let name = p.substring_char(k, end).to_owned();
    if k == 0 {
        (None, name)
    } else {
        proof {
            assert(v@.subrange(0, end as int).subrange(0, k - 1) == p@.subrange(0, k - 1));
        }
        let dir = p.substring_char(0, k - 1).to_owned();
        (Some(dir), name)
    }
}

/// The path of `name` inside the directory `dir`.
pub fn join_path(dir: &str, name: &str) -> (out: String)
    ensures
        out@ == join(dir@, name@),
{
    let mut out = dir.to_owned();
    proof {
        reveal_strlit("/");
        assert("/"@ == separator());
    }
    out.append("/");
    out.append(name);
    out
}

/// The path of `name` beside its parent `dir`.
pub fn beside_path(dir: Option<&str>, name: &str) -> (out: String)
    ensures
        out@ == beside(text_of(dir), name@),
{
    match dir {
        Some(d) => join_path(d, name),
        None => name.to_owned(),
    }
}

/// Whether `p` as a whole ends in the recognized extension.
pub fn ends_in_dicom_extension(p: &str) -> (b: bool)
    ensures
        b == has_dicom_suffix(p@),
{
    let v = chars_of(p);
    let ext = chars_of(EXTENSION);
    proof {
        assert(v@.subrange(0, v.len() as int) == v@);
    }
    ends_with(&v, v.len(), &ext)
}

/// Whether the extension of the name of `p` is the recognized one.
pub fn name_has_dicom_extension(p: &str) -> (b: bool)
    ensures
        b == has_dicom_extension(p@),
{
    let v = chars_of(p);
    let end: usize = trimmed_len(&v);
    let k: usize = find_after_last(&v, 0, end, SEPARATOR);
    let dot: usize = find_after_last(&v, k, end, '.');
    proof {
        let t = trimmed(p@);
        let name = file_name(p@);
        assert(t.subrange(k as int, end as int) == v@.subrange(k as int, end as int));
        assert(name == v@.subrange(k as int, end as int));
        assert(dot - k == after_last(name, '.'));
    }
    if dot - k <= 1 {
        return false;
    }
    let ext = chars_of(EXTENSION);
    if end - dot != ext.len() {
        proof {
            let name = file_name(p@);
            assert(name.subrange(dot - k, name.len() as int).len() == end - dot);
        }
        return false;
    }
    let b = ends_with(&v, end, &ext);
    proof {
        let name = file_name(p@);
        assert(name.subrange(dot - k, name.len() as int) == v@.subrange(0, end as int).subrange(
            end - ext.len(),
            end as int,
        ));
    }
    b
}

} // verus!
