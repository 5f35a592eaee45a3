use vstd::prelude::*;
use vstd::string::*;

verus! {

/// What a transferred name stands for once received.
#[derive(PartialEq, Eq, Structural, Clone, Copy, Debug)]
pub enum ArtifactKind {
    File,
    Directory,
}

/// The reserved suffix that marks the name of a packed directory.
pub open spec fn archive_suffix() -> Seq<char> {
    seq!['.', 'u', 'z', 'i', 'p']
}

/// Whether a name carries the archive suffix.
pub open spec fn has_archive_suffix(name: Seq<char>) -> bool {
    name.len() >= archive_suffix().len() && name.subrange(
        name.len() - archive_suffix().len(),
        name.len() as int,
    ) == archive_suffix()
}

/// The name of the artifact restored from a transferred name: the suffix is
/// stripped once from an archive name, any other name stays as it is.
pub open spec fn restored(name: Seq<char>) -> Seq<char> {
    if has_archive_suffix(name) {
        name.subrange(0, name.len() - archive_suffix().len())
    } else {
        name
    }
}

pub open spec fn kind_of(name: Seq<char>) -> ArtifactKind {
    if has_archive_suffix(name) {
        ArtifactKind::Directory
    } else {
        ArtifactKind::File
    }
}

fn suffix_text() -> (r: &'static str)
    ensures
        r@ == archive_suffix(),
{
    let s = ".uzip";
    proof {
        reveal_strlit(".uzip");
        assert(s@ =~= archive_suffix());
    }
    s
}

/// Whether `name` names a packed directory.
pub fn is_archive_name(name: &str) -> (r: bool)
    ensures
        r == has_archive_suffix(name@),
{
    let suffix = suffix_text();
    let n = name.unicode_len();
    let k = suffix.unicode_len();
    if n < k {
        return false;
    }
    let mut i: usize = 0;
    while i < k
        invariant
            n == name@.len(),
            k == suffix@.len(),
            suffix@ == archive_suffix(),
            k <= n,
            i <= k,
            forall|j: int| 0 <= j < i ==> name@[n - k + j] == suffix@[j],
        decreases k - i,
    {
        if name.get_char(n - k + i) != suffix.get_char(i) {
            proof {
                assert(name@.subrange(n - k, n as int)[i as int] != archive_suffix()[i as int]);
            }
            return false;
        }
        i = i + 1;
    }
    proof {
        assert(name@.subrange(n - k, n as int) =~= archive_suffix());
    }
    true
}

/// The kind of artifact a transferred name stands for.
pub fn artifact_kind(name: &str) -> (r: ArtifactKind)
    ensures
        r == kind_of(name@),
{
    if is_archive_name(name) {
        ArtifactKind::Directory
    } else {
        ArtifactKind::File
    }
}

/// The name under which a directory named `dir_name` travels.
pub fn archive_name(dir_name: &str) -> (r: String)
    ensures
        r@ == dir_name@ + archive_suffix(),
{
    let mut s = String::from_str(dir_name);
    s.append(suffix_text());
    s
}

/// The name of the artifact that a received name restores to.
pub fn restored_name(name: &str) -> (r: String)
    ensures
        r@ == restored(name@),
{
    if is_archive_name(name) {
        let n = name.unicode_len();
        let k = suffix_text().unicode_len();
        String::from_str(name.substring_char(0, n - k))
    } else {
        String::from_str(name)
    }
}

/// A directory keeps its name through a transfer: its wire name is marked as
/// an archive, and restoring that name yields the directory's own name.
pub proof fn lemma_directory_name_round_trip(dir_name: Seq<char>)
    ensures
        has_archive_suffix(dir_name + archive_suffix()),
        kind_of(dir_name + archive_suffix()) == ArtifactKind::Directory,
        restored(dir_name + archive_suffix()) == dir_name,
{
    let w = dir_name + archive_suffix();
    assert(w.subrange(w.len() - 5, w.len() as int) =~= archive_suffix());
    assert(w.subrange(0, w.len() - 5) =~= dir_name);
}

} // verus!
