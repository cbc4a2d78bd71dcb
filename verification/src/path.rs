use vstd::prelude::*;
use crate::season::{parse_season_directory, season_directory_number};
use crate::types::{ParsedRelease, PathInfo, ReleaseModel, ReleaseType};

verus! {

/// One more than the place of the last `c` in `s`; 0 where `s` has none.
pub open spec fn after_last(s: Seq<char>, c: char) -> int
    decreases s.len(),
{
    if s.len() == 0 {
        0
    } else if s.last() == c {
        s.len() as int
    } else {
        after_last(s.drop_last(), c)
    }
}

/// The characters that separate the words of a name.
pub open spec fn is_delimiter(c: char) -> bool {
    c == '.' || c == '-' || c == '_' || c == ' '
}

/// The leaf segment of a path: what follows the last `/`.
pub open spec fn leaf_of(path: Seq<char>) -> Seq<char> {
    path.subrange(after_last(path, '/'), path.len() as int)
}

/// The segment just above the leaf, where the path has one that is not empty.
pub open spec fn parent_of(path: Seq<char>) -> Option<Seq<char>> {
    let cut = after_last(path, '/');
    if cut == 0 {
        None
    } else {
        let segment = leaf_of(path.subrange(0, cut - 1));
        if segment.len() == 0 {
            None
        } else {
            Some(segment)
        }
    }
}

/// The length of a leaf without its extension: up to its last `.`, or all of
/// it where it has none.
pub open spec fn stem_len(leaf: Seq<char>) -> int {
    let dot = after_last(leaf, '.');
    if dot == 0 {
        leaf.len() as int
    } else {
        dot - 1
    }
}

/// A leaf has content where its stem holds a character that is no delimiter.
pub open spec fn has_content(leaf: Seq<char>) -> bool {
    exists|i: int| 0 <= i < stem_len(leaf) && !is_delimiter(#[trigger] leaf[i])
}

/// The season that a path as a whole carries: the leaf's own season wins over
/// the one read from the parent directory's name.
pub open spec fn resolved_season(leaf: Option<u32>, parent: Option<u32>) -> Option<u32> {
    if leaf.is_some() {
        leaf
    } else {
        parent
    }
}

/// `after_last` lies within the sequence, and a `c` stands just before it.
pub proof fn lemma_after_last_bounds(s: Seq<char>, c: char)
    ensures
        0 <= after_last(s, c) <= s.len(),
        after_last(s, c) > 0 ==> s[after_last(s, c) - 1] == c,
        forall|i: int| after_last(s, c) <= i < s.len() ==> s[i] != c,
    decreases s.len(),
{
    if s.len() > 0 && s.last() != c {
        let head = s.drop_last();
        lemma_after_last_bounds(head, c);
        assert forall|i: int| after_last(s, c) <= i < s.len() implies s[i] != c by {
            if i < head.len() {
                assert(head[i] == s[i]);
            }
        }
    }
}

/// The leaf holds no `/`, and the path is what stands before its last `/`,
/// that `/`, and the leaf.
pub proof fn lemma_leaf_is_last_segment(path: Seq<char>)
    ensures
        forall|i: int| 0 <= i < leaf_of(path).len() ==> #[trigger] leaf_of(path)[i] != '/',
        after_last(path, '/') == 0 ==> leaf_of(path) == path,
        after_last(path, '/') > 0 ==> path == path.subrange(0, after_last(path, '/') - 1).push(
            '/',
        ) + leaf_of(path),
{
    lemma_after_last_bounds(path, '/');
    let cut = after_last(path, '/');
    if cut == 0 {
        assert(leaf_of(path) =~= path);
    } else {
        assert(path =~= path.subrange(0, cut - 1).push('/') + leaf_of(path));
    }
}

fn find_after_last(s: &str, len: usize, c: char) -> (cut: usize)
    requires
        len == s@.len(),
    ensures
        cut == after_last(s@, c),
        cut <= len,
{
    let mut i: usize = len;
    assert(s@.take(i as int) =~= s@);
    while i > 0
        invariant
            i <= len,
            len == s@.len(),
            after_last(s@, c) == after_last(s@.take(i as int), c),
        decreases i,
    {
        let ghost prefix = s@.take(i as int);
        assert(prefix.last() == s@[i - 1]);
        assert(prefix.drop_last() =~= s@.take(i - 1));
        if s.get_char(i - 1) == c {
            return i;
        }
        i -= 1;
    }
    i
}

fn leaf_has_content(leaf: &str, len: usize) -> (found: bool)
    requires
        len == leaf@.len(),
    ensures
        found == has_content(leaf@),
{
    let dot = find_after_last(leaf, len, '.');
    let end: usize = if dot == 0 {
        len
    } else {
        dot - 1
    };
    let mut i: usize = 0;
    while i < end
        invariant
            i <= end,
            end == stem_len(leaf@),
            end <= len,
            len == leaf@.len(),
            forall|k: int| 0 <= k < i ==> is_delimiter(#[trigger] leaf@[k]),
        decreases end - i,
    {
        let c = leaf.get_char(i);
        if !(c == '.' || c == '-' || c == '_' || c == ' ') {
            assert(!is_delimiter(leaf@[i as int]));
            return true;
        }
        i += 1;
    }
    false
}

/// The two segments of a path that are parsed.
#[derive(Clone, Debug, PartialEq, Eq)]
pub struct PathParts {
    pub parent: Option<String>,
    pub leaf: String,
}

/// Takes a path apart. There is no result where the leaf has no content.
pub fn split_path(path: &str) -> (parts: Option<PathParts>)
    ensures
        parts.is_some() == has_content(leaf_of(path@)),
        parts.is_some() ==> parts.unwrap().leaf@ == leaf_of(path@),
        parts.is_some() ==> parts.unwrap().parent.deep_view() == parent_of(path@),
{
    let len = path.unicode_len();
    let cut = find_after_last(path, len, '/');
    let leaf = path.substring_char(cut, len);
    if !leaf_has_content(leaf, len - cut) {
        return None;
    }
    let parent = if cut == 0 {
        None
    } else {
        let head = path.substring_char(0, cut - 1);
        let start = find_after_last(head, cut - 1, '/');
        if start == cut - 1 {
            None
        } else {
            Some(String::from_str(head.substring_char(start, cut - 1)))
        }
    };
    Some(PathParts { parent, leaf: String::from_str(leaf) })
}

/// A parent directory: its name, and the record that the name was parsed
/// into.
#[derive(Clone, Debug, PartialEq, Eq)]
pub struct ParentParse {
    pub name: String,
    pub release: ParsedRelease,
}

/// The record of the parent directory, where there is one.
pub open spec fn parent_release(parent: Option<ParentParse>) -> Option<ReleaseModel> {
    match parent {
        Some(p) => Some(p.release@),
        None => None,
    }
}

/// The season that the parent directory's name gives, where there is a
/// parent and its name is that of a season directory.
pub open spec fn parent_season(parent: Option<ParentParse>) -> Option<u32> {
    match parent {
        Some(p) => season_directory_number(p.name@),
        None => None,
    }
}

/// The kind as which the parent directory of a leaf of kind `leaf` is
/// parsed: a movie's directory as a movie, any other as a series.
pub open spec fn directory_type(leaf: ReleaseType) -> ReleaseType {
    if leaf == ReleaseType::Movie {
        ReleaseType::Movie
    } else {
        ReleaseType::Series
    }
}

pub fn directory_release_type(leaf: ReleaseType) -> (kind: ReleaseType)
    ensures
        kind == directory_type(leaf),
{
    match leaf {
        ReleaseType::Movie => ReleaseType::Movie,
        _ => ReleaseType::Series,
    }
}

pub fn resolve_season(leaf: Option<u32>, parent: Option<u32>) -> (season: Option<u32>)
    ensures
        season == resolved_season(leaf, parent),
{
    match leaf {
        Some(s) => Some(s),
        None => parent,
    }
}

/// Puts the parses of a path's segments together and settles the season.
pub fn compose(full_path: &str, file: ParsedRelease, parent: Option<ParentParse>) -> (info: PathInfo)
    ensures
        info@.full_path == full_path@,
        info@.file == file@,
        info@.directory == parent_release(parent),
        info@.season == resolved_season(file.season, parent_season(parent)),
{
    let leaf_season = file.season;
    match parent {
        Some(p) => {
            let season = resolve_season(leaf_season, parse_season_directory(p.name.as_str()));
            PathInfo {
                directory: Some(p.release),
                season,
                file,
                full_path: String::from_str(full_path),
            }
        },
        None => PathInfo {
            directory: None,
            season: leaf_season,
            file,
            full_path: String::from_str(full_path),
        },
    }
}

} // verus!
