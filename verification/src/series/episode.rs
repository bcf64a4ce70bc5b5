//! Episodes of a local series: video files whose names carry episode information.
use vstd::prelude::*;

use crate::detect;
use crate::detect::episode::episode_result;
use crate::detect::text::str_chars;

use super::{format_names, Format};

verus! {

/// Why a file is not taken as an episode.
#[derive(Debug, PartialEq, Eq, Structural)]
pub enum ParseError {
    /// The filename could not be parsed for media information.
    Unmatched,
    /// The filename does not have a known video file extension.
    InvalidExtension,
    /// The provided path does not point to a file.
    NotAFile,
    /// The filename contains invalid UTF-8.
    InvalidUtf8,
}

// ---------------------------------------------------------------------------
// Paths
// ---------------------------------------------------------------------------

/// Start of the path segment that ends at `end`: just after the last `/`
/// before it, or the start of the path.
pub open spec fn segment_start(p: Seq<char>, end: int) -> int
    decreases end,
{
    if end <= 0 {
        0
    } else if p[end - 1] == '/' {
        end
    } else {
        segment_start(p, end - 1)
    }
}

pub proof fn lemma_segment_start(p: Seq<char>, end: int)
    requires
        0 <= end <= p.len(),
    ensures
        0 <= segment_start(p, end) <= end,
        segment_start(p, end) > 0 ==> p[segment_start(p, end) - 1] == '/',
        forall|k: int| segment_start(p, end) <= k < end ==> #[trigger] p[k] != '/',
    decreases end,
{
    if end > 0 && p[end - 1] != '/' {
        lemma_segment_start(p, end - 1);
    }
}

/// The range of the final component of the path `p[..end]`, as `Path::file_name`
/// finds it on Unix: trailing slashes and `.` components are skipped, and a
/// final `..` (or a path without a normal component) has no file name.
pub open spec fn file_name_range(p: Seq<char>, end: int) -> Option<(int, int)>
    decreases end,
{
    if end <= 0 || end > p.len() {
        None
    } else {
        let start = segment_start(p, end);
        let seg = p.subrange(start, end);
        if seg.len() == 0 || seg == seq!['.'] {
            if 0 < start <= end {
                file_name_range(p, start - 1)
            } else {
                None
            }
        } else if seg == seq!['.', '.'] {
            None
        } else {
            Some((start, end))
        }
    }
}

/// A file name is a non-empty part of the path.
pub proof fn lemma_file_name_range(p: Seq<char>, end: int)
    ensures
        file_name_range(p, end) matches Some((a, b)) ==> 0 <= a < b <= end <= p.len(),
    decreases end,
{
    if 0 < end <= p.len() {
        lemma_segment_start(p, end);
        let start = segment_start(p, end);
        let seg = p.subrange(start, end);
        if seg.len() == 0 || seg == seq!['.'] {
            if 0 < start <= end {
                lemma_file_name_range(p, start - 1);
            }
        }
    }
}

/// Position of the last `.` in `n[..end]`.
pub open spec fn last_dot(n: Seq<char>, end: int) -> Option<int>
    decreases end,
{
    if end <= 0 || end > n.len() {
        None
    } else if n[end - 1] == '.' {
        Some(end - 1)
    } else {
        last_dot(n, end - 1)
    }
}

/// The file name split at its last dot, as `Path::file_stem` and
/// `Path::extension` split it: a name with no dot, or whose only dot leads it,
/// is all stem and has no extension.
pub open spec fn split_name(name: Seq<char>) -> (Seq<char>, Option<Seq<char>>) {
    match last_dot(name, name.len() as int) {
        Some(d) => if d == 0 {
            (name, None)
        } else {
            (name.subrange(0, d), Some(name.subrange(d + 1, name.len() as int)))
        },
        None => (name, None),
    }
}

/// `Path::extension` of a path.
pub open spec fn path_extension(p: Seq<char>) -> Option<Seq<char>> {
    match file_name_range(p, p.len() as int) {
        Some((a, b)) => split_name(p.subrange(a, b)).1,
        None => None,
    }
}

/// `Path::file_stem` of a path.
pub open spec fn path_stem(p: Seq<char>) -> Option<Seq<char>> {
    match file_name_range(p, p.len() as int) {
        Some((a, b)) => Some(split_name(p.subrange(a, b)).0),
        None => None,
    }
}

/// The extensions of video container files.
pub open spec fn container_extensions() -> Seq<Seq<char>> {
    seq![
        "avi"@,
        "flv"@,
        "m2ts"@,
        "mts"@,
        "m4v"@,
        "mkv"@,
        "mov"@,
        "mp4"@,
        "mpg"@,
        "mpeg"@,
        "ogv"@,
        "ts"@,
        "webm"@,
        "wmv"@,
        "3gp"@,
        "3g2"@,
        "f4v"@,
    ]
}

fn container_extension_list() -> (r: Vec<&'static str>)
    ensures
        r@.map_values(|e: &'static str| e@) == container_extensions(),
{
    let r = vec![
        "avi",
        "flv",
        "m2ts",
        "mts",
        "m4v",
        "mkv",
        "mov",
        "mp4",
        "mpg",
        "mpeg",
        "ogv",
        "ts",
        "webm",
        "wmv",
        "3gp",
        "3g2",
        "f4v",
    ];
    assert(r@.map_values(|e: &'static str| e@) =~= container_extensions());
    r
}

fn chars_equal(a: &[char], b: &[char]) -> (r: bool)
    ensures
        r == (a@ == b@),
{
    if a.len() != b.len() {
        return false;
    }
    let mut k: usize = 0;
    while k < a.len()
        invariant
            a.len() == b.len(),
            k <= a.len(),
            forall|m: int| 0 <= m < k ==> a@[m] == b@[m],
        decreases a.len() - k,
    {
        if a[k] != b[k] {
            return false;
        }
        k += 1;
    }
    assert(a@ =~= b@);
    true
}

/// `ext` is the extension of a video container format.
fn is_container_extension(ext: &[char]) -> (r: bool)
    ensures
        r == container_extensions().contains(ext@),
{
    let list = container_extension_list();
    let ghost view = list@.map_values(|e: &'static str| e@);
    let mut k: usize = 0;
    while k < list.len()
        invariant
            k <= list.len(),
            view == list@.map_values(|e: &'static str| e@),
            view == container_extensions(),
            forall|m: int| 0 <= m < k ==> view[m] != ext@,
        decreases list.len() - k,
    {
        let candidate = str_chars(list[k]);
        assert(candidate@ == view[k as int]);
        if chars_equal(candidate.as_slice(), ext) {
            return true;
        }
        k += 1;
    }
    false
}

fn find_segment_start(p: &[char], end: usize) -> (r: usize)
    requires
        end <= p.len(),
    ensures
        r as int == segment_start(p@, end as int),
        r <= end,
{
    let mut k = end;
    while k > 0 && p[k - 1] != '/'
        invariant
            k <= end <= p.len(),
            segment_start(p@, end as int) == segment_start(p@, k as int),
        decreases k,
    {
        k -= 1;
    }
    k
}

pub(crate) fn find_file_name_of(p: &[char]) -> (r: Option<(usize, usize)>)
    ensures
        match r {
            Some((a, b)) => file_name_range(p@, p@.len() as int) == Some((a as int, b as int)),
            None => file_name_range(p@, p@.len() as int) is None,
        },
        r matches Some((a, b)) ==> a < b <= p.len(),
{
    proof {
        lemma_file_name_range(p@, p@.len() as int);
    }
    let mut end = p.len();
    loop
        invariant
            end <= p.len(),
            file_name_range(p@, p@.len() as int) == file_name_range(p@, end as int),
        decreases end,
    {
        if end == 0 {
            return None;
        }
        let start = find_segment_start(p, end);
        let len = end - start;
        let ghost seg = p@.subrange(start as int, end as int);
        let is_dot = len == 1 && p[start] == '.';
        let is_dot_dot = len == 2 && p[start] == '.' && p[start + 1] == '.';
        proof {
            if is_dot {
                assert(seg =~= seq!['.']);
            } else if len == 1 {
                assert(seg[0] != '.');
                assert(seg != seq!['.']);
            }
            if is_dot_dot {
                assert(seg =~= seq!['.', '.']);
            } else if len == 2 {
                assert(seg != seq!['.', '.']) by {
                    if seg == seq!['.', '.'] {
                        assert(seg[0] == '.' && seg[1] == '.');
                    }
                }
            }
            if len != 1 {
                assert(seg.len() != 1);
            }
        }
        if len == 0 || is_dot {
            if start == 0 {
                return None;
            }
            end = start - 1;
        } else if is_dot_dot {
            return None;
        } else {
            return Some((start, end));
        }
    }
}

/// Position of the last `.` in `n[a..b]`.
fn find_last_dot(p: &[char], a: usize, b: usize) -> (r: Option<usize>)
    requires
        a <= b <= p.len(),
    ensures
        match r {
            Some(d) => last_dot(p@.subrange(a as int, b as int), (b - a) as int) == Some(
                d - a,
            ) && a <= d < b,
            None => last_dot(p@.subrange(a as int, b as int), (b - a) as int) is None,
        },
{
    let ghost n = p@.subrange(a as int, b as int);
    let mut k = b;
    while k > a
        invariant
            a <= k <= b <= p.len(),
            n == p@.subrange(a as int, b as int),
            last_dot(n, (b - a) as int) == last_dot(n, (k - a) as int),
        decreases k,
    {
        if p[k - 1] == '.' {
            assert(n[k - 1 - a] == '.');
            return Some(k - 1);
        }
        assert(n[k - 1 - a] != '.');
        k -= 1;
    }
    None
}

// ---------------------------------------------------------------------------
// Episodes
// ---------------------------------------------------------------------------

/// Episode information found in a local filename.
pub type LocalEpisodeInfo = detect::Episode<Format>;

/// A video file of a local series.
#[derive(Debug)]
pub struct Episode {
    pub info: LocalEpisodeInfo,
    pub path: String,
}

/// Two files are the same episode when they carry the same episode
/// information, wherever they are.
impl PartialEq for Episode {
    fn eq(&self, other: &Self) -> (r: bool) {
        self.info == other.info
    }
}

impl vstd::std_specs::cmp::PartialEqSpecImpl for Episode {
    open spec fn obeys_eq_spec() -> bool {
        true
    }

    open spec fn eq_spec(&self, other: &Self) -> bool {
        self.info == other.info
    }
}

impl Eq for Episode {}

/// The outcome of taking the file at path `p` as an episode: it needs a video
/// container extension, and the episode information is read from its stem.
pub open spec fn episode_info_of(p: Seq<char>) -> Result<LocalEpisodeInfo, ParseError> {
    match path_extension(p) {
        Some(ext) => if container_extensions().contains(ext) {
            match path_stem(p) {
                Some(stem) => match episode_result(stem, format_names()) {
                    Ok(info) => Ok(info),
                    Err(_) => Err(ParseError::Unmatched),
                },
                None => Err(ParseError::NotAFile),
            }
        } else {
            Err(ParseError::InvalidExtension)
        },
        None => Err(ParseError::InvalidExtension),
    }
}

/// The extensions of video files that a series directory is read for.
pub open spec fn video_extensions() -> Seq<Seq<char>> {
    seq![
        "avi"@, "flv"@, "m2ts"@, "mts"@, "m4v"@, "mkv"@, "mov"@, "mp4"@, "mpg"@, "mpeg"@, "ogv"@,
        "ts"@, "webm"@, "wmv"@, "3gp"@, "3g2"@, "f4v"@,
    ]
}

/// A file with any other extension is turned away for it.
pub proof fn lemma_other_files_are_not_read(p: Seq<char>, ext: Seq<char>)
    requires
        path_extension(p) == Some(ext),
        !video_extensions().contains(ext),
    ensures
        episode_info_of(p) matches Err(ParseError::InvalidExtension),
{
    assert(video_extensions() =~= container_extensions());
}

/// A file with a video extension is never turned away for its extension:
/// it is read as an episode exactly when its stem names one.
pub proof fn lemma_video_files_are_read(p: Seq<char>, ext: Seq<char>)
    requires
        path_extension(p) == Some(ext),
        video_extensions().contains(ext),
    ensures
        !(episode_info_of(p) matches Err(ParseError::InvalidExtension)),
        path_stem(p) matches Some(stem) ==> (episode_info_of(p) is Ok <==> episode_result(
            stem,
            format_names(),
        ) is Ok),
{
    assert(video_extensions() =~= container_extensions());
}

proof fn lemma_segment_start_at(p: Seq<char>, s: int, end: int)
    requires
        0 <= s <= end <= p.len(),
        s == 0 || p[s - 1] == '/',
        forall|k: int| s <= k < end ==> p[k] != '/',
    ensures
        segment_start(p, end) == s,
    decreases end,
{
    if end > s {
        lemma_segment_start_at(p, s, end - 1);
    }
}

/// What a file is read as depends on its name alone, not on the directory
/// it is in.
pub proof fn lemma_episode_ignores_directory(dir: Seq<char>, name: Seq<char>)
    requires
        name.len() > 0,
        name != seq!['.'],
        name != seq!['.', '.'],
        forall|k: int| 0 <= k < name.len() ==> name[k] != '/',
    ensures
        episode_info_of(dir + seq!['/'] + name) == episode_info_of(name),
{
    let p = dir + seq!['/'] + name;
    let s: int = dir.len() as int + 1;
    assert(p[s - 1] == '/');
    assert forall|k: int| s <= k < p.len() implies p[k] != '/' by {
        assert(p[k] == name[k - s]);
    }
    lemma_segment_start_at(p, s, p.len() as int);
    assert(p.subrange(s, p.len() as int) =~= name);
    lemma_segment_start_at(name, 0, name.len() as int);
    assert(name.subrange(0, name.len() as int) =~= name);
}

impl Episode {
    /// Read the episode information in the file name of `path`.
    pub fn parse(path: &str) -> (r: Result<Self, ParseError>)
        ensures
            match episode_info_of(path@) {
                Ok(info) => r matches Ok(ep) && ep.info == info && ep.path@ == path@,
                Err(e) => r == Err::<Self, ParseError>(e),
            },
    {
        let p = str_chars(path);
        let ps = p.as_slice();
        let (a, b) = match find_file_name_of(ps) {
            Some(range) => range,
            None => {
                return Err(ParseError::InvalidExtension);
            },
        };
        let ghost name = p@.subrange(a as int, b as int);
        let (stem_end, ext_start) = match find_last_dot(ps, a, b) {
            Some(d) => if d == a {
                (b, None)
            } else {
                (d, Some(d + 1))
            },
            None => (b, None),
        };
        proof {
            if let Some(e) = ext_start {
                assert(split_name(name).1 == Some(p@.subrange(e as int, b as int)));
                assert(split_name(name).0 =~= p@.subrange(a as int, stem_end as int));
            } else {
                assert(split_name(name).0 =~= p@.subrange(a as int, stem_end as int));
            }
        }
        let ext_ok = match ext_start {
            Some(e) => {
                let ext = slice_range(ps, e, b);
                is_container_extension(ext.as_slice())
            },
            None => false,
        };
        if !ext_ok {
            return Err(ParseError::InvalidExtension);
        }
        let stem = path.substring_char(a, stem_end);
        let mappings = <Format as detect::Format>::variant_mappings();
        match detect::Episode::<Format>::parse_with_mappings(stem, mappings.as_slice()) {
            Ok(info) => Ok(Episode { info, path: path.to_owned() }),
            Err(_) => Err(ParseError::Unmatched),
        }
    }
}

/// The characters `p[a..b]`.
fn slice_range(p: &[char], a: usize, b: usize) -> (r: Vec<char>)
    requires
        a <= b <= p.len(),
    ensures
        r@ == p@.subrange(a as int, b as int),
{
    let mut r: Vec<char> = Vec::new();
    let mut k = a;
    while k < b
        invariant
            a <= k <= b <= p.len(),
            r@ == p@.subrange(a as int, k as int),
        decreases b - k,
    {
        r.push(p[k]);
        k += 1;
        assert(r@ =~= p@.subrange(a as int, k as int));
    }
    r
}

} // verus!
