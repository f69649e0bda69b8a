//! Paths as texts, as they are written on Unix and on Windows.
use crate::text;
use crate::text::{joined, last_index, lower_char, pieces, texts, without_prefix};
use vstd::prelude::*;

verus! {

/// How paths are written.
#[derive(Debug, Clone, Copy, PartialEq, Eq, Structural)]
pub enum PathStyle {
    /// With slashes between the parts.
    Unix,
    /// With slashes or backslashes between the parts, and perhaps a prefix such as `C:`.
    Windows,
}

/// A user's home directory.
#[derive(Debug, Clone, PartialEq, Eq)]
pub struct HomeDirectory {
    pub path: String,
    pub style: PathStyle,
}

/// A user's home directory, with a text for the string.
pub ghost struct HomePath {
    pub path: Seq<char>,
    pub style: PathStyle,
}

impl View for HomeDirectory {
    type V = HomePath;

    open spec fn view(&self) -> HomePath {
        HomePath { path: self.path@, style: self.style }
    }
}

// ---------------------------------------------------------------------------
// What a path starts with
// ---------------------------------------------------------------------------
/// What can stand before the root of a path on Windows, in its order.
#[derive(Debug, Clone, Copy, PartialEq, Eq, Structural)]
pub enum PrefixKind {
    /// `\\?\name`
    Verbatim,
    /// `\\?\UNC\server\share`
    VerbatimShare,
    /// `\\?\C:`
    VerbatimDrive,
    /// `\\.\device`
    Device,
    /// `\\server\share`
    Share,
    /// `C:`
    Drive,
}

impl PrefixKind {
    /// The place of the kind in the order.
    #[verifier::allow_in_spec]
    pub fn rank(self) -> u8
        returns
            (match self {
                PrefixKind::Verbatim => 0u8,
                PrefixKind::VerbatimShare => 1,
                PrefixKind::VerbatimDrive => 2,
                PrefixKind::Device => 3,
                PrefixKind::Share => 4,
                PrefixKind::Drive => 5,
            }),
    {
        match self {
            PrefixKind::Verbatim => 0,
            PrefixKind::VerbatimShare => 1,
            PrefixKind::VerbatimDrive => 2,
            PrefixKind::Device => 3,
            PrefixKind::Share => 4,
            PrefixKind::Drive => 5,
        }
    }

    /// Whether what follows the prefix is taken as it stands, with backslashes only between the
    /// parts.
    #[verifier::allow_in_spec]
    pub fn is_verbatim(self) -> bool
        returns
            self.rank() <= 2,
    {
        self.rank() <= 2
    }
}

/// What stands before the root of a path: its kind, the names in it, and how long it is.
#[derive(Debug, Clone, PartialEq, Eq)]
pub struct PathPrefix {
    pub kind: PrefixKind,
    /// The server, the device, the drive in lower case, or the name.
    pub first: String,
    /// The share.
    pub second: String,
    pub len: usize,
}

/// What stands before the root of a path, with texts for strings.
pub ghost struct PrefixOf {
    pub kind: PrefixKind,
    pub first: Seq<char>,
    pub second: Seq<char>,
    pub len: int,
}

impl PathPrefix {
    /// The prefix, with texts for strings.
    pub open spec fn prefix(self) -> PrefixOf {
        PrefixOf {
            kind: self.kind,
            first: self.first@,
            second: self.second@,
            len: self.len as int,
        }
    }
}

/// An optional prefix, with texts for strings.
pub open spec fn prefix_option(prefix: Option<PathPrefix>) -> Option<PrefixOf> {
    match prefix {
        Some(prefix) => Some(prefix.prefix()),
        None => None,
    }
}

/// Whether a character stands between parts of a path.
#[verifier::allow_in_spec]
pub fn is_separator(style: PathStyle, c: char) -> bool
    returns
        c == '/' || (c == '\\' && style == PathStyle::Windows),
{
    c == '/' || (c == '\\' && style == PathStyle::Windows)
}

/// Whether a character ends a name in a prefix.
#[verifier::allow_in_spec]
pub fn ends_name(verbatim: bool, c: char) -> bool
    returns
        c == '\\' || (c == '/' && !verbatim),
{
    c == '\\' || (c == '/' && !verbatim)
}

/// Whether a character is an ASCII letter.
#[verifier::allow_in_spec]
pub fn is_letter(c: char) -> bool
    returns
        ('a' <= c && c <= 'z') || ('A' <= c && c <= 'Z'),
{
    ('a' <= c && c <= 'z') || ('A' <= c && c <= 'Z')
}

/// How long the name is that a text starts with.
pub open spec fn name_len(s: Seq<char>, verbatim: bool) -> int
    decreases s.len(),
{
    if s.len() == 0 || ends_name(verbatim, s[0]) {
        0
    } else {
        1 + name_len(s.drop_first(), verbatim)
    }
}

/// Where the name ends that starts at `from`.
pub open spec fn name_end(s: Seq<char>, from: int, verbatim: bool) -> int {
    from + name_len(s.skip(from), verbatim)
}

/// The two names that stand from `from` on, and where they end; the second may be empty.
pub open spec fn two_names(s: Seq<char>, from: int, verbatim: bool) -> (
    Seq<char>,
    Seq<char>,
    int,
) {
    let a = name_end(s, from, verbatim);
    let b = name_end(s, a + 1, verbatim);
    if a >= s.len() || b == a + 1 {
        (s.subrange(from, a), Seq::empty(), a)
    } else {
        (s.subrange(from, a), s.subrange(a + 1, b), b)
    }
}

/// Whether a text starts with a drive.
pub open spec fn starts_with_drive(s: Seq<char>) -> bool {
    s.len() >= 2 && is_letter(s[0]) && s[1] == ':'
}

/// Whether a text starts with `\\?\`.
pub open spec fn starts_verbatim(s: Seq<char>) -> bool {
    s.len() >= 4 && s[0] == '\\' && s[1] == '\\' && s[2] == '?' && s[3] == '\\'
}

/// Whether `UNC`, and what may stand behind it, stands at the fifth place of a text.
pub open spec fn names_share(s: Seq<char>) -> bool {
    s.len() >= 8 && s[4] == 'U' && s[5] == 'N' && s[6] == 'C' && ends_name(false, s[7])
}

/// The prefix of a path on Windows.
pub open spec fn windows_prefix(s: Seq<char>) -> Option<PrefixOf> {
    if s.len() >= 2 && ends_name(false, s[0]) && ends_name(false, s[1]) {
        if starts_verbatim(s) {
            if names_share(s) {
                let (first, second, len) = two_names(s, 8, true);
                Some(PrefixOf { kind: PrefixKind::VerbatimShare, first, second, len })
            } else if starts_with_drive(s.skip(4)) && (s.len() == 6 || ends_name(false, s[6])) {
                Some(
                    PrefixOf {
                        kind: PrefixKind::VerbatimDrive,
                        first: seq![lower_char(s[4])],
                        second: Seq::empty(),
                        len: 6,
                    },
                )
            } else {
                let len = name_end(s, 4, true);
                Some(
                    PrefixOf {
                        kind: PrefixKind::Verbatim,
                        first: s.subrange(4, len),
                        second: Seq::empty(),
                        len,
                    },
                )
            }
        } else if s.len() >= 4 && s[2] == '.' && ends_name(false, s[3]) {
            let len = name_end(s, 4, false);
            Some(
                PrefixOf {
                    kind: PrefixKind::Device,
                    first: s.subrange(4, len),
                    second: Seq::empty(),
                    len,
                },
            )
        } else {
            let (first, second, len) = two_names(s, 2, false);
            if first.len() > 0 && second.len() > 0 {
                Some(PrefixOf { kind: PrefixKind::Share, first, second, len })
            } else {
                None
            }
        }
    } else if starts_with_drive(s) {
        Some(
            PrefixOf {
                kind: PrefixKind::Drive,
                first: seq![lower_char(s[0])],
                second: Seq::empty(),
                len: 2,
            },
        )
    } else {
        None
    }
}

/// The prefix of a path.
pub open spec fn prefix_of(style: PathStyle, path: Seq<char>) -> Option<PrefixOf> {
    match style {
        PathStyle::Unix => None,
        PathStyle::Windows => windows_prefix(path),
    }
}

/// How long the prefix of a path is.
pub open spec fn prefix_len(style: PathStyle, path: Seq<char>) -> int {
    match prefix_of(style, path) {
        Some(prefix) => prefix.len,
        None => 0,
    }
}

/// Whether the prefix of a path is taken as it stands.
pub open spec fn is_verbatim_path(style: PathStyle, path: Seq<char>) -> bool {
    prefix_of(style, path) matches Some(prefix) && prefix.kind.is_verbatim()
}

/// Whether a root is written behind the prefix of a path.
pub open spec fn writes_root(style: PathStyle, path: Seq<char>) -> bool {
    let at = prefix_len(style, path);
    at < path.len() && is_separator(style, path[at])
}

/// Whether a path starts at a root: every prefix but a drive stands for one.
pub open spec fn has_root(style: PathStyle, path: Seq<char>) -> bool {
    writes_root(style, path) || (prefix_of(style, path) matches Some(prefix) && prefix.kind
        != PrefixKind::Drive)
}

/// Whether a path names the same place wherever it is used.
pub open spec fn is_absolute_path(style: PathStyle, path: Seq<char>) -> bool {
    has_root(style, path) && (style == PathStyle::Windows ==> prefix_of(style, path) is Some)
}

proof fn lemma_name_len(s: Seq<char>, verbatim: bool)
    ensures
        0 <= name_len(s, verbatim) <= s.len(),
    decreases s.len(),
{
    if s.len() > 0 && !ends_name(verbatim, s[0]) {
        lemma_name_len(s.drop_first(), verbatim);
    }
}

proof fn lemma_prefix_len(style: PathStyle, path: Seq<char>)
    ensures
        0 <= prefix_len(style, path) <= path.len(),
{
    if path.len() >= 2 {
        if path.len() >= 8 {
            lemma_name_len(path.skip(8), true);
            let a = name_end(path, 8, true);
            if a < path.len() {
                lemma_name_len(path.skip(a + 1), true);
            }
        }
        if path.len() >= 4 {
            lemma_name_len(path.skip(4), true);
            lemma_name_len(path.skip(4), false);
        }
        lemma_name_len(path.skip(2), false);
        let a = name_end(path, 2, false);
        if a < path.len() {
            lemma_name_len(path.skip(a + 1), false);
        }
    }
}

fn find_name_end(s: &Vec<char>, from: usize, verbatim: bool) -> (r: usize)
    requires
        from <= s@.len(),
    ensures
        r == name_end(s@, from as int, verbatim),
        from <= r <= s@.len(),
{
    let mut i: usize = from;
    while i < s.len() && !ends_name(verbatim, s[i])
        invariant
            from <= i <= s@.len(),
            name_end(s@, from as int, verbatim) == i + name_len(s@.skip(i as int), verbatim),
        decreases s@.len() - i,
    {
        assert(s@.skip(i as int).drop_first() == s@.skip(i + 1));
        assert(s@.skip(i as int)[0] == s@[i as int]);
        i = i + 1;
    }
    if i < s.len() {
        assert(s@.skip(i as int)[0] == s@[i as int]);
    }
    i
}

fn part_of(s: &Vec<char>, from: usize, to: usize) -> (r: String)
    requires
        from <= to <= s@.len(),
    ensures
        r@ == s@.subrange(from as int, to as int),
{
    let mut r = String::new();
    assert(s@.subrange(from as int, from as int) =~= Seq::<char>::empty());
    for i in from..to
        invariant
            from <= to <= s@.len(),
            r@ == s@.subrange(from as int, i as int),
    {
        assert(s@.subrange(from as int, i + 1) =~= s@.subrange(from as int, i as int).push(
            s@[i as int],
        ));
        r.push(s[i]);
    }
    r
}

fn read_two_names(s: &Vec<char>, from: usize, verbatim: bool) -> (r: (String, String, usize))
    requires
        from <= s@.len(),
    ensures
        (r.0@, r.1@, r.2 as int) == two_names(s@, from as int, verbatim),
{
    let a = find_name_end(s, from, verbatim);
    let first = part_of(s, from, a);
    if a == s.len() {
        return (first, String::new(), a);
    }
    let b = find_name_end(s, a + 1, verbatim);
    if b == a + 1 {
        return (first, String::new(), a);
    }
    let second = part_of(s, a + 1, b);
    (first, second, b)
}

fn read_drive(c: char) -> (r: String)
    ensures
        r@ == seq![lower_char(c)],
{
    let mut r = String::new();
    r.push(c);
    let r = text::to_lowercase(r.as_str());
    assert(r@ =~= seq![lower_char(c)]);
    r
}

fn read_windows_prefix(s: &Vec<char>) -> (r: Option<PathPrefix>)
    ensures
        prefix_option(r) == windows_prefix(s@),
{
    let n: usize = s.len();
    if n >= 2 && ends_name(false, s[0]) && ends_name(false, s[1]) {
        if n >= 4 && s[0] == '\\' && s[1] == '\\' && s[2] == '?' && s[3] == '\\' {
            if n >= 8 && s[4] == 'U' && s[5] == 'N' && s[6] == 'C' && ends_name(false, s[7]) {
                let (first, second, len) = read_two_names(s, 8, true);
                return Some(PathPrefix { kind: PrefixKind::VerbatimShare, first, second, len });
            }
            if n >= 6 && is_letter(s[4]) && s[5] == ':' && (n == 6 || ends_name(false, s[6])) {
                let first = read_drive(s[4]);
                let second = String::new();
                return Some(PathPrefix { kind: PrefixKind::VerbatimDrive, first, second, len: 6 });
            }
            let len = find_name_end(s, 4, true);
            let first = part_of(s, 4, len);
            let second = String::new();
            return Some(PathPrefix { kind: PrefixKind::Verbatim, first, second, len });
        }
        if n >= 4 && s[2] == '.' && ends_name(false, s[3]) {
            let len = find_name_end(s, 4, false);
            let first = part_of(s, 4, len);
            let second = String::new();
            return Some(PathPrefix { kind: PrefixKind::Device, first, second, len });
        }
        let (first, second, len) = read_two_names(s, 2, false);
        if first.as_str().is_empty() || second.as_str().is_empty() {
            None
        } else {
            Some(PathPrefix { kind: PrefixKind::Share, first, second, len })
        }
    } else if n >= 2 && is_letter(s[0]) && s[1] == ':' {
        let first = read_drive(s[0]);
        let second = String::new();
        Some(PathPrefix { kind: PrefixKind::Drive, first, second, len: 2 })
    } else {
        None
    }
}

/// Reads the prefix of a path.
pub fn read_prefix(style: PathStyle, path: &str) -> (r: Option<PathPrefix>)
    ensures
        prefix_option(r) == prefix_of(style, path@),
{
    match style {
        PathStyle::Unix => None,
        PathStyle::Windows => {
            let chars = text::chars_of(path);
            read_windows_prefix(&chars)
        },
    }
}

fn find_prefix_end(style: PathStyle, path: &str) -> (r: usize)
    ensures
        r == prefix_len(style, path@),
        r <= path@.len(),
{
    proof {
        lemma_prefix_len(style, path@);
    }
    match read_prefix(style, path) {
        Some(prefix) => prefix.len,
        None => 0,
    }
}

/// Whether a root is written behind the prefix of a path.
pub fn has_written_root(style: PathStyle, path: &str) -> (r: bool)
    ensures
        r == writes_root(style, path@),
{
    let at = find_prefix_end(style, path);
    at < path.unicode_len() && is_separator(style, path.get_char(at))
}

/// Whether a path starts at a root.
pub fn is_rooted(style: PathStyle, path: &str) -> (r: bool)
    ensures
        r == has_root(style, path@),
{
    has_written_root(style, path) || match read_prefix(style, path) {
        Some(prefix) => prefix.kind != PrefixKind::Drive,
        None => false,
    }
}

/// Whether a path names the same place wherever it is used.
pub fn is_absolute(style: PathStyle, path: &str) -> (r: bool)
    ensures
        r == is_absolute_path(style, path@),
{
    is_rooted(style, path) && (style == PathStyle::Unix || read_prefix(style, path).is_some())
}

// ---------------------------------------------------------------------------
// The parts of a path
// ---------------------------------------------------------------------------
/// A slash for a backslash.
pub open spec fn slash_for(c: char) -> char {
    if c == '\\' {
        '/'
    } else {
        c
    }
}

/// A text with slashes for its backslashes.
pub open spec fn slashed(s: Seq<char>) -> Seq<char> {
    s.map_values(|c: char| slash_for(c))
}

/// The parts of a path: what stands between slashes, but for nothing and for a dot, which is
/// kept where the path starts with it.
pub open spec fn parts_between(pieces: Seq<Seq<char>>) -> Seq<Seq<char>>
    decreases pieces.len(),
{
    if pieces.len() == 0 {
        Seq::empty()
    } else {
        let before = parts_between(pieces.drop_last());
        let last = pieces.last();
        if last.len() == 0 || (last == "."@ && pieces.len() > 1) {
            before
        } else {
            before.push(last)
        }
    }
}

/// What stands between backslashes, but for nothing.
pub open spec fn verbatim_parts(pieces: Seq<Seq<char>>) -> Seq<Seq<char>>
    decreases pieces.len(),
{
    if pieces.len() == 0 {
        Seq::empty()
    } else if pieces.last().len() == 0 {
        verbatim_parts(pieces.drop_last())
    } else {
        verbatim_parts(pieces.drop_last()).push(pieces.last())
    }
}

/// The parts of a path behind its prefix.
pub open spec fn path_parts(style: PathStyle, path: Seq<char>) -> Seq<Seq<char>> {
    let rest = path.skip(prefix_len(style, path));
    if is_verbatim_path(style, path) {
        verbatim_parts(pieces(rest, '\\'))
    } else if style == PathStyle::Windows {
        parts_between(pieces(slashed(rest), '/'))
    } else {
        parts_between(pieces(rest, '/'))
    }
}

fn with_slashes(s: &str) -> (r: String)
    ensures
        r@ == slashed(s@),
{
    let chars = text::chars_of(s);
    let mut r = String::new();
    for i in 0..chars.len()
        invariant
            chars@ == s@,
            r@ == slashed(s@.take(i as int)),
    {
        assert(s@.take(i + 1) =~= s@.take(i as int).push(s@[i as int]));
        assert(slashed(s@.take(i + 1)) =~= slashed(s@.take(i as int)).push(
            slash_for(s@[i as int]),
        ));
        r.push(
            if chars[i] == '\\' {
                '/'
            } else {
                chars[i]
            },
        );
    }
    assert(s@.take(s@.len() as int) =~= s@);
    r
}

fn keep_parts(all: &Vec<String>) -> (r: Vec<String>)
    ensures
        texts(r@) == parts_between(texts(all@)),
{
    let ghost words = texts(all@);
    let mut r: Vec<String> = Vec::new();
    assert(texts(r@) =~= Seq::<Seq<char>>::empty());
    for i in 0..all.len()
        invariant
            words == texts(all@),
            texts(r@) == parts_between(words.take(i as int)),
    {
        assert(words.take(i + 1).drop_last() == words.take(i as int));
        assert(words[i as int] == all@[i as int]@);
        let ghost before = r@;
        let part = all[i].as_str();
        if !(part.is_empty() || (text::same_text(part, ".") && i > 0)) {
            r.push(all[i].clone());
            assert(texts(r@) =~= texts(before).push(part@));
        }
    }
    assert(words.take(words.len() as int) == words);
    r
}

fn keep_verbatim_parts(all: &Vec<String>) -> (r: Vec<String>)
    ensures
        texts(r@) == verbatim_parts(texts(all@)),
{
    let ghost words = texts(all@);
    let mut r: Vec<String> = Vec::new();
    assert(texts(r@) =~= Seq::<Seq<char>>::empty());
    for i in 0..all.len()
        invariant
            words == texts(all@),
            texts(r@) == verbatim_parts(words.take(i as int)),
    {
        assert(words.take(i + 1).drop_last() == words.take(i as int));
        assert(words[i as int] == all@[i as int]@);
        let ghost before = r@;
        let part = all[i].as_str();
        if !part.is_empty() {
            r.push(all[i].clone());
            assert(texts(r@) =~= texts(before).push(part@));
        }
    }
    assert(words.take(words.len() as int) == words);
    r
}

fn is_verbatim(style: PathStyle, path: &str) -> (r: bool)
    ensures
        r == is_verbatim_path(style, path@),
{
    match read_prefix(style, path) {
        Some(prefix) => prefix.kind.is_verbatim(),
        None => false,
    }
}

/// Splits a path into its parts.
pub fn split_path(style: PathStyle, path: &str) -> (r: Vec<String>)
    ensures
        texts(r@) == path_parts(style, path@),
{
    let at = find_prefix_end(style, path);
    let rest = path.substring_char(at, path.unicode_len());
    assert(rest@ =~= path@.skip(at as int));
    if is_verbatim(style, path) {
        let all = text::split(rest, '\\');
        keep_verbatim_parts(&all)
    } else if style == PathStyle::Windows {
        let rest = with_slashes(rest);
        let all = text::split(rest.as_str(), '/');
        keep_parts(&all)
    } else {
        let all = text::split(rest, '/');
        keep_parts(&all)
    }
}

/// A path without slashes, and parts that stand for the same directory, at its end.
pub open spec fn without_trailing(path: Seq<char>) -> Seq<char>
    decreases path.len(),
{
    if path.len() > 0 && path.last() == '/' {
        without_trailing(path.drop_last())
    } else if path.len() > 1 && path.last() == '.' && path[path.len() - 2] == '/' {
        without_trailing(path.drop_last())
    } else {
        path
    }
}

/// The last part of a path with slashes between its parts.
pub open spec fn last_part(path: Seq<char>) -> Seq<char> {
    let end = without_trailing(path);
    end.skip(last_index(end, '/') + 1)
}

/// The last part of a path, empty where there is none.
pub open spec fn path_file_name(style: PathStyle, path: Seq<char>) -> Seq<char> {
    let rest = path.skip(prefix_len(style, path));
    if is_verbatim_path(style, path) {
        let parts = verbatim_parts(pieces(rest, '\\'));
        if parts.len() == 0 {
            Seq::empty()
        } else {
            parts.last()
        }
    } else if style == PathStyle::Windows {
        last_part(slashed(rest))
    } else {
        last_part(rest)
    }
}

fn find_last_part(path: &str) -> (r: String)
    ensures
        r@ == last_part(path@),
{
    let chars = text::chars_of(path);
    let mut end: usize = chars.len();
    assert(path@.take(end as int) == path@);
    while end > 0 && (chars[end - 1] == '/' || (end > 1 && chars[end - 1] == '.' && chars[end - 2]
        == '/'))
        invariant
            chars@ == path@,
            end <= chars@.len(),
            without_trailing(path@) == without_trailing(path@.take(end as int)),
        decreases end,
    {
        assert(path@.take(end as int).drop_last() == path@.take(end - 1));
        end = end - 1;
    }
    let head = path.substring_char(0, end);
    assert(head@ == path@.take(end as int));
    match text::rsplit_once(head, '/') {
        Some((_, name)) => name.to_owned(),
        None => {
            proof {
                text::lemma_last_index(head@, '/');
            }
            assert(head@.skip(0) == head@);
            head.to_owned()
        },
    }
}

/// The last part of a path, empty where there is none.
pub fn file_name(style: PathStyle, path: &str) -> (r: String)
    ensures
        r@ == path_file_name(style, path@),
{
    let at = find_prefix_end(style, path);
    let rest = path.substring_char(at, path.unicode_len());
    assert(rest@ =~= path@.skip(at as int));
    if is_verbatim(style, path) {
        let all = text::split(rest, '\\');
        let parts = keep_verbatim_parts(&all);
        assert(texts(parts@).len() == parts@.len());
        let n: usize = parts.len();
        if n == 0 {
            String::new()
        } else {
            assert(texts(parts@).last() == parts@[n - 1]@);
            parts[n - 1].clone()
        }
    } else if style == PathStyle::Windows {
        let rest = with_slashes(rest);
        find_last_part(rest.as_str())
    } else {
        find_last_part(rest)
    }
}

// ---------------------------------------------------------------------------
// Paths below others
// ---------------------------------------------------------------------------
/// The parts of a directory after a walk along other parts, from `from` on: a dot stays, and
/// two dots go up where there is a name to leave.
pub open spec fn walked(
    directory: Seq<Seq<char>>,
    names: Seq<Seq<char>>,
    from: int,
) -> Seq<Seq<char>>
    decreases names.len() - from,
{
    if from >= names.len() {
        directory
    } else if names[from] == "."@ {
        walked(directory, names, from + 1)
    } else if names[from] == ".."@ {
        if directory.len() > 0 && directory.last() != "."@ && directory.last() != ".."@ {
            walked(directory.drop_last(), names, from + 1)
        } else {
            walked(directory, names, from + 1)
        }
    } else {
        walked(directory.push(names[from]), names, from + 1)
    }
}

/// `name` below `base`, whose prefix is taken as it stands.
pub open spec fn joined_verbatim(base: Seq<char>, name: Seq<char>) -> Seq<char> {
    let style = PathStyle::Windows;
    let start = if has_root(style, name) {
        Seq::empty()
    } else {
        path_parts(style, base)
    };
    let parts = walked(start, path_parts(style, name), 0);
    let rooted = has_root(style, name) || writes_root(style, base);
    base.take(prefix_len(style, base)) + if rooted || parts.len() > 0 {
        seq!['\\'] + joined(parts, "\\"@)
    } else {
        Seq::empty()
    }
}

/// `name` below `base`. An absolute `name`, or one with a prefix, stands for itself; one that
/// starts at the root keeps the prefix of `base`.
pub open spec fn joined_path(style: PathStyle, base: Seq<char>, name: Seq<char>) -> Seq<char> {
    if is_absolute_path(style, name) || prefix_of(style, name) is Some {
        name
    } else if is_verbatim_path(style, base) && name.len() > 0 {
        joined_verbatim(base, name)
    } else if has_root(style, name) {
        base.take(prefix_len(style, base)) + name
    } else if base.len() == 0 || is_separator(style, base.last()) || is_bare_drive(style, base) {
        base + name
    } else if style == PathStyle::Windows {
        base + seq!['\\'] + name
    } else {
        base + seq!['/'] + name
    }
}

/// Whether a path is a drive and nothing else.
pub open spec fn is_bare_drive(style: PathStyle, path: Seq<char>) -> bool {
    prefix_of(style, path) matches Some(prefix) && prefix.kind == PrefixKind::Drive && path.len()
        == 2
}

/// The path with the user's home directory for a tilde at its start.
pub open spec fn tilde_expanded(path: Seq<char>, home: HomePath) -> Seq<char> {
    if path == "~"@ {
        home.path
    } else if without_prefix(path, "~/"@) is Some {
        joined_path(home.style, home.path, without_prefix(path, "~/"@)->0)
    } else if without_prefix(path, "~\\"@) is Some {
        joined_path(home.style, home.path, without_prefix(path, "~\\"@)->0)
    } else {
        path
    }
}

fn walk(directory: Vec<String>, names: &Vec<String>) -> (r: Vec<String>)
    ensures
        texts(r@) == walked(texts(directory@), texts(names@), 0),
{
    let ghost start = texts(directory@);
    let ghost words = texts(names@);
    let mut r = directory;
    for i in 0..names.len()
        invariant
            words == texts(names@),
            words.len() == names@.len(),
            walked(start, words, 0) == walked(texts(r@), words, i as int),
    {
        assert(words[i as int] == names@[i as int]@);
        let ghost before = r@;
        assert(texts(before).len() == before.len());
        let name = names[i].as_str();
        if text::same_text(name, ".") {
        } else if text::same_text(name, "..") {
            let n: usize = r.len();
            if n > 0 {
                assert(texts(before).last() == before[n - 1]@);
                if !text::same_text(r[n - 1].as_str(), ".") && !text::same_text(
                    r[n - 1].as_str(),
                    "..",
                ) {
                    r.pop();
                    assert(texts(r@) =~= texts(before).drop_last());
                }
            }
        } else {
            r.push(names[i].clone());
            assert(texts(r@) =~= texts(before).push(name@));
        }
    }
    r
}

fn join_verbatim(base: &str, name: &str) -> (r: String)
    ensures
        r@ == joined_verbatim(base@, name@),
{
    let style = PathStyle::Windows;
    let from_root = is_rooted(style, name);
    let start = if from_root {
        let none: Vec<String> = Vec::new();
        assert(texts(none@) =~= Seq::<Seq<char>>::empty());
        none
    } else {
        split_path(style, base)
    };
    let names = split_path(style, name);
    let parts = walk(start, &names);
    assert(texts(parts@).len() == parts@.len());
    let at = find_prefix_end(style, base);
    let head = base.substring_char(0, at);
    assert(head@ =~= base@.take(at as int));
    let mut r = head.to_owned();
    if from_root || has_written_root(style, base) || parts.len() > 0 {
        r.push('\\');
        let rest = text::join(&parts, "\\");
        r.append(rest.as_str());
    }
    assert(r@ =~= joined_verbatim(base@, name@));
    r
}

/// `name` below `base`.
pub fn join_path(style: PathStyle, base: &str, name: &str) -> (r: String)
    ensures
        r@ == joined_path(style, base@, name@),
{
    let prefix = read_prefix(style, base);
    if is_absolute(style, name) || read_prefix(style, name).is_some() {
        return name.to_owned();
    }
    if is_verbatim(style, base) && !name.is_empty() {
        return join_verbatim(base, name);
    }
    if is_rooted(style, name) {
        let at = find_prefix_end(style, base);
        let head = base.substring_char(0, at);
        assert(head@ =~= base@.take(at as int));
        let mut r = head.to_owned();
        r.append(name);
        return r;
    }
    let n: usize = base.unicode_len();
    let bare = match &prefix {
        Some(prefix) => prefix.kind == PrefixKind::Drive && n == 2,
        None => false,
    };
    let mut r = base.to_owned();
    if !(n == 0 || is_separator(style, base.get_char(n - 1)) || bare) {
        r.push(
            if style == PathStyle::Windows {
                '\\'
            } else {
                '/'
            },
        );
    }
    r.append(name);
    assert(r@ =~= joined_path(style, base@, name@));
    r
}

/// The path with the user's home directory for a tilde at its start.
pub fn expand_tilde(path: &str, home: &HomeDirectory) -> (r: String)
    ensures
        r@ == tilde_expanded(path@, home@),
{
    if text::same_text(path, "~") {
        return home.path.clone();
    }
    match text::strip_prefix(path, "~/") {
        Some(suffix) => return join_path(home.style, home.path.as_str(), suffix),
        None => {},
    }
    match text::strip_prefix(path, "~\\") {
        Some(suffix) => join_path(home.style, home.path.as_str(), suffix),
        None => path.to_owned(),
    }
}

/// On Unix a name is put below a directory with one slash between them, where it does not start
/// with one; a name that does stands for itself.
pub proof fn unix_names_go_below(base: Seq<char>, name: Seq<char>)
    ensures
        name.len() > 0 && name[0] == '/' ==> joined_path(PathStyle::Unix, base, name) == name,
        base.len() > 0 && base.last() != '/' && (name.len() == 0 || name[0] != '/')
            ==> joined_path(PathStyle::Unix, base, name) == base + seq!['/'] + name,
        base.len() > 0 && base.last() == '/' && (name.len() == 0 || name[0] != '/')
            ==> joined_path(PathStyle::Unix, base, name) == base + name,
        base.len() == 0 && (name.len() == 0 || name[0] != '/') ==> joined_path(
            PathStyle::Unix,
            base,
            name,
        ) == name,
{
    assert(base.len() == 0 ==> base + name =~= name);
}

/// A tilde at the start of a path, alone or in front of a slash, stands for the home directory,
/// and nowhere else.
pub proof fn tildes_stand_for_home(home: HomePath, rest: Seq<char>, path: Seq<char>)
    requires
        path.len() == 0 || path[0] != '~' || (path.len() > 1 && path[1] != '/' && path[1] != '\\'),
    ensures
        tilde_expanded(seq!['~'], home) == home.path,
        tilde_expanded(seq!['~', '/'] + rest, home) == joined_path(home.style, home.path, rest),
        tilde_expanded(seq!['~', '\\'] + rest, home) == joined_path(home.style, home.path, rest),
        tilde_expanded(path, home) == path,
{
    reveal_strlit("~");
    reveal_strlit("~/");
    reveal_strlit("~\\");
    assert("~"@ =~= seq!['~']);
    assert("~/"@ =~= seq!['~', '/']);
    assert("~\\"@ =~= seq!['~', '\\']);
    let slashed = seq!['~', '/'] + rest;
    let backslashed = seq!['~', '\\'] + rest;
    assert(slashed.take(2) =~= "~/"@);
    assert(slashed.skip(2) =~= rest);
    assert(slashed.len() >= 2 && "~"@.len() == 1);
    assert(backslashed.take(2) =~= "~\\"@);
    assert(backslashed.skip(2) =~= rest);
    assert(backslashed.take(2)[1] == '\\' && "~/"@[1] == '/');
    if path.len() >= 2 {
        assert(path.take(2)[0] == path[0] && path.take(2)[1] == path[1]);
    }
}

} // verus!
