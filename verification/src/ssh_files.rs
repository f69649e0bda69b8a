//! The files of an OpenSSH configuration: what they ask for, each read as often as others name
//! it.
//!
//! What is on disk comes as a list of files and of patterns with the paths that they stand
//! for. A walk that meets one that is not listed says which one it needs.
use crate::paths;
use crate::paths::{is_absolute_path, joined_path, path_parts, prefix_of, tilde_expanded, writes_root, HomeDirectory,
    HomePath, PathPrefix, PathStyle, PrefixKind, PrefixOf};
use crate::ssh_syntax;
use crate::ssh_syntax::{arguments_of, directive_of, host_matches, is_about_forwards, is_directive,
    read_bool, read_dynamic_forward, read_local_forward, read_remote_forward, without_comment,
    ForwardRequest, ParsedSshForward, SshConfigError};
use crate::text;
use crate::text::{concat2, concat3, concat4, decimal, joined, lowercase, text_lines,
    texts, trimmed};
use vstd::prelude::*;

verus! {

/// How deep files may name each other.
pub const MAX_INCLUDE_DEPTH: usize = 16;

/// What a file holds; else why it cannot be read: it does not exist, it cannot be opened, or it
/// was opened and holds no text.
#[derive(Debug, Clone, PartialEq, Eq)]
pub enum SshContents {
    Text(String),
    Missing(String),
    Closed(String),
    Unreadable(String),
}

/// A file: its path, the path by which it is told from others, and what it holds.
#[derive(Debug, Clone, PartialEq, Eq)]
pub struct SshFile {
    pub path: String,
    pub identity: String,
    pub contents: SshContents,
}

impl SshContents {
    /// The text of a file, or why it has none.
    pub open spec fn result(self) -> Result<Seq<char>, Seq<char>> {
        match self {
            SshContents::Text(text) => Ok(text@),
            SshContents::Missing(reason) => Err(reason@),
            SshContents::Closed(reason) => Err(reason@),
            SshContents::Unreadable(reason) => Err(reason@),
        }
    }

    /// The text of a file, or why it has none.
    pub fn read(&self) -> (r: Result<&str, &str>)
        ensures
            (match r {
                Ok(text) => self.result() == Ok::<_, Seq<char>>(text@),
                Err(reason) => self.result() == Err::<Seq<char>, _>(reason@),
            }),
    {
        match self {
            SshContents::Text(text) => Ok(text.as_str()),
            SshContents::Missing(reason) => Err(reason.as_str()),
            SshContents::Closed(reason) => Err(reason.as_str()),
            SshContents::Unreadable(reason) => Err(reason.as_str()),
        }
    }
}

/// A pattern, and the paths that it stands for; for a path that cannot be looked at, why; or
/// what is wrong with the pattern.
#[derive(Debug, PartialEq, Eq)]
pub struct SshPattern {
    pub pattern: String,
    pub paths: Result<Vec<Result<String, String>>, String>,
}

/// What is known of the disk.
#[derive(Debug, PartialEq, Eq)]
pub struct SshFiles {
    pub files: Vec<SshFile>,
    pub patterns: Vec<SshPattern>,
}

/// What a walk needs to know of the disk.
#[derive(Debug, Clone, PartialEq, Eq)]
pub enum SshNeed {
    File(String),
    Pattern(String),
}

/// What a walk needs to know, with texts for strings.
pub ghost enum Need {
    File(Seq<char>),
    Pattern(Seq<char>),
}

impl SshNeed {
    /// What is needed, with texts for strings.
    pub open spec fn need(self) -> Need {
        match self {
            SshNeed::File(path) => Need::File(path@),
            SshNeed::Pattern(pattern) => Need::Pattern(pattern@),
        }
    }
}

/// Why a walk does not go on.
#[derive(Debug, Clone, PartialEq, Eq)]
pub enum SshStop {
    Failed(SshConfigError),
    Needs(SshNeed),
}

/// Why a walk does not go on, with texts for strings.
pub ghost enum Stop {
    Failed(Seq<Seq<char>>),
    Needs(Need),
}

impl SshStop {
    /// Why the walk does not go on, with texts for strings.
    pub open spec fn stop(self) -> Stop {
        match self {
            SshStop::Failed(error) => Stop::Failed(error.chain()),
            SshStop::Needs(need) => Stop::Needs(need.need()),
        }
    }
}

/// Where a path first stands in a list of files; the number of files where it does not.
pub open spec fn file_index(files: Seq<SshFile>, path: Seq<char>) -> int
    decreases files.len(),
{
    if files.len() == 0 || files[0].path@ == path {
        0
    } else {
        1 + file_index(files.drop_first(), path)
    }
}

/// Where a pattern first stands in a list; the length of the list where it does not.
pub open spec fn pattern_index(patterns: Seq<SshPattern>, pattern: Seq<char>) -> int
    decreases patterns.len(),
{
    if patterns.len() == 0 || patterns[0].pattern@ == pattern {
        0
    } else {
        1 + pattern_index(patterns.drop_first(), pattern)
    }
}

proof fn lemma_file_index(files: Seq<SshFile>, path: Seq<char>)
    ensures
        0 <= file_index(files, path) <= files.len(),
    decreases files.len(),
{
    if files.len() > 0 && files[0].path@ != path {
        lemma_file_index(files.drop_first(), path);
    }
}

impl SshFiles {
    /// Nothing is known.
    pub fn new() -> (r: SshFiles)
        ensures
            r.files@.len() == 0,
            r.patterns@.len() == 0,
    {
        SshFiles { files: Vec::new(), patterns: Vec::new() }
    }

    /// Looks a file up.
    pub fn find_file(&self, path: &str) -> (r: Option<&SshFile>)
        ensures
            (match r {
                Some(file) => file_index(self.files@, path@) < self.files@.len() && *file
                    == self.files@[file_index(self.files@, path@)],
                None => file_index(self.files@, path@) == self.files@.len(),
            }),
    {
        let n: usize = self.files.len();
        assert(self.files@.skip(0) == self.files@);
        for i in 0..n
            invariant
                n == self.files@.len(),
                file_index(self.files@, path@) == i + file_index(
                    self.files@.skip(i as int),
                    path@,
                ),
        {
            assert(self.files@.skip(i as int).drop_first() == self.files@.skip(i + 1));
            assert(self.files@.skip(i as int)[0] == self.files@[i as int]);
            if text::same_text(self.files[i].path.as_str(), path) {
                return Some(&self.files[i]);
            }
        }
        None
    }

    /// Looks a pattern up.
    pub fn find_pattern(&self, pattern: &str) -> (r: Option<&SshPattern>)
        ensures
            (match r {
                Some(found) => pattern_index(self.patterns@, pattern@) < self.patterns@.len()
                    && *found == self.patterns@[pattern_index(self.patterns@, pattern@)],
                None => pattern_index(self.patterns@, pattern@) == self.patterns@.len(),
            }),
    {
        let n: usize = self.patterns.len();
        assert(self.patterns@.skip(0) == self.patterns@);
        for i in 0..n
            invariant
                n == self.patterns@.len(),
                pattern_index(self.patterns@, pattern@) == i + pattern_index(
                    self.patterns@.skip(i as int),
                    pattern@,
                ),
        {
            assert(self.patterns@.skip(i as int).drop_first() == self.patterns@.skip(i + 1));
            assert(self.patterns@.skip(i as int)[0] == self.patterns@[i as int]);
            if text::same_text(self.patterns[i].pattern.as_str(), pattern) {
                return Some(&self.patterns[i]);
            }
        }
        None
    }
}

// ---------------------------------------------------------------------------
// Files that lines name
// ---------------------------------------------------------------------------
/// Where a user's OpenSSH files are.
pub open spec fn ssh_directory(home: HomePath) -> Seq<char> {
    joined_path(home.style, home.path, ".ssh"@)
}

/// The pattern that an argument stands for: with the home directory for a tilde, and below the
/// directory of the user's OpenSSH files unless it is absolute.
pub open spec fn named_pattern(argument: Seq<char>, home: HomePath) -> Seq<char> {
    let expanded = tilde_expanded(argument, home);
    if is_absolute_path(home.style, expanded) {
        expanded
    } else {
        joined_path(home.style, ssh_directory(home), expanded)
    }
}

/// The pattern that an argument stands for.
pub fn expand_include_path(argument: &str, home: &HomeDirectory) -> (r: String)
    ensures
        r@ == named_pattern(argument@, home@),
{
    let expanded = paths::expand_tilde(argument, home);
    if paths::is_absolute(home.style, expanded.as_str()) {
        expanded
    } else {
        let directory = default_ssh_dir(home);
        paths::join_path(home.style, directory.as_str(), expanded.as_str())
    }
}

/// Where a user's OpenSSH files are.
pub fn default_ssh_dir(home: &HomeDirectory) -> (r: String)
    ensures
        r@ == ssh_directory(home@),
{
    paths::join_path(home.style, home.path.as_str(), ".ssh")
}

/// What there is to do for a line that names files: files to walk through in turn, up to where
/// the walk stops.
#[derive(Debug, Clone, PartialEq, Eq)]
pub enum Step {
    Walk(String),
    Halt(SshStop),
}

/// A step, with texts for strings.
pub ghost enum StepOf {
    Walk(Seq<char>),
    Halt(Stop),
}

impl Step {
    /// The step, with texts for strings.
    pub open spec fn step(self) -> StepOf {
        match self {
            Step::Walk(path) => StepOf::Walk(path@),
            Step::Halt(stop) => StepOf::Halt(stop.stop()),
        }
    }
}

/// The steps, with texts for strings.
pub open spec fn steps_of(steps: Seq<Step>) -> Seq<StepOf> {
    steps.map_values(|s: Step| s.step())
}

/// The steps for the paths of a pattern, from `from` on.
pub open spec fn path_steps(
    pattern: Seq<char>,
    paths: Seq<Result<String, String>>,
    from: int,
) -> Seq<StepOf>
    decreases paths.len() - from,
{
    if from >= paths.len() {
        Seq::empty()
    } else {
        match paths[from] {
            Ok(path) => seq![StepOf::Walk(path@)] + path_steps(pattern, paths, from + 1),
            Err(reason) => seq![
                StepOf::Halt(
                    Stop::Failed(
                        seq!["failed to resolve SSH Include pattern "@ + pattern, reason@],
                    ),
                ),
            ],
        }
    }
}

/// Whether steps end in a halt.
pub open spec fn halts(steps: Seq<StepOf>) -> bool {
    steps.len() > 0 && steps.last() is Halt
}

/// The steps for one pattern.
pub open spec fn pattern_steps(known: SshFiles, pattern: Seq<char>) -> Seq<StepOf> {
    let index = pattern_index(known.patterns@, pattern);
    if index >= known.patterns@.len() {
        seq![StepOf::Halt(Stop::Needs(Need::Pattern(pattern)))]
    } else {
        match known.patterns@[index].paths {
            Ok(paths) => path_steps(pattern, paths@, 0),
            Err(reason) => seq![
                StepOf::Halt(
                    Stop::Failed(seq!["invalid SSH Include pattern "@ + pattern, reason@]),
                ),
            ],
        }
    }
}

/// The steps for the arguments of a line that names files, from `from` on.
pub open spec fn include_steps(
    known: SshFiles,
    arguments: Seq<Seq<char>>,
    home: HomePath,
    from: int,
) -> Seq<StepOf>
    decreases arguments.len() - from,
{
    if from >= arguments.len() {
        Seq::empty()
    } else {
        let first = pattern_steps(known, named_pattern(arguments[from], home));
        if halts(first) {
            first
        } else {
            first + include_steps(known, arguments, home, from + 1)
        }
    }
}

fn collect_path_steps(
    pattern: &str,
    paths: &Vec<Result<String, String>>,
    steps: &mut Vec<Step>,
) -> (halted: bool)
    ensures
        steps_of(final(steps)@) == steps_of(old(steps)@) + path_steps(pattern@, paths@, 0),
        halted == halts(path_steps(pattern@, paths@, 0)),
{
    let ghost start = steps@;
    let ghost all = path_steps(pattern@, paths@, 0);
    let ghost mut done: Seq<StepOf> = Seq::empty();
    assert(Seq::<StepOf>::empty() + all =~= all);
    assert(steps_of(start) + Seq::<StepOf>::empty() =~= steps_of(start));
    for i in 0..paths.len()
        invariant
            start == old(steps)@,
            all == path_steps(pattern@, paths@, 0),
            all == done + path_steps(pattern@, paths@, i as int),
            steps_of(steps@) == steps_of(start) + done,
            forall|j: int| 0 <= j < done.len() ==> done[j] is Walk,
    {
        let ghost here = steps@;
        match &paths[i] {
            Ok(path) => {
                steps.push(Step::Walk(path.clone()));
                proof {
                    let rest = path_steps(pattern@, paths@, i + 1);
                    assert(done + (seq![StepOf::Walk(path@)] + rest) =~= done.push(
                        StepOf::Walk(path@),
                    ) + rest);
                    assert(steps_of(steps@) =~= steps_of(here).push(StepOf::Walk(path@)));
                    done = done.push(StepOf::Walk(path@));
                    assert(steps_of(steps@) =~= steps_of(start) + done);
                }
            },
            Err(reason) => {
                let error = SshConfigError::caused(
                    concat2("failed to resolve SSH Include pattern ", pattern),
                    reason.as_str(),
                );
                let ghost halt = StepOf::Halt(Stop::Failed(error.chain()));
                steps.push(Step::Halt(SshStop::Failed(error)));
                assert(steps_of(steps@) =~= steps_of(here).push(halt));
                assert(all =~= done.push(halt));
                assert(steps_of(steps@) =~= steps_of(start) + all);
                return true;
            },
        }
    }
    assert(all =~= done);
    false
}

fn collect_pattern_steps(known: &SshFiles, pattern: String, steps: &mut Vec<Step>) -> (halted: bool)
    ensures
        steps_of(final(steps)@) == steps_of(old(steps)@) + pattern_steps(*known, pattern@),
        halted == halts(pattern_steps(*known, pattern@)),
{
    let ghost start = steps@;
    match known.find_pattern(pattern.as_str()) {
        None => {
            steps.push(Step::Halt(SshStop::Needs(SshNeed::Pattern(pattern))));
            assert(steps_of(steps@) =~= steps_of(start) + pattern_steps(*known, pattern@));
            true
        },
        Some(found) => match &found.paths {
            Ok(paths) => collect_path_steps(pattern.as_str(), paths, steps),
            Err(reason) => {
                let error = SshConfigError::caused(
                    concat2("invalid SSH Include pattern ", pattern.as_str()),
                    reason.as_str(),
                );
                steps.push(Step::Halt(SshStop::Failed(error)));
                assert(steps_of(steps@) =~= steps_of(start) + pattern_steps(*known, pattern@));
                true
            },
        },
    }
}

fn collect_steps(known: &SshFiles, arguments: &Vec<String>, home: &HomeDirectory) -> (r: Vec<Step>)
    ensures
        steps_of(r@) == include_steps(*known, texts(arguments@), home@, 0),
{
    let ghost words = texts(arguments@);
    let ghost all = include_steps(*known, words, home@, 0);
    let mut steps: Vec<Step> = Vec::new();
    assert(steps_of(steps@) =~= Seq::<StepOf>::empty());
    assert(steps_of(steps@) + all =~= all);
    for i in 0..arguments.len()
        invariant
            words == texts(arguments@),
            all == include_steps(*known, words, home@, 0),
            all == steps_of(steps@) + include_steps(*known, words, home@, i as int),
    {
        assert(words[i as int] == arguments@[i as int]@);
        let ghost before = steps_of(steps@);
        let ghost first = pattern_steps(*known, named_pattern(words[i as int], home@));
        let pattern = expand_include_path(arguments[i].as_str(), home);
        if collect_pattern_steps(known, pattern, &mut steps) {
            return steps;
        }
        proof {
            let rest = include_steps(*known, words, home@, i + 1);
            assert(before + (first + rest) =~= steps_of(steps@) + rest);
        }
    }
    assert(steps_of(steps@) + Seq::<StepOf>::empty() =~= steps_of(steps@));
    steps
}

// ---------------------------------------------------------------------------
// Opening a file inside others
// ---------------------------------------------------------------------------
/// A file that is walked through inside the files of `stack`: its identity and its lines, or
/// why the walk stops.
pub open spec fn opened(known: SshFiles, path: Seq<char>, stack: Seq<Seq<char>>) -> Result<
    (Seq<char>, Seq<Seq<char>>),
    Stop,
> {
    let index = file_index(known.files@, path);
    if stack.len() >= MAX_INCLUDE_DEPTH {
        Err(
            Stop::Failed(
                seq!["SSH Include nesting exceeds "@ + decimal(MAX_INCLUDE_DEPTH as nat)
                    + " files"@],
            ),
        )
    } else if index >= known.files@.len() {
        Err(Stop::Needs(Need::File(path)))
    } else {
        let identity = known.files@[index].identity@;
        if stack.contains(identity) {
            Err(
                Stop::Failed(
                    seq!["SSH Include cycle detected: "@ + joined(stack.push(identity), " -> "@)],
                ),
            )
        } else {
            match known.files@[index].contents.result() {
                Err(reason) => Err(
                    Stop::Failed(seq!["failed to inspect SSH config "@ + path, reason]),
                ),
                Ok(contents) => Ok((identity, text_lines(contents))),
            }
        }
    }
}

fn open(known: &SshFiles, path: &str, stack: &Vec<String>) -> (r: Result<
    (Vec<String>, Vec<String>),
    SshStop,
>)
    ensures
        (match r {
            Ok((inside, lines)) => opened(*known, path@, texts(stack@)) is Ok && ({
                let (identity, all) = opened(*known, path@, texts(stack@))->Ok_0;
                texts(inside@) == texts(stack@).push(identity) && texts(lines@) == all
            }),
            Err(stop) => opened(*known, path@, texts(stack@)) == Err::<
                (Seq<char>, Seq<Seq<char>>),
                _,
            >(stop.stop()),
        }),
{
    if stack.len() >= MAX_INCLUDE_DEPTH {
        let depth = text::decimal_text(MAX_INCLUDE_DEPTH as u64);
        return Err(
            SshStop::Failed(
                SshConfigError::new(
                    concat3("SSH Include nesting exceeds ", depth.as_str(), " files"),
                ),
            ),
        );
    }
    match known.find_file(path) {
        None => Err(SshStop::Needs(SshNeed::File(path.to_owned()))),
        Some(file) => {
            let mut inside = text::copy_texts(stack);
            inside.push(file.identity.clone());
            assert(texts(inside@) =~= texts(stack@).push(file.identity@));
            if text::contains_text(stack, file.identity.as_str()) {
                let cycle = text::join(&inside, " -> ");
                return Err(
                    SshStop::Failed(
                        SshConfigError::new(
                            concat2("SSH Include cycle detected: ", cycle.as_str()),
                        ),
                    ),
                );
            }
            match file.contents.read() {
                Err(reason) => Err(
                    SshStop::Failed(
                        SshConfigError::caused(
                            concat2("failed to inspect SSH config ", path),
                            reason,
                        ),
                    ),
                ),
                Ok(contents) => {
                    let lines = text::lines(contents);
                    Ok((inside, lines))
                },
            }
        },
    }
}

/// Directive and arguments of a line, without its comment.
pub open spec fn line_directive(line: Seq<char>) -> Option<(Seq<char>, Seq<char>)> {
    directive_of(trimmed(without_comment(line, false, false)))
}

/// A place in a file.
pub open spec fn place(path: Seq<char>, line: int) -> Seq<char> {
    path + ":"@ + decimal((line + 1) as nat)
}

fn write_place(path: &str, line: usize) -> (r: String)
    requires
        line < usize::MAX,
    ensures
        r@ == place(path@, line as int),
{
    let number = text::decimal_text((line + 1) as u64);
    concat3(path, ":", number.as_str())
}

/// What is said of a section that only holds under conditions.
pub open spec fn match_message(path: Seq<char>, line: int) -> Seq<char> {
    "SSH config Match blocks are not supported ("@ + place(path, line) + ")"@
}

fn match_error(path: &str, line: usize) -> (r: SshConfigError)
    requires
        line < usize::MAX,
    ensures
        r.chain() == seq![match_message(path@, line as int)],
{
    let at = write_place(path, line);
    SshConfigError::new(
        concat3("SSH config Match blocks are not supported (", at.as_str(), ")"),
    )
}

// ---------------------------------------------------------------------------
// Forwards
// ---------------------------------------------------------------------------
/// What a walk for forwards has found so far.
#[derive(Debug, Clone, PartialEq, Eq)]
pub struct ForwardScanState {
    /// Whether the lines that follow are about the host.
    pub active: bool,
    /// Whether the host wants no forwards, once that was said.
    pub clear_all_forwardings: Option<bool>,
    pub forwards: Vec<ParsedSshForward>,
}

/// What a walk for forwards has found so far, with texts for strings.
pub ghost struct Found {
    pub active: bool,
    pub clear: Option<bool>,
    pub forwards: Seq<ForwardRequest>,
}

/// The forwards of a list, with texts for strings.
pub open spec fn requests(forwards: Seq<ParsedSshForward>) -> Seq<ForwardRequest> {
    forwards.map_values(|f: ParsedSshForward| f.request())
}

impl ForwardScanState {
    /// What was found, with texts for strings.
    pub open spec fn found(self) -> Found {
        Found {
            active: self.active,
            clear: self.clear_all_forwardings,
            forwards: requests(self.forwards@),
        }
    }
}

/// What a directive that asks for a forward asks for; nothing for any other directive.
pub open spec fn requested(directive: Seq<char>, arguments: Seq<char>) -> Option<
    Result<ForwardRequest, Seq<Seq<char>>>,
> {
    if lowercase(directive) == "dynamicforward"@ {
        Some(read_dynamic_forward(arguments))
    } else if lowercase(directive) == "localforward"@ {
        Some(read_local_forward(arguments))
    } else if lowercase(directive) == "remoteforward"@ {
        Some(read_remote_forward(arguments))
    } else {
        None
    }
}

/// What is found after a line that names no files.
pub open spec fn after_line(
    path: Seq<char>,
    alias: Seq<char>,
    line: int,
    directive: Seq<char>,
    arguments: Seq<char>,
    found: Found,
) -> Result<Found, Stop> {
    if lowercase(directive) == "host"@ {
        match host_matches(arguments, alias) {
            Ok(active) => Ok(Found { active, ..found }),
            Err(chain) => Err(
                Stop::Failed(
                    seq!["invalid Host directive in SSH config "@ + place(path, line)] + chain,
                ),
            ),
        }
    } else if lowercase(directive) == "match"@ {
        Err(Stop::Failed(seq![match_message(path, line)]))
    } else if !found.active {
        Ok(found)
    } else if lowercase(directive) == "clearallforwardings"@ {
        if found.clear is Some {
            Ok(found)
        } else {
            match read_bool(arguments) {
                Ok(value) => Ok(Found { clear: Some(value), ..found }),
                Err(chain) => Err(
                    Stop::Failed(
                        seq!["invalid ClearAllForwardings directive in SSH config "@ + place(
                            path,
                            line,
                        )] + chain,
                    ),
                ),
            }
        }
    } else {
        match requested(directive, arguments) {
            None => Ok(found),
            Some(Ok(forward)) => Ok(Found { forwards: found.forwards.push(forward), ..found }),
            Some(Err(chain)) => Err(
                Stop::Failed(
                    seq!["invalid "@ + directive + " directive in SSH config "@ + place(
                        path,
                        line,
                    )] + chain,
                ),
            ),
        }
    }
}

/// What is found after a file that is walked through inside the files of `stack`.
pub open spec fn forwards_in_file(
    known: SshFiles,
    home: HomePath,
    alias: Seq<char>,
    path: Seq<char>,
    stack: Seq<Seq<char>>,
    found: Found,
) -> Result<Found, Stop>
    decreases MAX_INCLUDE_DEPTH + 1 - stack.len(), 0nat, 0nat, 0nat,
{
    match opened(known, path, stack) {
        Err(stop) => Err(stop),
        Ok((identity, lines)) => forwards_in_lines(
            known,
            home,
            alias,
            path,
            lines,
            0,
            stack.push(identity),
            found,
        ),
    }
}

/// What is found after the lines of a file, from `from` on.
pub open spec fn forwards_in_lines(
    known: SshFiles,
    home: HomePath,
    alias: Seq<char>,
    path: Seq<char>,
    lines: Seq<Seq<char>>,
    from: int,
    stack: Seq<Seq<char>>,
    found: Found,
) -> Result<Found, Stop>
    decreases MAX_INCLUDE_DEPTH + 1 - stack.len(), 1nat, lines.len() - from, 0nat,
{
    if from >= lines.len() || stack.len() > MAX_INCLUDE_DEPTH {
        Ok(found)
    } else {
        let after = match line_directive(lines[from]) {
            None => Ok(found),
            Some((directive, arguments)) => if lowercase(directive) == "include"@ {
                if found.active {
                    forwards_in_steps(
                        known,
                        home,
                        alias,
                        include_steps(known, arguments_of(arguments), home, 0),
                        0,
                        stack,
                        found,
                    )
                } else {
                    Ok(found)
                }
            } else {
                after_line(path, alias, from, directive, arguments, found)
            },
        };
        match after {
            Err(stop) => Err(stop),
            Ok(found) => forwards_in_lines(
                known,
                home,
                alias,
                path,
                lines,
                from + 1,
                stack,
                found,
            ),
        }
    }
}

/// What is found after the files that a line names, from `from` on.
pub open spec fn forwards_in_steps(
    known: SshFiles,
    home: HomePath,
    alias: Seq<char>,
    steps: Seq<StepOf>,
    from: int,
    stack: Seq<Seq<char>>,
    found: Found,
) -> Result<Found, Stop>
    decreases MAX_INCLUDE_DEPTH + 1 - stack.len(), 0nat, 1nat, steps.len() - from,
{
    if from >= steps.len() || stack.len() > MAX_INCLUDE_DEPTH {
        Ok(found)
    } else {
        match steps[from] {
            StepOf::Halt(stop) => Err(stop),
            StepOf::Walk(path) => match forwards_in_file(
                known,
                home,
                alias,
                path,
                stack,
                found,
            ) {
                Err(stop) => Err(stop),
                Ok(found) => forwards_in_steps(known, home, alias, steps, from + 1, stack, found),
            },
        }
    }
}

/// Whether `r` is what a walk for forwards finds.
pub open spec fn finds(
    r: Result<ForwardScanState, SshStop>,
    expected: Result<Found, Stop>,
) -> bool {
    match r {
        Ok(state) => expected == Ok::<_, Stop>(state.found()),
        Err(stop) => expected == Err::<Found, _>(stop.stop()),
    }
}

fn scan_directive(
    path: &str,
    alias: &str,
    line: usize,
    directive: &str,
    arguments: &str,
    state: ForwardScanState,
) -> (r: Result<ForwardScanState, SshStop>)
    requires
        line < usize::MAX,
    ensures
        finds(
            r,
            after_line(path@, alias@, line as int, directive@, arguments@, state.found()),
        ),
{
    let mut state = state;
    if is_directive(directive, "host") {
        return match ssh_syntax::host_patterns_match(arguments, alias) {
            Ok(active) => {
                state.active = active;
                Ok(state)
            },
            Err(error) => {
                let at = write_place(path, line);
                Err(
                    SshStop::Failed(
                        error.under(
                            concat2("invalid Host directive in SSH config ", at.as_str()),
                        ),
                    ),
                )
            },
        };
    }
    if is_directive(directive, "match") {
        return Err(SshStop::Failed(match_error(path, line)));
    }
    if !state.active {
        return Ok(state);
    }
    if is_directive(directive, "clearallforwardings") {
        if state.clear_all_forwardings.is_some() {
            return Ok(state);
        }
        return match ssh_syntax::parse_ssh_bool(arguments) {
            Ok(value) => {
                state.clear_all_forwardings = Some(value);
                Ok(state)
            },
            Err(error) => {
                let at = write_place(path, line);
                Err(
                    SshStop::Failed(
                        error.under(
                            concat2(
                                "invalid ClearAllForwardings directive in SSH config ",
                                at.as_str(),
                            ),
                        ),
                    ),
                )
            },
        };
    }
    let parsed = if is_directive(directive, "dynamicforward") {
        ssh_syntax::parse_dynamic_forward(arguments)
    } else if is_directive(directive, "localforward") {
        ssh_syntax::parse_local_forward(arguments)
    } else if is_directive(directive, "remoteforward") {
        ssh_syntax::parse_remote_forward(arguments)
    } else {
        return Ok(state);
    };
    match parsed {
        Ok(forward) => {
            let ghost before = state.forwards@;
            state.forwards.push(forward);
            assert(requests(state.forwards@) =~= requests(before).push(forward.request()));
            Ok(state)
        },
        Err(error) => {
            let at = write_place(path, line);
            Err(
                SshStop::Failed(
                    error.under(
                        concat4("invalid ", directive, " directive in SSH config ", at.as_str()),
                    ),
                ),
            )
        },
    }
}

/// Walks through a file, inside the files of `stack`, for forwards of the host `alias`.
pub fn scan_ssh_config_forwards(
    known: &SshFiles,
    home: &HomeDirectory,
    alias: &str,
    path: &str,
    stack: &Vec<String>,
    state: ForwardScanState,
) -> (r: Result<ForwardScanState, SshStop>)
    ensures
        finds(
            r,
            forwards_in_file(*known, home@, alias@, path@, texts(stack@), state.found()),
        ),
    decreases MAX_INCLUDE_DEPTH + 1 - stack@.len(), 0nat, 0nat, 0nat,
{
    assert(texts(stack@).len() == stack@.len());
    match open(known, path, stack) {
        Err(stop) => Err(stop),
        Ok((inside, lines)) => {
            assert(texts(inside@).len() == inside@.len());
            scan_forward_lines(known, home, alias, path, &lines, &inside, state)
        },
    }
}

fn scan_forward_lines(
    known: &SshFiles,
    home: &HomeDirectory,
    alias: &str,
    path: &str,
    lines: &Vec<String>,
    stack: &Vec<String>,
    state: ForwardScanState,
) -> (r: Result<ForwardScanState, SshStop>)
    requires
        stack@.len() <= MAX_INCLUDE_DEPTH,
    ensures
        finds(
            r,
            forwards_in_lines(
                *known,
                home@,
                alias@,
                path@,
                texts(lines@),
                0,
                texts(stack@),
                state.found(),
            ),
        ),
    decreases MAX_INCLUDE_DEPTH + 1 - stack@.len(), 1nat, 0nat, 0nat,
{
    let ghost all = texts(lines@);
    let ghost inside = texts(stack@);
    let ghost whole = forwards_in_lines(
        *known,
        home@,
        alias@,
        path@,
        all,
        0,
        inside,
        state.found(),
    );
    let mut reached = state;
    for i in 0..lines.len()
        invariant
            all == texts(lines@),
            all.len() == lines@.len(),
            inside == texts(stack@),
            inside.len() == stack@.len(),
            stack@.len() <= MAX_INCLUDE_DEPTH,
            whole == forwards_in_lines(
                *known,
                home@,
                alias@,
                path@,
                all,
                0,
                inside,
                state.found(),
            ),
            whole == forwards_in_lines(
                *known,
                home@,
                alias@,
                path@,
                all,
                i as int,
                inside,
                reached.found(),
            ),
    {
        assert(all[i as int] == lines@[i as int]@);
        let cleaned = ssh_syntax::strip_config_comment(lines[i].as_str());
        let line = text::trim(cleaned.as_str());
        let after = match ssh_syntax::split_config_directive(line) {
            None => Ok(reached),
            Some((directive, arguments)) => if is_directive(directive, "include") {
                if reached.active {
                    let words = ssh_syntax::split_config_arguments(arguments);
                    let steps = collect_steps(known, &words, home);
                    scan_forward_steps(known, home, alias, &steps, stack, reached)
                } else {
                    Ok(reached)
                }
            } else {
                scan_directive(path, alias, i, directive, arguments, reached)
            },
        };
        match after {
            Err(stop) => {
                return Err(stop);
            },
            Ok(now) => {
                reached = now;
            },
        }
    }
    Ok(reached)
}

fn scan_forward_steps(
    known: &SshFiles,
    home: &HomeDirectory,
    alias: &str,
    steps: &Vec<Step>,
    stack: &Vec<String>,
    state: ForwardScanState,
) -> (r: Result<ForwardScanState, SshStop>)
    requires
        stack@.len() <= MAX_INCLUDE_DEPTH,
    ensures
        finds(
            r,
            forwards_in_steps(
                *known,
                home@,
                alias@,
                steps_of(steps@),
                0,
                texts(stack@),
                state.found(),
            ),
        ),
    decreases MAX_INCLUDE_DEPTH + 1 - stack@.len(), 0nat, 1nat, 0nat,
{
    let ghost all = steps_of(steps@);
    let ghost inside = texts(stack@);
    let ghost whole = forwards_in_steps(
        *known,
        home@,
        alias@,
        all,
        0,
        inside,
        state.found(),
    );
    let mut reached = state;
    for i in 0..steps.len()
        invariant
            all == steps_of(steps@),
            all.len() == steps@.len(),
            inside == texts(stack@),
            inside.len() == stack@.len(),
            stack@.len() <= MAX_INCLUDE_DEPTH,
            whole == forwards_in_steps(
                *known,
                home@,
                alias@,
                all,
                0,
                inside,
                state.found(),
            ),
            whole == forwards_in_steps(
                *known,
                home@,
                alias@,
                all,
                i as int,
                inside,
                reached.found(),
            ),
    {
        assert(all[i as int] == steps@[i as int].step());
        match &steps[i] {
            Step::Halt(stop) => {
                return Err(copy_stop(stop));
            },
            Step::Walk(path) => match scan_ssh_config_forwards(
                known,
                home,
                alias,
                path.as_str(),
                stack,
                reached,
            ) {
                Err(stop) => {
                    return Err(stop);
                },
                Ok(now) => {
                    reached = now;
                },
            },
        }
    }
    Ok(reached)
}

fn copy_stop(stop: &SshStop) -> (r: SshStop)
    ensures
        r.stop() == stop.stop(),
{
    match stop {
        SshStop::Failed(error) => SshStop::Failed(
            SshConfigError { messages: text::copy_texts(&error.messages) },
        ),
        SshStop::Needs(SshNeed::File(path)) => SshStop::Needs(SshNeed::File(path.clone())),
        SshStop::Needs(SshNeed::Pattern(pattern)) => SshStop::Needs(
            SshNeed::Pattern(pattern.clone()),
        ),
    }
}

// ---------------------------------------------------------------------------
// Sections that only hold under conditions
// ---------------------------------------------------------------------------
/// How many files of a list have not been visited.
pub open spec fn unvisited(files: Seq<SshFile>, visited: Seq<Seq<char>>) -> nat
    decreases files.len(),
{
    if files.len() == 0 {
        0
    } else {
        let rest = unvisited(files.drop_last(), visited);
        if visited.contains(files.last().identity@) {
            rest
        } else {
            rest + 1
        }
    }
}

/// To visit a file leaves fewer to visit.
pub proof fn lemma_visit(files: Seq<SshFile>, visited: Seq<Seq<char>>, index: int)
    requires
        !visited.contains(files[index].identity@),
    ensures
        unvisited(files, visited.push(files[index].identity@)) <= unvisited(files, visited),
        0 <= index < files.len() ==> unvisited(files, visited.push(files[index].identity@))
            < unvisited(files, visited),
    decreases files.len(),
{
    let identity = files[index].identity@;
    lemma_visit_any(files, visited, identity);
    if 0 <= index < files.len() {
        let next = visited.push(identity);
        assert(next[visited.len() as int] == identity);
        let rest = files.drop_last();
        if index == files.len() - 1 {
            lemma_visit_any(rest, visited, identity);
        } else {
            assert(rest[index] == files[index]);
            lemma_visit(rest, visited, index);
            if visited.contains(files.last().identity@) {
                let k = visited.index_of(files.last().identity@);
                assert(next[k] == files.last().identity@);
            }
        }
    }
}

proof fn lemma_visit_any(files: Seq<SshFile>, visited: Seq<Seq<char>>, identity: Seq<char>)
    ensures
        unvisited(files, visited.push(identity)) <= unvisited(files, visited),
    decreases files.len(),
{
    if files.len() > 0 {
        lemma_visit_any(files.drop_last(), visited, identity);
        if visited.contains(files.last().identity@) {
            let k = visited.index_of(files.last().identity@);
            assert(visited.push(identity)[k] == files.last().identity@);
        }
    }
}

/// The files that are visited once a file was walked through, or why the walk stops.
pub open spec fn matches_in_file(
    known: SshFiles,
    home: HomePath,
    path: Seq<char>,
    visited: Seq<Seq<char>>,
) -> Result<Seq<Seq<char>>, Stop>
    decreases unvisited(known.files@, visited), 0nat, 0nat, 0nat,
{
    let index = file_index(known.files@, path);
    if index < 0 || index >= known.files@.len() {
        Err(Stop::Needs(Need::File(path)))
    } else {
        let identity = known.files@[index].identity@;
        if visited.contains(identity) {
            Ok(visited)
        } else {
            proof {
                lemma_visit(known.files@, visited, index);
            }
            match known.files@[index].contents.result() {
                Err(reason) => Err(
                    Stop::Failed(seq!["failed to inspect SSH config "@ + path, reason]),
                ),
                Ok(contents) => matches_in_lines(
                    known,
                    home,
                    path,
                    text_lines(contents),
                    0,
                    visited.push(identity),
                ),
            }
        }
    }
}

/// The files that are visited once the lines of a file, from `from` on, were walked through.
pub open spec fn matches_in_lines(
    known: SshFiles,
    home: HomePath,
    path: Seq<char>,
    lines: Seq<Seq<char>>,
    from: int,
    visited: Seq<Seq<char>>,
) -> Result<Seq<Seq<char>>, Stop>
    decreases unvisited(known.files@, visited), 1nat, lines.len() - from, 0nat,
{
    if from >= lines.len() {
        Ok(visited)
    } else {
        let after = match line_directive(lines[from]) {
            None => Ok(visited),
            Some((directive, arguments)) => if lowercase(directive) == "match"@ {
                Err(Stop::Failed(seq![match_message(path, from)]))
            } else if lowercase(directive) == "include"@ {
                matches_in_steps(
                    known,
                    home,
                    include_steps(known, arguments_of(arguments), home, 0),
                    0,
                    visited,
                )
            } else {
                Ok(visited)
            },
        };
        match after {
            Err(stop) => Err(stop),
            Ok(now) => if unvisited(known.files@, now) > unvisited(known.files@, visited) {
                Ok(now)
            } else {
                matches_in_lines(known, home, path, lines, from + 1, now)
            },
        }
    }
}

/// The files that are visited once the files that a line names, from `from` on, were walked
/// through.
pub open spec fn matches_in_steps(
    known: SshFiles,
    home: HomePath,
    steps: Seq<StepOf>,
    from: int,
    visited: Seq<Seq<char>>,
) -> Result<Seq<Seq<char>>, Stop>
    decreases unvisited(known.files@, visited), 0nat, 1nat, steps.len() - from,
{
    if from >= steps.len() {
        Ok(visited)
    } else {
        match steps[from] {
            StepOf::Halt(stop) => Err(stop),
            StepOf::Walk(path) => match matches_in_file(known, home, path, visited) {
                Err(stop) => Err(stop),
                Ok(now) => if unvisited(known.files@, now) > unvisited(known.files@, visited) {
                    Ok(now)
                } else {
                    matches_in_steps(known, home, steps, from + 1, now)
                },
            },
        }
    }
}

/// Whether `r` is how a walk ends that began with `before` visited.
pub open spec fn visits(
    r: Result<Vec<String>, SshStop>,
    expected: Result<Seq<Seq<char>>, Stop>,
    files: Seq<SshFile>,
    before: Seq<Seq<char>>,
) -> bool {
    match r {
        Ok(visited) => expected == Ok::<_, Stop>(texts(visited@)) && unvisited(
            files,
            texts(visited@),
        ) <= unvisited(files, before),
        Err(stop) => expected == Err::<Seq<Seq<char>>, _>(stop.stop()),
    }
}

fn scan_ssh_config(
    known: &SshFiles,
    home: &HomeDirectory,
    path: &str,
    visited: Vec<String>,
) -> (r: Result<Vec<String>, SshStop>)
    ensures
        visits(
            r,
            matches_in_file(*known, home@, path@, texts(visited@)),
            known.files@,
            texts(visited@),
        ),
    decreases unvisited(known.files@, texts(visited@)), 0nat, 0nat, 0nat,
{
    proof {
        lemma_file_index(known.files@, path@);
    }
    match known.find_file(path) {
        None => Err(SshStop::Needs(SshNeed::File(path.to_owned()))),
        Some(file) => {
            if text::contains_text(&visited, file.identity.as_str()) {
                return Ok(visited);
            }
            proof {
                lemma_visit(
                    known.files@,
                    texts(visited@),
                    file_index(known.files@, path@),
                );
            }
            match file.contents.read() {
                Err(reason) => Err(
                    SshStop::Failed(
                        SshConfigError::caused(
                            concat2("failed to inspect SSH config ", path),
                            reason,
                        ),
                    ),
                ),
                Ok(contents) => {
                    let lines = text::lines(contents);
                    let ghost before = visited@;
                    let mut visited = visited;
                    visited.push(file.identity.clone());
                    assert(texts(visited@) =~= texts(before).push(file.identity@));
                    scan_match_lines(known, home, path, &lines, visited)
                },
            }
        },
    }
}

fn scan_match_lines(
    known: &SshFiles,
    home: &HomeDirectory,
    path: &str,
    lines: &Vec<String>,
    visited: Vec<String>,
) -> (r: Result<Vec<String>, SshStop>)
    ensures
        visits(
            r,
            matches_in_lines(*known, home@, path@, texts(lines@), 0, texts(visited@)),
            known.files@,
            texts(visited@),
        ),
    decreases unvisited(known.files@, texts(visited@)), 1nat, 0nat, 0nat,
{
    let ghost all = texts(lines@);
    let ghost start = texts(visited@);
    let ghost whole = matches_in_lines(*known, home@, path@, all, 0, start);
    let mut seen = visited;
    for i in 0..lines.len()
        invariant
            all == texts(lines@),
            all.len() == lines@.len(),
            start == texts(visited@),
            unvisited(known.files@, texts(seen@)) <= unvisited(known.files@, start),
            whole == matches_in_lines(*known, home@, path@, all, 0, start),
            whole == matches_in_lines(*known, home@, path@, all, i as int, texts(seen@)),
    {
        assert(all[i as int] == lines@[i as int]@);
        let cleaned = ssh_syntax::strip_config_comment(lines[i].as_str());
        let line = text::trim(cleaned.as_str());
        let after = match ssh_syntax::split_config_directive(line) {
            None => Ok(seen),
            Some((directive, arguments)) => if is_directive(directive, "match") {
                Err(SshStop::Failed(match_error(path, i)))
            } else if is_directive(directive, "include") {
                let words = ssh_syntax::split_config_arguments(arguments);
                let steps = collect_steps(known, &words, home);
                scan_match_steps(known, home, &steps, seen)
            } else {
                Ok(seen)
            },
        };
        match after {
            Err(stop) => {
                return Err(stop);
            },
            Ok(now) => {
                seen = now;
            },
        }
    }
    Ok(seen)
}

fn scan_match_steps(
    known: &SshFiles,
    home: &HomeDirectory,
    steps: &Vec<Step>,
    visited: Vec<String>,
) -> (r: Result<Vec<String>, SshStop>)
    ensures
        visits(
            r,
            matches_in_steps(*known, home@, steps_of(steps@), 0, texts(visited@)),
            known.files@,
            texts(visited@),
        ),
    decreases unvisited(known.files@, texts(visited@)), 0nat, 1nat, 0nat,
{
    let ghost all = steps_of(steps@);
    let ghost start = texts(visited@);
    let ghost whole = matches_in_steps(*known, home@, all, 0, start);
    let mut seen = visited;
    for i in 0..steps.len()
        invariant
            all == steps_of(steps@),
            all.len() == steps@.len(),
            start == texts(visited@),
            unvisited(known.files@, texts(seen@)) <= unvisited(known.files@, start),
            whole == matches_in_steps(*known, home@, all, 0, start),
            whole == matches_in_steps(*known, home@, all, i as int, texts(seen@)),
    {
        assert(all[i as int] == steps@[i as int].step());
        match &steps[i] {
            Step::Halt(stop) => {
                return Err(copy_stop(stop));
            },
            Step::Walk(path) => match scan_ssh_config(known, home, path.as_str(), seen) {
                Err(stop) => {
                    return Err(stop);
                },
                Ok(now) => {
                    seen = now;
                },
            },
        }
    }
    Ok(seen)
}

/// Why a file, with the files that it names, is refused; nothing where no section of it only
/// holds under conditions.
pub open spec fn match_refusal(known: SshFiles, home: HomePath, path: Seq<char>) -> Option<Stop> {
    match matches_in_file(known, home, path, Seq::empty()) {
        Ok(_) => None,
        Err(stop) => Some(stop),
    }
}

/// Refuses a file with sections that only hold under conditions.
pub fn reject_match_directives(known: &SshFiles, home: &HomeDirectory, path: &str) -> (r: Result<(), SshStop>)
    ensures
        (match r {
            Ok(_) => match_refusal(*known, home@, path@) is None,
            Err(stop) => match_refusal(*known, home@, path@) == Some(stop.stop()),
        }),
{
    let visited: Vec<String> = Vec::new();
    assert(texts(visited@) =~= Seq::<Seq<char>>::empty());
    match scan_ssh_config(known, home, path, visited) {
        Ok(_) => Ok(()),
        Err(stop) => Err(stop),
    }
}

// ---------------------------------------------------------------------------
// The order of paths
// ---------------------------------------------------------------------------
/// Which parts come first: the directory itself, then the one above it, then names.
pub open spec fn part_rank(part: Seq<char>) -> int {
    if part == "."@ {
        0
    } else if part == ".."@ {
        1
    } else {
        2
    }
}

/// Whether a part comes before another.
pub open spec fn part_before(a: Seq<char>, b: Seq<char>) -> bool {
    part_rank(a) < part_rank(b) || (part_rank(a) == part_rank(b) && text::text_before(a, b))
}

/// Whether parts, from `from` on, come before others.
pub open spec fn parts_before(a: Seq<Seq<char>>, b: Seq<Seq<char>>, from: int) -> bool
    decreases b.len() - from,
{
    if from >= b.len() {
        false
    } else if from >= a.len() {
        true
    } else if a[from] == b[from] {
        parts_before(a, b, from + 1)
    } else {
        part_before(a[from], b[from])
    }
}

/// Whether a prefix of a path comes before another.
pub open spec fn prefix_before(a: PrefixOf, b: PrefixOf) -> bool {
    if a.kind != b.kind {
        a.kind.rank() < b.kind.rank()
    } else if a.first != b.first {
        text::text_before(a.first, b.first)
    } else {
        text::text_before(a.second, b.second)
    }
}

/// Whether prefixes are the same but for how they are written.
pub open spec fn same_prefix(a: PrefixOf, b: PrefixOf) -> bool {
    a.kind == b.kind && a.first == b.first && a.second == b.second
}

/// Whether a root stands between the prefix of a path and its parts, written or not.
pub open spec fn shows_root(style: PathStyle, path: Seq<char>) -> bool {
    writes_root(style, path) || (prefix_of(style, path) matches Some(prefix) && (prefix.kind
        == PrefixKind::Device || prefix.kind == PrefixKind::Share))
}

/// Whether what follows the prefix of a path comes before what follows that of another: paths
/// from a root first, and part by part.
pub open spec fn rest_before(style: PathStyle, a: Seq<char>, b: Seq<char>) -> bool {
    if shows_root(style, a) == shows_root(style, b) {
        parts_before(path_parts(style, a), path_parts(style, b), 0)
    } else if shows_root(style, a) {
        path_parts(style, b).len() > 0
    } else {
        path_parts(style, a).len() == 0
    }
}

/// Whether a path comes before another: those with a prefix first.
pub open spec fn path_before(style: PathStyle, a: Seq<char>, b: Seq<char>) -> bool {
    match (prefix_of(style, a), prefix_of(style, b)) {
        (Some(x), Some(y)) => if same_prefix(x, y) {
            rest_before(style, a, b)
        } else {
            prefix_before(x, y)
        },
        (Some(_), None) => true,
        (None, Some(_)) => false,
        (None, None) => rest_before(style, a, b),
    }
}

/// A sorted list with one more path, behind those that do not come after it.
pub open spec fn with_path(style: PathStyle, sorted: Seq<Seq<char>>, path: Seq<char>) -> Seq<
    Seq<char>,
>
    decreases sorted.len(),
{
    if sorted.len() > 0 && path_before(style, path, sorted.last()) {
        with_path(style, sorted.drop_last(), path).push(sorted.last())
    } else {
        sorted.push(path)
    }
}

/// The paths of a list in order.
pub open spec fn sorted_paths(style: PathStyle, list: Seq<Seq<char>>) -> Seq<Seq<char>>
    decreases list.len(),
{
    if list.len() == 0 {
        Seq::empty()
    } else {
        with_path(style, sorted_paths(style, list.drop_last()), list.last())
    }
}

fn rank_of_part(part: &str) -> (r: u8)
    ensures
        r == part_rank(part@),
{
    if text::same_text(part, ".") {
        0
    } else if text::same_text(part, "..") {
        1
    } else {
        2
    }
}

fn is_part_before(a: &str, b: &str) -> (r: bool)
    ensures
        r == part_before(a@, b@),
{
    let first = rank_of_part(a);
    let second = rank_of_part(b);
    first < second || (first == second && text::is_before(a, b))
}

fn is_prefix_before(a: &PathPrefix, b: &PathPrefix) -> (r: bool)
    ensures
        r == prefix_before(a.prefix(), b.prefix()),
{
    if a.kind != b.kind {
        a.kind.rank() < b.kind.rank()
    } else if !text::same_text(a.first.as_str(), b.first.as_str()) {
        text::is_before(a.first.as_str(), b.first.as_str())
    } else {
        text::is_before(a.second.as_str(), b.second.as_str())
    }
}

fn is_same_prefix(a: &PathPrefix, b: &PathPrefix) -> (r: bool)
    ensures
        r == same_prefix(a.prefix(), b.prefix()),
{
    a.kind == b.kind && text::same_text(a.first.as_str(), b.first.as_str()) && text::same_text(
        a.second.as_str(),
        b.second.as_str(),
    )
}

fn has_shown_root(style: PathStyle, path: &str) -> (r: bool)
    ensures
        r == shows_root(style, path@),
{
    paths::has_written_root(style, path) || match paths::read_prefix(style, path) {
        Some(prefix) => prefix.kind == PrefixKind::Device || prefix.kind == PrefixKind::Share,
        None => false,
    }
}

fn is_rest_before(style: PathStyle, a: &str, b: &str) -> (r: bool)
    ensures
        r == rest_before(style, a@, b@),
{
    let first = paths::split_path(style, a);
    let second = paths::split_path(style, b);
    let ghost first_parts = texts(first@);
    let ghost second_parts = texts(second@);
    assert(first_parts.len() == first@.len());
    assert(second_parts.len() == second@.len());
    let rooted = has_shown_root(style, a);
    if rooted != has_shown_root(style, b) {
        return if rooted {
            second.len() > 0
        } else {
            first.len() == 0
        };
    }
    for i in 0..second.len()
        invariant
            first_parts == texts(first@),
            second_parts == texts(second@),
            first_parts.len() == first@.len(),
            second_parts.len() == second@.len(),
            rest_before(style, a@, b@) == parts_before(first_parts, second_parts, 0),
            parts_before(first_parts, second_parts, 0) == parts_before(
                first_parts,
                second_parts,
                i as int,
            ),
    {
        assert(second_parts[i as int] == second@[i as int]@);
        if i >= first.len() {
            return true;
        }
        assert(first_parts[i as int] == first@[i as int]@);
        if !text::same_text(first[i].as_str(), second[i].as_str()) {
            return is_part_before(first[i].as_str(), second[i].as_str());
        }
    }
    false
}

fn is_path_before(style: PathStyle, a: &str, b: &str) -> (r: bool)
    ensures
        r == path_before(style, a@, b@),
{
    match (paths::read_prefix(style, a), paths::read_prefix(style, b)) {
        (Some(x), Some(y)) => if is_same_prefix(&x, &y) {
            is_rest_before(style, a, b)
        } else {
            is_prefix_before(&x, &y)
        },
        (Some(_), None) => true,
        (None, Some(_)) => false,
        (None, None) => is_rest_before(style, a, b),
    }
}

fn insert_path(style: PathStyle, sorted: &mut Vec<String>, path: String)
    ensures
        texts(final(sorted)@) == with_path(style, texts(old(sorted)@), path@),
{
    let ghost start = sorted@;
    let ghost all = texts(start);
    let mut i: usize = sorted.len();
    assert(all.take(i as int) =~= all);
    assert(with_path(style, all, path@) + all.skip(i as int) =~= with_path(style, all, path@));
    while i > 0 && is_path_before(style, path.as_str(), sorted[i - 1].as_str())
        invariant
            i <= sorted@.len(),
            sorted@ == start,
            all == texts(start),
            with_path(style, all, path@) == with_path(style, all.take(i as int), path@) + all.skip(i as int),
        decreases i,
    {
        let ghost here = all.take(i as int);
        assert(here.last() == start[i - 1]@);
        assert(here.drop_last() == all.take(i - 1));
        assert(with_path(style, here.drop_last(), path@).push(here.last()) + all.skip(i as int)
            =~= with_path(style, all.take(i - 1), path@) + all.skip(i - 1));
        i = i - 1;
    }
    proof {
        let here = all.take(i as int);
        if i > 0 {
            assert(here.last() == start[i - 1]@);
        }
        assert(with_path(style, here, path@) == here.push(path@));
    }
    sorted.insert(i, path);
    assert(texts(sorted@) =~= all.take(i as int).push(path@) + all.skip(i as int));
}

fn sort_paths(style: PathStyle, list: &Vec<String>) -> (r: Vec<String>)
    ensures
        texts(r@) == sorted_paths(style, texts(list@)),
{
    let ghost all = texts(list@);
    let mut r: Vec<String> = Vec::new();
    assert(texts(r@) =~= Seq::<Seq<char>>::empty());
    for i in 0..list.len()
        invariant
            all == texts(list@),
            texts(r@) == sorted_paths(style, all.take(i as int)),
    {
        assert(all.take(i + 1).drop_last() == all.take(i as int));
        assert(all.take(i + 1).last() == list@[i as int]@);
        insert_path(style, &mut r, list[i].clone());
    }
    assert(all.take(all.len() as int) == all);
    r
}

proof fn lemma_with_path(style: PathStyle, sorted: Seq<Seq<char>>, path: Seq<char>)
    ensures
        with_path(style, sorted, path).to_multiset() == sorted.to_multiset().insert(path),
    decreases sorted.len(),
{
    broadcast use vstd::seq_lib::group_to_multiset_ensures;

    if sorted.len() > 0 && path_before(style, path, sorted.last()) {
        lemma_with_path(style, sorted.drop_last(), path);
        assert(sorted.drop_last().push(sorted.last()) =~= sorted);
        assert(sorted.drop_last().to_multiset().insert(path).insert(sorted.last())
            =~= sorted.drop_last().to_multiset().insert(sorted.last()).insert(path));
    }
}

/// Sorting drops no path and adds none.
pub proof fn sorting_keeps_the_paths(style: PathStyle, list: Seq<Seq<char>>)
    ensures
        sorted_paths(style, list).to_multiset() == list.to_multiset(),
    decreases list.len(),
{
    broadcast use vstd::seq_lib::group_to_multiset_ensures;

    if list.len() > 0 {
        sorting_keeps_the_paths(style, list.drop_last());
        lemma_with_path(style, sorted_paths(style, list.drop_last()), list.last());
        assert(list.drop_last().push(list.last()) =~= list);
    } else {
        assert(sorted_paths(style, list) =~= list);
    }
}

// ---------------------------------------------------------------------------
// What connections are configured by
// ---------------------------------------------------------------------------
/// The first path of a pattern that cannot be looked at.
pub open spec fn first_unseen(paths: Seq<Result<String, String>>, from: int) -> Option<Seq<char>>
    decreases paths.len() - from,
{
    if from >= paths.len() {
        None
    } else {
        match paths[from] {
            Ok(_) => first_unseen(paths, from + 1),
            Err(reason) => Some(reason@),
        }
    }
}

/// The paths that can be looked at.
pub open spec fn seen_paths(paths: Seq<Result<String, String>>) -> Seq<Seq<char>>
    decreases paths.len(),
{
    if paths.len() == 0 {
        Seq::empty()
    } else {
        let before = seen_paths(paths.drop_last());
        match paths.last() {
            Ok(path) => before.push(path@),
            Err(_) => before,
        }
    }
}

/// The files of a pattern in order; a pattern with a path that cannot be looked at has none.
pub open spec fn ordered_steps(known: SshFiles, style: PathStyle, pattern: Seq<char>) -> Seq<StepOf> {
    let index = pattern_index(known.patterns@, pattern);
    if index >= known.patterns@.len() {
        seq![StepOf::Halt(Stop::Needs(Need::Pattern(pattern)))]
    } else {
        match known.patterns@[index].paths {
            Err(reason) => seq![
                StepOf::Halt(
                    Stop::Failed(seq!["invalid SSH Include pattern "@ + pattern, reason@]),
                ),
            ],
            Ok(paths) => match first_unseen(paths@, 0) {
                Some(reason) => seq![
                    StepOf::Halt(
                        Stop::Failed(
                            seq!["failed to resolve SSH Include pattern "@ + pattern, reason],
                        ),
                    ),
                ],
                None => sorted_paths(style, seen_paths(paths@)).map_values(
                    |path: Seq<char>| StepOf::Walk(path),
                ),
            },
        }
    }
}

/// The files, in order, for the arguments of a line that names files, from `from` on.
pub open spec fn source_steps(
    known: SshFiles,
    arguments: Seq<Seq<char>>,
    home: HomePath,
    from: int,
) -> Seq<StepOf>
    decreases arguments.len() - from,
{
    if from >= arguments.len() {
        Seq::empty()
    } else {
        let first = ordered_steps(known, home.style, named_pattern(arguments[from], home));
        if halts(first) {
            first
        } else {
            first + source_steps(known, arguments, home, from + 1)
        }
    }
}

/// A line that opens the section which a line stood in: the section's own first line, or one
/// that is about all hosts.
pub open spec fn section_line(section: Option<Seq<char>>) -> Seq<char> {
    match section {
        Some(line) => line,
        None => "Host *"@,
    }
}

/// What a file, with the files that it names in place of the lines that name them, holds but
/// for forwards. `section` is the line that opened the section in which the file is named.
pub open spec fn source_in_file(
    known: SshFiles,
    home: HomePath,
    path: Seq<char>,
    stack: Seq<Seq<char>>,
    section: Option<Seq<char>>,
) -> Result<Seq<char>, Stop>
    decreases MAX_INCLUDE_DEPTH + 1 - stack.len(), 0nat, 0nat, 0nat,
{
    match opened(known, path, stack) {
        Err(stop) => Err(stop),
        Ok((identity, lines)) => source_in_lines(
            known,
            home,
            path,
            lines,
            0,
            stack.push(identity),
            section,
        ),
    }
}

/// What the lines of a file, from `from` on, hold.
pub open spec fn source_in_lines(
    known: SshFiles,
    home: HomePath,
    path: Seq<char>,
    lines: Seq<Seq<char>>,
    from: int,
    stack: Seq<Seq<char>>,
    section: Option<Seq<char>>,
) -> Result<Seq<char>, Stop>
    decreases MAX_INCLUDE_DEPTH + 1 - stack.len(), 1nat, lines.len() - from, 0nat,
{
    if from >= lines.len() || stack.len() > MAX_INCLUDE_DEPTH {
        Ok(Seq::empty())
    } else {
        let line = lines[from];
        let now = match line_directive(line) {
            Some((directive, _)) => if lowercase(directive) == "host"@ {
                Some(line)
            } else {
                section
            },
            None => section,
        };
        let here = match line_directive(line) {
            None => Ok(line.push('\n')),
            Some((directive, arguments)) => if lowercase(directive) == "include"@ {
                if arguments_of(arguments).len() == 0 {
                    Err(
                        Stop::Failed(
                            seq!["invalid Include directive in SSH config "@ + place(path, from)
                                + ": missing path"@],
                        ),
                    )
                } else {
                    source_in_steps(
                        known,
                        home,
                        source_steps(known, arguments_of(arguments), home, 0),
                        0,
                        stack,
                        now,
                    )
                }
            } else if is_about_forwards(directive) {
                Ok(seq!['\n'])
            } else {
                Ok(line.push('\n'))
            },
        };
        match here {
            Err(stop) => Err(stop),
            Ok(text) => match source_in_lines(known, home, path, lines, from + 1, stack, now) {
                Err(stop) => Err(stop),
                Ok(rest) => Ok(text + rest),
            },
        }
    }
}

/// What the files that a line names, from `from` on, hold. Behind each of them the section
/// that the line stands in is opened again.
pub open spec fn source_in_steps(
    known: SshFiles,
    home: HomePath,
    steps: Seq<StepOf>,
    from: int,
    stack: Seq<Seq<char>>,
    section: Option<Seq<char>>,
) -> Result<Seq<char>, Stop>
    decreases MAX_INCLUDE_DEPTH + 1 - stack.len(), 0nat, 1nat, steps.len() - from,
{
    if from >= steps.len() || stack.len() > MAX_INCLUDE_DEPTH {
        Ok(Seq::empty())
    } else {
        match steps[from] {
            StepOf::Halt(stop) => Err(stop),
            StepOf::Walk(path) => match source_in_file(known, home, path, stack, section) {
                Err(stop) => Err(stop),
                Ok(text) => match source_in_steps(
                    known,
                    home,
                    steps,
                    from + 1,
                    stack,
                    section,
                ) {
                    Err(stop) => Err(stop),
                    Ok(rest) => Ok(text + section_line(section).push('\n') + rest),
                },
            },
        }
    }
}

fn find_unseen<'a>(paths: &'a Vec<Result<String, String>>) -> (r: Option<&'a str>)
    ensures
        (match r {
            Some(reason) => first_unseen(paths@, 0) == Some(reason@),
            None => first_unseen(paths@, 0) is None,
        }),
{
    for i in 0..paths.len()
        invariant
            first_unseen(paths@, 0) == first_unseen(paths@, i as int),
    {
        match &paths[i] {
            Ok(_) => {},
            Err(reason) => {
                return Some(reason.as_str());
            },
        }
    }
    None
}

fn collect_seen(paths: &Vec<Result<String, String>>) -> (r: Vec<String>)
    ensures
        texts(r@) == seen_paths(paths@),
{
    let mut r: Vec<String> = Vec::new();
    assert(texts(r@) =~= Seq::<Seq<char>>::empty());
    for i in 0..paths.len()
        invariant
            texts(r@) == seen_paths(paths@.take(i as int)),
    {
        assert(paths@.take(i + 1).drop_last() == paths@.take(i as int));
        let ghost before = r@;
        match &paths[i] {
            Ok(path) => {
                r.push(path.clone());
                assert(texts(r@) =~= texts(before).push(path@));
            },
            Err(_) => {},
        }
    }
    assert(paths@.take(paths@.len() as int) == paths@);
    r
}

fn push_walks(list: &Vec<String>, steps: &mut Vec<Step>)
    ensures
        steps_of(final(steps)@) == steps_of(old(steps)@) + texts(list@).map_values(
            |path: Seq<char>| StepOf::Walk(path),
        ),
{
    let ghost start = steps_of(steps@);
    let ghost walks = texts(list@).map_values(|path: Seq<char>| StepOf::Walk(path));
    assert(start + walks.take(0) =~= start);
    for i in 0..list.len()
        invariant
            start == steps_of(old(steps)@),
            walks == texts(list@).map_values(|path: Seq<char>| StepOf::Walk(path)),
            walks.len() == list@.len(),
            steps_of(steps@) == start + walks.take(i as int),
    {
        let ghost here = steps_of(steps@);
        assert(walks[i as int] == StepOf::Walk(list@[i as int]@));
        steps.push(Step::Walk(list[i].clone()));
        assert(steps_of(steps@) =~= here.push(walks[i as int]));
        assert(start + walks.take(i + 1) =~= here.push(walks[i as int]));
    }
    assert(walks.take(walks.len() as int) =~= walks);
}

fn collect_ordered_steps(
    known: &SshFiles,
    style: PathStyle,
    pattern: String,
    steps: &mut Vec<Step>,
) -> (halted: bool)
    ensures
        steps_of(final(steps)@) == steps_of(old(steps)@) + ordered_steps(*known, style, pattern@),
        halted == halts(ordered_steps(*known, style, pattern@)),
{
    let ghost start = steps@;
    match known.find_pattern(pattern.as_str()) {
        None => {
            steps.push(Step::Halt(SshStop::Needs(SshNeed::Pattern(pattern))));
            assert(steps_of(steps@) =~= steps_of(start) + ordered_steps(*known, style, pattern@));
            true
        },
        Some(found) => match &found.paths {
            Err(reason) => {
                let error = SshConfigError::caused(
                    concat2("invalid SSH Include pattern ", pattern.as_str()),
                    reason.as_str(),
                );
                steps.push(Step::Halt(SshStop::Failed(error)));
                assert(steps_of(steps@) =~= steps_of(start) + ordered_steps(*known, style, pattern@));
                true
            },
            Ok(paths) => match find_unseen(paths) {
                Some(reason) => {
                    let error = SshConfigError::caused(
                        concat2("failed to resolve SSH Include pattern ", pattern.as_str()),
                        reason,
                    );
                    steps.push(Step::Halt(SshStop::Failed(error)));
                    assert(steps_of(steps@) =~= steps_of(start) + ordered_steps(
                        *known,
                        style,
                        pattern@,
                    ));
                    true
                },
                None => {
                    let seen = collect_seen(paths);
                    let sorted = sort_paths(style, &seen);
                    push_walks(&sorted, steps);
                    false
                },
            },
        },
    }
}

fn collect_source_steps(known: &SshFiles, arguments: &Vec<String>, home: &HomeDirectory) -> (r: Vec<Step>)
    ensures
        steps_of(r@) == source_steps(*known, texts(arguments@), home@, 0),
{
    let ghost words = texts(arguments@);
    let ghost all = source_steps(*known, words, home@, 0);
    let mut steps: Vec<Step> = Vec::new();
    assert(steps_of(steps@) =~= Seq::<StepOf>::empty());
    assert(steps_of(steps@) + all =~= all);
    for i in 0..arguments.len()
        invariant
            words == texts(arguments@),
            all == source_steps(*known, words, home@, 0),
            all == steps_of(steps@) + source_steps(*known, words, home@, i as int),
    {
        assert(words[i as int] == arguments@[i as int]@);
        let ghost before = steps_of(steps@);
        let ghost first = ordered_steps(*known, home@.style, named_pattern(words[i as int], home@));
        let pattern = expand_include_path(arguments[i].as_str(), home);
        if collect_ordered_steps(known, home.style, pattern, &mut steps) {
            return steps;
        }
        proof {
            let rest = source_steps(*known, words, home@, i + 1);
            assert(before + (first + rest) =~= steps_of(steps@) + rest);
        }
    }
    assert(steps_of(steps@) + Seq::<StepOf>::empty() =~= steps_of(steps@));
    steps
}

/// Whether `r` is `source` with what a walk appends to it.
pub open spec fn appends(
    r: Result<String, SshStop>,
    source: Seq<char>,
    expected: Result<Seq<char>, Stop>,
) -> bool {
    match r {
        Ok(text) => expected is Ok && text@ == source + expected->Ok_0,
        Err(stop) => expected == Err::<Seq<char>, _>(stop.stop()),
    }
}

/// The line that opened a section.
pub open spec fn section_of(section: Option<&str>) -> Option<Seq<char>> {
    match section {
        Some(line) => Some(line@),
        None => None,
    }
}

fn append_connection_ssh_config(
    known: &SshFiles,
    home: &HomeDirectory,
    path: &str,
    stack: &Vec<String>,
    section: Option<&str>,
    source: String,
) -> (r: Result<String, SshStop>)
    ensures
        appends(
            r,
            source@,
            source_in_file(*known, home@, path@, texts(stack@), section_of(section)),
        ),
    decreases MAX_INCLUDE_DEPTH + 1 - stack@.len(), 0nat, 0nat, 0nat,
{
    assert(texts(stack@).len() == stack@.len());
    match open(known, path, stack) {
        Err(stop) => Err(stop),
        Ok((inside, lines)) => {
            assert(texts(inside@).len() == inside@.len());
            append_lines(known, home, path, &lines, &inside, section, source)
        },
    }
}

/// Whether what is still to come, behind what was appended so far, makes up the whole.
spec fn completes(
    whole: Result<Seq<char>, Stop>,
    done: Seq<char>,
    rest: Result<Seq<char>, Stop>,
) -> bool {
    match rest {
        Ok(text) => whole == Ok::<_, Stop>(done + text),
        Err(stop) => whole == Err::<Seq<char>, _>(stop),
    }
}

fn append_lines<'a>(
    known: &SshFiles,
    home: &HomeDirectory,
    path: &str,
    lines: &'a Vec<String>,
    stack: &Vec<String>,
    section: Option<&'a str>,
    source: String,
) -> (r: Result<String, SshStop>)
    requires
        stack@.len() <= MAX_INCLUDE_DEPTH,
    ensures
        appends(
            r,
            source@,
            source_in_lines(
                *known,
                home@,
                path@,
                texts(lines@),
                0,
                texts(stack@),
                section_of(section),
            ),
        ),
    decreases MAX_INCLUDE_DEPTH + 1 - stack@.len(), 1nat, 0nat, 0nat,
{
    let ghost all = texts(lines@);
    let ghost inside = texts(stack@);
    let ghost start = source@;
    let ghost whole = source_in_lines(
        *known,
        home@,
        path@,
        all,
        0,
        inside,
        section_of(section),
    );
    let mut written = source;
    let mut now: Option<&'a str> = section;
    let ghost mut done: Seq<char> = Seq::empty();
    proof {
        if whole is Ok {
            assert(done + whole->Ok_0 =~= whole->Ok_0);
        }
        assert(start + done =~= start);
    }
    for i in 0..lines.len()
        invariant
            all == texts(lines@),
            all.len() == lines@.len(),
            inside == texts(stack@),
            inside.len() == stack@.len(),
            stack@.len() <= MAX_INCLUDE_DEPTH,
            start == source@,
            whole == source_in_lines(
                *known,
                home@,
                path@,
                all,
                0,
                inside,
                section_of(section),
            ),
            written@ == start + done,
            completes(
                whole,
                done,
                source_in_lines(*known, home@, path@, all, i as int, inside, section_of(now)),
            ),
    {
        assert(all[i as int] == lines@[i as int]@);
        let original = lines[i].as_str();
        let cleaned = ssh_syntax::strip_config_comment(original);
        let line = text::trim(cleaned.as_str());
        let ghost before = written@;
        let ghost mut here: Seq<char> = Seq::empty();
        match ssh_syntax::split_config_directive(line) {
            None => {
                written.append(original);
                written.push('\n');
                proof {
                    here = original@.push('\n');
                }
                assert(written@ =~= before + here);
            },
            Some((directive, arguments)) => {
                if is_directive(directive, "host") {
                    now = Some(original);
                }
                if is_directive(directive, "include") {
                    let words = ssh_syntax::split_config_arguments(arguments);
                    assert(texts(words@).len() == words@.len());
                    if words.len() == 0 {
                        let at = write_place(path, i);
                        return Err(
                            SshStop::Failed(
                                SshConfigError::new(
                                    concat3(
                                        "invalid Include directive in SSH config ",
                                        at.as_str(),
                                        ": missing path",
                                    ),
                                ),
                            ),
                        );
                    }
                    let steps = collect_source_steps(known, &words, home);
                    match append_steps(known, home, &steps, stack, now, written) {
                        Err(stop) => {
                            return Err(stop);
                        },
                        Ok(text) => {
                            proof {
                                here =
                                source_in_steps(
                                    *known,
                                    home@,
                                    steps_of(steps@),
                                    0,
                                    inside,
                                    section_of(now),
                                )->Ok_0;
                            }
                            written = text;
                        },
                    }
                } else if ssh_syntax::is_forwarding_directive(directive) {
                    written.push('\n');
                    proof {
                        here = seq!['\n'];
                    }
                    assert(written@ =~= before + here);
                } else {
                    written.append(original);
                    written.push('\n');
                    proof {
                        here = original@.push('\n');
                    }
                    assert(written@ =~= before + here);
                }
            },
        }
        proof {
            let rest = source_in_lines(
                *known,
                home@,
                path@,
                all,
                i + 1,
                inside,
                section_of(now),
            );
            if rest is Ok {
                assert(done + (here + rest->Ok_0) =~= done + here + rest->Ok_0);
            }
            assert(before + here =~= start + (done + here));
            done = done + here;
        }
    }
    assert(done + Seq::<char>::empty() =~= done);
    Ok(written)
}

fn append_steps(
    known: &SshFiles,
    home: &HomeDirectory,
    steps: &Vec<Step>,
    stack: &Vec<String>,
    section: Option<&str>,
    source: String,
) -> (r: Result<String, SshStop>)
    requires
        stack@.len() <= MAX_INCLUDE_DEPTH,
    ensures
        appends(
            r,
            source@,
            source_in_steps(
                *known,
                home@,
                steps_of(steps@),
                0,
                texts(stack@),
                section_of(section),
            ),
        ),
    decreases MAX_INCLUDE_DEPTH + 1 - stack@.len(), 0nat, 1nat, 0nat,
{
    let ghost all = steps_of(steps@);
    let ghost inside = texts(stack@);
    let ghost start = source@;
    let ghost whole = source_in_steps(*known, home@, all, 0, inside, section_of(section));
    let mut written = source;
    let ghost mut done: Seq<char> = Seq::empty();
    proof {
        if whole is Ok {
            assert(done + whole->Ok_0 =~= whole->Ok_0);
        }
        assert(start + done =~= start);
    }
    for i in 0..steps.len()
        invariant
            all == steps_of(steps@),
            all.len() == steps@.len(),
            inside == texts(stack@),
            inside.len() == stack@.len(),
            stack@.len() <= MAX_INCLUDE_DEPTH,
            start == source@,
            whole == source_in_steps(*known, home@, all, 0, inside, section_of(section)),
            written@ == start + done,
            completes(
                whole,
                done,
                source_in_steps(*known, home@, all, i as int, inside, section_of(section)),
            ),
    {
        assert(all[i as int] == steps@[i as int].step());
        let ghost before = written@;
        match &steps[i] {
            Step::Halt(stop) => {
                return Err(copy_stop(stop));
            },
            Step::Walk(path) => match append_connection_ssh_config(
                known,
                home,
                path.as_str(),
                stack,
                section,
                written,
            ) {
                Err(stop) => {
                    return Err(stop);
                },
                Ok(text) => {
                    written = text;
                    let line = match section {
                        Some(line) => line,
                        None => "Host *",
                    };
                    written.append(line);
                    written.push('\n');
                    proof {
                        let inner = source_in_file(
                            *known,
                            home@,
                            path@,
                            inside,
                            section_of(section),
                        )->Ok_0;
                        let here = inner + line@.push('\n');
                        let rest = source_in_steps(
                            *known,
                            home@,
                            all,
                            i + 1,
                            inside,
                            section_of(section),
                        );
                        if rest is Ok {
                            assert(done + (here + rest->Ok_0) =~= done + here + rest->Ok_0);
                        }
                        assert(written@ =~= before + here);
                        assert(before + here =~= start + (done + here));
                        done = done + here;
                    }
                },
            },
        }
    }
    assert(done + Seq::<char>::empty() =~= done);
    Ok(written)
}

// ---------------------------------------------------------------------------
// A whole configuration
// ---------------------------------------------------------------------------
/// The file that a configuration starts with: the one that is named, else the user's own.
pub open spec fn first_file(configured: Option<Seq<char>>, home: HomePath) -> Seq<char> {
    match configured {
        Some(path) => tilde_expanded(path, home),
        None => joined_path(home.style, ssh_directory(home), "config"@),
    }
}

/// Whether the first file is there. One that is not named need not be.
pub open spec fn is_there(known: SshFiles, path: Seq<char>, configured: bool) -> Result<bool, Stop> {
    let index = file_index(known.files@, path);
    if index >= known.files@.len() {
        Err(Stop::Needs(Need::File(path)))
    } else {
        match known.files@[index].contents {
            SshContents::Missing(reason) => if configured {
                Err(Stop::Failed(seq!["failed to open SSH config "@ + path, reason@]))
            } else {
                Ok(false)
            },
            SshContents::Closed(reason) => Err(
                Stop::Failed(seq!["failed to open SSH config "@ + path, reason@]),
            ),
            _ => Ok(true),
        }
    }
}

/// The forwards that a configuration asks for on behalf of a host.
pub open spec fn configured_forwards(
    known: SshFiles,
    home: HomePath,
    alias: Seq<char>,
    configured: Option<Seq<char>>,
) -> Result<Seq<ForwardRequest>, Stop> {
    let path = first_file(configured, home);
    match is_there(known, path, configured is Some) {
        Err(stop) => Err(stop),
        Ok(false) => Ok(Seq::empty()),
        Ok(true) => match match_refusal(known, home, path) {
            Some(stop) => Err(stop),
            None => match forwards_in_file(
                known,
                home,
                alias,
                path,
                Seq::empty(),
                Found { active: true, clear: None, forwards: Seq::empty() },
            ) {
                Err(stop) => Err(stop),
                Ok(found) => if found.clear == Some(true) {
                    Ok(Seq::empty())
                } else {
                    Ok(found.forwards)
                },
            },
        },
    }
}

/// What connections are configured by: the text of all files, where there is one.
pub open spec fn configured_source(
    known: SshFiles,
    home: HomePath,
    configured: Option<Seq<char>>,
) -> Result<Option<Seq<char>>, Stop> {
    let path = first_file(configured, home);
    match is_there(known, path, configured is Some) {
        Err(stop) => Err(stop),
        Ok(false) => Ok(None),
        Ok(true) => match match_refusal(known, home, path) {
            Some(stop) => Err(stop),
            None => match source_in_file(known, home, path, Seq::empty(), None) {
                Err(stop) => Err(stop),
                Ok(source) => Ok(Some(source)),
            },
        },
    }
}

/// The file that a configuration starts with.
pub fn first_config_file(configured: Option<&str>, home: &HomeDirectory) -> (r: String)
    ensures
        r@ == first_file(section_of(configured), home@),
{
    match configured {
        Some(path) => paths::expand_tilde(path, home),
        None => {
            let directory = default_ssh_dir(home);
            paths::join_path(home.style, directory.as_str(), "config")
        },
    }
}

fn find_first_file(known: &SshFiles, path: &str, configured: bool) -> (r: Result<bool, SshStop>)
    ensures
        (match r {
            Ok(there) => is_there(*known, path@, configured) == Ok::<_, Stop>(there),
            Err(stop) => is_there(*known, path@, configured) == Err::<bool, _>(stop.stop()),
        }),
{
    match known.find_file(path) {
        None => Err(SshStop::Needs(SshNeed::File(path.to_owned()))),
        Some(file) => match &file.contents {
            SshContents::Missing(reason) => if configured {
                Err(
                    SshStop::Failed(
                        SshConfigError::caused(
                            concat2("failed to open SSH config ", path),
                            reason.as_str(),
                        ),
                    ),
                )
            } else {
                Ok(false)
            },
            SshContents::Closed(reason) => Err(
                SshStop::Failed(
                    SshConfigError::caused(
                        concat2("failed to open SSH config ", path),
                        reason.as_str(),
                    ),
                ),
            ),
            _ => Ok(true),
        },
    }
}

/// The forwards that a configuration asks for on behalf of a host.
pub fn load_ssh_config_forwards(
    known: &SshFiles,
    home: &HomeDirectory,
    alias: &str,
    configured: Option<&str>,
) -> (r: Result<Vec<ParsedSshForward>, SshStop>)
    ensures
        ({
            let expected = configured_forwards(*known, home@, alias@, section_of(configured));
            match r {
                Ok(forwards) => expected == Ok::<_, Stop>(requests(forwards@)),
                Err(stop) => expected == Err::<Seq<ForwardRequest>, _>(stop.stop()),
            }
        }),
{
    let none: Vec<ParsedSshForward> = Vec::new();
    assert(requests(none@) =~= Seq::<ForwardRequest>::empty());
    let path = first_config_file(configured, home);
    match find_first_file(known, path.as_str(), configured.is_some()) {
        Err(stop) => {
            return Err(stop);
        },
        Ok(there) => if !there {
            return Ok(none);
        },
    }
    match reject_match_directives(known, home, path.as_str()) {
        Err(stop) => {
            return Err(stop);
        },
        Ok(_) => {},
    }
    let stack: Vec<String> = Vec::new();
    assert(texts(stack@) =~= Seq::<Seq<char>>::empty());
    let state = ForwardScanState {
        active: true,
        clear_all_forwardings: None,
        forwards: Vec::new(),
    };
    assert(requests(state.forwards@) =~= Seq::<ForwardRequest>::empty());
    match scan_ssh_config_forwards(known, home, alias, path.as_str(), &stack, state) {
        Err(stop) => Err(stop),
        Ok(state) => match state.clear_all_forwardings {
            Some(true) => Ok(none),
            _ => Ok(state.forwards),
        },
    }
}

/// What connections are configured by: the text of all files, where there is one.
pub fn connection_ssh_config_source(
    known: &SshFiles,
    home: &HomeDirectory,
    configured: Option<&str>,
) -> (r: Result<Option<String>, SshStop>)
    ensures
        ({
            let expected = configured_source(*known, home@, section_of(configured));
            match r {
                Ok(source) => expected == Ok::<_, Stop>(text::text_option(source)),
                Err(stop) => expected == Err::<Option<Seq<char>>, _>(stop.stop()),
            }
        }),
{
    let path = first_config_file(configured, home);
    match find_first_file(known, path.as_str(), configured.is_some()) {
        Err(stop) => {
            return Err(stop);
        },
        Ok(there) => if !there {
            return Ok(None);
        },
    }
    match reject_match_directives(known, home, path.as_str()) {
        Err(stop) => {
            return Err(stop);
        },
        Ok(_) => {},
    }
    let stack: Vec<String> = Vec::new();
    assert(texts(stack@) =~= Seq::<Seq<char>>::empty());
    let empty = String::new();
    match append_connection_ssh_config(known, home, path.as_str(), &stack, None, empty) {
        Err(stop) => Err(stop),
        Ok(source) => {
            proof {
                let text = source_in_file(*known, home@, path@, Seq::empty(), None)->Ok_0;
                assert(empty@ + text =~= text);
            }
            Ok(Some(source))
        },
    }
}

} // verus!
