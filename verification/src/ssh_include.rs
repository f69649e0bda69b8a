//! The laws of files that stand in other files: which of them a line names, in which order they
//! are taken, and what they add at its place.
use crate::path_names::unix_paths_are_made_of_names;
use crate::paths::{path_parts, HomePath, PathStyle};
use crate::ssh_files::{forwards_in_file, forwards_in_lines, forwards_in_steps, include_steps,
    line_directive, named_pattern, ordered_steps, part_before, parts_before, path_before,
    path_steps, pattern_index, pattern_steps, seen_paths, sorted_paths, source_in_file,
    source_in_lines, source_in_steps, source_steps, Found, Need, SshFiles, StepOf, Stop};
use crate::ssh_syntax::arguments_of;
use crate::text::{lowercase, text_before, text_order_is_strict};
use vstd::prelude::*;

verus! {

// ---------------------------------------------------------------------------
// Order
// ---------------------------------------------------------------------------
/// A name that is no dot and no two dots, and has no slash in it.
pub open spec fn is_proper_name(name: Seq<char>) -> bool {
    name.len() > 0 && name != "."@ && name != ".."@ && !name.contains('/')
}

proof fn lemma_parts_before_last(a: Seq<Seq<char>>, x: Seq<char>, y: Seq<char>, from: int)
    requires
        0 <= from <= a.len(),
        x != y,
    ensures
        parts_before(a.push(x), a.push(y), from) == part_before(x, y),
    decreases a.len() - from,
{
    if from < a.len() {
        assert(a.push(x)[from] == a.push(y)[from]);
        lemma_parts_before_last(a, x, y, from + 1);
    } else {
        assert(a.push(x)[from] == x && a.push(y)[from] == y);
    }
}

proof fn lemma_prefix_parts_before(a: Seq<Seq<char>>, x: Seq<char>, from: int)
    requires
        0 <= from <= a.len(),
    ensures
        parts_before(a, a.push(x), from),
        !parts_before(a.push(x), a, from),
    decreases a.len() - from,
{
    if from < a.len() {
        assert(a[from] == a.push(x)[from]);
        lemma_prefix_parts_before(a, x, from + 1);
    }
}

/// On Unix two files of one directory come in the order of their names, and a directory comes
/// before what is in it.
pub proof fn files_of_a_directory_come_by_name(
    directory: Seq<char>,
    name: Seq<char>,
    other: Seq<char>,
)
    requires
        directory.len() > 0,
        is_proper_name(name),
        is_proper_name(other),
    ensures
        ({
            let a = directory + seq!['/'] + name;
            let b = directory + seq!['/'] + other;
            &&& path_before(PathStyle::Unix, a, b) <==> text_before(name, other)
            &&& path_before(PathStyle::Unix, directory, a)
            &&& !path_before(PathStyle::Unix, a, directory)
        }),
{
    let a = directory + seq!['/'] + name;
    let b = directory + seq!['/'] + other;
    unix_paths_are_made_of_names(directory, name);
    unix_paths_are_made_of_names(directory, other);
    assert(a[0] == directory[0] && b[0] == directory[0]);
    let parts = path_parts(PathStyle::Unix, directory);
    lemma_prefix_parts_before(parts, name, 0);
    if name == other {
        text_order_is_strict(name);
        lemma_same_parts(parts.push(name), 0);
    } else {
        lemma_parts_before_last(parts, name, other, 0);
    }
}

proof fn lemma_same_parts(a: Seq<Seq<char>>, from: int)
    requires
        0 <= from <= a.len(),
    ensures
        !parts_before(a, a, from),
    decreases a.len() - from,
{
    if from < a.len() {
        lemma_same_parts(a, from + 1);
    }
}

// ---------------------------------------------------------------------------
// Patterns
// ---------------------------------------------------------------------------
/// Whether all files of a pattern can be seen.
pub open spec fn all_seen(paths: Seq<Result<String, String>>) -> bool {
    forall|i: int| 0 <= i < paths.len() ==> (#[trigger] paths[i]) is Ok
}

/// The files of a pattern whose files can all be seen.
pub open spec fn files_of(paths: Seq<Result<String, String>>) -> Seq<Seq<char>> {
    Seq::new(paths.len(), |i: int| paths[i]->Ok_0@)
}

proof fn lemma_path_steps(pattern: Seq<char>, paths: Seq<Result<String, String>>, from: int)
    requires
        0 <= from <= paths.len(),
        all_seen(paths),
    ensures
        path_steps(pattern, paths, from) == files_of(paths).skip(from).map_values(
            |path: Seq<char>| StepOf::Walk(path),
        ),
        crate::ssh_files::first_unseen(paths, from) is None,
    decreases paths.len() - from,
{
    let files = files_of(paths);
    if from < paths.len() {
        assert(paths[from] is Ok);
        lemma_path_steps(pattern, paths, from + 1);
        assert(path_steps(pattern, paths, from) =~= files.skip(from).map_values(
            |path: Seq<char>| StepOf::Walk(path),
        ));
    } else {
        assert(path_steps(pattern, paths, from) =~= files.skip(from).map_values(
            |path: Seq<char>| StepOf::Walk(path),
        ));
    }
}

proof fn lemma_seen_paths(paths: Seq<Result<String, String>>)
    requires
        all_seen(paths),
    ensures
        seen_paths(paths) == files_of(paths),
    decreases paths.len(),
{
    if paths.len() > 0 {
        let less = paths.drop_last();
        assert forall|i: int| 0 <= i < less.len() implies (#[trigger] less[i]) is Ok by {
            assert(less[i] == paths[i]);
        }
        lemma_seen_paths(less);
        assert(paths[paths.len() - 1] is Ok);
        assert(files_of(paths) =~= files_of(less).push(paths.last()->Ok_0@));
    } else {
        assert(seen_paths(paths) =~= files_of(paths));
    }
}

/// A pattern stands for its files: in the order in which they were found where forwards are
/// looked for, and in the order of their paths where the text of the files is put together. A
/// pattern that nothing is known of is asked for.
pub proof fn patterns_stand_for_their_files(
    known: SshFiles,
    style: PathStyle,
    pattern: Seq<char>,
    at: int,
)
    requires
        at == pattern_index(known.patterns@, pattern),
    ensures
        at >= known.patterns@.len() ==> pattern_steps(known, pattern) == seq![
            StepOf::Halt(Stop::Needs(Need::Pattern(pattern))),
        ] && ordered_steps(known, style, pattern) == pattern_steps(known, pattern),
        at < known.patterns@.len() && known.patterns@[at].paths is Ok && all_seen(
            known.patterns@[at].paths->Ok_0@,
        ) ==> {
            let files = files_of(known.patterns@[at].paths->Ok_0@);
            &&& pattern_steps(known, pattern) == files.map_values(
                |path: Seq<char>| StepOf::Walk(path),
            )
            &&& ordered_steps(known, style, pattern) == sorted_paths(style, files).map_values(
                |path: Seq<char>| StepOf::Walk(path),
            )
        },
{
    if at < known.patterns@.len() && known.patterns@[at].paths is Ok && all_seen(
        known.patterns@[at].paths->Ok_0@,
    ) {
        let paths = known.patterns@[at].paths->Ok_0@;
        lemma_path_steps(pattern, paths, 0);
        lemma_seen_paths(paths);
        assert(files_of(paths).skip(0) =~= files_of(paths));
    }
}

/// A pattern is looked up by its text, and the first answer about it counts.
pub proof fn patterns_are_looked_up(known: SshFiles, pattern: Seq<char>)
    ensures
        ({
            let at = pattern_index(known.patterns@, pattern);
            &&& 0 <= at <= known.patterns@.len()
            &&& at < known.patterns@.len() ==> known.patterns@[at].pattern@ == pattern
            &&& forall|i: int| 0 <= i < at ==> (#[trigger] known.patterns@[i]).pattern@ != pattern
        }),
{
    lemma_pattern_index(known.patterns@, pattern);
}

proof fn lemma_pattern_index(patterns: Seq<crate::ssh_files::SshPattern>, pattern: Seq<char>)
    ensures
        ({
            let at = pattern_index(patterns, pattern);
            &&& 0 <= at <= patterns.len()
            &&& at < patterns.len() ==> patterns[at].pattern@ == pattern
            &&& forall|i: int| 0 <= i < at ==> (#[trigger] patterns[i]).pattern@ != pattern
        }),
    decreases patterns.len(),
{
    if patterns.len() > 0 && patterns[0].pattern@ != pattern {
        let rest = patterns.drop_first();
        lemma_pattern_index(rest, pattern);
        assert forall|i: int| 0 <= i < pattern_index(patterns, pattern) implies (
        #[trigger] patterns[i]).pattern@ != pattern by {
            if i > 0 {
                assert(rest[i - 1] == patterns[i]);
            }
        }
    }
}

/// A line with several patterns stands for the files of the first one, then for those of the
/// second one, and so on; one that cannot be followed ends it.
pub proof fn patterns_are_taken_in_order(
    known: SshFiles,
    arguments: Seq<Seq<char>>,
    home: HomePath,
    from: int,
)
    requires
        0 <= from < arguments.len(),
    ensures
        ({
            let first = pattern_steps(known, named_pattern(arguments[from], home));
            let steps = include_steps(known, arguments, home, from);
            let sorted = ordered_steps(known, home.style, named_pattern(arguments[from], home));
            let ordered = source_steps(known, arguments, home, from);
            &&& first.len() == 0 || !(first.last() is Halt) ==> steps == first + include_steps(
                known,
                arguments,
                home,
                from + 1,
            )
            &&& first.len() > 0 && first.last() is Halt ==> steps == first
            &&& sorted.len() == 0 || !(sorted.last() is Halt) ==> ordered == sorted
                + source_steps(known, arguments, home, from + 1)
            &&& sorted.len() > 0 && sorted.last() is Halt ==> ordered == sorted
        }),
        include_steps(known, arguments, home, arguments.len() as int).len() == 0,
        source_steps(known, arguments, home, arguments.len() as int).len() == 0,
{
}

// ---------------------------------------------------------------------------
// What the files add
// ---------------------------------------------------------------------------
/// Whether a line names files, by these arguments.
pub open spec fn names_files_by(line: Seq<char>, arguments: Seq<char>) -> bool {
    line_directive(line) matches Some((directive, given)) && lowercase(directive) == "include"@
        && given == arguments
}

/// Whether a line opens a section.
pub open spec fn opens_section(line: Seq<char>) -> bool {
    line_directive(line) matches Some((directive, _)) && lowercase(directive) == "host"@
}

/// The text of a file stands in place of the line that names it. The line that opened the
/// section stands behind it once more, so that the lines that follow count for the same hosts;
/// without a section they count for all hosts.
pub proof fn named_files_stand_in_place(
    known: SshFiles,
    home: HomePath,
    path: Seq<char>,
    lines: Seq<Seq<char>>,
    from: int,
    stack: Seq<Seq<char>>,
    section: Option<Seq<char>>,
    arguments: Seq<char>,
    file: Seq<char>,
)
    requires
        0 <= from < lines.len(),
        stack.len() <= 16,
        names_files_by(lines[from], arguments),
        arguments_of(arguments).len() > 0,
        source_steps(known, arguments_of(arguments), home, 0) == seq![StepOf::Walk(file)],
        source_in_file(known, home, file, stack, section) is Ok,
        source_in_lines(known, home, path, lines, from + 1, stack, section) is Ok,
    ensures
        ({
            let text = source_in_file(known, home, file, stack, section)->Ok_0;
            let rest = source_in_lines(known, home, path, lines, from + 1, stack, section)->Ok_0;
            let all = source_in_lines(known, home, path, lines, from, stack, section);
            &&& all is Ok
            &&& section is Some ==> all->Ok_0 == text + section->0 + seq!['\n'] + rest
            &&& section is None ==> all->Ok_0 == text + "Host *"@ + seq!['\n'] + rest
        }),
{
    reveal_strlit("include");
    reveal_strlit("host");
    assert("include"@.len() == 7 && "host"@.len() == 4);
    let steps = source_steps(known, arguments_of(arguments), home, 0);
    lemma_one_text(known, home, steps, file, stack, section);
    let text = source_in_file(known, home, file, stack, section)->Ok_0;
    let rest = source_in_lines(known, home, path, lines, from + 1, stack, section)->Ok_0;
    let line = match section {
        Some(line) => line,
        None => "Host *"@,
    };
    assert(text + line.push('\n') + rest =~= text + line + seq!['\n'] + rest);
}

proof fn lemma_one_text(
    known: SshFiles,
    home: HomePath,
    steps: Seq<StepOf>,
    file: Seq<char>,
    stack: Seq<Seq<char>>,
    section: Option<Seq<char>>,
)
    requires
        steps == seq![StepOf::Walk(file)],
        stack.len() <= 16,
        source_in_file(known, home, file, stack, section) is Ok,
    ensures
        source_in_steps(known, home, steps, 0, stack, section) == Ok::<_, Stop>(
            source_in_file(known, home, file, stack, section)->Ok_0 + (match section {
                Some(line) => line,
                None => "Host *"@,
            }).push('\n'),
        ),
{
    assert(steps[0] == StepOf::Walk(file));
    let text = source_in_file(known, home, file, stack, section)->Ok_0;
    let line = match section {
        Some(line) => line,
        None => "Host *"@,
    };
    assert(source_in_steps(known, home, steps, 1, stack, section) == Ok::<Seq<char>, Stop>(
        Seq::empty(),
    ));
    assert(text + line.push('\n') + Seq::<char>::empty() =~= text + line.push('\n'));
}

proof fn lemma_one_walk(
    known: SshFiles,
    home: HomePath,
    alias: Seq<char>,
    steps: Seq<StepOf>,
    file: Seq<char>,
    stack: Seq<Seq<char>>,
    found: Found,
)
    requires
        steps == seq![StepOf::Walk(file)],
        stack.len() <= 16,
    ensures
        forwards_in_steps(known, home, alias, steps, 0, stack, found) == forwards_in_file(
            known,
            home,
            alias,
            file,
            stack,
            found,
        ),
{
    assert(steps[0] == StepOf::Walk(file));
    let inside = forwards_in_file(known, home, alias, file, stack, found);
    if inside is Ok {
        assert(forwards_in_steps(known, home, alias, steps, 1, stack, inside->Ok_0) == inside);
    }
}

/// Lines behind one that opens a section belong to it: the section is what a named file behind
/// them goes on with.
pub proof fn sections_go_on_behind_files(
    known: SshFiles,
    home: HomePath,
    path: Seq<char>,
    lines: Seq<Seq<char>>,
    from: int,
    stack: Seq<Seq<char>>,
    section: Option<Seq<char>>,
)
    requires
        0 <= from < lines.len(),
        stack.len() <= 16,
        opens_section(lines[from]),
        source_in_lines(known, home, path, lines, from + 1, stack, Some(lines[from])) is Ok,
    ensures
        source_in_lines(known, home, path, lines, from, stack, section) == Ok::<_, Stop>(
            lines[from] + seq!['\n'] + source_in_lines(
                known,
                home,
                path,
                lines,
                from + 1,
                stack,
                Some(lines[from]),
            )->Ok_0,
        ),
{
    reveal_strlit("include");
    reveal_strlit("host");
    reveal_strlit("localforward");
    reveal_strlit("remoteforward");
    reveal_strlit("dynamicforward");
    reveal_strlit("clearallforwardings");
    assert("include"@.len() == 7 && "host"@.len() == 4);
    assert("localforward"@.len() == 12 && "remoteforward"@.len() == 13);
    assert("dynamicforward"@.len() == 14 && "clearallforwardings"@.len() == 19);
    assert(lines[from].push('\n') =~= lines[from] + seq!['\n']);
}

/// The forwards of a file are found at the place of the line that names it, in a section about
/// the host; in another section the line is passed over, and what it names is not looked at.
pub proof fn named_files_are_walked_in_place(
    known: SshFiles,
    home: HomePath,
    alias: Seq<char>,
    path: Seq<char>,
    lines: Seq<Seq<char>>,
    from: int,
    stack: Seq<Seq<char>>,
    found: Found,
    arguments: Seq<char>,
    file: Seq<char>,
)
    requires
        0 <= from < lines.len(),
        stack.len() <= 16,
        names_files_by(lines[from], arguments),
        include_steps(known, arguments_of(arguments), home, 0) == seq![StepOf::Walk(file)],
    ensures
        ({
            let here = forwards_in_lines(known, home, alias, path, lines, from, stack, found);
            let inside = forwards_in_file(known, home, alias, file, stack, found);
            &&& !found.active ==> here == forwards_in_lines(
                known,
                home,
                alias,
                path,
                lines,
                from + 1,
                stack,
                found,
            )
            &&& found.active && inside is Ok ==> here == forwards_in_lines(
                known,
                home,
                alias,
                path,
                lines,
                from + 1,
                stack,
                inside->Ok_0,
            )
            &&& found.active && inside is Err ==> here is Err
        }),
{
    let steps = include_steps(known, arguments_of(arguments), home, 0);
    lemma_one_walk(known, home, alias, steps, file, stack, found);
}

} // verus!
