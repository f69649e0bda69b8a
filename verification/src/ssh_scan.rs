//! What is found in the files of an OpenSSH configuration: which lines count for a host, which
//! are refused, and what is left for connections.
use crate::paths::{joined_path, path_parts, prefix_of, HomePath, PathStyle};
use crate::ssh_files::{after_line, configured_forwards, file_index, first_file, forwards_in_file,
    forwards_in_lines, forwards_in_steps, is_there, line_directive, match_refusal,
    matches_in_file, matches_in_lines, matches_in_steps, named_pattern, opened, parts_before,
    path_before, sorted_paths, source_in_lines, ssh_directory, unvisited, with_path, Found,
    SshFile, SshFiles, StepOf, Stop, MAX_INCLUDE_DEPTH};
use crate::ssh_syntax::{host_matches, read_bool, read_dynamic_forward, read_local_forward,
    read_remote_forward};
use crate::text;
use crate::text::{ended_lines, lowercase, text_lines};
use vstd::prelude::*;

verus! {

// ---------------------------------------------------------------------------
// Lines
// ---------------------------------------------------------------------------
/// A `Host` line opens a section, which is about the host just where its patterns match; it adds
/// no forward and takes none away.
pub proof fn host_lines_open_sections(
    path: Seq<char>,
    alias: Seq<char>,
    line: int,
    directive: Seq<char>,
    arguments: Seq<char>,
    found: Found,
)
    requires
        lowercase(directive) == "host"@,
        host_matches(arguments, alias) is Ok,
    ensures
        after_line(path, alias, line, directive, arguments, found) == Ok::<_, Stop>(
            Found {
                active: host_matches(arguments, alias)->Ok_0,
                clear: found.clear,
                forwards: found.forwards,
            },
        ),
{
}

/// In a section that is not about the host, no line but one that opens a section changes
/// anything.
pub proof fn other_sections_count_for_nothing(
    path: Seq<char>,
    alias: Seq<char>,
    line: int,
    directive: Seq<char>,
    arguments: Seq<char>,
    found: Found,
)
    requires
        !found.active,
        lowercase(directive) != "host"@,
        lowercase(directive) != "match"@,
    ensures
        after_line(path, alias, line, directive, arguments, found) == Ok::<_, Stop>(found),
{
}

/// In a section about the host each of the three directives adds just the forward that it asks
/// for, behind the others; any other directive adds none.
pub proof fn forward_lines_add_forwards(
    path: Seq<char>,
    alias: Seq<char>,
    line: int,
    directive: Seq<char>,
    arguments: Seq<char>,
    found: Found,
)
    requires
        found.active,
    ensures
        ({
            let after = after_line(path, alias, line, directive, arguments, found);
            &&& lowercase(directive) == "localforward"@ ==> match read_local_forward(arguments) {
                Ok(forward) => after == Ok::<_, Stop>(
                    Found { forwards: found.forwards.push(forward), ..found },
                ),
                Err(_) => after is Err,
            }
            &&& lowercase(directive) == "remoteforward"@ ==> match read_remote_forward(
                arguments,
            ) {
                Ok(forward) => after == Ok::<_, Stop>(
                    Found { forwards: found.forwards.push(forward), ..found },
                ),
                Err(_) => after is Err,
            }
            &&& lowercase(directive) == "dynamicforward"@ ==> match read_dynamic_forward(
                arguments,
            ) {
                Ok(forward) => after == Ok::<_, Stop>(
                    Found { forwards: found.forwards.push(forward), ..found },
                ),
                Err(_) => after is Err,
            }
            &&& lowercase(directive) != "localforward"@ && lowercase(directive)
                != "remoteforward"@ && lowercase(directive) != "dynamicforward"@ ==> (after
                matches Ok(next) ==> next.forwards == found.forwards)
        }),
{
    reveal_strlit("localforward");
    reveal_strlit("remoteforward");
    reveal_strlit("dynamicforward");
    reveal_strlit("clearallforwardings");
    reveal_strlit("host");
    reveal_strlit("match");
    assert("localforward"@[0] == 'l' && "remoteforward"@[0] == 'r' && "dynamicforward"@[0] == 'd'
        && "clearallforwardings"@[0] == 'c' && "host"@[0] == 'h' && "match"@[0] == 'm');
}

/// Whether the host wants no forwards is what is said first in a section about it.
pub proof fn the_first_wish_for_none_counts(
    path: Seq<char>,
    alias: Seq<char>,
    line: int,
    directive: Seq<char>,
    arguments: Seq<char>,
    found: Found,
)
    requires
        found.active,
        lowercase(directive) == "clearallforwardings"@,
    ensures
        found.clear is Some ==> after_line(path, alias, line, directive, arguments, found) == Ok::<
            _,
            Stop,
        >(found),
        found.clear is None && read_bool(arguments) is Ok ==> after_line(
            path,
            alias,
            line,
            directive,
            arguments,
            found,
        ) == Ok::<_, Stop>(Found { clear: Some(read_bool(arguments)->Ok_0), ..found }),
{
    reveal_strlit("clearallforwardings");
    reveal_strlit("host");
    reveal_strlit("match");
    assert("clearallforwardings"@[0] == 'c' && "host"@[0] == 'h' && "match"@[0] == 'm');
}

// ---------------------------------------------------------------------------
// Walks for forwards
// ---------------------------------------------------------------------------
proof fn lemma_file_keeps(
    known: SshFiles,
    home: HomePath,
    alias: Seq<char>,
    path: Seq<char>,
    stack: Seq<Seq<char>>,
    found: Found,
)
    requires
        forwards_in_file(known, home, alias, path, stack, found) is Ok,
    ensures
        found.forwards.is_prefix_of(
            forwards_in_file(known, home, alias, path, stack, found)->Ok_0.forwards,
        ),
        found.clear is Some ==> forwards_in_file(
            known,
            home,
            alias,
            path,
            stack,
            found,
        )->Ok_0.clear == found.clear,
    decreases MAX_INCLUDE_DEPTH + 1 - stack.len(), 0nat, 0nat, 0nat,
{
    let (identity, lines) = opened(known, path, stack)->Ok_0;
    lemma_lines_keep(known, home, alias, path, lines, 0, stack.push(identity), found);
}

proof fn lemma_lines_keep(
    known: SshFiles,
    home: HomePath,
    alias: Seq<char>,
    path: Seq<char>,
    lines: Seq<Seq<char>>,
    from: int,
    stack: Seq<Seq<char>>,
    found: Found,
)
    requires
        forwards_in_lines(known, home, alias, path, lines, from, stack, found) is Ok,
    ensures
        found.forwards.is_prefix_of(
            forwards_in_lines(known, home, alias, path, lines, from, stack, found)->Ok_0.forwards,
        ),
        found.clear is Some ==> forwards_in_lines(
            known,
            home,
            alias,
            path,
            lines,
            from,
            stack,
            found,
        )->Ok_0.clear == found.clear,
    decreases MAX_INCLUDE_DEPTH + 1 - stack.len(), 1nat, lines.len() - from, 0nat,
{
    if from < lines.len() && stack.len() <= MAX_INCLUDE_DEPTH {
        match line_directive(lines[from]) {
            None => {
                lemma_lines_keep(known, home, alias, path, lines, from + 1, stack, found);
            },
            Some((directive, arguments)) => {
                if lowercase(directive) == "include"@ {
                    if found.active {
                        let steps = crate::ssh_files::include_steps(
                            known,
                            crate::ssh_syntax::arguments_of(arguments),
                            home,
                            0,
                        );
                        lemma_steps_keep(known, home, alias, steps, 0, stack, found);
                        let now = forwards_in_steps(known, home, alias, steps, 0, stack, found);
                        lemma_lines_keep(
                            known,
                            home,
                            alias,
                            path,
                            lines,
                            from + 1,
                            stack,
                            now->Ok_0,
                        );
                    } else {
                        lemma_lines_keep(known, home, alias, path, lines, from + 1, stack, found);
                    }
                } else {
                    let now = after_line(path, alias, from, directive, arguments, found)->Ok_0;
                    lemma_lines_keep(known, home, alias, path, lines, from + 1, stack, now);
                }
            },
        }
    }
}

proof fn lemma_steps_keep(
    known: SshFiles,
    home: HomePath,
    alias: Seq<char>,
    steps: Seq<StepOf>,
    from: int,
    stack: Seq<Seq<char>>,
    found: Found,
)
    requires
        forwards_in_steps(known, home, alias, steps, from, stack, found) is Ok,
    ensures
        found.forwards.is_prefix_of(
            forwards_in_steps(known, home, alias, steps, from, stack, found)->Ok_0.forwards,
        ),
        found.clear is Some ==> forwards_in_steps(
            known,
            home,
            alias,
            steps,
            from,
            stack,
            found,
        )->Ok_0.clear == found.clear,
    decreases MAX_INCLUDE_DEPTH + 1 - stack.len(), 0nat, 1nat, steps.len() - from,
{
    if from < steps.len() && stack.len() <= MAX_INCLUDE_DEPTH {
        let path = steps[from]->Walk_0;
        lemma_file_keeps(known, home, alias, path, stack, found);
        let now = forwards_in_file(known, home, alias, path, stack, found)->Ok_0;
        lemma_steps_keep(known, home, alias, steps, from + 1, stack, now);
    }
}

/// What was found stays: a file, with all the files that it names, only ever adds forwards
/// behind those that were found before it, and what was said first of wanting none stands.
pub proof fn walks_only_add(
    known: SshFiles,
    home: HomePath,
    alias: Seq<char>,
    path: Seq<char>,
    stack: Seq<Seq<char>>,
    found: Found,
)
    requires
        forwards_in_file(known, home, alias, path, stack, found) is Ok,
    ensures
        found.forwards.is_prefix_of(
            forwards_in_file(known, home, alias, path, stack, found)->Ok_0.forwards,
        ),
        found.clear is Some ==> forwards_in_file(
            known,
            home,
            alias,
            path,
            stack,
            found,
        )->Ok_0.clear == found.clear,
{
    lemma_file_keeps(known, home, alias, path, stack, found);
}

/// A host that wants no forwards gets none, whatever is asked for; another gets all that were
/// found. Nothing is asked for where the user has no configuration.
pub proof fn hosts_get_what_was_found(
    known: SshFiles,
    home: HomePath,
    alias: Seq<char>,
    configured: Option<Seq<char>>,
)
    requires
        configured_forwards(known, home, alias, configured) is Ok,
    ensures
        ({
            let list = configured_forwards(known, home, alias, configured)->Ok_0;
            let path = first_file(configured, home);
            let start = Found { active: true, clear: None, forwards: Seq::empty() };
            match forwards_in_file(known, home, alias, path, Seq::empty(), start) {
                Ok(found) => is_there(known, path, configured is Some) == Ok::<_, Stop>(true) ==> {
                    &&& found.clear == Some(true) ==> list.len() == 0
                    &&& found.clear != Some(true) ==> list == found.forwards
                },
                Err(_) => is_there(known, path, configured is Some) == Ok::<_, Stop>(false),
            }
        }),
        is_there(known, first_file(configured, home), configured is Some) == Ok::<_, Stop>(false)
            ==> configured_forwards(known, home, alias, configured)->Ok_0.len() == 0,
{
}

// ---------------------------------------------------------------------------
// Files
// ---------------------------------------------------------------------------
/// A configuration starts with the file that is named, with the home directory for a tilde, else
/// with `config` among the user's OpenSSH files. A file that is named must be there; the user's
/// own need not be.
pub proof fn configurations_start_somewhere(
    known: SshFiles,
    home: HomePath,
    path: Seq<char>,
    at: int,
)
    requires
        0 <= at < known.files@.len(),
        file_index(known.files@, path) == at,
    ensures
        first_file(Some(path), home) == crate::paths::tilde_expanded(path, home),
        first_file(None, home) == joined_path(
            home.style,
            joined_path(home.style, home.path, ".ssh"@),
            "config"@,
        ),
        known.files@[at].contents is Missing ==> is_there(known, path, true) is Err && is_there(
            known,
            path,
            false,
        ) == Ok::<_, Stop>(false),
        known.files@[at].contents is Closed ==> is_there(known, path, true) is Err && is_there(
            known,
            path,
            false,
        ) is Err,
        known.files@[at].contents is Text ==> is_there(known, path, true) == Ok::<_, Stop>(true)
            && is_there(known, path, false) == Ok::<_, Stop>(true),
{
}

/// On Unix a file that a line names is below the user's OpenSSH files, unless the line names it
/// from the root or from the home directory.
pub proof fn named_files_are_found(home: HomePath, name: Seq<char>)
    requires
        home.style == PathStyle::Unix,
        home.path.len() > 0,
        home.path[0] == '/',
        home.path.last() != '/',
        name.len() > 0,
    ensures
        name[0] != '/' && name[0] != '~' ==> named_pattern(name, home) == home.path + seq!['/']
            + ".ssh"@ + seq!['/'] + name,
        name[0] == '/' ==> named_pattern(name, home) == name,
        name[0] != '/' ==> named_pattern(seq!['~', '/'] + name, home) == home.path + seq!['/']
            + name,
{
    reveal_strlit(".ssh");
    crate::paths::unix_names_go_below(home.path, ".ssh"@);
    let directory = ssh_directory(home);
    assert(directory == home.path + seq!['/'] + ".ssh"@);
    assert(directory.last() == 'h');
    crate::paths::unix_names_go_below(directory, name);
    crate::paths::unix_names_go_below(home.path, name);
    if name[0] != '~' {
        crate::paths::tildes_stand_for_home(home, name, name);
    } else {
        crate::paths::tildes_stand_for_home(home, name, Seq::empty());
    }
    let below = home.path + seq!['/'] + name;
    assert(below[0] == '/');
}

/// Files may name each other sixteen deep, and no file may name one that it stands in.
pub proof fn files_do_not_name_themselves(
    known: SshFiles,
    path: Seq<char>,
    stack: Seq<Seq<char>>,
)
    requires
        opened(known, path, stack) is Ok,
    ensures
        stack.len() < 16,
        !stack.contains(opened(known, path, stack)->Ok_0.0),
{
}

// ---------------------------------------------------------------------------
// Sections that only hold under conditions
// ---------------------------------------------------------------------------
proof fn lemma_fewer_unvisited(files: Seq<SshFile>, a: Seq<Seq<char>>, b: Seq<Seq<char>>)
    requires
        a.is_prefix_of(b),
    ensures
        unvisited(files, b) <= unvisited(files, a),
    decreases files.len(),
{
    if files.len() > 0 {
        lemma_fewer_unvisited(files.drop_last(), a, b);
        let identity = files.last().identity@;
        if a.contains(identity) {
            let k = a.index_of(identity);
            assert(b[k] == a[k]);
        }
    }
}

proof fn lemma_file_visits(
    known: SshFiles,
    home: HomePath,
    path: Seq<char>,
    visited: Seq<Seq<char>>,
)
    requires
        matches_in_file(known, home, path, visited) is Ok,
    ensures
        visited.is_prefix_of(matches_in_file(known, home, path, visited)->Ok_0),
    decreases unvisited(known.files@, visited), 0nat, 0nat, 0nat,
{
    let index = file_index(known.files@, path);
    let identity = known.files@[index].identity@;
    if !visited.contains(identity) {
        crate::ssh_files::lemma_visit(known.files@, visited, index);
        let contents = known.files@[index].contents.result()->Ok_0;
        lemma_lines_visit(
            known,
            home,
            path,
            text_lines(contents),
            0,
            visited.push(identity),
        );
        assert(visited.is_prefix_of(visited.push(identity)));
    }
}

proof fn lemma_lines_visit(
    known: SshFiles,
    home: HomePath,
    path: Seq<char>,
    lines: Seq<Seq<char>>,
    from: int,
    visited: Seq<Seq<char>>,
)
    requires
        0 <= from,
        matches_in_lines(known, home, path, lines, from, visited) is Ok,
    ensures
        visited.is_prefix_of(matches_in_lines(known, home, path, lines, from, visited)->Ok_0),
        forall|i: int|
            from <= i < lines.len() ==> !opens_condition(#[trigger] lines[i]),
    decreases unvisited(known.files@, visited), 1nat, lines.len() - from, 0nat,
{
    if from < lines.len() {
        match line_directive(lines[from]) {
            None => {
                lemma_lines_visit(known, home, path, lines, from + 1, visited);
            },
            Some((directive, arguments)) => {
                if lowercase(directive) == "include"@ && lowercase(directive) != "match"@ {
                    let steps = crate::ssh_files::include_steps(
                        known,
                        crate::ssh_syntax::arguments_of(arguments),
                        home,
                        0,
                    );
                    lemma_steps_visit(known, home, steps, 0, visited);
                    let now = matches_in_steps(known, home, steps, 0, visited)->Ok_0;
                    lemma_fewer_unvisited(known.files@, visited, now);
                    lemma_lines_visit(known, home, path, lines, from + 1, now);
                } else {
                    lemma_lines_visit(known, home, path, lines, from + 1, visited);
                }
            },
        }
    }
}

proof fn lemma_steps_visit(
    known: SshFiles,
    home: HomePath,
    steps: Seq<StepOf>,
    from: int,
    visited: Seq<Seq<char>>,
)
    requires
        matches_in_steps(known, home, steps, from, visited) is Ok,
    ensures
        visited.is_prefix_of(matches_in_steps(known, home, steps, from, visited)->Ok_0),
    decreases unvisited(known.files@, visited), 0nat, 1nat, steps.len() - from,
{
    if from < steps.len() {
        let path = steps[from]->Walk_0;
        lemma_file_visits(known, home, path, visited);
        let now = matches_in_file(known, home, path, visited)->Ok_0;
        lemma_fewer_unvisited(known.files@, visited, now);
        lemma_steps_visit(known, home, steps, from + 1, now);
    }
}

/// Whether a line opens a section that only holds under conditions: `Match`, in any case of
/// letters.
pub open spec fn opens_condition(line: Seq<char>) -> bool {
    line_directive(line) matches Some((directive, _)) && lowercase(directive) == "match"@
}

/// A configuration that is not refused holds no section under conditions: no line of its first
/// file opens one, however long the file is and whatever it names.
pub proof fn conditions_are_refused(
    known: SshFiles,
    home: HomePath,
    path: Seq<char>,
    contents: Seq<char>,
    i: int,
)
    requires
        match_refusal(known, home, path) is None,
        0 <= file_index(known.files@, path) < known.files@.len(),
        known.files@[file_index(known.files@, path)].contents.result() == Ok::<_, Seq<char>>(
            contents,
        ),
        0 <= i < text_lines(contents).len(),
    ensures
        !opens_condition(text_lines(contents)[i]),
{
    let index = file_index(known.files@, path);
    let identity = known.files@[index].identity@;
    let none = Seq::<Seq<char>>::empty();
    assert(!none.contains(identity));
    lemma_lines_visit(known, home, path, text_lines(contents), 0, none.push(identity));
}

// ---------------------------------------------------------------------------
// What is left for connections
// ---------------------------------------------------------------------------
/// Whether a line names files.
pub open spec fn names_files(line: Seq<char>) -> bool {
    line_directive(line) matches Some((directive, _)) && lowercase(directive) == "include"@
}

/// Whether a line asks for forwards, or for none of them.
pub open spec fn asks_for_tunnels(line: Seq<char>) -> bool {
    line_directive(line) matches Some((directive, _)) && (lowercase(directive)
        == "dynamicforward"@ || lowercase(directive) == "localforward"@ || lowercase(directive)
        == "remoteforward"@ || lowercase(directive) == "clearallforwardings"@)
}

/// A file that names no other is left as it is, line by line, but for the lines that ask for
/// forwards, which are left empty.
pub proof fn other_lines_are_left(
    known: SshFiles,
    home: HomePath,
    path: Seq<char>,
    lines: Seq<Seq<char>>,
    from: int,
    stack: Seq<Seq<char>>,
    section: Option<Seq<char>>,
)
    requires
        0 <= from <= lines.len(),
        stack.len() <= 16,
        forall|i: int| 0 <= i < lines.len() ==> !names_files(#[trigger] lines[i]),
    ensures
        source_in_lines(known, home, path, lines, from, stack, section) == Ok::<_, Stop>(
            ended_lines(
                lines.skip(from).map_values(
                    |line: Seq<char>|
                        if asks_for_tunnels(line) {
                            Seq::empty()
                        } else {
                            line
                        },
                ),
            ),
        ),
    decreases lines.len() - from,
{
    let kept = |line: Seq<char>|
        if asks_for_tunnels(line) {
            Seq::<char>::empty()
        } else {
            line
        };
    let part = lines.skip(from).map_values(kept);
    if from < lines.len() {
        let line = lines[from];
        assert(!names_files(line));
        let now = match line_directive(line) {
            Some((directive, _)) => if lowercase(directive) == "host"@ {
                Some(line)
            } else {
                section
            },
            None => section,
        };
        other_lines_are_left(known, home, path, lines, from + 1, stack, now);
        assert(part[0] == kept(line));
        assert(part.drop_first() =~= lines.skip(from + 1).map_values(kept));
        assert(line.push('\n') =~= line + seq!['\n']);
        assert(seq!['\n'] =~= Seq::<char>::empty() + seq!['\n']);
    } else {
        assert(part =~= Seq::empty());
    }
}

// ---------------------------------------------------------------------------
// The order of files
// ---------------------------------------------------------------------------
proof fn lemma_parts_one_way(a: Seq<Seq<char>>, b: Seq<Seq<char>>, from: int)
    requires
        0 <= from,
        parts_before(a, b, from),
    ensures
        !parts_before(b, a, from),
    decreases b.len() - from,
{
    if from < a.len() && a[from] == b[from] {
        lemma_parts_one_way(a, b, from + 1);
    } else if from < a.len() {
        lemma_text_one_way(a[from], b[from]);
    }
}

proof fn lemma_text_one_way(a: Seq<char>, b: Seq<char>)
    ensures
        text::text_before(a, b) ==> !text::text_before(b, a),
{
    text::text_order_is_strict(a);
    if text::text_before(a, b) && text::text_before(b, a) {
        text::text_order_is_transitive(a, b, a);
    }
}

proof fn lemma_one_way(style: PathStyle, a: Seq<char>, b: Seq<char>)
    requires
        path_before(style, a, b),
    ensures
        !path_before(style, b, a),
{
    let (x, y) = (path_parts(style, a), path_parts(style, b));
    if parts_before(x, y, 0) {
        lemma_parts_one_way(x, y, 0);
    }
    match (prefix_of(style, a), prefix_of(style, b)) {
        (Some(p), Some(q)) => {
            lemma_text_one_way(p.first, q.first);
            lemma_text_one_way(p.second, q.second);
        },
        _ => {},
    }
}

/// No path stands right behind one that comes after it.
pub open spec fn is_in_order(style: PathStyle, list: Seq<Seq<char>>) -> bool {
    forall|i: int| #![trigger list[i]] 0 < i < list.len() ==> !path_before(
        style,
        list[i],
        list[i - 1],
    )
}

proof fn lemma_inserted_in_order(style: PathStyle, sorted: Seq<Seq<char>>, path: Seq<char>)
    requires
        is_in_order(style, sorted),
    ensures
        is_in_order(style, with_path(style, sorted, path)),
        with_path(style, sorted, path).len() == sorted.len() + 1,
        with_path(style, sorted, path).last() == path || (sorted.len() > 0 && with_path(
            style,
            sorted,
            path,
        ).last() == sorted.last()),
    decreases sorted.len(),
{
    let r = with_path(style, sorted, path);
    if sorted.len() > 0 && path_before(style, path, sorted.last()) {
        let front = sorted.drop_last();
        assert(is_in_order(style, front)) by {
            assert forall|i: int| #![trigger front[i]] 0 < i < front.len() implies !path_before(
                style,
                front[i],
                front[i - 1],
            ) by {
                assert(front[i] == sorted[i] && front[i - 1] == sorted[i - 1]);
            }
        }
        lemma_inserted_in_order(style, front, path);
        let inner = with_path(style, front, path);
        lemma_one_way(style, path, sorted.last());
        assert(sorted[sorted.len() - 1] == sorted.last());
        assert forall|i: int| #![trigger r[i]] 0 < i < r.len() implies !path_before(
            style,
            r[i],
            r[i - 1],
        ) by {
            if i < inner.len() {
                assert(r[i] == inner[i] && r[i - 1] == inner[i - 1]);
            } else {
                assert(r[i] == sorted.last());
                assert(r[i - 1] == inner.last());
                if inner.last() != path {
                    assert(front.last() == sorted[sorted.len() - 2]);
                }
            }
        }
    } else {
        assert forall|i: int| #![trigger r[i]] 0 < i < r.len() implies !path_before(
            style,
            r[i],
            r[i - 1],
        ) by {
            if i < sorted.len() {
                assert(r[i] == sorted[i] && r[i - 1] == sorted[i - 1]);
            } else {
                assert(r[i] == path);
                assert(r[i - 1] == sorted.last());
            }
        }
    }
}

/// The files of a pattern are taken in the order of their paths.
pub proof fn files_come_in_order(style: PathStyle, list: Seq<Seq<char>>)
    ensures
        is_in_order(style, sorted_paths(style, list)),
        sorted_paths(style, list).len() == list.len(),
    decreases list.len(),
{
    if list.len() > 0 {
        files_come_in_order(style, list.drop_last());
        lemma_inserted_in_order(style, sorted_paths(style, list.drop_last()), list.last());
    }
}

} // verus!
