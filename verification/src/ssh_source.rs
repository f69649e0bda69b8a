//! The text that connections are configured by: every file in place of the line that names it,
//! and no forwards.
use crate::paths::HomePath;
use crate::ssh_files::{configured_source, file_index, first_file, line_directive, opened, section_line,
    source_in_file, source_in_lines, source_in_steps, source_steps, SshFiles, StepOf, Stop,
    MAX_INCLUDE_DEPTH};
use crate::ssh_syntax::{arguments_of, first_separator, is_about_forwards, without_comment};
use crate::text;
use crate::text::{digits_up_to, first_index, is_white_space, lemma_first_index,
    lemma_first_index_unique, lowercase, text_lines, trim_end_of, trim_start_of, trimmed,
    without_return, CharClass};
use vstd::prelude::*;

verus! {

/// Whether a line holds the directive with a name, which is in lower case.
pub open spec fn holds_directive(line: Seq<char>, name: Seq<char>) -> bool {
    line_directive(line) matches Some((directive, _)) && lowercase(directive) == name
}

/// Whether a line asks for files.
pub open spec fn asks_for_files(line: Seq<char>) -> bool {
    holds_directive(line, "include"@)
}

/// Whether a line asks for forwards, or for none.
pub open spec fn asks_for_forwards(line: Seq<char>) -> bool {
    line_directive(line) matches Some((directive, _)) && is_about_forwards(directive)
}

/// Whether no line of a text asks for files.
pub open spec fn names_no_files(source: Seq<char>) -> bool {
    forall|i: int|
        0 <= i < text_lines(source).len() ==> !asks_for_files(#[trigger] text_lines(source)[i])
}

/// Whether no line of a text asks for forwards, or for none.
pub open spec fn names_no_forwards(source: Seq<char>) -> bool {
    forall|i: int|
        0 <= i < text_lines(source).len() ==> !asks_for_forwards(#[trigger] text_lines(source)[i])
}

/// The Kelvin sign, which is a `k` in lower case.
pub const KELVIN_SIGN: char = '\u{212a}';

/// Whether every number in a text fits into 32 bits.
pub open spec fn holds_small_numbers(s: Seq<char>) -> bool {
    forall|i: int, j: int|
        0 <= i < j <= s.len() && text::all_digits(#[trigger] s.subrange(i, j)) ==> digits_up_to(
            s.subrange(i, j),
            u32::MAX as nat,
        ) is Some
}

/// Whether a line means the same on every machine: it names no home directory by a tilde where
/// a path stands, holds no directive that only some systems know, and counts no further than a
/// machine word everywhere can.
pub open spec fn is_portable_line(line: Seq<char>) -> bool {
    match line_directive(line) {
        None => true,
        Some((directive, _)) => {
            let name = lowercase(directive);
            &&& name != "usekeychain"@
            &&& !directive.contains(KELVIN_SIGN)
            &&& name == "identityfile"@ ==> !line.contains('~')
            &&& (name == "connecttimeout"@ || name == "connectionattempts"@ || name
                == "serveraliveinterval"@) ==> holds_small_numbers(line)
        },
    }
}

/// Whether every line of a text means the same on every machine.
pub open spec fn rests_on_text(source: Seq<char>) -> bool {
    forall|i: int|
        0 <= i < text_lines(source).len() ==> is_portable_line(#[trigger] text_lines(source)[i])
}

// ---------------------------------------------------------------------------
// Lines that are put together
// ---------------------------------------------------------------------------
/// A text of whole lines.
spec fn is_whole(s: Seq<char>) -> bool {
    s.len() == 0 || s.last() == '\n'
}

/// A line that asks for nothing but settings.
spec fn is_plain_line(line: Seq<char>) -> bool {
    !asks_for_files(line) && !asks_for_forwards(line)
}

/// A text of whole lines that ask for nothing but settings.
spec fn is_plain_text(s: Seq<char>) -> bool {
    is_whole(s) && forall|i: int|
        0 <= i < text_lines(s).len() ==> is_plain_line(#[trigger] text_lines(s)[i])
}

proof fn lemma_lines_of_both(a: Seq<char>, b: Seq<char>)
    requires
        is_whole(a),
    ensures
        text_lines(a + b) == text_lines(a) + text_lines(b),
    decreases a.len(),
{
    if a.len() == 0 {
        assert(a + b =~= b);
        assert(text_lines(a) + text_lines(b) =~= text_lines(b));
    } else {
        let i = first_index(a, '\n');
        lemma_first_index(a, '\n');
        if i == a.len() {
            assert(a[a.len() - 1] == '\n');
        }
        assert(i < a.len());
        lemma_first_index_unique(a + b, '\n', i);
        assert((a + b).take(i) =~= a.take(i));
        let rest = a.skip(i + 1);
        assert((a + b).skip(i + 1) =~= rest + b);
        assert(rest.len() > 0 ==> rest.last() == a.last());
        lemma_lines_of_both(rest, b);
        assert(text_lines(a + b) =~= text_lines(a) + text_lines(b));
    }
}

proof fn lemma_plain_both(a: Seq<char>, b: Seq<char>)
    requires
        is_plain_text(a),
        is_plain_text(b),
    ensures
        is_plain_text(a + b),
{
    lemma_lines_of_both(a, b);
    let all = text_lines(a + b);
    let n = text_lines(a).len() as int;
    assert forall|i: int| 0 <= i < all.len() implies is_plain_line(#[trigger] all[i]) by {
        if i < n {
            assert(all[i] == text_lines(a)[i]);
        } else {
            assert(all[i] == text_lines(b)[i - n]);
        }
    }
    if b.len() > 0 {
        assert((a + b).last() == b.last());
    } else {
        assert(a + b =~= a);
    }
}

proof fn lemma_comment_before_return(line: Seq<char>, quoted: bool, escaped: bool)
    ensures
        ({
            let kept = without_comment(line, quoted, escaped);
            let now = without_comment(line.push('\r'), quoted, escaped);
            now == kept || now == kept.push('\r')
        }),
    decreases line.len(),
{
    let longer = line.push('\r');
    if line.len() == 0 {
        assert(longer.drop_first() =~= Seq::<char>::empty());
        assert(without_comment(longer.drop_first(), quoted, false) == Seq::<char>::empty());
        assert(seq!['\r'] + Seq::<char>::empty() =~= Seq::<char>::empty().push('\r'));
    } else {
        let c = line[0];
        let rest = line.drop_first();
        assert(longer[0] == c);
        assert(longer.drop_first() =~= rest.push('\r'));
        let now_quoted = if !escaped && c == '"' {
            !quoted
        } else {
            quoted
        };
        let now_escaped = !escaped && c == '\\' && quoted;
        lemma_comment_before_return(rest, now_quoted, now_escaped);
        let kept = without_comment(rest, now_quoted, now_escaped);
        assert(seq![c] + kept.push('\r') =~= (seq![c] + kept).push('\r'));
    }
}

proof fn lemma_trim_start_before(s: Seq<char>, c: char)
    requires
        is_white_space(c),
    ensures
        trim_end_of(CharClass::WhiteSpace, trim_start_of(CharClass::WhiteSpace, s.push(c)))
            == trim_end_of(CharClass::WhiteSpace, trim_start_of(CharClass::WhiteSpace, s)),
    decreases s.len(),
{
    let longer = s.push(c);
    if s.len() == 0 {
        assert(longer.drop_first() =~= Seq::<char>::empty());
        assert(trim_start_of(CharClass::WhiteSpace, longer.drop_first()) == longer.drop_first());
    } else if is_white_space(s[0]) {
        assert(longer.drop_first() =~= s.drop_first().push(c));
        lemma_trim_start_before(s.drop_first(), c);
    } else {
        assert(longer[0] == s[0]);
        assert(longer.drop_last() =~= s);
        assert(longer.last() == c);
    }
}

proof fn lemma_return_says_nothing(line: Seq<char>)
    ensures
        line_directive(without_return(line)) == line_directive(line),
{
    if line.len() > 0 && line.last() == '\r' {
        let shorter = line.drop_last();
        assert(shorter.push('\r') =~= line);
        lemma_comment_before_return(shorter, false, false);
        lemma_trim_start_before(without_comment(shorter, false, false), '\r');
    }
}

proof fn lemma_plain_line(line: Seq<char>)
    requires
        is_plain_line(line),
        !line.contains('\n'),
    ensures
        is_plain_text(line.push('\n')),
{
    let s = line.push('\n');
    let n = line.len() as int;
    assert forall|j: int| 0 <= j < n implies s[j] != '\n' by {
        assert(s[j] == line[j]);
        assert(line.contains(line[j]));
    }
    lemma_first_index_unique(s, '\n', n);
    assert(s.take(n) =~= line);
    assert(s.skip(n + 1) =~= Seq::<char>::empty());
    assert(text_lines(s.skip(n + 1)) =~= Seq::<Seq<char>>::empty());
    assert(text_lines(s) =~= seq![without_return(line)]);
    lemma_return_says_nothing(line);
}

proof fn lemma_lines_hold_no_feed(s: Seq<char>, i: int)
    requires
        0 <= i < text_lines(s).len(),
    ensures
        !text_lines(s)[i].contains('\n'),
    decreases s.len(),
{
    let k = first_index(s, '\n');
    lemma_first_index(s, '\n');
    if k < s.len() {
        if i == 0 {
            let line = without_return(s.take(k));
            assert(text_lines(s)[0] == line);
            assert forall|j: int| 0 <= j < line.len() implies line[j] != '\n' by {
                assert(line[j] == s[j]);
            }
        } else {
            assert(text_lines(s)[i] == text_lines(s.skip(k + 1))[i - 1]);
            lemma_lines_hold_no_feed(s.skip(k + 1), i - 1);
        }
    } else {
        assert(text_lines(s)[i] == s);
    }
}

proof fn lemma_line_for_all_hosts()
    ensures
        is_plain_line("Host *"@),
        !"Host *"@.contains('\n'),
{
    reveal_strlit("Host *");
    reveal_strlit("host");
    reveal_strlit("include");
    let line = "Host *"@;
    let host = seq!['H', 'o', 's', 't'];
    reveal_with_fuel(without_comment, 7);
    assert(without_comment(line, false, false) =~= line) by {
        assert(line.drop_first() =~= seq!['o', 's', 't', ' ', '*']);
        assert(line.drop_first().drop_first() =~= seq!['s', 't', ' ', '*']);
        assert(line.drop_first().drop_first().drop_first() =~= seq!['t', ' ', '*']);
        assert(line.drop_first().drop_first().drop_first().drop_first() =~= seq![' ', '*']);
        assert(line.drop_first().drop_first().drop_first().drop_first().drop_first() =~= seq!['*']);
    }
    assert(trim_start_of(CharClass::WhiteSpace, line) == line);
    assert(trim_end_of(CharClass::WhiteSpace, line) == line);
    reveal_with_fuel(first_separator, 6);
    assert(first_separator(line) == 4) by {
        assert(line.drop_first() =~= seq!['o', 's', 't', ' ', '*']);
        assert(line.drop_first().drop_first() =~= seq!['s', 't', ' ', '*']);
        assert(line.drop_first().drop_first().drop_first() =~= seq!['t', ' ', '*']);
        assert(line.drop_first().drop_first().drop_first().drop_first() =~= seq![' ', '*']);
    }
    assert(line.take(4) =~= host);
    assert(lowercase(host) =~= "host"@);
    lemma_host_is_plain(line);
}

proof fn lemma_host_is_plain(line: Seq<char>)
    requires
        holds_directive(line, "host"@),
    ensures
        is_plain_line(line),
{
    reveal_strlit("host");
    reveal_strlit("include");
    reveal_strlit("localforward");
    reveal_strlit("remoteforward");
    reveal_strlit("dynamicforward");
    reveal_strlit("clearallforwardings");
    assert("host"@.len() == 4 && "include"@.len() == 7);
}

/// A section's first line that can be written again.
spec fn is_section(section: Option<Seq<char>>) -> bool {
    section matches Some(line) ==> is_plain_line(line) && !line.contains('\n')
}

proof fn lemma_plain_file(
    known: SshFiles,
    home: HomePath,
    path: Seq<char>,
    stack: Seq<Seq<char>>,
    section: Option<Seq<char>>,
)
    requires
        is_section(section),
        source_in_file(known, home, path, stack, section) is Ok,
    ensures
        is_plain_text(source_in_file(known, home, path, stack, section)->Ok_0),
    decreases MAX_INCLUDE_DEPTH + 1 - stack.len(), 0nat, 0nat, 0nat,
{
    let (identity, lines) = opened(known, path, stack)->Ok_0;
    let index = file_index(known.files@, path);
    let contents = known.files@[index].contents.result()->Ok_0;
    assert forall|i: int| 0 <= i < lines.len() implies !(#[trigger] lines[i]).contains('\n') by {
        lemma_lines_hold_no_feed(contents, i);
    }
    lemma_plain_lines(known, home, path, lines, 0, stack.push(identity), section);
}

proof fn lemma_plain_lines(
    known: SshFiles,
    home: HomePath,
    path: Seq<char>,
    lines: Seq<Seq<char>>,
    from: int,
    stack: Seq<Seq<char>>,
    section: Option<Seq<char>>,
)
    requires
        0 <= from,
        forall|i: int| 0 <= i < lines.len() ==> !(#[trigger] lines[i]).contains('\n'),
        is_section(section),
        source_in_lines(known, home, path, lines, from, stack, section) is Ok,
    ensures
        is_plain_text(source_in_lines(known, home, path, lines, from, stack, section)->Ok_0),
    decreases MAX_INCLUDE_DEPTH + 1 - stack.len(), 1nat, lines.len() - from, 0nat,
{
    if from >= lines.len() || stack.len() > MAX_INCLUDE_DEPTH {
        assert(text_lines(Seq::<char>::empty()) =~= Seq::<Seq<char>>::empty());
    } else {
        let line = lines[from];
        let now = match line_directive(line) {
            Some((directive, _)) => if lowercase(directive) == "host"@ {
                Some(line)
            } else {
                section
            },
            None => section,
        };
        if holds_directive(line, "host"@) {
            lemma_host_is_plain(line);
        }
        assert(is_section(now));
        lemma_plain_lines(known, home, path, lines, from + 1, stack, now);
        let rest = source_in_lines(known, home, path, lines, from + 1, stack, now)->Ok_0;
        match line_directive(line) {
            None => {
                lemma_plain_line(line);
                lemma_plain_both(line.push('\n'), rest);
            },
            Some((directive, arguments)) => {
                if lowercase(directive) == "include"@ {
                    let steps = source_steps(known, arguments_of(arguments), home, 0);
                    lemma_plain_steps(known, home, steps, 0, stack, now);
                    lemma_plain_both(
                        source_in_steps(known, home, steps, 0, stack, now)->Ok_0,
                        rest,
                    );
                } else if is_about_forwards(directive) {
                    let nothing = Seq::<char>::empty();
                    assert(trimmed(without_comment(nothing, false, false)) =~= nothing);
                    lemma_plain_line(nothing);
                    assert(nothing.push('\n') =~= seq!['\n']);
                    lemma_plain_both(seq!['\n'], rest);
                } else {
                    lemma_plain_line(line);
                    lemma_plain_both(line.push('\n'), rest);
                }
            },
        }
    }
}

proof fn lemma_plain_steps(
    known: SshFiles,
    home: HomePath,
    steps: Seq<StepOf>,
    from: int,
    stack: Seq<Seq<char>>,
    section: Option<Seq<char>>,
)
    requires
        0 <= from,
        is_section(section),
        source_in_steps(known, home, steps, from, stack, section) is Ok,
    ensures
        is_plain_text(source_in_steps(known, home, steps, from, stack, section)->Ok_0),
    decreases MAX_INCLUDE_DEPTH + 1 - stack.len(), 0nat, 1nat, steps.len() - from,
{
    if from >= steps.len() || stack.len() > MAX_INCLUDE_DEPTH {
        assert(text_lines(Seq::<char>::empty()) =~= Seq::<Seq<char>>::empty());
    } else {
        match steps[from] {
            StepOf::Halt(_) => {},
            StepOf::Walk(path) => {
                lemma_plain_file(known, home, path, stack, section);
                lemma_plain_steps(known, home, steps, from + 1, stack, section);
                let text = source_in_file(known, home, path, stack, section)->Ok_0;
                let rest = source_in_steps(known, home, steps, from + 1, stack, section)->Ok_0;
                lemma_line_for_all_hosts();
                lemma_plain_line(section_line(section));
                lemma_plain_both(text, section_line(section).push('\n'));
                lemma_plain_both(text + section_line(section).push('\n'), rest);
            },
        }
    }
}

/// The text that connections are configured by asks for no files and for no forwards: the files
/// stand in it, and the forwards are left out.
pub proof fn sources_are_complete(
    known: SshFiles,
    home: HomePath,
    configured: Option<Seq<char>>,
    source: Seq<char>,
)
    requires
        configured_source(known, home, configured) == Ok::<_, Stop>(Some(source)),
    ensures
        names_no_files(source),
        names_no_forwards(source),
{
    let path = first_file(configured, home);
    lemma_plain_file(known, home, path, Seq::empty(), None);
    assert(is_plain_text(source));
    assert forall|i: int| 0 <= i < text_lines(source).len() implies !asks_for_files(
        #[trigger] text_lines(source)[i],
    ) && !asks_for_forwards(text_lines(source)[i]) by {
        assert(is_plain_line(text_lines(source)[i]));
    }
}

} // verus!
