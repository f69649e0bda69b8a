//! Text as a sequence of characters: trimming, splitting, joining and numerals.
use vstd::prelude::*;

verus! {

/// `String::push` appends one character.
pub assume_specification[ String::push ](string: &mut String, character: char)
    ensures
        final(string)@ == old(string)@.push(character),
;

// ---------------------------------------------------------------------------
// Character classes
// ---------------------------------------------------------------------------
/// The characters that Unicode gives the `White_Space` property.
#[verifier::allow_in_spec]
pub fn is_white_space(c: char) -> bool
    returns
        ('\u{9}' <= c <= '\u{d}' || c == ' ' || c == '\u{85}' || c == '\u{a0}' || c == '\u{1680}'
            || '\u{2000}' <= c <= '\u{200a}' || c == '\u{2028}' || c == '\u{2029}'
            || c == '\u{202f}' || c == '\u{205f}' || c == '\u{3000}'),
{
    ('\u{9}' <= c && c <= '\u{d}') || c == ' ' || c == '\u{85}' || c == '\u{a0}' || c == '\u{1680}'
        || ('\u{2000}' <= c && c <= '\u{200a}') || c == '\u{2028}' || c == '\u{2029}'
        || c == '\u{202f}' || c == '\u{205f}' || c == '\u{3000}'
}

/// A decimal digit of ASCII.
#[verifier::allow_in_spec]
pub fn is_digit(c: char) -> bool
    returns
        '0' <= c <= '9',
{
    '0' <= c && c <= '9'
}

/// A hexadecimal digit of ASCII, in either case.
#[verifier::allow_in_spec]
pub fn is_hex_digit(c: char) -> bool
    returns
        ('0' <= c <= '9' || 'a' <= c <= 'f' || 'A' <= c <= 'F'),
{
    ('0' <= c && c <= '9') || ('a' <= c && c <= 'f') || ('A' <= c && c <= 'F')
}

/// The characters that a trim takes away.
#[derive(Clone, Copy, PartialEq, Eq, Structural)]
pub enum CharClass {
    /// Unicode white space.
    WhiteSpace,
    /// `[` and `]`.
    Bracket,
    /// Unicode white space and `=`.
    Separator,
}

impl CharClass {
    /// Whether `c` belongs to the class.
    #[verifier::allow_in_spec]
    pub fn has(self, c: char) -> bool
        returns
            (match self {
                CharClass::WhiteSpace => is_white_space(c),
                CharClass::Bracket => c == '[' || c == ']',
                CharClass::Separator => is_white_space(c) || c == '=',
            }),
    {
        match self {
            CharClass::WhiteSpace => is_white_space(c),
            CharClass::Bracket => c == '[' || c == ']',
            CharClass::Separator => is_white_space(c) || c == '=',
        }
    }
}

// ---------------------------------------------------------------------------
// Whole texts
// ---------------------------------------------------------------------------
/// The contents of a list of strings.
pub open spec fn texts(list: Seq<String>) -> Seq<Seq<char>> {
    list.map_values(|s: String| s@)
}

/// The contents of an optional string.
pub open spec fn text_option(value: Option<String>) -> Option<Seq<char>> {
    match value {
        Some(s) => Some(s@),
        None => None,
    }
}

/// The characters of `s`.
pub fn chars_of(s: &str) -> (r: Vec<char>)
    ensures
        r@ == s@,
{
    let mut r: Vec<char> = Vec::new();
    for c in it: s.chars()
        invariant
            r@ == s@.take(it.index()),
            it.seq() == s@,
    {
        r.push(c);
    }
    r
}

/// Whether two texts hold the same characters.
pub fn same_text(a: &str, b: &str) -> (r: bool)
    ensures
        r == (a@ == b@),
{
    let x = chars_of(a);
    let y = chars_of(b);
    if x.len() != y.len() {
        return false;
    }
    for i in 0..x.len()
        invariant
            x@ == a@,
            y@ == b@,
            x@.len() == y@.len(),
            x@.take(i as int) == y@.take(i as int),
    {
        if x[i] != y[i] {
            assert(a@[i as int] != b@[i as int]);
            return false;
        }
        assert(x@.take(i + 1) == x@.take(i as int).push(x@[i as int]));
        assert(y@.take(i + 1) == y@.take(i as int).push(y@[i as int]));
    }
    assert(x@.take(x@.len() as int) == x@);
    assert(y@.take(y@.len() as int) == y@);
    true
}

/// Whether the list `list` holds the text `s`.
pub fn contains_text(list: &Vec<String>, s: &str) -> (r: bool)
    ensures
        r == texts(list@).contains(s@),
{
    for i in 0..list.len()
        invariant
            forall|j: int| 0 <= j < i ==> texts(list@)[j] != s@,
    {
        if same_text(list[i].as_str(), s) {
            assert(texts(list@)[i as int] == s@);
            return true;
        }
    }
    false
}

/// A copy of a list of strings.
pub fn copy_texts(list: &Vec<String>) -> (r: Vec<String>)
    ensures
        r@ == list@,
{
    let mut r: Vec<String> = Vec::new();
    for i in 0..list.len()
        invariant
            r@ == list@.take(i as int),
    {
        r.push(list[i].clone());
        assert(list@.take(i + 1) == list@.take(i as int).push(list@[i as int]));
    }
    assert(list@.take(list@.len() as int) == list@);
    r
}

/// A copy of an optional string.
pub fn copy_text_option(value: &Option<String>) -> (r: Option<String>)
    ensures
        r == *value,
{
    match value {
        Some(s) => Some(s.clone()),
        None => None,
    }
}

/// Two texts, one after the other.
pub fn concat2(a: &str, b: &str) -> (r: String)
    ensures
        r@ == a@ + b@,
{
    let mut r = a.to_owned();
    r.append(b);
    r
}

/// Three texts, one after the other.
pub fn concat3(a: &str, b: &str, c: &str) -> (r: String)
    ensures
        r@ == a@ + b@ + c@,
{
    let mut r = a.to_owned();
    r.append(b);
    r.append(c);
    r
}

/// Four texts, one after the other.
pub fn concat4(a: &str, b: &str, c: &str, d: &str) -> (r: String)
    ensures
        r@ == a@ + b@ + c@ + d@,
{
    let mut r = a.to_owned();
    r.append(b);
    r.append(c);
    r.append(d);
    r
}

// ---------------------------------------------------------------------------
// Order
// ---------------------------------------------------------------------------
/// Whether `a` comes before `b` in the order of texts by their characters, from the first on.
pub open spec fn text_before(a: Seq<char>, b: Seq<char>) -> bool
    decreases b.len(),
{
    if b.len() == 0 {
        false
    } else if a.len() == 0 {
        true
    } else if a[0] != b[0] {
        a[0] < b[0]
    } else {
        text_before(a.drop_first(), b.drop_first())
    }
}

/// The order of texts is strict.
pub proof fn text_order_is_strict(a: Seq<char>)
    ensures
        !text_before(a, a),
    decreases a.len(),
{
    if a.len() > 0 {
        text_order_is_strict(a.drop_first());
    }
}

/// Of two different texts one comes before the other.
pub proof fn text_order_is_total(a: Seq<char>, b: Seq<char>)
    ensures
        a == b || text_before(a, b) || text_before(b, a),
        !(text_before(a, b) && text_before(b, a)),
    decreases b.len(),
{
    if a.len() > 0 && b.len() > 0 && a[0] == b[0] {
        text_order_is_total(a.drop_first(), b.drop_first());
        if a.drop_first() == b.drop_first() {
            assert(a =~= seq![a[0]] + a.drop_first());
            assert(b =~= seq![b[0]] + b.drop_first());
        }
    } else if a.len() == 0 && b.len() == 0 {
        assert(a =~= b);
    }
}

/// The order of texts is transitive.
pub proof fn text_order_is_transitive(a: Seq<char>, b: Seq<char>, c: Seq<char>)
    requires
        text_before(a, b),
        text_before(b, c),
    ensures
        text_before(a, c),
    decreases b.len(),
{
    if a.len() > 0 && c.len() > 0 && a[0] == b[0] && b[0] == c[0] {
        text_order_is_transitive(a.drop_first(), b.drop_first(), c.drop_first());
    }
}

/// Whether `a` comes before `b`.
pub fn is_before(a: &str, b: &str) -> (r: bool)
    ensures
        r == text_before(a@, b@),
{
    let x = chars_of(a);
    let y = chars_of(b);
    let mut i: usize = 0;
    assert(a@.skip(0) == a@);
    assert(b@.skip(0) == b@);
    while i < x.len() && i < y.len()
        invariant
            x@ == a@,
            y@ == b@,
            i <= x@.len(),
            i <= y@.len(),
            text_before(a@, b@) == text_before(a@.skip(i as int), b@.skip(i as int)),
        decreases x@.len() - i,
    {
        if x[i] != y[i] {
            return x[i] < y[i];
        }
        assert(a@.skip(i as int).drop_first() == a@.skip(i + 1));
        assert(b@.skip(i as int).drop_first() == b@.skip(i + 1));
        i = i + 1;
    }
    i < y.len()
}

// ---------------------------------------------------------------------------
// Case
// ---------------------------------------------------------------------------
/// The ASCII lower case of one character.
pub open spec fn lower_char(c: char) -> char {
    if 'A' <= c <= 'Z' {
        (c as u32 + 32) as char
    } else {
        c
    }
}

/// The ASCII lower case of a text.
pub open spec fn lowercase(s: Seq<char>) -> Seq<char> {
    s.map_values(|c: char| lower_char(c))
}

/// Puts ASCII capitals in lower case.
pub fn to_lowercase(s: &str) -> (r: String)
    ensures
        r@ == lowercase(s@),
{
    let mut r = String::new();
    for c in it: s.chars()
        invariant
            it.seq() == s@,
            r@ == lowercase(s@.take(it.index())),
    {
        let lower: char = if 'A' <= c && c <= 'Z' {
            (c as u8 + 32u8) as char
        } else {
            c
        };
        r.push(lower);
        assert(s@.take(it.index() + 1) == s@.take(it.index()).push(c));
    }
    assert(s@.take(s@.len() as int) == s@);
    r
}

/// Whether two texts agree up to the case of ASCII letters.
pub fn same_text_ignoring_case(a: &str, b: &str) -> (r: bool)
    ensures
        r == (lowercase(a@) == lowercase(b@)),
{
    let x = to_lowercase(a);
    let y = to_lowercase(b);
    same_text(x.as_str(), y.as_str())
}

// ---------------------------------------------------------------------------
// Trimming
// ---------------------------------------------------------------------------
/// `s` without the characters of `class` in front.
pub open spec fn trim_start_of(class: CharClass, s: Seq<char>) -> Seq<char>
    decreases s.len(),
{
    if s.len() > 0 && class.has(s[0]) {
        trim_start_of(class, s.drop_first())
    } else {
        s
    }
}

/// `s` without the characters of `class` at the end.
pub open spec fn trim_end_of(class: CharClass, s: Seq<char>) -> Seq<char>
    decreases s.len(),
{
    if s.len() > 0 && class.has(s.last()) {
        trim_end_of(class, s.drop_last())
    } else {
        s
    }
}

/// `s` without the characters of `class` at either end.
pub open spec fn trim_of(class: CharClass, s: Seq<char>) -> Seq<char> {
    trim_end_of(class, trim_start_of(class, s))
}

/// `s` without white space at either end.
pub open spec fn trimmed(s: Seq<char>) -> Seq<char> {
    trim_of(CharClass::WhiteSpace, s)
}

/// A text that ends outside a class keeps its end.
pub proof fn lemma_trim_keeps_the_end(class: CharClass, s: Seq<char>)
    requires
        s.len() > 0,
        !class.has(s.last()),
    ensures
        trim_of(class, s) == trim_start_of(class, s),
        trim_of(class, s).len() > 0,
        trim_of(class, s).last() == s.last(),
        !class.has(s[0]) ==> trim_of(class, s) == s,
    decreases s.len(),
{
    if class.has(s[0]) {
        lemma_trim_keeps_the_end(class, s.drop_first());
    }
}

/// Takes the characters of `class` away in front.
pub fn trim_start<'a>(class: CharClass, s: &'a str) -> (r: &'a str)
    ensures
        r@ == trim_start_of(class, s@),
{
    let chars = chars_of(s);
    let mut i: usize = 0;
    assert(s@.skip(0) == s@);
    while i < chars.len() && class.has(chars[i])
        invariant
            i <= chars@.len(),
            chars@ == s@,
            trim_start_of(class, s@) == trim_start_of(class, s@.skip(i as int)),
        decreases chars@.len() - i,
    {
        assert(s@.skip(i as int).drop_first() == s@.skip(i + 1));
        i = i + 1;
    }
    assert(s@.skip(i as int) == s@.subrange(i as int, s@.len() as int));
    s.substring_char(i, chars.len())
}

/// Takes the characters of `class` away at the end.
pub fn trim_end<'a>(class: CharClass, s: &'a str) -> (r: &'a str)
    ensures
        r@ == trim_end_of(class, s@),
{
    let chars = chars_of(s);
    let mut i: usize = chars.len();
    assert(s@.take(i as int) == s@);
    while i > 0 && class.has(chars[i - 1])
        invariant
            i <= chars@.len(),
            chars@ == s@,
            trim_end_of(class, s@) == trim_end_of(class, s@.take(i as int)),
        decreases i,
    {
        assert(s@.take(i as int).drop_last() == s@.take(i - 1));
        i = i - 1;
    }
    assert(s@.take(i as int) == s@.subrange(0, i as int));
    s.substring_char(0, i)
}

/// Takes the characters of `class` away at both ends.
pub fn trim_class<'a>(class: CharClass, s: &'a str) -> (r: &'a str)
    ensures
        r@ == trim_of(class, s@),
{
    trim_end(class, trim_start(class, s))
}

/// Takes white space away at both ends.
pub fn trim<'a>(s: &'a str) -> (r: &'a str)
    ensures
        r@ == trimmed(s@),
{
    trim_class(CharClass::WhiteSpace, s)
}

// ---------------------------------------------------------------------------
// Prefixes and splits
// ---------------------------------------------------------------------------
/// What follows `prefix` in `s`, where `s` starts with it.
pub open spec fn without_prefix(s: Seq<char>, prefix: Seq<char>) -> Option<Seq<char>> {
    if prefix.len() <= s.len() && s.take(prefix.len() as int) == prefix {
        Some(s.skip(prefix.len() as int))
    } else {
        None
    }
}

/// The text after `prefix`, or `None` where `s` does not start with it.
pub fn strip_prefix<'a>(s: &'a str, prefix: &str) -> (r: Option<&'a str>)
    ensures
        (match r {
            Some(rest) => without_prefix(s@, prefix@) == Some(rest@),
            None => without_prefix(s@, prefix@) is None,
        }),
{
    let n: usize = s.unicode_len();
    let k: usize = prefix.unicode_len();
    if n < k {
        return None;
    }
    let head = s.substring_char(0, k);
    assert(head@ == s@.take(k as int));
    if same_text(head, prefix) {
        let rest = s.substring_char(k, n);
        assert(rest@ == s@.skip(k as int));
        Some(rest)
    } else {
        None
    }
}

/// Where `c` first stands in `s`; the length of `s` where it does not.
pub open spec fn first_index(s: Seq<char>, c: char) -> int
    decreases s.len(),
{
    if s.len() == 0 || s[0] == c {
        0
    } else {
        1 + first_index(s.drop_first(), c)
    }
}

/// Where `c` last stands in `s`; `-1` where it does not.
pub open spec fn last_index(s: Seq<char>, c: char) -> int
    decreases s.len(),
{
    if s.len() == 0 {
        -1
    } else if s.last() == c {
        s.len() - 1
    } else {
        last_index(s.drop_last(), c)
    }
}

pub proof fn lemma_first_index(s: Seq<char>, c: char)
    ensures
        0 <= first_index(s, c) <= s.len(),
        forall|i: int| 0 <= i < first_index(s, c) ==> s[i] != c,
        first_index(s, c) < s.len() ==> s[first_index(s, c)] == c,
        first_index(s, c) == s.len() <==> !s.contains(c),
    decreases s.len(),
{
    if s.len() > 0 && s[0] != c {
        lemma_first_index(s.drop_first(), c);
        let k = first_index(s.drop_first(), c);
        assert forall|i: int| 0 <= i < first_index(s, c) implies s[i] != c by {
            if i > 0 {
                assert(s.drop_first()[i - 1] == s[i]);
            }
        }
        if s.contains(c) {
            let i = choose|i: int| 0 <= i < s.len() && s[i] == c;
            assert(s.drop_first()[i - 1] == c);
        }
    }
}

/// An index in front of which `c` does not stand, and at which it does, is the first.
pub proof fn lemma_first_index_unique(s: Seq<char>, c: char, k: int)
    requires
        0 <= k <= s.len(),
        forall|i: int| 0 <= i < k ==> s[i] != c,
        k < s.len() ==> s[k] == c,
    ensures
        first_index(s, c) == k,
{
    lemma_first_index(s, c);
}

pub proof fn lemma_last_index(s: Seq<char>, c: char)
    ensures
        -1 <= last_index(s, c) < s.len(),
        forall|i: int| last_index(s, c) < i < s.len() ==> s[i] != c,
        last_index(s, c) >= 0 ==> s[last_index(s, c)] == c,
    decreases s.len(),
{
    if s.len() > 0 && s.last() != c {
        lemma_last_index(s.drop_last(), c);
        assert forall|i: int| last_index(s, c) < i < s.len() implies s[i] != c by {
            if i < s.len() - 1 {
                assert(s.drop_last()[i] == s[i]);
            }
        }
    }
}

/// The texts before and after the first `c` of `s`.
pub open spec fn first_split(s: Seq<char>, c: char) -> Option<(Seq<char>, Seq<char>)> {
    let i = first_index(s, c);
    if i < s.len() {
        Some((s.take(i), s.skip(i + 1)))
    } else {
        None
    }
}

/// The texts before and after the last `c` of `s`.
pub open spec fn last_split(s: Seq<char>, c: char) -> Option<(Seq<char>, Seq<char>)> {
    let i = last_index(s, c);
    if i >= 0 {
        Some((s.take(i), s.skip(i + 1)))
    } else {
        None
    }
}

/// Where `c` first stands in `s`.
pub fn find_char(s: &str, c: char) -> (r: Option<usize>)
    ensures
        (match r {
            Some(i) => i == first_index(s@, c) && i < s@.len(),
            None => first_index(s@, c) == s@.len(),
        }),
{
    let chars = chars_of(s);
    for i in 0..chars.len()
        invariant
            chars@ == s@,
            forall|j: int| 0 <= j < i ==> s@[j] != c,
    {
        if chars[i] == c {
            proof {
                lemma_first_index_unique(s@, c, i as int);
            }
            return Some(i);
        }
    }
    proof {
        lemma_first_index_unique(s@, c, s@.len() as int);
    }
    None
}

/// Splits `s` at its first `c`.
pub fn split_once<'a>(s: &'a str, c: char) -> (r: Option<(&'a str, &'a str)>)
    ensures
        (match r {
            Some((before, after)) => first_split(s@, c) == Some((before@, after@)),
            None => first_split(s@, c) is None,
        }),
{
    match find_char(s, c) {
        Some(i) => {
            let n: usize = s.unicode_len();
            let before = s.substring_char(0, i);
            let after = s.substring_char(i + 1, n);
            assert(before@ == s@.take(i as int));
            assert(after@ == s@.skip(i + 1));
            Some((before, after))
        },
        None => None,
    }
}

/// Splits `s` at its last `c`.
pub fn rsplit_once<'a>(s: &'a str, c: char) -> (r: Option<(&'a str, &'a str)>)
    ensures
        (match r {
            Some((before, after)) => last_split(s@, c) == Some((before@, after@)),
            None => last_split(s@, c) is None,
        }),
{
    let chars = chars_of(s);
    let mut i: usize = chars.len();
    assert(s@.take(i as int) == s@);
    while i > 0 && chars[i - 1] != c
        invariant
            i <= chars@.len(),
            chars@ == s@,
            last_index(s@, c) == last_index(s@.take(i as int), c),
        decreases i,
    {
        assert(s@.take(i as int).drop_last() == s@.take(i - 1));
        i = i - 1;
    }
    if i == 0 {
        return None;
    }
    let before = s.substring_char(0, i - 1);
    let after = s.substring_char(i, chars.len());
    assert(before@ == s@.take(i - 1));
    assert(after@ == s@.skip(i as int));
    Some((before, after))
}

/// Whether `pattern` stands in `s` at `at`.
pub open spec fn occurs_at(s: Seq<char>, pattern: Seq<char>, at: int) -> bool {
    0 <= at && at + pattern.len() <= s.len() && s.subrange(at, at + pattern.len()) == pattern
}

/// Where `pattern` first stands in `s`, from `from` on; `-1` where it does not.
pub open spec fn first_occurrence(s: Seq<char>, pattern: Seq<char>, from: int) -> int
    decreases s.len() - from + 1,
{
    if from + pattern.len() > s.len() {
        -1
    } else if occurs_at(s, pattern, from) {
        from
    } else {
        first_occurrence(s, pattern, from + 1)
    }
}

/// Whether `pattern` stands somewhere in `s`.
pub open spec fn occurs(s: Seq<char>, pattern: Seq<char>) -> bool {
    first_occurrence(s, pattern, 0) >= 0
}

/// Where `pattern` first stands in `s`.
pub fn find_text(s: &str, pattern: &str) -> (r: Option<usize>)
    ensures
        (match r {
            Some(i) => i == first_occurrence(s@, pattern@, 0) && i + pattern@.len() <= s@.len(),
            None => first_occurrence(s@, pattern@, 0) < 0,
        }),
{
    let n: usize = s.unicode_len();
    let k: usize = pattern.unicode_len();
    if n < k {
        return None;
    }
    let mut i: usize = 0;
    while i <= n - k
        invariant
            n == s@.len(),
            k == pattern@.len(),
            k <= n,
            i <= n - k + 1,
            first_occurrence(s@, pattern@, 0) == first_occurrence(s@, pattern@, i as int),
        decreases n - k + 1 - i,
    {
        if same_text(s.substring_char(i, i + k), pattern) {
            return Some(i);
        }
        assert(!occurs_at(s@, pattern@, i as int));
        if i == n - k {
            assert(first_occurrence(s@, pattern@, i + 1) == -1);
            return None;
        }
        i = i + 1;
    }
    None
}

/// The texts between the `c`s of `s`.
pub open spec fn pieces(s: Seq<char>, c: char) -> Seq<Seq<char>>
    decreases s.len(),
    via pieces_decreases
{
    let i = first_index(s, c);
    if i < s.len() {
        seq![s.take(i)] + pieces(s.skip(i + 1), c)
    } else {
        seq![s]
    }
}

#[via_fn]
proof fn pieces_decreases(s: Seq<char>, c: char) {
    lemma_first_index(s, c);
}

proof fn lemma_piece_ends(head: Seq<char>, rest: Seq<char>, c: char)
    requires
        !head.contains(c),
    ensures
        first_index(head + (seq![c] + rest), c) == head.len(),
        (head + (seq![c] + rest)).take(head.len() as int) == head,
        (head + (seq![c] + rest)).skip(head.len() as int + 1) == rest,
        first_index(head, c) == head.len(),
{
    let s = head + (seq![c] + rest);
    assert forall|i: int| 0 <= i < head.len() implies s[i] != c && head[i] != c by {
        assert(head.contains(head[i]));
    }
    lemma_first_index_unique(s, c, head.len() as int);
    lemma_first_index_unique(head, c, head.len() as int);
    assert(s.take(head.len() as int) =~= head);
    assert(s.skip(head.len() as int + 1) =~= rest);
}

/// Splits `s` at every `c`.
pub fn split(s: &str, c: char) -> (r: Vec<String>)
    ensures
        texts(r@) == pieces(s@, c),
{
    let chars = chars_of(s);
    let mut r: Vec<String> = Vec::new();
    let mut piece = String::new();
    assert(piece@ + chars@.skip(0) =~= s@);
    assert(texts(r@) + pieces(s@, c) =~= pieces(s@, c));
    for i in 0..chars.len()
        invariant
            chars@ == s@,
            !piece@.contains(c),
            texts(r@) + pieces(piece@ + chars@.skip(i as int), c) == pieces(s@, c),
    {
        let ghost done = texts(r@);
        let ghost head = piece@;
        let ghost rest = chars@.skip(i + 1);
        assert(chars@.skip(i as int) =~= seq![chars@[i as int]] + rest);
        if chars[i] == c {
            proof {
                lemma_piece_ends(head, rest, c);
            }
            r.push(piece);
            piece = String::new();
            assert(texts(r@) =~= done.push(head));
            assert(piece@ + rest =~= rest);
            assert(texts(r@) + pieces(rest, c) =~= done + (seq![head] + pieces(rest, c)));
        } else {
            piece.push(chars[i]);
            assert(piece@ + rest =~= head + chars@.skip(i as int));
            assert forall|j: int| 0 <= j < piece@.len() implies piece@[j] != c by {
                if j < head.len() {
                    assert(head.contains(head[j]));
                }
            }
        }
    }
    let ghost done = texts(r@);
    proof {
        lemma_piece_ends(piece@, Seq::empty(), c);
        assert(piece@ + chars@.skip(chars@.len() as int) =~= piece@);
    }
    r.push(piece);
    assert(texts(r@) =~= done + seq![piece@]);
    r
}

/// The parts in order, with `separator` between neighbours.
pub open spec fn joined(parts: Seq<Seq<char>>, separator: Seq<char>) -> Seq<char>
    decreases parts.len(),
{
    if parts.len() == 0 {
        Seq::empty()
    } else if parts.len() == 1 {
        parts[0]
    } else {
        joined(parts.drop_last(), separator) + separator + parts.last()
    }
}

/// Joins `parts` with `separator` between neighbours.
pub fn join(parts: &Vec<String>, separator: &str) -> (r: String)
    ensures
        r@ == joined(texts(parts@), separator@),
{
    let mut r = String::new();
    for i in 0..parts.len()
        invariant
            r@ == joined(texts(parts@).take(i as int), separator@),
    {
        if i > 0 {
            r.append(separator);
        }
        r.append(parts[i].as_str());
        let ghost all = texts(parts@).take(i + 1);
        assert(all.drop_last() == texts(parts@).take(i as int));
        assert(r@ =~= joined(all, separator@));
    }
    assert(texts(parts@).take(parts@.len() as int) == texts(parts@));
    r
}

/// A list of two or more parts starts with its first part and a separator.
pub proof fn lemma_joined_front(parts: Seq<Seq<char>>, separator: Seq<char>)
    requires
        parts.len() > 1,
    ensures
        joined(parts, separator) == parts[0] + separator + joined(parts.drop_first(), separator),
    decreases parts.len(),
{
    if parts.len() == 2 {
        assert(joined(parts.drop_last(), separator) == parts[0]);
        assert(joined(parts.drop_first(), separator) == parts[1]);
    } else {
        let front = parts.drop_last();
        lemma_joined_front(front, separator);
        assert(front.drop_first() == parts.drop_first().drop_last());
        assert(joined(parts, separator) =~= parts[0] + separator + joined(
            parts.drop_first(),
            separator,
        ));
    }
}

/// Splitting at a character undoes joining with it, where no part holds it.
pub proof fn splitting_undoes_joining(parts: Seq<Seq<char>>, c: char)
    requires
        parts.len() > 0,
        forall|i: int| 0 <= i < parts.len() ==> !(#[trigger] parts[i]).contains(c),
    ensures
        pieces(joined(parts, seq![c]), c) == parts,
    decreases parts.len(),
{
    let s = joined(parts, seq![c]);
    let first = parts[0];
    lemma_first_index(s, c);
    if parts.len() == 1 {
        assert(parts =~= seq![s]);
    } else {
        lemma_joined_front(parts, seq![c]);
        let rest = parts.drop_first();
        splitting_undoes_joining(rest, c);
        assert forall|i: int| 0 <= i < first.len() implies s[i] != c by {
            assert(s[i] == first[i]);
        }
        assert(s[first.len() as int] == c);
        lemma_first_index_unique(s, c, first.len() as int);
        assert(s.take(first.len() as int) == first);
        assert(s.skip(first.len() as int + 1) == joined(rest, seq![c]));
        assert(parts =~= seq![first] + rest);
    }
}

/// The lines of a text: each ends at a line feed, which it does not hold, nor a carriage
/// return right before it; a text that does not end in a line feed ends in one more line.
pub open spec fn text_lines(s: Seq<char>) -> Seq<Seq<char>>
    decreases s.len(),
    via text_lines_decreases
{
    let i = first_index(s, '\n');
    if s.len() == 0 {
        Seq::empty()
    } else if i < s.len() {
        seq![without_return(s.take(i))] + text_lines(s.skip(i + 1))
    } else {
        seq![s]
    }
}

#[via_fn]
proof fn text_lines_decreases(s: Seq<char>) {
    lemma_first_index(s, '\n');
}

/// `line` without one carriage return at its end.
pub open spec fn without_return(line: Seq<char>) -> Seq<char> {
    if line.len() > 0 && line.last() == '\r' {
        line.drop_last()
    } else {
        line
    }
}

fn drop_return(line: String) -> (r: String)
    ensures
        r@ == without_return(line@),
{
    let n: usize = line.as_str().unicode_len();
    if n > 0 && line.as_str().get_char(n - 1) == '\r' {
        let shorter = line.as_str().substring_char(0, n - 1);
        assert(shorter@ =~= without_return(line@));
        shorter.to_owned()
    } else {
        line
    }
}

/// Splits a text into its lines.
pub fn lines(s: &str) -> (r: Vec<String>)
    ensures
        texts(r@) == text_lines(s@),
{
    let chars = chars_of(s);
    let mut r: Vec<String> = Vec::new();
    let mut line = String::new();
    assert(line@ + chars@.skip(0) =~= s@);
    assert(texts(r@) + text_lines(s@) =~= text_lines(s@));
    for i in 0..chars.len()
        invariant
            chars@ == s@,
            !line@.contains('\n'),
            texts(r@) + text_lines(line@ + chars@.skip(i as int)) == text_lines(s@),
    {
        let ghost done = texts(r@);
        let ghost head = line@;
        let ghost rest = chars@.skip(i + 1);
        assert(chars@.skip(i as int) =~= seq![chars@[i as int]] + rest);
        if chars[i] == '\n' {
            proof {
                lemma_piece_ends(head, rest, '\n');
            }
            r.push(drop_return(line));
            line = String::new();
            assert(texts(r@) =~= done.push(without_return(head)));
            assert(line@ + rest =~= rest);
            assert(texts(r@) + text_lines(rest) =~= done + (seq![without_return(head)]
                + text_lines(rest)));
        } else {
            line.push(chars[i]);
            assert(line@ + rest =~= head + chars@.skip(i as int));
            assert forall|j: int| 0 <= j < line@.len() implies line@[j] != '\n' by {
                if j < head.len() {
                    assert(head.contains(head[j]));
                }
            }
        }
    }
    let ghost done = texts(r@);
    proof {
        lemma_piece_ends(line@, Seq::empty(), '\n');
        assert(line@ + chars@.skip(chars@.len() as int) =~= line@);
    }
    if line.as_str().is_empty() {
        assert(done + Seq::<Seq<char>>::empty() =~= done);
    } else {
        r.push(line);
        assert(texts(r@) =~= done + seq![line@]);
    }
    r
}

// ---------------------------------------------------------------------------
// Numerals
// ---------------------------------------------------------------------------
/// The digit for a value below sixteen.
pub open spec fn digit_char(value: int) -> char {
    if value < 10 {
        ('0' as u32 + value) as char
    } else {
        ('a' as u32 + value - 10) as char
    }
}

/// The value of a hexadecimal digit.
pub open spec fn digit_value(c: char) -> nat {
    if '0' <= c <= '9' {
        (c as u32 - '0' as u32) as nat
    } else if 'a' <= c <= 'f' {
        (c as u32 - 'a' as u32 + 10) as nat
    } else {
        (c as u32 - 'A' as u32 + 10) as nat
    }
}

/// The digit for a value below sixteen.
pub fn digit(value: u8) -> (r: char)
    requires
        value < 16,
    ensures
        r == digit_char(value as int),
{
    if value < 10 {
        (48u8 + value) as char
    } else {
        (87u8 + value) as char
    }
}

/// The value of a hexadecimal digit.
pub fn value_of_digit(c: char) -> (r: u8)
    requires
        is_hex_digit(c),
    ensures
        r as nat == digit_value(c),
        r < 16,
        is_digit(c) ==> r < 10,
{
    if '0' <= c && c <= '9' {
        c as u8 - 48u8
    } else if 'a' <= c && c <= 'f' {
        c as u8 - 87u8
    } else {
        c as u8 - 55u8
    }
}

/// The shortest decimal numeral of `n`.
pub open spec fn decimal(n: nat) -> Seq<char>
    decreases n,
{
    if n < 10 {
        seq![digit_char(n as int)]
    } else {
        decimal(n / 10).push(digit_char((n % 10) as int))
    }
}

/// The shortest lower-case hexadecimal numeral of `n`.
pub open spec fn hexadecimal(n: nat) -> Seq<char>
    decreases n,
{
    if n < 16 {
        seq![digit_char(n as int)]
    } else {
        hexadecimal(n / 16).push(digit_char((n % 16) as int))
    }
}

/// Writes `n` in decimal.
pub fn decimal_text(n: u64) -> (r: String)
    ensures
        r@ == decimal(n as nat),
{
    wide_decimal_text(n as u128)
}

/// Writes `n` in decimal.
pub fn wide_decimal_text(n: u128) -> (r: String)
    ensures
        r@ == decimal(n as nat),
    decreases n,
{
    if n < 10 {
        let mut r = String::new();
        r.push(digit(n as u8));
        assert(r@ =~= decimal(n as nat));
        r
    } else {
        let mut r = wide_decimal_text(n / 10);
        r.push(digit((n % 10) as u8));
        r
    }
}

/// Writes `n` in hexadecimal.
pub fn hexadecimal_text(n: u64) -> (r: String)
    ensures
        r@ == hexadecimal(n as nat),
    decreases n,
{
    if n < 16 {
        let mut r = String::new();
        r.push(digit(n as u8));
        assert(r@ =~= hexadecimal(n as nat));
        r
    } else {
        let mut r = hexadecimal_text(n / 16);
        r.push(digit((n % 16) as u8));
        r
    }
}

/// Whether `s` is made of decimal digits.
pub open spec fn all_digits(s: Seq<char>) -> bool {
    forall|i: int| 0 <= i < s.len() ==> is_digit(#[trigger] s[i])
}

/// Whether `s` is made of hexadecimal digits.
pub open spec fn all_hex_digits(s: Seq<char>) -> bool {
    forall|i: int| 0 <= i < s.len() ==> is_hex_digit(#[trigger] s[i])
}

/// The number that decimal digits write.
pub open spec fn decimal_value(s: Seq<char>) -> nat
    decreases s.len(),
{
    if s.len() == 0 {
        0
    } else {
        10 * decimal_value(s.drop_last()) + digit_value(s.last())
    }
}

/// The number that hexadecimal digits write.
pub open spec fn hex_value(s: Seq<char>) -> nat
    decreases s.len(),
{
    if s.len() == 0 {
        0
    } else {
        16 * hex_value(s.drop_last()) + digit_value(s.last())
    }
}

/// Reading a decimal numeral gives back the number that it was written for.
pub proof fn decimal_reads_back(n: nat)
    ensures
        decimal(n).len() > 0,
        all_digits(decimal(n)),
        decimal_value(decimal(n)) == n,
        decimal(n)[0] == '0' ==> n == 0,
        n < 100 ==> decimal(n).len() <= 2,
        n < 1000 ==> decimal(n).len() <= 3,
    decreases n,
{
    if n >= 10 {
        decimal_reads_back(n / 10);
        assert(decimal(n).drop_last() == decimal(n / 10));
    } else {
        assert(decimal(n).drop_last() == Seq::<char>::empty());
        assert(decimal_value(Seq::<char>::empty()) == 0);
    }
}

/// Reading a hexadecimal numeral gives back the number that it was written for.
pub proof fn hexadecimal_reads_back(n: nat)
    ensures
        hexadecimal(n).len() > 0,
        all_hex_digits(hexadecimal(n)),
        hex_value(hexadecimal(n)) == n,
        n < 0x100 ==> hexadecimal(n).len() <= 2,
        n < 0x1000 ==> hexadecimal(n).len() <= 3,
        n < 0x10000 ==> hexadecimal(n).len() <= 4,
    decreases n,
{
    if n >= 16 {
        hexadecimal_reads_back(n / 16);
        assert(hexadecimal(n).drop_last() == hexadecimal(n / 16));
    } else {
        assert(hexadecimal(n).drop_last() == Seq::<char>::empty());
        assert(hex_value(Seq::<char>::empty()) == 0);
    }
}

/// The value of a text of decimal digits, where it is at most `max`; leading zeros count
/// for nothing.
pub open spec fn digits_up_to(s: Seq<char>, max: nat) -> Option<nat> {
    if s.len() > 0 && all_digits(s) && decimal_value(s) <= max {
        Some(decimal_value(s))
    } else {
        None
    }
}

/// The value of an unsigned decimal integer, with or without a plus sign, where it is at
/// most `max`.
pub open spec fn integer_up_to(s: Seq<char>, max: nat) -> Option<nat> {
    if s.len() > 0 && s[0] == '+' {
        digits_up_to(s.drop_first(), max)
    } else {
        digits_up_to(s, max)
    }
}

/// Reads a text of decimal digits.
pub fn parse_digits(s: &str, max: u64) -> (r: Option<u64>)
    ensures
        (match r {
            Some(n) => digits_up_to(s@, max as nat) == Some(n as nat) && n <= max,
            None => digits_up_to(s@, max as nat) is None,
        }),
{
    let chars = chars_of(s);
    if chars.len() == 0 {
        return None;
    }
    let mut value: u64 = 0;
    let mut over: bool = false;
    for i in 0..chars.len()
        invariant
            chars@ == s@,
            all_digits(s@.take(i as int)),
            value <= max,
            over ==> decimal_value(s@.take(i as int)) > max,
            !over ==> decimal_value(s@.take(i as int)) == value,
    {
        let c = chars[i];
        if !is_digit(c) {
            assert(!is_digit(s@[i as int]));
            return None;
        }
        let ghost next = s@.take(i + 1);
        assert(next.drop_last() == s@.take(i as int));
        assert(next.last() == c);
        let wide: u128 = value as u128 * 10 + value_of_digit(c) as u128;
        if over || wide > max as u128 {
            over = true;
        } else {
            value = wide as u64;
        }
    }
    assert(s@.take(chars@.len() as int) == s@);
    if over {
        None
    } else {
        Some(value)
    }
}

/// Reads an unsigned decimal integer, with or without a plus sign.
pub fn parse_integer(s: &str, max: u64) -> (r: Option<u64>)
    ensures
        (match r {
            Some(n) => integer_up_to(s@, max as nat) == Some(n as nat) && n <= max,
            None => integer_up_to(s@, max as nat) is None,
        }),
{
    let n: usize = s.unicode_len();
    if n > 0 && s.get_char(0) == '+' {
        let rest = s.substring_char(1, n);
        assert(rest@ == s@.drop_first());
        parse_digits(rest, max)
    } else {
        parse_digits(s, max)
    }
}

/// Reads a hexadecimal numeral of at most four digits.
pub fn parse_hex_group(s: &str) -> (r: Option<u16>)
    ensures
        (match r {
            Some(n) => 1 <= s@.len() <= 4 && all_hex_digits(s@) && hex_value(s@) == n as nat,
            None => !(1 <= s@.len() <= 4 && all_hex_digits(s@)),
        }),
{
    let chars = chars_of(s);
    if chars.len() == 0 || chars.len() > 4 {
        return None;
    }
    let mut value: u32 = 0;
    for i in 0..chars.len()
        invariant
            chars@ == s@,
            chars@.len() <= 4,
            all_hex_digits(s@.take(i as int)),
            value as nat == hex_value(s@.take(i as int)),
            i == 0 ==> value == 0,
            i == 1 ==> value < 0x10,
            i == 2 ==> value < 0x100,
            i == 3 ==> value < 0x1000,
            i == 4 ==> value < 0x10000,
    {
        let c = chars[i];
        if !is_hex_digit(c) {
            assert(!is_hex_digit(s@[i as int]));
            return None;
        }
        let ghost next = s@.take(i + 1);
        assert(next.drop_last() == s@.take(i as int));
        assert(next.last() == c);
        value = value * 16 + value_of_digit(c) as u32;
    }
    assert(s@.take(chars@.len() as int) == s@);
    Some(value as u16)
}

/// Which text tells why `digits`, read from `from` on after digits that make `value`, are no
/// number up to `max`: the first character that is no digit, or with which the number gets too
/// large, decides.
pub open spec fn digits_fault(digits: Seq<char>, from: int, value: nat, max: nat) -> Seq<char>
    decreases digits.len() - from,
{
    if from >= digits.len() {
        "number too large to fit in target type"@
    } else if !is_digit(digits[from]) {
        "invalid digit found in string"@
    } else if value * 10 + digit_value(digits[from]) > max {
        "number too large to fit in target type"@
    } else {
        digits_fault(digits, from + 1, value * 10 + digit_value(digits[from]), max)
    }
}

/// Why a text is no number up to `max`.
pub open spec fn integer_fault(s: Seq<char>, max: nat) -> Seq<char> {
    let digits = if s.len() > 0 && s[0] == '+' {
        s.skip(1)
    } else {
        s
    };
    if s.len() == 0 {
        "cannot parse integer from empty string"@
    } else if digits.len() == 0 {
        "invalid digit found in string"@
    } else {
        digits_fault(digits, 0, 0, max)
    }
}

/// A number up to `max`, or why the text is none.
pub open spec fn read_integer(s: Seq<char>, max: nat) -> Result<nat, Seq<char>> {
    match integer_up_to(s, max) {
        Some(value) => Ok(value),
        None => Err(integer_fault(s, max)),
    }
}

fn tell_digits_fault(digits: &str, max: u64) -> (r: &'static str)
    ensures
        r@ == digits_fault(digits@, 0, 0, max as nat),
{
    let chars = chars_of(digits);
    let mut value: u64 = 0;
    for i in 0..chars.len()
        invariant
            chars@ == digits@,
            value <= max,
            digits_fault(digits@, 0, 0, max as nat) == digits_fault(
                digits@,
                i as int,
                value as nat,
                max as nat,
            ),
    {
        if !is_digit(chars[i]) {
            return "invalid digit found in string";
        }
        let next: u128 = (value as u128) * 10 + (value_of_digit(chars[i]) as u128);
        if next > max as u128 {
            return "number too large to fit in target type";
        }
        value = next as u64;
    }
    "number too large to fit in target type"
}

/// Reads a number up to `max`.
pub fn parse_number(s: &str, max: u64) -> (r: Result<u64, &'static str>)
    ensures
        (match r {
            Ok(value) => read_integer(s@, max as nat) == Ok::<_, Seq<char>>(value as nat),
            Err(reason) => read_integer(s@, max as nat) == Err::<nat, _>(reason@),
        }),
{
    match parse_integer(s, max) {
        Some(value) => Ok(value),
        None => {
            let n: usize = s.unicode_len();
            if n == 0 {
                return Err("cannot parse integer from empty string");
            }
            if s.get_char(0) == '+' {
                let digits = s.substring_char(1, n);
                assert(digits@ == s@.skip(1));
                if n == 1 {
                    Err("invalid digit found in string")
                } else {
                    Err(tell_digits_fault(digits, max))
                }
            } else {
                Err(tell_digits_fault(s, max))
            }
        },
    }
}

// ---------------------------------------------------------------------------
// Laws of texts
// ---------------------------------------------------------------------------
/// Spaces, tabs and the ends of lines are white space; no letter, digit or sign of ASCII is.
pub proof fn signs_are_no_white_space(c: char)
    ensures
        is_white_space(' '),
        is_white_space('\t'),
        is_white_space('\n'),
        is_white_space('\r'),
        '!' <= c <= '~' ==> !is_white_space(c),
{
}

/// Trimming takes the white space round a text away, and nothing of the text.
pub proof fn trimming_takes_the_ends_alone(front: Seq<char>, s: Seq<char>, back: Seq<char>)
    requires
        forall|i: int| 0 <= i < front.len() ==> is_white_space(#[trigger] front[i]),
        forall|i: int| 0 <= i < back.len() ==> is_white_space(#[trigger] back[i]),
        s.len() > 0 ==> !is_white_space(s[0]) && !is_white_space(s.last()),
    ensures
        trimmed(front + s + back) == s,
    decreases front.len() + back.len(),
{
    let whole = front + s + back;
    if front.len() > 0 {
        assert(whole[0] == front[0]);
        assert(whole.drop_first() =~= front.drop_first() + s + back);
        assert forall|i: int| 0 <= i < front.drop_first().len() implies is_white_space(
            #[trigger] front.drop_first()[i],
        ) by {
            assert(front.drop_first()[i] == front[i + 1]);
        }
        trimming_takes_the_ends_alone(front.drop_first(), s, back);
    } else if s.len() == 0 {
        assert(whole =~= back);
        lemma_nothing_is_left(back);
    } else {
        assert(whole =~= s + back);
        assert(whole[0] == s[0]);
        assert(trim_start_of(CharClass::WhiteSpace, whole) == whole);
        lemma_end_is_cut(s, back);
    }
}

proof fn lemma_nothing_is_left(s: Seq<char>)
    requires
        forall|i: int| 0 <= i < s.len() ==> is_white_space(#[trigger] s[i]),
    ensures
        trimmed(s) == Seq::<char>::empty(),
    decreases s.len(),
{
    if s.len() > 0 {
        assert forall|i: int| 0 <= i < s.drop_first().len() implies is_white_space(
            #[trigger] s.drop_first()[i],
        ) by {
            assert(s.drop_first()[i] == s[i + 1]);
        }
        assert(is_white_space(s[0]));
        lemma_nothing_is_left(s.drop_first());
    } else {
        assert(s =~= Seq::<char>::empty());
    }
}

proof fn lemma_end_is_cut(s: Seq<char>, back: Seq<char>)
    requires
        forall|i: int| 0 <= i < back.len() ==> is_white_space(#[trigger] back[i]),
        s.len() > 0,
        !is_white_space(s.last()),
    ensures
        trim_end_of(CharClass::WhiteSpace, s + back) == s,
    decreases back.len(),
{
    let whole = s + back;
    if back.len() > 0 {
        assert(whole.last() == back[back.len() - 1]);
        assert(whole.drop_last() =~= s + back.drop_last());
        assert forall|i: int| 0 <= i < back.drop_last().len() implies is_white_space(
            #[trigger] back.drop_last()[i],
        ) by {
            assert(back.drop_last()[i] == back[i]);
        }
        lemma_end_is_cut(s, back.drop_last());
    } else {
        assert(whole =~= s);
    }
}

/// The capitals of ASCII become small letters, thirty-two places on; every other character
/// stays.
pub proof fn capitals_become_small(s: Seq<char>, i: int)
    requires
        0 <= i < s.len(),
    ensures
        lowercase(s).len() == s.len(),
        'A' <= s[i] <= 'Z' ==> lowercase(s)[i] as u32 == s[i] as u32 + 32,
        !('A' <= s[i] <= 'Z') ==> lowercase(s)[i] == s[i],
        lowercase(lowercase(s)) == lowercase(s),
{
    assert(lowercase(lowercase(s)) =~= lowercase(s));
}

/// `a` to `b` is a stretch of `s` between two `c`s, or between one and an end of `s`.
pub open spec fn is_stretch(s: Seq<char>, c: char, a: int, b: int) -> bool {
    &&& 0 <= a <= b <= s.len()
    &&& a > 0 ==> s[a - 1] == c
    &&& b < s.len() ==> s[b] == c
    &&& forall|i: int| a <= i < b ==> s[i] != c
}

/// `piece` is a stretch of `s` between two `c`s, or between one and an end of `s`.
pub open spec fn stands_between(s: Seq<char>, c: char, piece: Seq<char>) -> bool {
    exists|a: int, b: int| #[trigger] is_stretch(s, c, a, b) && s.subrange(a, b) == piece
}

/// Splitting gives just the stretches between the separators: every piece is one of them, and
/// every one of them is a piece.
pub proof fn pieces_are_the_stretches(s: Seq<char>, c: char)
    ensures
        forall|k: int|
            0 <= k < pieces(s, c).len() ==> stands_between(s, c, #[trigger] pieces(s, c)[k]),
        forall|a: int, b: int| #[trigger]
            is_stretch(s, c, a, b) ==> pieces(s, c).contains(s.subrange(a, b)),
    decreases s.len(),
{
    lemma_first_index(s, c);
    let cut = first_index(s, c);
    if cut < s.len() {
        let rest = s.skip(cut + 1);
        pieces_are_the_stretches(rest, c);
        assert forall|k: int| 0 <= k < pieces(s, c).len() implies stands_between(
            s,
            c,
            #[trigger] pieces(s, c)[k],
        ) by {
            if k == 0 {
                assert(is_stretch(s, c, 0, cut));
                assert(s.subrange(0, cut) =~= s.take(cut));
            } else {
                assert(pieces(s, c)[k] == pieces(rest, c)[k - 1]);
                let (a, b) = choose|a: int, b: int| #[trigger]
                    is_stretch(rest, c, a, b) && rest.subrange(a, b) == pieces(rest, c)[k - 1];
                lemma_later_stretch(s, c, cut + 1, a, b);
                assert(s.subrange(a + cut + 1, b + cut + 1) =~= rest.subrange(a, b));
            }
        }
        assert forall|a: int, b: int| #[trigger] is_stretch(s, c, a, b) implies pieces(
            s,
            c,
        ).contains(s.subrange(a, b)) by {
            if a == 0 {
                if b < cut {
                    assert(s[b] == c);
                }
                if b > cut {
                    assert(s[cut] == c);
                }
                assert(s.subrange(0, cut) =~= s.take(cut));
                assert(pieces(s, c)[0] == s.take(cut));
            } else {
                if a - 1 < cut {
                    assert(s[a - 1] == c);
                }
                assert(is_stretch(rest, c, a - cut - 1, b - cut - 1)) by {
                    assert forall|i: int| a - cut - 1 <= i < b - cut - 1 implies rest[i] != c by {
                        assert(rest[i] == s[i + cut + 1]);
                    }
                }
                assert(rest.subrange(a - cut - 1, b - cut - 1) =~= s.subrange(a, b));
                let k = choose|k: int|
                    0 <= k < pieces(rest, c).len() && pieces(rest, c)[k] == s.subrange(a, b);
                assert(pieces(s, c)[k + 1] == s.subrange(a, b));
            }
        }
    } else {
        assert(is_stretch(s, c, 0, s.len() as int));
        assert(s.subrange(0, s.len() as int) =~= s);
        assert forall|k: int| 0 <= k < pieces(s, c).len() implies stands_between(
            s,
            c,
            #[trigger] pieces(s, c)[k],
        ) by {
            assert(pieces(s, c)[k] == s.subrange(0, s.len() as int));
        }
        assert forall|a: int, b: int| #[trigger] is_stretch(s, c, a, b) implies pieces(
            s,
            c,
        ).contains(s.subrange(a, b)) by {
            assert(pieces(s, c)[0] == s);
        }
    }
}

proof fn lemma_later_stretch(s: Seq<char>, c: char, from: int, a: int, b: int)
    requires
        0 < from <= s.len(),
        s[from - 1] == c,
        is_stretch(s.skip(from), c, a, b),
    ensures
        is_stretch(s, c, a + from, b + from),
{
    let rest = s.skip(from);
    if a > 0 {
        assert(rest[a - 1] == s[a - 1 + from]);
    }
    if b < rest.len() {
        assert(rest[b] == s[b + from]);
    }
    assert forall|i: int| a + from <= i < b + from implies s[i] != c by {
        assert(s[i] == rest[i - from]);
    }
}

/// A split at the first of a character leaves none of it in front, a split at the last none
/// behind, and both keep everything else.
pub proof fn splits_keep_both_sides(a: Seq<char>, c: char, b: Seq<char>)
    ensures
        !a.contains(c) ==> first_split(a + seq![c] + b, c) == Some((a, b)),
        !b.contains(c) ==> last_split(a + seq![c] + b, c) == Some((a, b)),
        !a.contains(c) ==> first_split(a, c) is None && last_split(a, c) is None,
{
    let s = a + seq![c] + b;
    let at = a.len() as int;
    assert(s.take(at) =~= a);
    assert(s.skip(at + 1) =~= b);
    assert(s[at] == c);
    lemma_first_index(s, c);
    lemma_last_index(s, c);
    lemma_first_index(a, c);
    lemma_last_index(a, c);
    if !a.contains(c) {
        assert forall|i: int| 0 <= i < at implies s[i] != c by {
            assert(s[i] == a[i]);
            assert(a.contains(a[i]));
        }
        lemma_first_index_unique(s, c, at);
        if last_index(a, c) >= 0 {
            assert(a.contains(a[last_index(a, c)]));
        }
    }
    if !b.contains(c) {
        assert forall|i: int| at < i < s.len() implies s[i] != c by {
            assert(s[i] == b[i - at - 1]);
            assert(b.contains(b[i - at - 1]));
        }
        assert(last_index(s, c) == at);
    }
}

/// One more decimal digit makes a number ten times as large, and adds the digit.
pub proof fn numerals_are_positional(n: nat, s: Seq<char>, d: nat)
    requires
        d < 10,
    ensures
        decimal(d) == seq![(48 + d) as char],
        n > 0 ==> decimal(10 * n + d) == decimal(n).push((48 + d) as char),
        decimal_value(Seq::empty()) == 0,
        decimal_value(s.push((48 + d) as char)) == 10 * decimal_value(s) + d,
{
    assert(s.push((48 + d) as char).drop_last() =~= s);
    if n > 0 {
        assert((10 * n + d) / 10 == n);
        assert((10 * n + d) % 10 == d);
    }
}

/// A numeral is read where the number is not above the bound, with or without a plus sign;
/// nothing else than digits is.
pub proof fn numbers_are_read_up_to_a_bound(n: nat, max: nat, s: Seq<char>, at: int)
    requires
        0 <= at < s.len(),
        !('0' <= s[at] <= '9'),
    ensures
        n <= max ==> digits_up_to(decimal(n), max) == Some(n),
        n > max ==> digits_up_to(decimal(n), max) is None,
        n <= max ==> integer_up_to(decimal(n), max) == Some(n),
        n > max ==> integer_up_to(decimal(n), max) is None,
        integer_up_to(seq!['+'] + decimal(n), max) == integer_up_to(decimal(n), max),
        digits_up_to(s, max) is None,
        at > 0 || s[0] != '+' ==> integer_up_to(s, max) is None,
        digits_up_to(Seq::empty(), max) is None,
        integer_up_to(Seq::empty(), max) is None,
{
    decimal_reads_back(n);
    assert(is_digit(decimal(n)[0]));
    let signed = seq!['+'] + decimal(n);
    assert(signed[0] == '+');
    assert(signed.drop_first() =~= decimal(n));
    assert(!is_digit(s[at]));
    if at > 0 {
        assert(s.drop_first()[at - 1] == s[at]);
    }
}

/// Lines that are put together with a line feed behind each are found again.
pub proof fn lines_are_found_again(lines: Seq<Seq<char>>, text: Seq<char>)
    requires
        forall|i: int|
            0 <= i < lines.len() ==> !(#[trigger] lines[i]).contains('\n') && (lines[i].len() > 0
                ==> lines[i].last() != '\r'),
        text == ended_lines(lines),
    ensures
        text_lines(text) == lines,
    decreases lines.len(),
{
    if lines.len() > 0 {
        let first = lines[0];
        let rest = lines.drop_first();
        assert forall|i: int| 0 <= i < rest.len() implies !(#[trigger] rest[i]).contains('\n') && (
        rest[i].len() > 0 ==> rest[i].last() != '\r') by {
            assert(rest[i] == lines[i + 1]);
        }
        lines_are_found_again(rest, ended_lines(rest));
        lemma_piece_ends(first, ended_lines(rest), '\n');
        assert(text =~= first + (seq!['\n'] + ended_lines(rest)));
        assert(lines =~= seq![first] + rest);
    } else {
        assert(lines =~= Seq::empty());
    }
}

/// Lines with a line feed behind each.
pub open spec fn ended_lines(lines: Seq<Seq<char>>) -> Seq<char>
    decreases lines.len(),
{
    if lines.len() == 0 {
        Seq::empty()
    } else {
        lines[0] + seq!['\n'] + ended_lines(lines.drop_first())
    }
}

/// A text that stands within another is found, where it first stands; it is found nowhere else.
pub proof fn texts_are_found_where_they_first_stand(
    front: Seq<char>,
    pattern: Seq<char>,
    back: Seq<char>,
    s: Seq<char>,
    at: int,
)
    ensures
        occurs(front + pattern + back, pattern),
        0 <= first_occurrence(front + pattern + back, pattern, 0) <= front.len(),
        occurs(s, pattern) ==> {
            let found = first_occurrence(s, pattern, 0);
            &&& 0 <= found && found + pattern.len() <= s.len()
            &&& s.subrange(found, found + pattern.len()) == pattern
            &&& 0 <= at < found ==> s.subrange(at, at + pattern.len()) != pattern
        },
        0 <= at && at + pattern.len() <= s.len() && s.subrange(at, at + pattern.len()) == pattern
            ==> occurs(s, pattern),
{
    let all = front + pattern + back;
    let n = front.len() as int;
    assert(all.subrange(n, n + pattern.len()) =~= pattern);
    lemma_found_first(all, pattern, 0, n);
    lemma_found_first(s, pattern, 0, at);
}

proof fn lemma_found_first(s: Seq<char>, pattern: Seq<char>, from: int, at: int)
    requires
        0 <= from,
    ensures
        ({
            let found = first_occurrence(s, pattern, from);
            &&& found >= 0 ==> found >= from && occurs_at(s, pattern, found)
            &&& from <= at && occurs_at(s, pattern, at) ==> 0 <= found <= at
        }),
    decreases s.len() - from + 1,
{
    if from + pattern.len() <= s.len() && !occurs_at(s, pattern, from) {
        lemma_found_first(s, pattern, from + 1, at);
    }
}

/// A start of a text is taken away where it is there, and only there.
pub proof fn starts_are_taken_away(start: Seq<char>, rest: Seq<char>, s: Seq<char>)
    ensures
        without_prefix(start + rest, start) == Some(rest),
        without_prefix(s, start) is Some ==> s == start + without_prefix(s, start)->0,
{
    let all = start + rest;
    assert(all.take(start.len() as int) =~= start);
    assert(all.skip(start.len() as int) =~= rest);
    if without_prefix(s, start) is Some {
        assert(s =~= s.take(start.len() as int) + s.skip(start.len() as int));
    }
}

} // verus!
