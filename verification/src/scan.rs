//! The lexical layer of a batch: whitespace, identifiers, and spans of text
//! in which brackets are balanced.
//!
//! A batch is read as a text of tokens. Brackets of all three kinds nest,
//! and a text between double quotes is skipped as a whole, a backslash in it
//! hiding the character after it. Comments and character literals are not
//! told apart from other text.

use crate::text::{
    identifier_part, identifier_start, is_identifier_part, is_identifier_start, is_whitespace,
    whitespace,
};
use vstd::prelude::*;

verus! {

/// The first position at or after `i` that holds no whitespace.
pub open spec fn whitespace_end(s: Seq<char>, i: int) -> int
    decreases s.len() - i,
{
    if 0 <= i < s.len() && is_whitespace(s[i]) {
        whitespace_end(s, i + 1)
    } else {
        i
    }
}

/// The first position at or after `i` that does not continue an identifier.
pub open spec fn identifier_tail_end(s: Seq<char>, i: int) -> int
    decreases s.len() - i,
{
    if 0 <= i < s.len() && is_identifier_part(s[i]) {
        identifier_tail_end(s, i + 1)
    } else {
        i
    }
}

/// The end of the identifier that starts at `i`, or `i` where none does.
pub open spec fn identifier_end(s: Seq<char>, i: int) -> int {
    if 0 <= i < s.len() && is_identifier_start(s[i]) {
        identifier_tail_end(s, i + 1)
    } else {
        i
    }
}

/// The identifier that starts at `i`: empty where none does.
pub open spec fn word_at(s: Seq<char>, i: int) -> Seq<char> {
    s.subrange(i, identifier_end(s, i))
}

/// Whether `c` opens a bracket.
pub open spec fn is_opening(c: char) -> bool {
    c == '(' || c == '[' || c == '{'
}

/// Whether `c` closes a bracket.
pub open spec fn is_closing(c: char) -> bool {
    c == ')' || c == ']' || c == '}'
}

/// The position at which the span that is being read at `i` ends, if it
/// does.
///
/// `depth` is the number of brackets that are open at `i`, and `quoted` says
/// whether `i` lies between double quotes. A span read as a group ends at the
/// bracket that closes the last open one. A span read as a statement ends at
/// the first semicolon outside all brackets and quotes; a closing bracket
/// that nothing opened ends the reading without a result, as the end of the
/// text does in either case.
pub open spec fn span_end(s: Seq<char>, i: int, depth: nat, quoted: bool, group: bool) -> Option<
    int,
>
    decreases s.len() - i,
{
    if i < 0 || i >= s.len() {
        None
    } else if quoted {
        if s[i] == '\\' {
            if i + 1 < s.len() {
                span_end(s, i + 2, depth, true, group)
            } else {
                None
            }
        } else {
            span_end(s, i + 1, depth, s[i] != '"', group)
        }
    } else if s[i] == '"' {
        span_end(s, i + 1, depth, true, group)
    } else if is_opening(s[i]) {
        span_end(s, i + 1, depth + 1, false, group)
    } else if is_closing(s[i]) {
        if depth == 0 {
            None
        } else if depth == 1 && group {
            Some(i)
        } else {
            span_end(s, i + 1, (depth - 1) as nat, false, group)
        }
    } else if s[i] == ';' && depth == 0 {
        Some(i)
    } else {
        span_end(s, i + 1, depth, false, group)
    }
}

/// The position of the bracket that closes the group whose opening bracket
/// stands just before `i`.
pub open spec fn group_end(s: Seq<char>, i: int) -> Option<int> {
    span_end(s, i, 1, false, true)
}

/// The position of the semicolon that ends the statement read from `i`.
pub open spec fn statement_end(s: Seq<char>, i: int) -> Option<int> {
    span_end(s, i, 0, false, false)
}

/// Skipping whitespace moves forward, and not past the end of the text.
pub proof fn lemma_whitespace_end(s: Seq<char>, i: int)
    requires
        0 <= i <= s.len(),
    ensures
        i <= whitespace_end(s, i) <= s.len(),
        whitespace_end(s, i) < s.len() ==> !is_whitespace(s[whitespace_end(s, i)]),
    decreases s.len() - i,
{
    if i < s.len() && is_whitespace(s[i]) {
        lemma_whitespace_end(s, i + 1);
    }
}

/// An identifier ends at or after its start, and not past the end of the
/// text.
pub proof fn lemma_identifier_end(s: Seq<char>, i: int)
    requires
        0 <= i <= s.len(),
    ensures
        i <= identifier_tail_end(s, i) <= s.len(),
        i <= identifier_end(s, i) <= s.len(),
    decreases s.len() - i,
{
    if i < s.len() {
        lemma_identifier_end(s, i + 1);
    }
}

/// A span ends at or after the position from which it is read, and within
/// the text: a group at a closing bracket, a statement at a semicolon.
pub proof fn lemma_span_end(s: Seq<char>, i: int, depth: nat, quoted: bool, group: bool)
    requires
        0 <= i,
    ensures
        span_end(s, i, depth, quoted, group) matches Some(e) ==> i <= e < s.len() && (depth > 0
            && group ==> is_closing(s[e])) && (!group ==> s[e] == ';'),
    decreases s.len() - i,
{
    if i < s.len() {
        if quoted {
            if s[i] == '\\' {
                if i + 1 < s.len() {
                    lemma_span_end(s, i + 2, depth, true, group);
                }
            } else {
                lemma_span_end(s, i + 1, depth, s[i] != '"', group);
            }
        } else if s[i] == '"' {
            lemma_span_end(s, i + 1, depth, true, group);
        } else if is_opening(s[i]) {
            lemma_span_end(s, i + 1, depth + 1, false, group);
        } else if is_closing(s[i]) {
            if depth > 1 || (depth == 1 && !group) {
                lemma_span_end(s, i + 1, (depth - 1) as nat, false, group);
            }
        } else if !(s[i] == ';' && depth == 0) {
            lemma_span_end(s, i + 1, depth, false, group);
        }
    }
}

/// Whether the text `t` stands in `s` at the position `at`.
pub open spec fn holds(s: Seq<char>, at: int, t: Seq<char>) -> bool {
    &&& 0 <= at
    &&& at + t.len() <= s.len()
    &&& forall|j: int| 0 <= j < t.len() ==> s[at + j] == #[trigger] t[j]
}

/// A text made of two stands where its first part stands, the second part
/// right behind the first.
pub proof fn lemma_holds_parts(s: Seq<char>, at: int, a: Seq<char>, b: Seq<char>)
    requires
        holds(s, at, a + b),
    ensures
        holds(s, at, a),
        holds(s, at + a.len(), b),
{
    let t = a + b;
    assert forall|j: int| 0 <= j < a.len() implies s[at + j] == #[trigger] a[j] by {
        assert(t[j] == a[j]);
    }
    assert forall|j: int| 0 <= j < b.len() implies s[at + a.len() + j] == #[trigger] b[j] by {
        assert(t[a.len() + j] == b[j]);
    }
}

/// The text that stands in `s` at `at` is that part of `s`.
pub proof fn lemma_holds_subrange(s: Seq<char>, at: int, t: Seq<char>)
    requires
        holds(s, at, t),
    ensures
        s.subrange(at, at + t.len()) == t,
{
    let r = s.subrange(at, at + t.len());
    assert forall|j: int| 0 <= j < t.len() implies r[j] == t[j] by {
        assert(s[at + j] == t[j]);
    }
    assert(r =~= t);
}

/// Everything that skipping whitespace passes over is whitespace.
pub proof fn lemma_whitespace_skipped(s: Seq<char>, i: int, k: int)
    requires
        0 <= i <= k < whitespace_end(s, i),
    ensures
        is_whitespace(s[k]),
        k < s.len(),
    decreases s.len() - i,
{
    if i < s.len() && is_whitespace(s[i]) {
        if i < k {
            lemma_whitespace_skipped(s, i + 1, k);
        }
    }
}

/// Skipping whitespace from `i` ends at `j` where everything from `i` up to
/// `j` is whitespace and what stands at `j` is not.
pub proof fn lemma_whitespace_run(s: Seq<char>, i: int, j: int)
    requires
        0 <= i <= j <= s.len(),
        forall|k: int| i <= k < j ==> is_whitespace(#[trigger] s[k]),
        j == s.len() || !is_whitespace(s[j]),
    ensures
        whitespace_end(s, i) == j,
    decreases j - i,
{
    if i < j {
        assert(is_whitespace(s[i]));
        lemma_whitespace_run(s, i + 1, j);
    }
}

/// The rest of an identifier read from `i` ends at `j` where everything
/// from `i` up to `j` continues an identifier and what stands at `j` does
/// not.
pub proof fn lemma_identifier_tail_run(s: Seq<char>, i: int, j: int)
    requires
        0 <= i <= j <= s.len(),
        forall|k: int| i <= k < j ==> is_identifier_part(#[trigger] s[k]),
        j == s.len() || !is_identifier_part(s[j]),
    ensures
        identifier_tail_end(s, i) == j,
    decreases j - i,
{
    if i < j {
        assert(is_identifier_part(s[i]));
        lemma_identifier_tail_run(s, i + 1, j);
    }
}

/// Reading a span gives the same end wherever the text of the span stands:
/// where reading `a` from `i` ends at `e`, reading `s`, in which `a` stands
/// at `at`, from `at + i` ends at `at + e`.
pub proof fn lemma_span_end_within(
    a: Seq<char>,
    i: int,
    depth: nat,
    quoted: bool,
    group: bool,
    s: Seq<char>,
    at: int,
)
    requires
        0 <= i,
        holds(s, at, a),
        span_end(a, i, depth, quoted, group) is Some,
    ensures
        span_end(s, at + i, depth, quoted, group) == Some(
            at + span_end(a, i, depth, quoted, group).unwrap(),
        ),
    decreases a.len() - i,
{
    assert(i < a.len());
    assert(s[at + i] == a[i]);
    if quoted {
        if a[i] == '\\' {
            lemma_span_end_within(a, i + 2, depth, true, group, s, at);
        } else {
            lemma_span_end_within(a, i + 1, depth, a[i] != '"', group, s, at);
        }
    } else if a[i] == '"' {
        lemma_span_end_within(a, i + 1, depth, true, group, s, at);
    } else if is_opening(a[i]) {
        lemma_span_end_within(a, i + 1, depth + 1, false, group, s, at);
    } else if is_closing(a[i]) {
        if depth > 1 || (depth == 1 && !group) {
            lemma_span_end_within(a, i + 1, (depth - 1) as nat, false, group, s, at);
        }
    } else if !(a[i] == ';' && depth == 0) {
        lemma_span_end_within(a, i + 1, depth, false, group, s, at);
    }
}

/// Everything that reading the rest of an identifier passes over continues
/// an identifier.
pub proof fn lemma_identifier_skipped(s: Seq<char>, i: int, k: int)
    requires
        0 <= i <= k < identifier_tail_end(s, i),
    ensures
        is_identifier_part(s[k]),
        k < s.len(),
    decreases s.len() - i,
{
    if i < s.len() && is_identifier_part(s[i]) {
        if i < k {
            lemma_identifier_skipped(s, i + 1, k);
        }
    }
}

/// Reading a span gives the same end in the part of the text that ends
/// with the span: where reading `s` from `at + i` ends at `e`, reading the
/// part of `s` from `at` up to and including `e` from `i` ends at `e - at`.
pub proof fn lemma_span_end_of_part(
    s: Seq<char>,
    at: int,
    i: int,
    depth: nat,
    quoted: bool,
    group: bool,
)
    requires
        0 <= at,
        0 <= i,
        span_end(s, at + i, depth, quoted, group) is Some,
    ensures
        span_end(
            s.subrange(at, span_end(s, at + i, depth, quoted, group).unwrap() + 1),
            i,
            depth,
            quoted,
            group,
        ) == Some(span_end(s, at + i, depth, quoted, group).unwrap() - at),
    decreases s.len() - (at + i),
{
    let e = span_end(s, at + i, depth, quoted, group).unwrap();
    lemma_span_end(s, at + i, depth, quoted, group);
    let a = s.subrange(at, e + 1);
    let c = s[at + i];
    assert(a[i] == c);
    if quoted {
        if c == '\\' {
            lemma_span_end(s, at + i + 2, depth, true, group);
            lemma_span_end_of_part(s, at, i + 2, depth, true, group);
        } else {
            lemma_span_end(s, at + i + 1, depth, c != '"', group);
            lemma_span_end_of_part(s, at, i + 1, depth, c != '"', group);
        }
    } else if c == '"' {
        lemma_span_end(s, at + i + 1, depth, true, group);
        lemma_span_end_of_part(s, at, i + 1, depth, true, group);
    } else if is_opening(c) {
        lemma_span_end(s, at + i + 1, depth + 1, false, group);
        lemma_span_end_of_part(s, at, i + 1, depth + 1, false, group);
    } else if is_closing(c) {
        if depth > 1 || (depth == 1 && !group) {
            lemma_span_end(s, at + i + 1, (depth - 1) as nat, false, group);
            lemma_span_end_of_part(s, at, i + 1, (depth - 1) as nat, false, group);
        }
    } else if !(c == ';' && depth == 0) {
        lemma_span_end(s, at + i + 1, depth, false, group);
        lemma_span_end_of_part(s, at, i + 1, depth, false, group);
    }
}

/// Executable form of [`whitespace_end`].
pub(crate) fn skip_whitespace(s: &Vec<char>, start: usize) -> (end: usize)
    requires
        start <= s.len(),
    ensures
        end == whitespace_end(s@, start as int),
        start <= end <= s.len(),
{
    let mut i: usize = start;
    while i < s.len() && whitespace(s[i])
        invariant
            start <= i <= s.len(),
            whitespace_end(s@, start as int) == whitespace_end(s@, i as int),
        decreases s.len() - i,
    {
        i += 1;
    }
    i
}

/// Executable form of [`identifier_end`].
pub(crate) fn skip_identifier(s: &Vec<char>, start: usize) -> (end: usize)
    requires
        start <= s.len(),
    ensures
        end == identifier_end(s@, start as int),
        start <= end <= s.len(),
{
    if start < s.len() && identifier_start(s[start]) {
        let mut i: usize = start + 1;
        while i < s.len() && identifier_part(s[i])
            invariant
                start < i <= s.len(),
                identifier_tail_end(s@, start as int + 1) == identifier_tail_end(s@, i as int),
            decreases s.len() - i,
        {
            i += 1;
        }
        i
    } else {
        start
    }
}

/// Executable form of [`is_opening`].
pub(crate) fn opening(c: char) -> (r: bool)
    ensures
        r == is_opening(c),
{
    c == '(' || c == '[' || c == '{'
}

/// Executable form of [`is_closing`].
pub(crate) fn closing(c: char) -> (r: bool)
    ensures
        r == is_closing(c),
{
    c == ')' || c == ']' || c == '}'
}

/// Executable form of [`group_end`], where `group` is set, and of
/// [`statement_end`], where it is not.
pub(crate) fn find_span_end(s: &Vec<char>, start: usize, group: bool) -> (r: Option<usize>)
    requires
        start <= s.len(),
        group ==> start > 0,
    ensures
        group ==> group_end(s@, start as int) == match r {
            Some(e) => Some(e as int),
            None => None,
        },
        !group ==> statement_end(s@, start as int) == match r {
            Some(e) => Some(e as int),
            None => None,
        },
        r matches Some(e) ==> start <= e < s.len(),
{
    let n = s.len();
    let mut i: usize = start;
    let mut depth: usize = if group {
        1
    } else {
        0
    };
    let mut quoted = false;
    let ghost first: nat = if group {
        1
    } else {
        0
    };
    while i < n
        invariant
            n == s.len(),
            start <= i <= n,
            depth <= i,
            first == if group {
                1nat
            } else {
                0nat
            },
            span_end(s@, start as int, first, false, group) == span_end(
                s@,
                i as int,
                depth as nat,
                quoted,
                group,
            ),
        decreases n - i,
    {
        let c = s[i];
        if quoted {
            if c == '\\' {
                if i + 1 >= n {
                    return None;
                }
                i += 2;
            } else {
                quoted = c != '"';
                i += 1;
            }
        } else if c == '"' {
            quoted = true;
            i += 1;
        } else if opening(c) {
            depth += 1;
            i += 1;
        } else if closing(c) {
            if depth == 0 {
                return None;
            } else if depth == 1 && group {
                return Some(i);
            } else {
                depth -= 1;
                i += 1;
            }
        } else if c == ';' && depth == 0 {
            return Some(i);
        } else {
            i += 1;
        }
    }
    None
}

} // verus!
