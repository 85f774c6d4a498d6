//! Reading a batch: from its text to its entries.
//!
//! An entry starts with any number of attributes. What follows decides what
//! it is:
//!
//! ```text
//! [pub] fn <name> ( ... ) [-> <type>] ;
//! [pub] static <name> : <type> ;
//! ```
//!
//! Anything else is carried along as it stands, up to and including its
//! semicolon. An entry that starts as one of the two declarations and does
//! not go on as one makes the whole batch malformed.

use crate::declaration::{
    batch_view, texts, Declaration, DeclarationKind, DeclarationView, Item, ItemView, KindView,
    Visibility,
};
use crate::error::Error;
use crate::scan::{
    find_span_end, group_end, identifier_end, lemma_identifier_end, lemma_span_end,
    lemma_whitespace_end, skip_identifier, skip_whitespace, statement_end, whitespace_end, word_at,
};
use crate::text::{chars_of, is_whitespace, string_of, trim_end, trimmed_end};
use vstd::prelude::*;

verus! {

/// The attributes read from `i` on, added to `found`, with the position
/// behind the last of them and the whitespace after it. An attribute is a
/// `#` and a group in square brackets; one whose group does not end gives
/// `None`.
pub open spec fn attributes(s: Seq<char>, i: int, found: Seq<Seq<char>>) -> Option<
    (Seq<Seq<char>>, int),
>
    decreases s.len() - i,
{
    let hash = whitespace_end(s, i);
    let open = whitespace_end(s, hash + 1);
    if 0 <= i && hash < s.len() && s[hash] == '#' && open < s.len() && s[open] == '[' {
        match group_end(s, open + 1) {
            Some(close) => {
                proof {
                    lemma_whitespace_end(s, i);
                    lemma_whitespace_end(s, hash + 1);
                    lemma_span_end(s, open + 1, 1, false, true);
                }
                attributes(s, close + 1, found.push(s.subrange(hash, close + 1)))
            },
            None => None,
        }
    } else {
        Some((found, hash))
    }
}

/// The type written from `i` on, up to the semicolon that ends the
/// statement, without the whitespace around it, and the position behind the
/// semicolon. `None` where no semicolon ends the statement or nothing stands
/// before it.
pub open spec fn type_text(s: Seq<char>, i: int) -> Option<(Seq<char>, int)> {
    let start = whitespace_end(s, i);
    match statement_end(s, start) {
        Some(semicolon) => {
            let text = trim_end(s.subrange(start, semicolon));
            if text.len() > 0 {
                Some((text, semicolon + 1))
            } else {
                None
            }
        },
        None => None,
    }
}

/// What follows the keyword `fn`, which ends at `i`: the name, the
/// parameter list and the return type of the function, and the position
/// behind its semicolon. `None` where the text does not go on as a function
/// declaration.
pub open spec fn function(s: Seq<char>, i: int) -> Option<(Seq<char>, KindView, int)> {
    let name_start = whitespace_end(s, i);
    let name_end = identifier_end(s, name_start);
    let open = whitespace_end(s, name_end);
    if name_start < name_end && open < s.len() && s[open] == '(' {
        match group_end(s, open + 1) {
            Some(close) => {
                let name = s.subrange(name_start, name_end);
                let parameters = s.subrange(open, close + 1);
                let after = whitespace_end(s, close + 1);
                if after < s.len() && s[after] == ';' {
                    Some((name, KindView::Function { parameters, return_type: None }, after + 1))
                } else if after + 1 < s.len() && s[after] == '-' && s[after + 1] == '>' {
                    match type_text(s, after + 2) {
                        Some((returned, next)) => Some(
                            (
                                name,
                                KindView::Function { parameters, return_type: Some(returned) },
                                next,
                            ),
                        ),
                        None => None,
                    }
                } else {
                    None
                }
            },
            None => None,
        }
    } else {
        None
    }
}

/// What follows the keyword `static`, which ends at `i`: the name and the
/// type of the data symbol, and the position behind its semicolon. `None`
/// where the text does not go on as a data declaration.
pub open spec fn data(s: Seq<char>, i: int) -> Option<(Seq<char>, KindView, int)> {
    let name_start = whitespace_end(s, i);
    let name_end = identifier_end(s, name_start);
    let colon = whitespace_end(s, name_end);
    if name_start < name_end && colon < s.len() && s[colon] == ':' {
        match type_text(s, colon + 1) {
            Some((declared_type, next)) => Some(
                (s.subrange(name_start, name_end), KindView::Data { declared_type }, next),
            ),
            None => None,
        }
    } else {
        None
    }
}

/// The entry that is carried along as it stands from `i` on: the text up to
/// and including the semicolon that ends the statement, or, where none does,
/// the rest of the batch without the whitespace at its end.
pub open spec fn verbatim(s: Seq<char>, i: int) -> (ItemView, int) {
    match statement_end(s, i) {
        Some(semicolon) => (ItemView::Verbatim(s.subrange(i, semicolon + 1)), semicolon + 1),
        None => (ItemView::Verbatim(trim_end(s.subrange(i, s.len() as int))), s.len() as int),
    }
}

/// The keyword that decides what an entry is.
pub enum Keyword {
    /// `fn`: the entry is a function declaration.
    Function,
    /// `static`: the entry is a data declaration.
    Data,
    /// Anything else: the entry is carried along as it stands.
    Other,
}

/// The head of an entry: its attributes, its visibility and its keyword,
/// with the position at which the keyword ends.
pub struct Head {
    pub metadata: Seq<Seq<char>>,
    pub visibility: Visibility,
    pub keyword: Keyword,
    pub end: int,
}

/// The head of the entry that starts at `i`; `None` where one of its
/// attributes does not end.
pub open spec fn head(s: Seq<char>, i: int) -> Option<Head> {
    match attributes(s, i, Seq::empty()) {
        Some((metadata, start)) => {
            let public = word_at(s, start) == "pub"@;
            let at = if public {
                whitespace_end(s, identifier_end(s, start))
            } else {
                start
            };
            Some(
                Head {
                    metadata,
                    visibility: if public {
                        Visibility::Public
                    } else {
                        Visibility::Private
                    },
                    keyword: if word_at(s, at) == "fn"@ {
                        Keyword::Function
                    } else if word_at(s, at) == "static"@ {
                        Keyword::Data
                    } else {
                        Keyword::Other
                    },
                    end: identifier_end(s, at),
                },
            )
        },
        None => None,
    }
}

/// The entry that starts at `i`, and the position behind it; `None` where
/// the entry is malformed: where its head is, or where its keyword is that
/// of a declaration and what follows is not the rest of one.
pub open spec fn item(s: Seq<char>, i: int) -> Option<(ItemView, int)> {
    match head(s, i) {
        Some(h) => {
            let rest = match h.keyword {
                Keyword::Function => function(s, h.end),
                Keyword::Data => data(s, h.end),
                Keyword::Other => None,
            };
            match (h.keyword, rest) {
                (Keyword::Other, _) => Some(verbatim(s, i)),
                (_, Some((name, kind, next))) => Some(
                    (
                        ItemView::Declaration(
                            DeclarationView {
                                visibility: h.visibility,
                                metadata: h.metadata,
                                kind,
                                name,
                            },
                        ),
                        next,
                    ),
                ),
                (_, None) => None,
            }
        },
        None => None,
    }
}

/// The entries read from `i` on, added to `found`; `None` where one of them
/// is malformed.
pub open spec fn items(s: Seq<char>, i: int, found: Seq<ItemView>) -> Option<Seq<ItemView>>
    decreases s.len() - i,
{
    let start = whitespace_end(s, i);
    if i < 0 || start >= s.len() {
        Some(found)
    } else {
        match item(s, start) {
            Some((entry, next)) => {
                proof {
                    lemma_whitespace_end(s, i);
                    lemma_item_advances(s, start);
                }
                items(s, next, found.push(entry))
            },
            None => None,
        }
    }
}

/// The entries of the batch `s`, in the order in which they are written;
/// `None` where one of them is malformed.
pub open spec fn parse_spec(s: Seq<char>) -> Option<Seq<ItemView>> {
    items(s, 0, Seq::empty())
}

/// The attributes of an entry end within the text, at or after the position
/// from which they are read.
pub proof fn lemma_attributes_end(s: Seq<char>, i: int, found: Seq<Seq<char>>)
    requires
        0 <= i <= s.len(),
    ensures
        attributes(s, i, found) matches Some((_, end)) ==> i <= end <= s.len(),
    decreases s.len() - i,
{
    let hash = whitespace_end(s, i);
    lemma_whitespace_end(s, i);
    if hash < s.len() {
        let open = whitespace_end(s, hash + 1);
        lemma_whitespace_end(s, hash + 1);
        if s[hash] == '#' && open < s.len() && s[open] == '[' {
            lemma_span_end(s, open + 1, 1, false, true);
            match group_end(s, open + 1) {
                Some(close) => {
                    lemma_attributes_end(s, close + 1, found.push(s.subrange(hash, close + 1)));
                },
                None => {},
            }
        }
    }
}

/// A type ends behind the position from which it is read, within the text.
pub proof fn lemma_type_text_end(s: Seq<char>, i: int)
    requires
        0 <= i <= s.len(),
    ensures
        type_text(s, i) matches Some((_, next)) ==> i < next <= s.len(),
{
    lemma_whitespace_end(s, i);
    lemma_span_end(s, whitespace_end(s, i), 0, false, false);
}

/// An entry ends behind its start, within the text.
pub proof fn lemma_item_advances(s: Seq<char>, i: int)
    requires
        0 <= i < s.len(),
    ensures
        item(s, i) matches Some((_, next)) ==> i < next <= s.len(),
{
    lemma_attributes_end(s, i, Seq::empty());
    match attributes(s, i, Seq::empty()) {
        Some((metadata, start)) => {
            lemma_identifier_end(s, start);
            lemma_whitespace_end(s, identifier_end(s, start));
            let public = word_at(s, start) == "pub"@;
            let keyword = if public {
                whitespace_end(s, identifier_end(s, start))
            } else {
                start
            };
            lemma_identifier_end(s, keyword);
            let after = identifier_end(s, keyword);
            lemma_whitespace_end(s, after);
            let name_start = whitespace_end(s, after);
            lemma_identifier_end(s, name_start);
            let name_end = identifier_end(s, name_start);
            lemma_whitespace_end(s, name_end);
            let mark = whitespace_end(s, name_end);
            if mark < s.len() {
                lemma_span_end(s, mark + 1, 1, false, true);
                lemma_type_text_end(s, mark + 1);
                match group_end(s, mark + 1) {
                    Some(close) => {
                        lemma_whitespace_end(s, close + 1);
                        let arrow = whitespace_end(s, close + 1);
                        if arrow + 1 < s.len() {
                            lemma_type_text_end(s, arrow + 2);
                        }
                    },
                    None => {},
                }
            }
            lemma_span_end(s, i, 0, false, false);
        },
        None => {},
    }
}

/// Whether `s` holds nothing but whitespace.
pub open spec fn is_blank(s: Seq<char>) -> bool {
    forall|i: int| 0 <= i < s.len() ==> is_whitespace(#[trigger] s[i])
}

/// In a blank text, skipping whitespace leads to the end.
proof fn lemma_blank_whitespace_end(s: Seq<char>, i: int)
    requires
        is_blank(s),
        0 <= i <= s.len(),
    ensures
        whitespace_end(s, i) == s.len(),
    decreases s.len() - i,
{
    if i < s.len() {
        lemma_blank_whitespace_end(s, i + 1);
    }
}

/// A batch that holds nothing, or nothing but whitespace, is well formed and
/// has no entries.
pub proof fn lemma_blank_batch(s: Seq<char>)
    requires
        is_blank(s),
    ensures
        parse_spec(s) == Some(Seq::<ItemView>::empty()),
{
    lemma_blank_whitespace_end(s, 0);
}

/// One malformed entry makes the batch malformed, whatever was read before
/// it: no part of the batch is handed out.
pub proof fn lemma_malformed_entry_fails_batch(s: Seq<char>, i: int, found: Seq<ItemView>)
    requires
        0 <= i,
        whitespace_end(s, i) < s.len(),
        item(s, whitespace_end(s, i)) is None,
    ensures
        items(s, i, found) is None,
{
}

/// An entry whose keyword is that of a declaration is malformed where no
/// identifier starts behind the keyword and the whitespace after it.
pub proof fn lemma_nameless_declaration(s: Seq<char>, i: int)
    requires
        head(s, i) matches Some(h) && !(h.keyword is Other) && identifier_end(
            s,
            whitespace_end(s, h.end),
        ) == whitespace_end(s, h.end),
    ensures
        item(s, i) is None,
{
}

/// Whether `s[start..end]` is the text `word`.
fn word_is(s: &Vec<char>, start: usize, end: usize, word: &str) -> (r: bool)
    requires
        start <= end <= s.len(),
    ensures
        r == (s@.subrange(start as int, end as int) == word@),
{
    let w = chars_of(word);
    if end - start != w.len() {
        return false;
    }
    let mut j: usize = 0;
    while j < w.len()
        invariant
            start <= end <= s.len(),
            end - start == w.len(),
            j <= w.len(),
            w@ == word@,
            forall|k: int| 0 <= k < j ==> s@[start + k] == w@[k],
        decreases w.len() - j,
    {
        if s[start + j] != w[j] {
            assert(s@.subrange(start as int, end as int)[j as int] != word@[j as int]);
            return false;
        }
        j += 1;
    }
    assert(s@.subrange(start as int, end as int) =~= word@);
    true
}

/// Executable form of [`attributes`], read from `start` on.
fn parse_attributes(s: &Vec<char>, start: usize) -> (r: Option<(Vec<String>, usize)>)
    requires
        start <= s.len(),
    ensures
        match attributes(s@, start as int, Seq::empty()) {
            Some((found, end)) => r matches Some((v, e)) && texts(v@) == found && e == end
                && start <= e <= s.len(),
            None => r is None,
        },
{
    let n = s.len();
    let mut found: Vec<String> = Vec::new();
    let mut i: usize = start;
    assert(texts(found@) =~= Seq::<Seq<char>>::empty());
    loop
        invariant
            n == s.len(),
            start <= i <= n,
            attributes(s@, start as int, Seq::empty()) == attributes(s@, i as int, texts(found@)),
        decreases n - i,
    {
        let hash = skip_whitespace(s, i);
        if hash < n && s[hash] == '#' {
            let open = skip_whitespace(s, hash + 1);
            if open < n && s[open] == '[' {
                match find_span_end(s, open + 1, true) {
                    Some(close) => {
                        let attribute = string_of(s, hash, close + 1);
                        proof {
                            assert(texts(found@.push(attribute)) =~= texts(found@).push(
                                s@.subrange(hash as int, close as int + 1),
                            ));
                        }
                        found.push(attribute);
                        i = close + 1;
                    },
                    None => {
                        return None;
                    },
                }
            } else {
                return Some((found, hash));
            }
        } else {
            return Some((found, hash));
        }
    }
}

/// Executable form of [`type_text`], read from `start` on.
fn parse_type(s: &Vec<char>, start: usize) -> (r: Option<(String, usize)>)
    requires
        start <= s.len(),
    ensures
        match type_text(s@, start as int) {
            Some((text, next)) => r matches Some((t, e)) && t@ == text && e == next && start < e
                <= s.len(),
            None => r is None,
        },
{
    let first = skip_whitespace(s, start);
    match find_span_end(s, first, false) {
        Some(semicolon) => {
            let last = trimmed_end(s, first, semicolon);
            if last > first {
                Some((string_of(s, first, last), semicolon + 1))
            } else {
                None
            }
        },
        None => None,
    }
}

/// Executable form of [`function`], read from `start` on.
fn parse_function(s: &Vec<char>, start: usize) -> (r: Option<(String, DeclarationKind, usize)>)
    requires
        start <= s.len(),
    ensures
        match function(s@, start as int) {
            Some((name, kind, next)) => r matches Some((n, k, e)) && n@ == name && k@ == kind && e
                == next && start < e <= s.len(),
            None => r is None,
        },
{
    let n = s.len();
    let name_start = skip_whitespace(s, start);
    let name_end = skip_identifier(s, name_start);
    let open = skip_whitespace(s, name_end);
    if !(name_start < name_end && open < n && s[open] == '(') {
        return None;
    }
    let close = match find_span_end(s, open + 1, true) {
        Some(close) => close,
        None => { return None; },
    };
    let after = skip_whitespace(s, close + 1);
    if after < n && s[after] == ';' {
        let name = string_of(s, name_start, name_end);
        let parameters = string_of(s, open, close + 1);
        Some((name, DeclarationKind::Function { parameters, return_type: None }, after + 1))
    } else if after < n - 1 && s[after] == '-' && s[after + 1] == '>' {
        match parse_type(s, after + 2) {
            Some((returned, next)) => {
                let name = string_of(s, name_start, name_end);
                let parameters = string_of(s, open, close + 1);
                Some(
                    (
                        name,
                        DeclarationKind::Function { parameters, return_type: Some(returned) },
                        next,
                    ),
                )
            },
            None => None,
        }
    } else {
        None
    }
}

/// Executable form of [`data`], read from `start` on.
fn parse_data(s: &Vec<char>, start: usize) -> (r: Option<(String, DeclarationKind, usize)>)
    requires
        start <= s.len(),
    ensures
        match data(s@, start as int) {
            Some((name, kind, next)) => r matches Some((n, k, e)) && n@ == name && k@ == kind && e
                == next && start < e <= s.len(),
            None => r is None,
        },
{
    let n = s.len();
    let name_start = skip_whitespace(s, start);
    let name_end = skip_identifier(s, name_start);
    let colon = skip_whitespace(s, name_end);
    if !(name_start < name_end && colon < n && s[colon] == ':') {
        return None;
    }
    match parse_type(s, colon + 1) {
        Some((declared_type, next)) => {
            let name = string_of(s, name_start, name_end);
            Some((name, DeclarationKind::Data { declared_type }, next))
        },
        None => None,
    }
}

/// Executable form of [`verbatim`], read from `start` on.
fn parse_verbatim(s: &Vec<char>, start: usize) -> (r: (Item, usize))
    requires
        start < s.len(),
    ensures
        r.0@ == verbatim(s@, start as int).0,
        r.1 == verbatim(s@, start as int).1,
        start < r.1 <= s.len(),
{
    match find_span_end(s, start, false) {
        Some(semicolon) => (Item::Verbatim(string_of(s, start, semicolon + 1)), semicolon + 1),
        None => {
            let last = trimmed_end(s, start, s.len());
            (Item::Verbatim(string_of(s, start, last)), s.len())
        },
    }
}

/// Executable form of [`item`], read from `start` on.
fn parse_item(s: &Vec<char>, start: usize) -> (r: Option<(Item, usize)>)
    requires
        start < s.len(),
    ensures
        match item(s@, start as int) {
            Some((entry, next)) => r matches Some((i, e)) && i@ == entry && e == next && start < e
                <= s.len(),
            None => r is None,
        },
{
    let (metadata, first) = match parse_attributes(s, start) {
        Some(read) => read,
        None => { return None; },
    };
    let first_end = skip_identifier(s, first);
    let public = word_is(s, first, first_end, "pub");
    let keyword = if public {
        skip_whitespace(s, first_end)
    } else {
        first
    };
    let visibility = if public {
        Visibility::Public
    } else {
        Visibility::Private
    };
    let keyword_end = skip_identifier(s, keyword);
    let rest = if word_is(s, keyword, keyword_end, "fn") {
        parse_function(s, keyword_end)
    } else if word_is(s, keyword, keyword_end, "static") {
        parse_data(s, keyword_end)
    } else {
        return Some(parse_verbatim(s, start));
    };
    match rest {
        Some((name, kind, next)) => Some(
            (Item::Declaration(Declaration { visibility, metadata, kind, name }), next),
        ),
        None => None,
    }
}

/// The entries of the batch `batch`, in the order in which they are written.
///
/// Fails with [`Error::MalformedDeclarationBatch`] where an entry starts as
/// a function or data declaration and does not go on as one, or where an
/// attribute does not end. No entry is returned then.
pub fn parse(batch: &str) -> (r: Result<Vec<Item>, Error>)
    ensures
        match parse_spec(batch@) {
            Some(entries) => r matches Ok(v) && batch_view(v@) == entries,
            None => r == Err::<Vec<Item>, Error>(Error::MalformedDeclarationBatch),
        },
{
    let s = chars_of(batch);
    let n = s.len();
    let mut found: Vec<Item> = Vec::new();
    let mut i: usize = 0;
    assert(batch_view(found@) =~= Seq::<ItemView>::empty());
    loop
        invariant
            n == s.len(),
            s@ == batch@,
            i <= n,
            parse_spec(s@) == items(s@, i as int, batch_view(found@)),
        decreases n - i,
    {
        let start = skip_whitespace(&s, i);
        if start >= n {
            return Ok(found);
        }
        match parse_item(&s, start) {
            Some((entry, next)) => {
                proof {
                    assert(batch_view(found@.push(entry)) =~= batch_view(found@).push(entry@));
                }
                found.push(entry);
                i = next;
            },
            None => {
                return Err(Error::MalformedDeclarationBatch);
            },
        }
    }
}

} // verus!
