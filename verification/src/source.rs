//! The source text of a batch of declarations, and the law that reading it
//! gives the declarations back.

use crate::declaration::{
    DeclarationView, ItemView, KindView, MangledItemView, MangledView, Visibility,
};
use crate::parse::{
    attributes, data, function, head, item, items, lemma_attributes_end, lemma_item_advances,
    parse_spec, type_text, Head, Keyword,
};
use crate::rewrite::{link_name, mangle_spec, render_spec, signature, versioned_extern_spec};
use crate::scan::{
    group_end, holds, identifier_end, is_closing, is_opening, lemma_holds_parts,
    lemma_holds_subrange, lemma_identifier_end, lemma_identifier_skipped,
    lemma_identifier_tail_run, lemma_span_end, lemma_span_end_of_part, lemma_span_end_within,
    lemma_whitespace_end, lemma_whitespace_run, lemma_whitespace_skipped, span_end,
    statement_end, whitespace_end, word_at,
};
use crate::text::{is_identifier_part, is_identifier_start, is_whitespace, trim_end};
use vstd::prelude::*;

verus! {

/// Whether `s` is an identifier.
pub open spec fn is_identifier(s: Seq<char>) -> bool {
    &&& s.len() > 0
    &&& is_identifier_start(s[0])
    &&& forall|i: int| 0 < i < s.len() ==> is_identifier_part(#[trigger] s[i])
}

/// Whether `a` is an attribute: a `#`, then a group in square brackets that
/// ends where `a` does.
pub open spec fn is_attribute(a: Seq<char>) -> bool {
    let open = whitespace_end(a, 1);
    &&& a.len() > 0
    &&& a[0] == '#'
    &&& open < a.len()
    &&& a[open] == '['
    &&& group_end(a, open + 1) == Some(a.len() - 1)
}

/// Whether `p` is a parameter list: a group in parentheses that ends where
/// `p` does.
pub open spec fn is_parameters(p: Seq<char>) -> bool {
    &&& p.len() > 0
    &&& p[0] == '('
    &&& group_end(p, 1) == Some(p.len() - 1)
}

/// Whether `t` can stand for a type: a text that is not empty, has no
/// whitespace around it, and no semicolon outside its brackets and quotes,
/// which are balanced.
pub open spec fn is_type(t: Seq<char>) -> bool {
    &&& t.len() > 0
    &&& !is_whitespace(t[0])
    &&& !is_whitespace(t.last())
    &&& statement_end(t.push(';'), 0) == Some(t.len() as int)
}

/// Whether each text of `d` is what it stands for.
pub open spec fn well_formed(d: DeclarationView) -> bool {
    &&& is_identifier(d.name)
    &&& forall|k: int| 0 <= k < d.metadata.len() ==> is_attribute(#[trigger] d.metadata[k])
    &&& match d.kind {
        KindView::Function { parameters, return_type: Some(returned) } => is_parameters(
            parameters,
        ) && is_type(returned),
        KindView::Function { parameters, return_type: None } => is_parameters(parameters),
        KindView::Data { declared_type } => is_type(declared_type),
    }
}

/// The attributes `metadata` as source text: one to a line, in order.
pub open spec fn attribute_source(metadata: Seq<Seq<char>>) -> Seq<char>
    decreases metadata.len(),
{
    if metadata.len() == 0 {
        Seq::empty()
    } else {
        metadata[0] + seq!['\n'] + attribute_source(metadata.drop_first())
    }
}

/// The declaration `d` as source text: its attributes, then the declaration
/// itself on a line of its own.
pub open spec fn source(d: DeclarationView) -> Seq<char> {
    attribute_source(d.metadata) + signature(d) + seq!['\n']
}

/// The declarations `batch` as the source text of a batch.
pub open spec fn batch_source(batch: Seq<DeclarationView>) -> Seq<char>
    decreases batch.len(),
{
    if batch.len() == 0 {
        Seq::empty()
    } else {
        source(batch[0]) + batch_source(batch.drop_first())
    }
}

/// The declarations `batch` as the entries of a batch.
pub open spec fn declarations(batch: Seq<DeclarationView>) -> Seq<ItemView> {
    batch.map_values(|d: DeclarationView| ItemView::Declaration(d))
}

/// What follows the name of a declaration of the kind `kind`.
spec fn trailer(kind: KindView) -> Seq<char> {
    match kind {
        KindView::Function { parameters, return_type: Some(returned) } => parameters
            + seq![' ', '-', '>', ' '] + returned + seq![';'],
        KindView::Function { parameters, return_type: None } => parameters + seq![';'],
        KindView::Data { declared_type } => seq![':', ' '] + declared_type + seq![';'],
    }
}

/// The keyword of a declaration of the kind `kind`.
spec fn keyword_text(kind: KindView) -> Seq<char> {
    match kind {
        KindView::Function { .. } => seq!['f', 'n'],
        KindView::Data { .. } => seq!['s', 't', 'a', 't', 'i', 'c'],
    }
}

/// The visibility marker with the space behind it, or nothing.
spec fn visibility_text(visibility: Visibility) -> Seq<char> {
    match visibility {
        Visibility::Public => seq!['p', 'u', 'b', ' '],
        Visibility::Private => Seq::empty(),
    }
}

/// The declaration itself, character by character.
spec fn spelled(d: DeclarationView) -> Seq<char> {
    visibility_text(d.visibility) + keyword_text(d.kind) + seq![' '] + d.name + trailer(d.kind)
}

proof fn lemma_signature_spelled(d: DeclarationView)
    ensures
        signature(d) == spelled(d),
{
    reveal_strlit("pub ");
    reveal_strlit("fn ");
    reveal_strlit("static ");
    reveal_strlit(" -> ");
    reveal_strlit(": ");
    reveal_strlit(";");
    assert("pub "@ =~= seq!['p', 'u', 'b', ' ']);
    assert("fn "@ =~= seq!['f', 'n', ' ']);
    assert("static "@ =~= seq!['s', 't', 'a', 't', 'i', 'c', ' ']);
    assert(" -> "@ =~= seq![' ', '-', '>', ' ']);
    assert(": "@ =~= seq![':', ' ']);
    assert(";"@ =~= seq![';']);
    assert(signature(d) =~= spelled(d));
}

/// The text `t`, written behind one space and before a semicolon, is read
/// as the type `t`.
proof fn lemma_type_source(s: Seq<char>, i: int, t: Seq<char>)
    requires
        is_type(t),
        0 <= i,
        i + 2 + t.len() <= s.len(),
        s[i] == ' ',
        holds(s, i + 1, t),
        s[i + 1 + t.len()] == ';',
    ensures
        type_text(s, i) == Some((t, i + 2 + t.len())),
{
    assert(s[i + 1] == t[0]);
    lemma_whitespace_run(s, i, i + 1);
    let a = t.push(';');
    assert(holds(s, i + 1, a)) by {
        assert forall|j: int| 0 <= j < a.len() implies s[i + 1 + j] == #[trigger] a[j] by {
            if j < t.len() {
                assert(a[j] == t[j]);
            }
        }
    }
    lemma_span_end_within(a, 0, 0, false, false, s, i + 1);
    lemma_holds_subrange(s, i + 1, t);
    assert(trim_end(t) == t);
}

/// A name that stands at `i`, before a character that continues no
/// identifier, is read as a whole.
proof fn lemma_name_source(s: Seq<char>, i: int, name: Seq<char>)
    requires
        is_identifier(name),
        holds(s, i, name),
        i + name.len() < s.len(),
        !is_identifier_part(s[i + name.len()]),
    ensures
        identifier_end(s, i) == i + name.len(),
        s.subrange(i, i + name.len()) == name,
        !is_whitespace(s[i]),
{
    assert(s[i] == name[0]);
    assert forall|k: int| i + 1 <= k < i + name.len() implies is_identifier_part(
        #[trigger] s[k],
    ) by {
        assert(s[i + (k - i)] == name[k - i]);
    }
    lemma_identifier_tail_run(s, i + 1, i + name.len());
    lemma_holds_subrange(s, i, name);
}

/// What follows the keyword of a well-formed function declaration is read
/// as its name, its parameter list and its return type.
proof fn lemma_function_source(s: Seq<char>, e: int, name: Seq<char>, kind: KindView)
    requires
        kind is Function,
        is_identifier(name),
        match kind {
            KindView::Function { parameters, return_type: Some(returned) } => is_parameters(
                parameters,
            ) && is_type(returned),
            KindView::Function { parameters, return_type: None } => is_parameters(parameters),
            KindView::Data { declared_type } => false,
        },
        holds(s, e, seq![' '] + name + trailer(kind)),
    ensures
        function(s, e) == Some((name, kind, e + 1 + name.len() + trailer(kind).len())),
{
    let space = seq![' '];
    lemma_holds_parts(s, e, space + name, trailer(kind));
    lemma_holds_parts(s, e, space, name);
    assert(s[e + 0] == space[0]);
    let n = e + 1;
    let o = n + name.len();
    let parameters = kind->parameters;
    match kind {
        KindView::Function { parameters, return_type: Some(returned) } => {
            let arrow = seq![' ', '-', '>', ' '];
            let semicolon = seq![';'];
            lemma_holds_parts(s, o, parameters + arrow + returned, semicolon);
            lemma_holds_parts(s, o, parameters + arrow, returned);
            lemma_holds_parts(s, o, parameters, arrow);
            assert(s[o + 0] == parameters[0]);
            lemma_name_source(s, n, name);
            lemma_whitespace_run(s, e, n);
            lemma_whitespace_run(s, o, o);
            lemma_span_end_within(parameters, 1, 1, false, true, s, o);
            let close = o + parameters.len() - 1;
            lemma_holds_subrange(s, o, parameters);
            let c = close + 1;
            assert(s[c + 0] == arrow[0]);
            assert(s[c + 1] == arrow[1]);
            assert(s[c + 2] == arrow[2]);
            assert(s[c + 3] == arrow[3]);
            lemma_whitespace_run(s, c, c + 1);
            let r = c + 4;
            assert(s[r + returned.len() + 0] == semicolon[0]);
            lemma_type_source(s, c + 3, returned);
        },
        KindView::Function { parameters, return_type: None } => {
            let semicolon = seq![';'];
            lemma_holds_parts(s, o, parameters, semicolon);
            assert(s[o + 0] == parameters[0]);
            lemma_name_source(s, n, name);
            lemma_whitespace_run(s, e, n);
            lemma_whitespace_run(s, o, o);
            lemma_span_end_within(parameters, 1, 1, false, true, s, o);
            let close = o + parameters.len() - 1;
            lemma_holds_subrange(s, o, parameters);
            assert(s[close + 1 + 0] == semicolon[0]);
            lemma_whitespace_run(s, close + 1, close + 1);
        },
        KindView::Data { declared_type } => {},
    }
}

/// What follows the keyword of a well-formed data declaration is read as
/// its name and its type.
proof fn lemma_data_source(s: Seq<char>, e: int, name: Seq<char>, kind: KindView)
    requires
        is_identifier(name),
        kind matches KindView::Data { declared_type } && is_type(declared_type),
        holds(s, e, seq![' '] + name + trailer(kind)),
    ensures
        data(s, e) == Some((name, kind, e + 1 + name.len() + trailer(kind).len())),
{
    let space = seq![' '];
    let declared_type = kind->declared_type;
    let colon = seq![':', ' '];
    let semicolon = seq![';'];
    lemma_holds_parts(s, e, space + name, trailer(kind));
    lemma_holds_parts(s, e, space, name);
    assert(s[e + 0] == space[0]);
    let n = e + 1;
    let o = n + name.len();
    lemma_holds_parts(s, o, colon + declared_type, semicolon);
    lemma_holds_parts(s, o, colon, declared_type);
    assert(s[o + 0] == colon[0]);
    assert(s[o + 1] == colon[1]);
    lemma_name_source(s, n, name);
    lemma_whitespace_run(s, e, n);
    lemma_whitespace_run(s, o, o);
    assert(s[o + 2 + declared_type.len() + 0] == semicolon[0]);
    lemma_type_source(s, o + 1, declared_type);
}

/// The attributes of a well-formed declaration are read in their order, up
/// to the declaration itself.
proof fn lemma_attributes_source(
    s: Seq<char>,
    p: int,
    metadata: Seq<Seq<char>>,
    found: Seq<Seq<char>>,
)
    requires
        forall|k: int| 0 <= k < metadata.len() ==> is_attribute(#[trigger] metadata[k]),
        holds(s, p, attribute_source(metadata)),
        p + attribute_source(metadata).len() < s.len(),
        !is_whitespace(s[p + attribute_source(metadata).len()]),
        s[p + attribute_source(metadata).len()] != '#',
    ensures
        attributes(s, p, found) == Some((found + metadata, p + attribute_source(metadata).len())),
    decreases metadata.len(),
{
    if metadata.len() == 0 {
        lemma_whitespace_run(s, p, p);
        assert(found + metadata =~= found);
    } else {
        let a = metadata[0];
        let rest = metadata.drop_first();
        let line = seq!['\n'];
        assert(is_attribute(a));
        lemma_holds_parts(s, p, a + line, attribute_source(rest));
        lemma_holds_parts(s, p, a, line);
        let w = whitespace_end(a, 1);
        lemma_whitespace_end(a, 1);
        assert(s[p + 0] == a[0]);
        lemma_whitespace_run(s, p, p);
        assert forall|k: int| p + 1 <= k < p + w implies is_whitespace(#[trigger] s[k]) by {
            lemma_whitespace_skipped(a, 1, k - p);
            assert(s[p + (k - p)] == a[k - p]);
        }
        assert(s[p + w] == a[w]);
        lemma_whitespace_run(s, p + 1, p + w);
        lemma_span_end_within(a, w + 1, 1, false, true, s, p);
        lemma_holds_subrange(s, p, a);
        let next = p + a.len();
        assert(s[next + 0] == line[0]);
        assert(is_whitespace(s[next]));
        let taken = found.push(a);
        assert(attributes(s, p, found) == attributes(s, next, taken));
        assert(whitespace_end(s, next) == whitespace_end(s, next + 1));
        assert(attributes(s, next, taken) == attributes(s, next + 1, taken));
        assert forall|k: int| 0 <= k < rest.len() implies is_attribute(#[trigger] rest[k]) by {
            assert(rest[k] == metadata[k + 1]);
        }
        lemma_attributes_source(s, next + 1, rest, taken);
        assert(taken + rest =~= found + metadata);
    }
}

/// A keyword that stands at `i`, before a space, is read as a whole.
proof fn lemma_word_source(s: Seq<char>, i: int, word: Seq<char>)
    requires
        is_identifier(word),
        holds(s, i, word),
        i + word.len() < s.len(),
        s[i + word.len()] == ' ',
    ensures
        word_at(s, i) == word,
        identifier_end(s, i) == i + word.len(),
{
    lemma_name_source(s, i, word);
}

/// The head of a well-formed declaration is read as its attributes, its
/// visibility and its keyword.
proof fn lemma_head_source(s: Seq<char>, p: int, d: DeclarationView)
    requires
        well_formed(d),
        holds(s, p, attribute_source(d.metadata) + spelled(d)),
    ensures
        head(s, p) == Some(
            Head {
                metadata: d.metadata,
                visibility: d.visibility,
                keyword: if d.kind is Function {
                    Keyword::Function
                } else {
                    Keyword::Data
                },
                end: p + attribute_source(d.metadata).len() + visibility_text(d.visibility).len()
                    + keyword_text(d.kind).len(),
            },
        ),
{
    reveal_strlit("pub");
    reveal_strlit("fn");
    reveal_strlit("static");
    let public = seq!['p', 'u', 'b'];
    let function = seq!['f', 'n'];
    let fixed = seq!['s', 't', 'a', 't', 'i', 'c'];
    assert("pub"@ =~= public);
    assert("fn"@ =~= function);
    assert("static"@ =~= fixed);
    let space = seq![' '];
    let v = visibility_text(d.visibility);
    let k = keyword_text(d.kind);
    lemma_holds_parts(s, p, attribute_source(d.metadata), spelled(d));
    let q = p + attribute_source(d.metadata).len();
    lemma_holds_parts(s, q, v + k + space + d.name, trailer(d.kind));
    lemma_holds_parts(s, q, v + k + space, d.name);
    lemma_holds_parts(s, q, v + k, space);
    lemma_holds_parts(s, q, v, k);
    let at = q + v.len();
    assert(s[at + k.len() + 0] == space[0]);
    assert(s[at + 0] == k[0]);
    assert(is_identifier(k));
    lemma_word_source(s, at, k);
    match d.visibility {
        Visibility::Public => {
            assert(s[q + 0] == v[0]);
            assert(s[q + 1] == v[1]);
            assert(s[q + 2] == v[2]);
            assert(s[q + 3] == v[3]);
            assert(holds(s, q, public));
            assert(is_identifier(public));
            lemma_word_source(s, q, public);
            lemma_whitespace_run(s, q + 3, q + 4);
        },
        Visibility::Private => {
            assert(word_at(s, q) == k);
            assert(k.len() != public.len());
        },
    }
    lemma_attributes_source(s, p, d.metadata, Seq::empty());
    assert(Seq::<Seq<char>>::empty() + d.metadata =~= d.metadata);
    assert(function.len() != fixed.len());
}

/// A well-formed declaration that stands at `p` as source text is read as
/// that declaration, up to the line break at its end.
proof fn lemma_item_source(s: Seq<char>, p: int, d: DeclarationView)
    requires
        well_formed(d),
        holds(s, p, source(d)),
    ensures
        item(s, p) == Some((ItemView::Declaration(d), p + source(d).len() - 1)),
        !is_whitespace(s[p]),
        is_whitespace(s[p + source(d).len() - 1]),
        source(d).len() > 0,
{
    lemma_signature_spelled(d);
    let line = seq!['\n'];
    let text = attribute_source(d.metadata) + spelled(d);
    lemma_holds_parts(s, p, text, line);
    assert(s[p + text.len() + 0] == line[0]);
    lemma_head_source(s, p, d);
    lemma_holds_parts(s, p, attribute_source(d.metadata), spelled(d));
    let q = p + attribute_source(d.metadata).len();
    let v = visibility_text(d.visibility);
    let k = keyword_text(d.kind);
    let space = seq![' '];
    let e = q + v.len() + k.len();
    assert(spelled(d) =~= (v + k) + (space + d.name + trailer(d.kind)));
    lemma_holds_parts(s, q, v + k, space + d.name + trailer(d.kind));
    if d.kind is Function {
        lemma_function_source(s, e, d.name, d.kind);
    } else {
        lemma_data_source(s, e, d.name, d.kind);
    }
    if d.metadata.len() == 0 {
        assert(s[q + 0] == (v + k)[0]);
    } else {
        let a = d.metadata[0];
        assert(is_attribute(a));
        lemma_holds_parts(
            s,
            p,
            a + line,
            attribute_source(d.metadata.drop_first()),
        );
        lemma_holds_parts(s, p, a, line);
        assert(s[p + 0] == a[0]);
    }
}

/// The source text of well-formed declarations is read as these
/// declarations, in their order.
proof fn lemma_items_source(
    s: Seq<char>,
    p: int,
    batch: Seq<DeclarationView>,
    found: Seq<ItemView>,
)
    requires
        forall|k: int| 0 <= k < batch.len() ==> well_formed(#[trigger] batch[k]),
        holds(s, p, batch_source(batch)),
        p + batch_source(batch).len() == s.len(),
    ensures
        items(s, p, found) == Some(found + declarations(batch)),
    decreases batch.len(),
{
    if batch.len() == 0 {
        lemma_whitespace_run(s, p, p);
        assert(found + declarations(batch) =~= found);
    } else {
        let d = batch[0];
        let rest = batch.drop_first();
        assert(well_formed(d));
        lemma_holds_parts(s, p, source(d), batch_source(rest));
        lemma_item_source(s, p, d);
        lemma_whitespace_run(s, p, p);
        let next = p + source(d).len() - 1;
        let taken = found.push(ItemView::Declaration(d));
        assert(items(s, p, found) == items(s, next, taken));
        assert(whitespace_end(s, next) == whitespace_end(s, next + 1));
        assert(items(s, next, taken) == items(s, next + 1, taken));
        assert forall|k: int| 0 <= k < rest.len() implies well_formed(#[trigger] rest[k]) by {
            assert(rest[k] == batch[k + 1]);
        }
        lemma_items_source(s, next + 1, rest, taken);
        assert(taken + declarations(rest) =~= found + declarations(batch));
    }
}

/// Reading the source text of well-formed declarations gives back these
/// declarations: as many, in the same order, each with its visibility, its
/// attributes, its name and what follows the name.
pub proof fn lemma_parse_source(batch: Seq<DeclarationView>)
    requires
        forall|k: int| 0 <= k < batch.len() ==> well_formed(#[trigger] batch[k]),
    ensures
        parse_spec(batch_source(batch)) == Some(declarations(batch)),
{
    let s = batch_source(batch);
    assert(holds(s, 0, s));
    lemma_items_source(s, 0, batch, Seq::empty());
    assert(Seq::<ItemView>::empty() + declarations(batch) =~= declarations(batch));
}

/// Rewriting the source text of well-formed declarations gives one block
/// that holds every one of them, in their order, each as it was written and
/// with the link name made of its name, an underscore and the tag.
pub proof fn lemma_rewrite_source(batch: Seq<DeclarationView>, tag: Seq<char>)
    requires
        forall|k: int| 0 <= k < batch.len() ==> well_formed(#[trigger] batch[k]),
    ensures
        versioned_extern_spec(batch_source(batch), tag) == Some(
            render_spec(mangle_spec(declarations(batch), tag)),
        ),
        mangle_spec(declarations(batch), tag).len() == batch.len(),
        forall|k: int|
            0 <= k < batch.len() ==> #[trigger] mangle_spec(declarations(batch), tag)[k]
                == MangledItemView::Declaration(
                MangledView { declaration: batch[k], link_name: link_name(batch[k].name, tag) },
            ),
{
    lemma_parse_source(batch);
}

/// What is left of a text without the whitespace at its end starts as the
/// text does and ends with no whitespace.
proof fn lemma_trim_end(x: Seq<char>)
    ensures
        trim_end(x).len() <= x.len(),
        trim_end(x) == x.take(trim_end(x).len() as int),
        trim_end(x).len() > 0 ==> !is_whitespace(trim_end(x).last()),
    decreases x.len(),
{
    if x.len() > 0 && is_whitespace(x.last()) {
        lemma_trim_end(x.drop_last());
        let t = trim_end(x.drop_last());
        assert(x.drop_last().take(t.len() as int) =~= x.take(t.len() as int));
    } else {
        assert(x.take(x.len() as int) =~= x);
    }
}

/// A statement that ends at its semicolon still does so without one
/// whitespace character before the semicolon.
proof fn lemma_statement_without_space(
    y: Seq<char>,
    c: char,
    i: int,
    depth: nat,
    quoted: bool,
)
    requires
        is_whitespace(c),
        0 <= i <= y.len(),
        span_end(y.push(c).push(';'), i, depth, quoted, false) == Some(
            y.len() as int + 1,
        ),
    ensures
        span_end(y.push(';'), i, depth, quoted, false) == Some(y.len() as int),
    decreases y.len() - i,
{
    let long = y.push(c).push(';');
    let short = y.push(';');
    let n = y.len() as int;
    assert(long[n] == c);
    assert(long[n + 1] == ';');
    assert(short[n] == ';');
    if i < n {
        assert(long[i] == y[i]);
        assert(short[i] == y[i]);
        let ch = y[i];
        if quoted {
            if ch == '\\' {
                if i + 2 <= n {
                    lemma_statement_without_space(y, c, i + 2, depth, true);
                } else {
                    assert(span_end(long, n + 1, depth, true, false)
                        == span_end(long, n + 2, depth, true, false));
                }
            } else {
                lemma_statement_without_space(y, c, i + 1, depth, ch != '"');
            }
        } else if ch == '"' {
            lemma_statement_without_space(y, c, i + 1, depth, true);
        } else if is_opening(ch) {
            lemma_statement_without_space(y, c, i + 1, depth + 1, false);
        } else if is_closing(ch) {
            if depth > 0 {
                lemma_statement_without_space(y, c, i + 1, (depth - 1) as nat, false);
            }
        } else if !(ch == ';' && depth == 0) {
            lemma_statement_without_space(y, c, i + 1, depth, false);
        }
    } else {
        if quoted {
            assert(span_end(long, n, depth, true, false) == span_end(
                long,
                n + 1,
                depth,
                true,
                false,
            ));
            assert(span_end(long, n + 1, depth, true, false)
                == span_end(long, n + 2, depth, true, false));
        } else {
            assert(span_end(long, n, depth, false, false)
                == span_end(long, n + 1, depth, false, false));
            if depth > 0 {
                assert(span_end(long, n + 1, depth, false, false)
                    == span_end(long, n + 2, depth, false, false));
            }
        }
    }
}

/// A statement that ends at its semicolon still does so without the
/// whitespace before the semicolon.
proof fn lemma_statement_trimmed(x: Seq<char>)
    requires
        statement_end(x.push(';'), 0) == Some(x.len() as int),
    ensures
        statement_end(trim_end(x).push(';'), 0) == Some(trim_end(x).len() as int),
    decreases x.len(),
{
    if x.len() > 0 && is_whitespace(x.last()) {
        let y = x.drop_last();
        assert(y.push(x.last()) =~= x);
        lemma_statement_without_space(y, x.last(), 0, 0, false);
        lemma_statement_trimmed(y);
    }
}

/// The type that is read from a text is a type.
proof fn lemma_type_read(s: Seq<char>, i: int)
    requires
        0 <= i <= s.len(),
    ensures
        type_text(s, i) matches Some((t, _)) ==> is_type(t),
{
    let start = whitespace_end(s, i);
    lemma_whitespace_end(s, i);
    match statement_end(s, start) {
        Some(semicolon) => {
            lemma_span_end_of_part(s, start, 0, 0, false, false);
            lemma_span_end(s, start, 0, false, false);
            let x = s.subrange(start, semicolon);
            assert(s.subrange(start, semicolon + 1) =~= x.push(';'));
            lemma_statement_trimmed(x);
            lemma_trim_end(x);
            let t = trim_end(x);
            if t.len() > 0 {
                assert(t[0] == x.take(t.len() as int)[0]);
                assert(x[0] == s[start]);
            }
        },
        None => {},
    }
}

/// The name that is read from a text is an identifier.
proof fn lemma_name_read(s: Seq<char>, i: int)
    requires
        0 <= i <= s.len(),
        i < identifier_end(s, i),
    ensures
        is_identifier(s.subrange(i, identifier_end(s, i))),
{
    let e = identifier_end(s, i);
    lemma_identifier_end(s, i);
    let name = s.subrange(i, e);
    assert forall|k: int| 0 < k < name.len() implies is_identifier_part(#[trigger] name[k]) by {
        lemma_identifier_skipped(s, i + 1, i + k);
    }
}

/// The group that is read behind an opening bracket at `open`, up to and
/// including the bracket that closes it, is a group by itself.
proof fn lemma_group_read(s: Seq<char>, from: int, open: int)
    requires
        0 <= from <= open < s.len(),
        group_end(s, open + 1) is Some,
    ensures
        group_end(s.subrange(from, group_end(s, open + 1).unwrap() + 1), open - from + 1) == Some(
            group_end(s, open + 1).unwrap() - from,
        ),
{
    lemma_span_end_of_part(s, from, open - from + 1, 1, false, true);
}

/// The attributes that are read from a text are attributes.
proof fn lemma_attributes_read(s: Seq<char>, i: int, found: Seq<Seq<char>>)
    requires
        0 <= i <= s.len(),
        forall|k: int| 0 <= k < found.len() ==> is_attribute(#[trigger] found[k]),
    ensures
        attributes(s, i, found) matches Some((all, _)) ==> forall|k: int|
            0 <= k < all.len() ==> is_attribute(#[trigger] all[k]),
    decreases s.len() - i,
{
    let hash = whitespace_end(s, i);
    lemma_whitespace_end(s, i);
    if hash < s.len() {
        let open = whitespace_end(s, hash + 1);
        lemma_whitespace_end(s, hash + 1);
        if s[hash] == '#' && open < s.len() && s[open] == '[' {
            lemma_span_end(s, open + 1, 1, false, true);
            match group_end(s, open + 1) {
                Some(close) => {
                    let a = s.subrange(hash, close + 1);
                    lemma_group_read(s, hash, open);
                    assert forall|k: int| 1 <= k < open - hash implies is_whitespace(
                        #[trigger] a[k],
                    ) by {
                        lemma_whitespace_skipped(s, hash + 1, hash + k);
                    }
                    assert(a[open - hash] == '[');
                    lemma_whitespace_run(a, 1, open - hash);
                    assert(is_attribute(a));
                    let taken = found.push(a);
                    assert forall|k: int| 0 <= k < taken.len() implies is_attribute(
                        #[trigger] taken[k],
                    ) by {
                        if k < found.len() {
                            assert(taken[k] == found[k]);
                        }
                    }
                    lemma_attributes_read(s, close + 1, taken);
                },
                None => {},
            }
        }
    }
}

/// What is read behind the keyword of a function declaration is a name, a
/// parameter list and, where there is one, a type.
proof fn lemma_function_read(s: Seq<char>, i: int)
    requires
        0 <= i <= s.len(),
    ensures
        function(s, i) matches Some((name, kind, _)) ==> is_identifier(name) && match kind {
            KindView::Function { parameters, return_type: Some(returned) } => is_parameters(
                parameters,
            ) && is_type(returned),
            KindView::Function { parameters, return_type: None } => is_parameters(parameters),
            KindView::Data { declared_type } => false,
        },
{
    let name_start = whitespace_end(s, i);
    lemma_whitespace_end(s, i);
    let name_end = identifier_end(s, name_start);
    lemma_identifier_end(s, name_start);
    let open = whitespace_end(s, name_end);
    lemma_whitespace_end(s, name_end);
    if name_start < name_end && open < s.len() && s[open] == '(' {
        lemma_name_read(s, name_start);
        lemma_span_end(s, open + 1, 1, false, true);
        match group_end(s, open + 1) {
            Some(close) => {
                lemma_group_read(s, open, open);
                let after = whitespace_end(s, close + 1);
                lemma_whitespace_end(s, close + 1);
                if after + 1 < s.len() {
                    lemma_type_read(s, after + 2);
                }
            },
            None => {},
        }
    }
}

/// What is read behind the keyword of a data declaration is a name and a
/// type.
proof fn lemma_data_read(s: Seq<char>, i: int)
    requires
        0 <= i <= s.len(),
    ensures
        data(s, i) matches Some((name, kind, _)) ==> is_identifier(name) && (
        kind matches KindView::Data { declared_type } && is_type(declared_type)),
{
    let name_start = whitespace_end(s, i);
    lemma_whitespace_end(s, i);
    let name_end = identifier_end(s, name_start);
    lemma_identifier_end(s, name_start);
    let colon = whitespace_end(s, name_end);
    lemma_whitespace_end(s, name_end);
    if name_start < name_end && colon < s.len() && s[colon] == ':' {
        lemma_name_read(s, name_start);
        lemma_type_read(s, colon + 1);
    }
}

/// Whether every declaration among `entries` is well formed.
pub open spec fn all_well_formed(entries: Seq<ItemView>) -> bool {
    forall|k: int|
        0 <= k < entries.len() ==> (#[trigger] entries[k] matches ItemView::Declaration(d)
            ==> well_formed(d))
}

/// A declaration that is read from a text is well formed.
proof fn lemma_item_read(s: Seq<char>, i: int)
    requires
        0 <= i < s.len(),
    ensures
        item(s, i) matches Some((ItemView::Declaration(d), _)) ==> well_formed(d),
{
    lemma_attributes_read(s, i, Seq::empty());
    lemma_attributes_end(s, i, Seq::empty());
    match head(s, i) {
        Some(h) => {
            let start = attributes(s, i, Seq::empty()).unwrap().1;
            lemma_identifier_end(s, start);
            lemma_whitespace_end(s, identifier_end(s, start));
            let at = if word_at(s, start) == "pub"@ {
                whitespace_end(s, identifier_end(s, start))
            } else {
                start
            };
            lemma_identifier_end(s, at);
            lemma_function_read(s, h.end);
            lemma_data_read(s, h.end);
        },
        None => {},
    }
}

/// The declarations that are read from a text are well formed.
proof fn lemma_items_read(s: Seq<char>, i: int, found: Seq<ItemView>)
    requires
        0 <= i <= s.len(),
        all_well_formed(found),
    ensures
        items(s, i, found) matches Some(all) ==> all_well_formed(all),
    decreases s.len() - i,
{
    let start = whitespace_end(s, i);
    lemma_whitespace_end(s, i);
    if start < s.len() {
        lemma_item_read(s, start);
        lemma_item_advances(s, start);
        match item(s, start) {
            Some((entry, next)) => {
                let taken = found.push(entry);
                assert forall|k: int| 0 <= k < taken.len() implies (
                #[trigger] taken[k] matches ItemView::Declaration(d) ==> well_formed(d)) by {
                    if k < found.len() {
                        assert(taken[k] == found[k]);
                    }
                }
                lemma_items_read(s, next, taken);
            },
            None => {},
        }
    }
}

/// Every declaration that reading a batch hands out is well formed: its
/// name is an identifier, each of its attributes is one group in square
/// brackets behind a `#`, its parameter list is one group in parentheses,
/// and its type has no whitespace around it and no semicolon outside its
/// brackets.
pub proof fn lemma_parse_well_formed(s: Seq<char>)
    ensures
        parse_spec(s) matches Some(entries) ==> all_well_formed(entries),
{
    lemma_items_read(s, 0, Seq::empty());
}

/// The source text is a normal form: where reading a batch gives
/// declarations only, reading their source text gives the same
/// declarations.
pub proof fn lemma_source_of_parsed(s: Seq<char>, batch: Seq<DeclarationView>)
    requires
        parse_spec(s) == Some(declarations(batch)),
    ensures
        parse_spec(batch_source(batch)) == parse_spec(s),
{
    lemma_parse_well_formed(s);
    assert forall|k: int| 0 <= k < batch.len() implies well_formed(#[trigger] batch[k]) by {
        assert(declarations(batch)[k] == ItemView::Declaration(batch[k]));
    }
    lemma_parse_source(batch);
}

} // verus!
