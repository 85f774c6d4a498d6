//! Rewriting a batch: every declaration of it is linked under its mangled
//! name, `<name>_<tag>`, and is otherwise left as it was written.
//!
//! The batch is read as a whole before anything is emitted, and what is
//! emitted is one foreign block. A batch with a malformed entry gives no
//! block at all.

use crate::declaration::{
    batch_view, mangled_view, texts, Declaration, DeclarationKind, DeclarationView, Item,
    ItemView, KindView, MangledDeclaration, MangledItem, MangledItemView, MangledView, Visibility,
};
use crate::error::Error;
use crate::parse::{is_blank, lemma_blank_batch, parse, parse_spec};
use crate::text::{push_str, string_of};
use vstd::prelude::*;

verus! {

/// The name under which the linker resolves the symbol `name` of a build
/// with the tag `tag`.
pub open spec fn link_name(name: Seq<char>, tag: Seq<char>) -> Seq<char> {
    name + seq!['_'] + tag
}

/// The entry `entry` of a rewritten batch: a declaration gets its link name
/// and stays as it is, and any other entry stays as it is.
pub open spec fn mangled(entry: ItemView, tag: Seq<char>) -> MangledItemView {
    match entry {
        ItemView::Declaration(d) => MangledItemView::Declaration(
            MangledView { declaration: d, link_name: link_name(d.name, tag) },
        ),
        ItemView::Verbatim(t) => MangledItemView::Verbatim(t),
    }
}

/// The rewritten batch: the rewritten entries of `entries`, in their order.
pub open spec fn mangle_spec(entries: Seq<ItemView>, tag: Seq<char>) -> Seq<MangledItemView> {
    entries.map_values(|entry: ItemView| mangled(entry, tag))
}

/// The attributes `metadata` as they are emitted: one to a line, in order.
pub open spec fn attribute_lines(metadata: Seq<Seq<char>>) -> Seq<char>
    decreases metadata.len(),
{
    if metadata.len() == 0 {
        Seq::empty()
    } else {
        attribute_lines(metadata.drop_last()) + "    "@ + metadata.last() + "\n"@
    }
}

/// The declaration `d` itself, as it is emitted: its visibility, its
/// keyword, its name and what followed the name.
pub open spec fn signature(d: DeclarationView) -> Seq<char> {
    let visibility = match d.visibility {
        Visibility::Public => "pub "@,
        Visibility::Private => Seq::empty(),
    };
    match d.kind {
        KindView::Function { parameters, return_type: Some(returned) } => visibility + "fn "@
            + d.name + parameters + " -> "@ + returned + ";"@,
        KindView::Function { parameters, return_type: None } => visibility + "fn "@ + d.name
            + parameters + ";"@,
        KindView::Data { declared_type } => visibility + "static "@ + d.name + ": "@
            + declared_type + ";"@,
    }
}

/// One entry of a rewritten batch, as it is emitted. A declaration comes
/// with the attribute that sets its link name, then its own attributes,
/// then the declaration itself.
pub open spec fn rendered(entry: MangledItemView) -> Seq<char> {
    match entry {
        MangledItemView::Declaration(m) => "    #[link_name = \""@ + m.link_name + "\"]\n"@
            + attribute_lines(m.declaration.metadata) + "    "@ + signature(m.declaration)
            + "\n"@,
        MangledItemView::Verbatim(t) => "    "@ + t + "\n"@,
    }
}

/// The entries `entries` as they are emitted, one after the other.
pub open spec fn rendered_entries(entries: Seq<MangledItemView>) -> Seq<char>
    decreases entries.len(),
{
    if entries.len() == 0 {
        Seq::empty()
    } else {
        rendered_entries(entries.drop_last()) + rendered(entries.last())
    }
}

/// The foreign block that holds `entries`; no text at all where there are
/// none.
pub open spec fn render_spec(entries: Seq<MangledItemView>) -> Seq<char> {
    if entries.len() == 0 {
        Seq::empty()
    } else {
        "extern {\n"@ + rendered_entries(entries) + "}\n"@
    }
}

/// What [`versioned_extern`] gives: the block that holds the
/// rewritten entries of `batch`, or `None` where `batch` is malformed.
pub open spec fn versioned_extern_spec(batch: Seq<char>, tag: Seq<char>) -> Option<Seq<char>> {
    match parse_spec(batch) {
        Some(entries) => Some(render_spec(mangle_spec(entries, tag))),
        None => None,
    }
}

/// Rewriting keeps the number and the order of the entries. A declaration
/// keeps its visibility, its attributes, its name and what follows the name,
/// and gets its name, an underscore and the tag as its link name; any other
/// entry is not changed.
pub proof fn lemma_mangle_keeps_entries(entries: Seq<ItemView>, tag: Seq<char>)
    ensures
        mangle_spec(entries, tag).len() == entries.len(),
        forall|i: int|
            0 <= i < entries.len() ==> match entries[i] {
                ItemView::Declaration(d) => {
                    &&& #[trigger] mangle_spec(entries, tag)[i] matches MangledItemView::Declaration(m)
                    &&& m.declaration == d
                    &&& m.declaration.visibility == d.visibility
                    &&& m.declaration.metadata == d.metadata
                    &&& m.link_name == d.name + seq!['_'] + tag
                },
                ItemView::Verbatim(t) => mangle_spec(entries, tag)[i] == MangledItemView::Verbatim(
                    t,
                ),
            },
{
}

/// A batch that holds nothing, or nothing but whitespace, gives the empty
/// text, whatever the tag is.
pub proof fn lemma_blank_batch_gives_empty_text(batch: Seq<char>, tag: Seq<char>)
    requires
        is_blank(batch),
    ensures
        versioned_extern_spec(batch, tag) == Some(Seq::<char>::empty()),
{
    lemma_blank_batch(batch);
}

/// A copy of `d`.
fn copy_declaration(d: &Declaration) -> (r: Declaration)
    ensures
        r@ == d@,
{
    let mut metadata: Vec<String> = Vec::new();
    let mut i: usize = 0;
    while i < d.metadata.len()
        invariant
            i <= d.metadata.len(),
            texts(metadata@) == texts(d.metadata@).take(i as int),
        decreases d.metadata.len() - i,
    {
        let attribute = d.metadata[i].clone();
        proof {
            assert(attribute@ == d.metadata@[i as int]@);
            assert(texts(metadata@.push(attribute)) =~= texts(metadata@).push(attribute@));
            assert(texts(d.metadata@).take(i as int).push(attribute@) =~= texts(
                d.metadata@,
            ).take(i as int + 1));
        }
        metadata.push(attribute);
        i += 1;
    }
    assert(texts(d.metadata@).take(i as int) =~= texts(d.metadata@));
    let kind = match &d.kind {
        DeclarationKind::Function { parameters, return_type: Some(returned) } => {
            DeclarationKind::Function {
                parameters: parameters.clone(),
                return_type: Some(returned.clone()),
            }
        },
        DeclarationKind::Function { parameters, return_type: None } => {
            DeclarationKind::Function { parameters: parameters.clone(), return_type: None }
        },
        DeclarationKind::Data { declared_type } => DeclarationKind::Data {
            declared_type: declared_type.clone(),
        },
    };
    Declaration { visibility: d.visibility, metadata, kind, name: d.name.clone() }
}

/// The declaration `d` with its link name for the tag `tag`.
pub fn mangle_declaration(d: &Declaration, tag: &str) -> (r: MangledDeclaration)
    ensures
        r@.declaration == d@,
        r@.link_name == link_name(d@.name, tag@),
{
    let mut name: Vec<char> = Vec::new();
    push_str(&mut name, d.name.as_str());
    name.push('_');
    push_str(&mut name, tag);
    let link = string_of(&name, 0, name.len());
    assert(link@ =~= link_name(d@.name, tag@));
    MangledDeclaration { declaration: copy_declaration(d), link_name: link }
}

/// The batch `batch` rewritten for the tag `tag`.
///
/// The result has an entry for each entry of `batch`, in the same order. A
/// declaration keeps its visibility, its attributes in their order, its name
/// and what follows the name, and gets the link name `<name>_<tag>`. Any
/// other entry is handed on as it is. `batch` itself is not changed.
pub fn mangle(batch: &Vec<Item>, tag: &str) -> (r: Vec<MangledItem>)
    ensures
        mangled_view(r@) == mangle_spec(batch_view(batch@), tag@),
        r@.len() == batch@.len(),
        forall|i: int|
            0 <= i < batch@.len() ==> (#[trigger] r@[i])@ == mangled(batch@[i]@, tag@),
{
    let mut out: Vec<MangledItem> = Vec::new();
    let mut i: usize = 0;
    while i < batch.len()
        invariant
            i <= batch.len(),
            out@.len() == i,
            forall|j: int| 0 <= j < i ==> (#[trigger] out@[j])@ == mangled(batch@[j]@, tag@),
        decreases batch.len() - i,
    {
        let entry = match &batch[i] {
            Item::Declaration(d) => MangledItem::Declaration(mangle_declaration(d, tag)),
            Item::Verbatim(t) => MangledItem::Verbatim(t.clone()),
        };
        out.push(entry);
        i += 1;
    }
    assert(mangled_view(out@) =~= mangle_spec(batch_view(batch@), tag@));
    out
}

/// Appends the declaration `d` itself to `out`.
fn push_signature(out: &mut Vec<char>, d: &Declaration)
    ensures
        final(out)@ == old(out)@ + signature(d@),
{
    match d.visibility {
        Visibility::Public => push_str(out, "pub "),
        Visibility::Private => {},
    }
    match &d.kind {
        DeclarationKind::Function { parameters, return_type } => {
            push_str(out, "fn ");
            push_str(out, d.name.as_str());
            push_str(out, parameters.as_str());
            match return_type {
                Some(returned) => {
                    push_str(out, " -> ");
                    push_str(out, returned.as_str());
                },
                None => {},
            }
        },
        DeclarationKind::Data { declared_type } => {
            push_str(out, "static ");
            push_str(out, d.name.as_str());
            push_str(out, ": ");
            push_str(out, declared_type.as_str());
        },
    }
    push_str(out, ";");
    assert(out@ =~= old(out)@ + signature(d@));
}

/// Appends the attributes `metadata` to `out`, one to a line.
fn push_attributes(out: &mut Vec<char>, metadata: &Vec<String>)
    ensures
        final(out)@ == old(out)@ + attribute_lines(texts(metadata@)),
{
    let mut i: usize = 0;
    assert(texts(metadata@).take(0) =~= Seq::<Seq<char>>::empty());
    assert(out@ =~= old(out)@ + attribute_lines(texts(metadata@).take(0)));
    while i < metadata.len()
        invariant
            i <= metadata.len(),
            out@ == old(out)@ + attribute_lines(texts(metadata@).take(i as int)),
        decreases metadata.len() - i,
    {
        let ghost before = out@;
        push_str(out, "    ");
        push_str(out, metadata[i].as_str());
        push_str(out, "\n");
        proof {
            let next = texts(metadata@).take(i as int + 1);
            assert(next.drop_last() =~= texts(metadata@).take(i as int));
            assert(next.last() == metadata@[i as int]@);
            assert(out@ =~= old(out)@ + attribute_lines(next));
        }
        i += 1;
    }
    assert(texts(metadata@).take(metadata@.len() as int) =~= texts(metadata@));
}

/// Appends the entry `entry` to `out`.
fn push_entry(out: &mut Vec<char>, entry: &MangledItem)
    ensures
        final(out)@ == old(out)@ + rendered(entry@),
{
    match entry {
        MangledItem::Declaration(m) => {
            push_str(out, "    #[link_name = \"");
            push_str(out, m.link_name.as_str());
            push_str(out, "\"]\n");
            push_attributes(out, &m.declaration.metadata);
            push_str(out, "    ");
            push_signature(out, &m.declaration);
            push_str(out, "\n");
        },
        MangledItem::Verbatim(t) => {
            push_str(out, "    ");
            push_str(out, t.as_str());
            push_str(out, "\n");
        },
    }
    assert(out@ =~= old(out)@ + rendered(entry@));
}

/// The text of the rewritten batch `entries`: one foreign block that holds
/// the entries in their order, or the empty text where there are none.
///
/// Each declaration is emitted behind a `link_name` attribute that holds its
/// link name, with its own attributes between the two.
pub fn render(entries: &Vec<MangledItem>) -> (r: String)
    ensures
        r@ == render_spec(mangled_view(entries@)),
{
    let mut out: Vec<char> = Vec::new();
    if entries.len() > 0 {
        push_str(&mut out, "extern {\n");
        let mut i: usize = 0;
        assert(mangled_view(entries@).take(0) =~= Seq::<MangledItemView>::empty());
        assert(out@ =~= "extern {\n"@ + rendered_entries(mangled_view(entries@).take(0)));
        while i < entries.len()
            invariant
                i <= entries.len(),
                out@ == "extern {\n"@ + rendered_entries(mangled_view(entries@).take(i as int)),
            decreases entries.len() - i,
        {
            push_entry(&mut out, &entries[i]);
            proof {
                let next = mangled_view(entries@).take(i as int + 1);
                assert(next.drop_last() =~= mangled_view(entries@).take(i as int));
                assert(next.last() == entries@[i as int]@);
                assert(out@ =~= "extern {\n"@ + rendered_entries(next));
            }
            i += 1;
        }
        assert(mangled_view(entries@).take(entries@.len() as int) =~= mangled_view(entries@));
        push_str(&mut out, "}\n");
    }
    let r = string_of(&out, 0, out.len());
    assert(r@ =~= render_spec(mangled_view(entries@)));
    r
}

/// The entries of the batch `batch`, rewritten for the tag `tag`.
///
/// Fails with [`Error::MalformedDeclarationBatch`] where [`parse`] does.
pub fn rewrite(batch: &str, tag: &str) -> (r: Result<Vec<MangledItem>, Error>)
    ensures
        match parse_spec(batch@) {
            Some(entries) => r matches Ok(v) && mangled_view(v@) == mangle_spec(entries, tag@),
            None => r == Err::<Vec<MangledItem>, Error>(Error::MalformedDeclarationBatch),
        },
{
    match parse(batch) {
        Ok(entries) => Ok(mangle(&entries, tag)),
        Err(e) => Err(e),
    }
}

/// The batch `batch`, rewritten for the tag `tag`, as text: the block to put
/// in the place of a foreign block that holds `batch`.
///
/// The text is a function of `batch` and `tag` alone. An empty batch gives
/// the empty text. Fails with [`Error::MalformedDeclarationBatch`] where
/// [`parse`] does, and emits nothing then.
pub fn versioned_extern(batch: &str, tag: &str) -> (r: Result<String, Error>)
    ensures
        match versioned_extern_spec(batch@, tag@) {
            Some(text) => r matches Ok(t) && t@ == text,
            None => r == Err::<String, Error>(Error::MalformedDeclarationBatch),
        },
{
    match rewrite(batch, tag) {
        Ok(entries) => Ok(render(&entries)),
        Err(e) => Err(e),
    }
}

} // verus!
