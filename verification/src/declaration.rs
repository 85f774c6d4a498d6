//! The declarations of a batch, before and after mangling.
//!
//! Each type holds its texts as strings. Its view holds them as character
//! sequences, and the contracts of the library speak of the views.

use vstd::prelude::*;

verus! {

/// Who may use a declared symbol.
#[derive(Debug, Clone, Copy, PartialEq, Eq, Structural)]
pub enum Visibility {
    /// The declaration is marked `pub`.
    Public,
    /// The declaration is private to its module.
    Private,
}

/// What a declaration declares, with the text that follows its name.
#[derive(Debug, PartialEq, Eq)]
pub enum DeclarationKind {
    /// A function. `parameters` is its parameter list with the parentheses
    /// around it, and `return_type` the type behind `->`, where there is one.
    /// Neither is looked into.
    Function { parameters: String, return_type: Option<String> },
    /// A data symbol of the type `declared_type`.
    Data { declared_type: String },
}

/// One declaration of a foreign symbol.
#[derive(Debug, PartialEq, Eq)]
pub struct Declaration {
    pub visibility: Visibility,
    /// The attributes of the declaration, each as it was written, in the
    /// order in which they were written.
    pub metadata: Vec<String>,
    pub kind: DeclarationKind,
    /// The name under which the program knows the symbol.
    pub name: String,
}

/// A declaration together with the name that the linker resolves for it.
#[derive(Debug, PartialEq, Eq)]
pub struct MangledDeclaration {
    pub declaration: Declaration,
    pub link_name: String,
}

/// One entry of a batch.
#[derive(Debug, PartialEq, Eq)]
pub enum Item {
    /// A function or data declaration.
    Declaration(Declaration),
    /// Anything else, up to and including its semicolon. It is carried along
    /// as it was written.
    Verbatim(String),
}

/// One entry of a rewritten batch.
#[derive(Debug, PartialEq, Eq)]
pub enum MangledItem {
    Declaration(MangledDeclaration),
    Verbatim(String),
}

/// The mathematical value of a [`DeclarationKind`].
pub enum KindView {
    Function { parameters: Seq<char>, return_type: Option<Seq<char>> },
    Data { declared_type: Seq<char> },
}

/// The mathematical value of a [`Declaration`].
pub struct DeclarationView {
    pub visibility: Visibility,
    pub metadata: Seq<Seq<char>>,
    pub kind: KindView,
    pub name: Seq<char>,
}

/// The mathematical value of a [`MangledDeclaration`].
pub struct MangledView {
    pub declaration: DeclarationView,
    pub link_name: Seq<char>,
}

/// The mathematical value of an [`Item`].
pub enum ItemView {
    Declaration(DeclarationView),
    Verbatim(Seq<char>),
}

/// The mathematical value of a [`MangledItem`].
pub enum MangledItemView {
    Declaration(MangledView),
    Verbatim(Seq<char>),
}

/// The texts of `strings`, in order.
pub open spec fn texts(strings: Seq<String>) -> Seq<Seq<char>> {
    strings.map_values(|s: String| s@)
}

impl View for DeclarationKind {
    type V = KindView;

    open spec fn view(&self) -> KindView {
        match *self {
            DeclarationKind::Function { parameters, return_type: Some(t) } => KindView::Function {
                parameters: parameters@,
                return_type: Some(t@),
            },
            DeclarationKind::Function { parameters, return_type: None } => KindView::Function {
                parameters: parameters@,
                return_type: None,
            },
            DeclarationKind::Data { declared_type } => KindView::Data {
                declared_type: declared_type@,
            },
        }
    }
}

impl View for Declaration {
    type V = DeclarationView;

    open spec fn view(&self) -> DeclarationView {
        DeclarationView {
            visibility: self.visibility,
            metadata: texts(self.metadata@),
            kind: self.kind@,
            name: self.name@,
        }
    }
}

impl View for MangledDeclaration {
    type V = MangledView;

    open spec fn view(&self) -> MangledView {
        MangledView { declaration: self.declaration@, link_name: self.link_name@ }
    }
}

impl View for Item {
    type V = ItemView;

    open spec fn view(&self) -> ItemView {
        match *self {
            Item::Declaration(d) => ItemView::Declaration(d@),
            Item::Verbatim(t) => ItemView::Verbatim(t@),
        }
    }
}

impl View for MangledItem {
    type V = MangledItemView;

    open spec fn view(&self) -> MangledItemView {
        match *self {
            MangledItem::Declaration(m) => MangledItemView::Declaration(m@),
            MangledItem::Verbatim(t) => MangledItemView::Verbatim(t@),
        }
    }
}

/// The values of the entries of a batch, in order.
pub open spec fn batch_view(items: Seq<Item>) -> Seq<ItemView> {
    items.map_values(|item: Item| item@)
}

/// The values of the entries of a rewritten batch, in order.
pub open spec fn mangled_view(items: Seq<MangledItem>) -> Seq<MangledItemView> {
    items.map_values(|item: MangledItem| item@)
}

} // verus!
