//! Documents with their metadata and state.

use vstd::prelude::*;

use crate::ir;
use crate::ir::{IrDocumentType, IrNode, NodeView};
use crate::ir_copy::copy_nodes;
use crate::text;
use crate::text::copy_text_pairs;

verus! {

/// Immutable defaults for document metadata, supplied by a project or host.
#[derive(Debug, PartialEq)]
pub struct DocumentMetadataDefaults {
    pub title: Option<String>,
    pub author: Option<String>,
    pub date: Option<String>,
    pub fields: Vec<(String, String)>,
}

/// The mathematical value of [`DocumentMetadataDefaults`].
#[verifier::ext_equal]
pub struct DefaultsView {
    pub title: Option<Seq<char>>,
    pub author: Option<Seq<char>>,
    pub date: Option<Seq<char>>,
    pub fields: Seq<(Seq<char>, Seq<char>)>,
}

/// The state that document builtins read and write.
#[derive(Debug, PartialEq)]
pub struct IrDocumentState {
    pub name: String,
    pub description: String,
    pub document_type: IrDocumentType,
}

/// The mathematical value of [`IrDocumentState`].
#[verifier::ext_equal]
pub struct DocumentStateView {
    pub name: Seq<char>,
    pub description: Seq<char>,
    pub document_type: IrDocumentType,
}

/// What a document says of itself.
#[derive(Debug, PartialEq)]
pub struct IrMetadata {
    pub title: Option<String>,
    pub author: Option<String>,
    pub date: Option<String>,
    pub fields: Vec<(String, String)>,
    pub document_state: IrDocumentState,
}

/// The mathematical value of [`IrMetadata`].
#[verifier::ext_equal]
pub struct MetadataView {
    pub title: Option<Seq<char>>,
    pub author: Option<Seq<char>>,
    pub date: Option<Seq<char>>,
    pub fields: Seq<(Seq<char>, Seq<char>)>,
    pub document_state: DocumentStateView,
}

/// A document.
#[derive(Debug, PartialEq)]
pub struct IrDocument {
    pub nodes: Vec<IrNode>,
    pub metadata: IrMetadata,
}

/// The mathematical value of [`IrDocument`].
#[verifier::ext_equal]
pub struct DocumentView {
    pub nodes: Seq<NodeView>,
    pub metadata: MetadataView,
}

/// The value of a [`DocumentMetadataDefaults`].
pub open spec fn defaults_view(x: DocumentMetadataDefaults) -> DefaultsView
{
    DefaultsView {
        title: match x.title { Some(inner) => Some(inner@), None => None },
        author: match x.author { Some(inner) => Some(inner@), None => None },
        date: match x.date { Some(inner) => Some(inner@), None => None },
        fields: text::text_pairs_view(x.fields@),
    }
}

impl View for DocumentMetadataDefaults {
    type V = DefaultsView;

    open spec fn view(&self) -> DefaultsView {
        defaults_view(*self)
    }
}

/// The value of a [`IrDocumentState`].
pub open spec fn document_state_view(x: IrDocumentState) -> DocumentStateView
{
    DocumentStateView {
        name: x.name@,
        description: x.description@,
        document_type: x.document_type,
    }
}

impl View for IrDocumentState {
    type V = DocumentStateView;

    open spec fn view(&self) -> DocumentStateView {
        document_state_view(*self)
    }
}

/// The value of a [`IrMetadata`].
pub open spec fn metadata_view(x: IrMetadata) -> MetadataView
{
    MetadataView {
        title: match x.title { Some(inner) => Some(inner@), None => None },
        author: match x.author { Some(inner) => Some(inner@), None => None },
        date: match x.date { Some(inner) => Some(inner@), None => None },
        fields: text::text_pairs_view(x.fields@),
        document_state: document_state_view(x.document_state),
    }
}

impl View for IrMetadata {
    type V = MetadataView;

    open spec fn view(&self) -> MetadataView {
        metadata_view(*self)
    }
}

/// The value of a [`IrDocument`].
pub open spec fn document_view(x: IrDocument) -> DocumentView
{
    DocumentView {
        nodes: ir::nodes_view(x.nodes@),
        metadata: metadata_view(x.metadata),
    }
}

impl View for IrDocument {
    type V = DocumentView;

    open spec fn view(&self) -> DocumentView {
        document_view(*self)
    }
}

/// Copies a [`DocumentMetadataDefaults`].
pub fn copy_defaults(x: &DocumentMetadataDefaults) -> (r: DocumentMetadataDefaults)
    ensures
        defaults_view(r) == defaults_view(*x),
{
    DocumentMetadataDefaults {
        title: match &x.title { Some(inner) => Some(inner.clone()), None => None },
        author: match &x.author { Some(inner) => Some(inner.clone()), None => None },
        date: match &x.date { Some(inner) => Some(inner.clone()), None => None },
        fields: copy_text_pairs(&x.fields),
    }
}

impl Clone for DocumentMetadataDefaults {
    fn clone(&self) -> (r: Self)
        ensures
            r@ == self@,
    {
        copy_defaults(self)
    }
}

/// Copies a [`IrDocumentState`].
pub fn copy_document_state(x: &IrDocumentState) -> (r: IrDocumentState)
    ensures
        document_state_view(r) == document_state_view(*x),
{
    IrDocumentState {
        name: x.name.clone(),
        description: x.description.clone(),
        document_type: x.document_type,
    }
}

impl Clone for IrDocumentState {
    fn clone(&self) -> (r: Self)
        ensures
            r@ == self@,
    {
        copy_document_state(self)
    }
}

/// Copies a [`IrMetadata`].
pub fn copy_metadata(x: &IrMetadata) -> (r: IrMetadata)
    ensures
        metadata_view(r) == metadata_view(*x),
{
    IrMetadata {
        title: match &x.title { Some(inner) => Some(inner.clone()), None => None },
        author: match &x.author { Some(inner) => Some(inner.clone()), None => None },
        date: match &x.date { Some(inner) => Some(inner.clone()), None => None },
        fields: copy_text_pairs(&x.fields),
        document_state: copy_document_state(&x.document_state),
    }
}

impl Clone for IrMetadata {
    fn clone(&self) -> (r: Self)
        ensures
            r@ == self@,
    {
        copy_metadata(self)
    }
}

/// Copies a [`IrDocument`].
pub fn copy_document(x: &IrDocument) -> (r: IrDocument)
    ensures
        document_view(r) == document_view(*x),
{
    IrDocument {
        nodes: copy_nodes(&x.nodes),
        metadata: copy_metadata(&x.metadata),
    }
}

impl Clone for IrDocument {
    fn clone(&self) -> (r: Self)
        ensures
            r@ == self@,
    {
        copy_document(self)
    }
}

/// Defaults that supply nothing.
pub open spec fn no_defaults() -> DefaultsView {
    DefaultsView { title: None, author: None, date: None, fields: Seq::empty() }
}

impl Default for DocumentMetadataDefaults {
    fn default() -> (r: Self)
        ensures
            r@ == no_defaults(),
    {
        let r = DocumentMetadataDefaults {
            title: None,
            author: None,
            date: None,
            fields: Vec::new(),
        };
        assert(text::text_pairs_view(r.fields@) =~= Seq::empty());
        r
    }
}

/// The state of a document that sets nothing.
pub open spec fn initial_state() -> DocumentStateView {
    DocumentStateView {
        name: Seq::empty(),
        description: Seq::empty(),
        document_type: IrDocumentType::Plain,
    }
}

impl Default for IrDocumentState {
    fn default() -> (r: Self)
        ensures
            r@ == initial_state(),
    {
        IrDocumentState {
            name: String::new(),
            description: String::new(),
            document_type: IrDocumentType::Plain,
        }
    }
}

impl Default for IrMetadata {
    fn default() -> (r: Self)
        ensures
            r@ == (MetadataView {
                title: None,
                author: None,
                date: None,
                fields: Seq::empty(),
                document_state: initial_state(),
            }),
    {
        let r = IrMetadata {
            title: None,
            author: None,
            date: None,
            fields: Vec::new(),
            document_state: IrDocumentState::default(),
        };
        assert(text::text_pairs_view(r.fields@) =~= Seq::empty());
        r
    }
}

/// The name of a document type in a source.
pub open spec fn document_type_name(t: IrDocumentType) -> Seq<char> {
    match t {
        IrDocumentType::Plain => "plain"@,
        IrDocumentType::Paged => "paged"@,
        IrDocumentType::Slides => "slides"@,
        IrDocumentType::Docs => "docs"@,
    }
}

/// The name of a document type in a source.
pub fn quarkdown_name(t: IrDocumentType) -> (r: &'static str)
    ensures
        r@ == document_type_name(t),
{
    match t {
        IrDocumentType::Plain => "plain",
        IrDocumentType::Paged => "paged",
        IrDocumentType::Slides => "slides",
        IrDocumentType::Docs => "docs",
    }
}

} // verus!
