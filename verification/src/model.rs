//! The descriptors the generator emits: models, fields, imports, endpoints,
//! the per-file artifacts they are folded into, and the skip/error taxonomy.
//!
//! Each executable type has a ghost mirror over `Seq<char>` (the `...V`
//! types), reached through `DeepView`; all contracts are stated over those.

use vstd::prelude::*;

verus! {

// ---------------------------------------------------------------------------
// Ghost mirrors
// ---------------------------------------------------------------------------

/// Ghost mirror of [`EnumVariant`].
#[verifier::ext_equal]
pub struct EnumVariantV {
    pub name: Seq<char>,
    pub value: Seq<char>,
}

/// Ghost mirror of [`Field`].
#[verifier::ext_equal]
pub struct FieldV {
    pub name: Seq<char>,
    pub field_type: Seq<char>,
    pub required: bool,
    pub is_array: bool,
}

/// Ghost mirror of [`Model`].
#[verifier::ext_equal]
pub enum ModelV {
    Alias { name: Seq<char>, alias: Seq<char>, is_array: bool },
    Enum { name: Seq<char>, variants: Seq<EnumVariantV> },
    Struct { name: Seq<char>, fields: Seq<FieldV> },
}

impl ModelV {
    /// The name under which this descriptor was generated.
    pub open spec fn name_of(self) -> Seq<char> {
        match self {
            ModelV::Alias { name, .. } => name,
            ModelV::Enum { name, .. } => name,
            ModelV::Struct { name, .. } => name,
        }
    }
}

/// Ghost mirror of [`Import`].
#[verifier::ext_equal]
pub struct ImportV {
    pub import_type: Seq<char>,
    pub file: Seq<char>,
}

/// Ghost mirror of [`GroupedImport`].
#[verifier::ext_equal]
pub struct GroupedImportV {
    pub types: Seq<Seq<char>>,
    pub file: Seq<char>,
}

/// Ghost mirror of [`SkipNote`].
#[verifier::ext_equal]
pub enum SkipNoteV {
    SchemaUnsupported { name: Seq<char>, declared: Seq<char> },
    MissingItemsSchema { name: Seq<char> },
    NoDescriptors { name: Seq<char> },
    TopLevelReference { name: Seq<char> },
    UntaggedOperation { operation_id: Seq<char>, method: Seq<char> },
}

/// Ghost mirror of [`GenError`].
#[verifier::ext_equal]
pub enum GenErrorV {
    UnknownTag { tag: Seq<char> },
    NoServersDeclared,
    MissingRequestBody { operation_id: Seq<char> },
    UnknownParameterLocation { operation_id: Seq<char>, name: Seq<char>, location: Seq<char> },
    RecursionLimitExceeded { name: Seq<char> },
    NestedArray { name: Seq<char> },
    EmptyResolution { name: Seq<char> },
    InvalidReference { path: Seq<char> },
}

/// Ghost mirror of [`Resolved`].
#[verifier::ext_equal]
pub struct ResolvedV {
    pub models: Seq<(Option<Seq<char>>, ModelV)>,
    pub imports: Seq<ImportV>,
    pub skips: Seq<SkipNoteV>,
}

/// Ghost mirror of [`Endpoint`].
#[verifier::ext_equal]
pub struct EndpointV {
    pub name: Seq<char>,
    pub body_param: Option<FieldV>,
    pub path_params: Seq<FieldV>,
    pub query_params: Seq<FieldV>,
    pub header_params: Seq<FieldV>,
    pub return_type: Seq<char>,
    pub method: Seq<char>,
    pub path: Seq<char>,
}

/// Ghost mirror of [`ModelFile`].
#[verifier::ext_equal]
pub struct ModelFileV {
    pub imports: Seq<GroupedImportV>,
    pub root: ModelV,
    pub nested: Seq<(Seq<char>, Seq<ModelV>)>,
}

/// Ghost mirror of [`IndexFile`].
#[verifier::ext_equal]
pub struct IndexFileV {
    pub exports: Seq<Seq<char>>,
}

/// Ghost mirror of [`ServiceFile`].
#[verifier::ext_equal]
pub struct ServiceFileV {
    pub client_name_pascal: Seq<char>,
    pub client_name_kebab: Seq<char>,
    pub imports: Seq<GroupedImportV>,
    pub name: Seq<char>,
    pub base_path: Seq<char>,
    pub endpoints: Seq<EndpointV>,
    pub nested: Seq<(Seq<char>, Seq<ModelV>)>,
}

// ---------------------------------------------------------------------------
// Executable descriptors
// ---------------------------------------------------------------------------

/// One enumeration variant; its name always equals its value.
#[derive(Debug, Clone, PartialEq, Eq)]
pub struct EnumVariant {
    pub name: String,
    pub value: String,
}

impl DeepView for EnumVariant {
    type V = EnumVariantV;

    open spec fn deep_view(&self) -> EnumVariantV {
        EnumVariantV { name: self.name@, value: self.value@ }
    }
}

/// One field of a generated struct, or one classified endpoint parameter.
#[derive(Debug, Clone, PartialEq, Eq)]
pub struct Field {
    pub name: String,
    pub field_type: String,
    pub required: bool,
    pub is_array: bool,
}

impl DeepView for Field {
    type V = FieldV;

    open spec fn deep_view(&self) -> FieldV {
        FieldV {
            name: self.name@,
            field_type: self.field_type@,
            required: self.required,
            is_array: self.is_array,
        }
    }
}

/// A resolved model descriptor: a type alias, an enumeration or a struct.
#[derive(Debug, Clone, PartialEq, Eq)]
pub enum Model {
    Alias { name: String, alias: String, is_array: bool },
    Enum { name: String, variants: Vec<EnumVariant> },
    Struct { name: String, fields: Vec<Field> },
}

impl DeepView for Model {
    type V = ModelV;

    open spec fn deep_view(&self) -> ModelV {
        match self {
            Model::Alias { name, alias, is_array } => ModelV::Alias {
                name: name@,
                alias: alias@,
                is_array: *is_array,
            },
            Model::Enum { name, variants } => ModelV::Enum {
                name: name@,
                variants: variants.deep_view(),
            },
            Model::Struct { name, fields } => ModelV::Struct {
                name: name@,
                fields: fields.deep_view(),
            },
        }
    }
}

impl Model {
    /// The name under which this descriptor was generated.
    pub fn name(&self) -> (r: String)
        ensures
            r@ == self.deep_view().name_of(),
    {
        match self {
            Model::Alias { ref name, .. } => name.clone(),
            Model::Enum { ref name, .. } => name.clone(),
            Model::Struct { ref name, .. } => name.clone(),
        }
    }
}

/// One reference from a generated model to a type in another module.
#[derive(Debug, Clone, PartialEq, Eq)]
pub struct Import {
    pub import_type: String,
    pub file: String,
}

impl DeepView for Import {
    type V = ImportV;

    open spec fn deep_view(&self) -> ImportV {
        ImportV { import_type: self.import_type@, file: self.file@ }
    }
}

/// All type names imported from one module, deduplicated.
#[derive(Debug, Clone, PartialEq, Eq)]
pub struct GroupedImport {
    pub types: Vec<String>,
    pub file: String,
}

impl DeepView for GroupedImport {
    type V = GroupedImportV;

    open spec fn deep_view(&self) -> GroupedImportV {
        GroupedImportV { types: self.types.deep_view(), file: self.file@ }
    }
}

/// A recoverable condition: the item was skipped and the run went on.
#[derive(Debug, Clone, PartialEq, Eq)]
pub enum SkipNote {
    /// An enumeration whose declared type supports no enumeration.
    SchemaUnsupported { name: String, declared: String },
    /// An array schema without an item schema.
    MissingItemsSchema { name: String },
    /// A schema that resolved to no descriptor at all.
    NoDescriptors { name: String },
    /// A named schema that is itself nothing but a reference.
    TopLevelReference { name: String },
    /// An operation without any tag, which no service can own.
    UntaggedOperation { operation_id: String, method: String },
}

impl DeepView for SkipNote {
    type V = SkipNoteV;

    open spec fn deep_view(&self) -> SkipNoteV {
        match self {
            SkipNote::SchemaUnsupported { name, declared } => SkipNoteV::SchemaUnsupported {
                name: name@,
                declared: declared@,
            },
            SkipNote::MissingItemsSchema { name } => SkipNoteV::MissingItemsSchema { name: name@ },
            SkipNote::NoDescriptors { name } => SkipNoteV::NoDescriptors { name: name@ },
            SkipNote::TopLevelReference { name } => SkipNoteV::TopLevelReference { name: name@ },
            SkipNote::UntaggedOperation { operation_id, method } => SkipNoteV::UntaggedOperation {
                operation_id: operation_id@,
                method: method@,
            },
        }
    }
}

/// A fatal condition: the run is aborted and reports the offending item.
#[derive(Debug, Clone, PartialEq, Eq)]
pub enum GenError {
    /// An operation names a tag the document never declared.
    UnknownTag { tag: String },
    /// The document declares no server to take a base path from.
    NoServersDeclared,
    /// A request body without a JSON content entry.
    MissingRequestBody { operation_id: String },
    /// A parameter whose location is neither path, query nor header.
    UnknownParameterLocation { operation_id: String, name: String, location: String },
    /// Schema nesting deeper than the resolution limit.
    RecursionLimitExceeded { name: String },
    /// An array whose item schema is itself an array.
    NestedArray { name: String },
    /// A request body or parameter schema that resolved to no descriptor.
    EmptyResolution { name: String },
    /// A reference path with fewer than four `/`-separated segments.
    InvalidReference { path: String },
}

impl DeepView for GenError {
    type V = GenErrorV;

    open spec fn deep_view(&self) -> GenErrorV {
        match self {
            GenError::UnknownTag { tag } => GenErrorV::UnknownTag { tag: tag@ },
            GenError::NoServersDeclared => GenErrorV::NoServersDeclared,
            GenError::MissingRequestBody { operation_id } => GenErrorV::MissingRequestBody {
                operation_id: operation_id@,
            },
            GenError::UnknownParameterLocation { operation_id, name, location } => {
                GenErrorV::UnknownParameterLocation {
                    operation_id: operation_id@,
                    name: name@,
                    location: location@,
                }
            },
            GenError::RecursionLimitExceeded { name } => GenErrorV::RecursionLimitExceeded {
                name: name@,
            },
            GenError::NestedArray { name } => GenErrorV::NestedArray { name: name@ },
            GenError::EmptyResolution { name } => GenErrorV::EmptyResolution { name: name@ },
            GenError::InvalidReference { path } => GenErrorV::InvalidReference { path: path@ },
        }
    }
}

/// Everything one resolution produces: descriptors with their namespaces,
/// import records, and the skips that were logged along the way.
#[derive(Debug, PartialEq, Eq)]
pub struct Resolved {
    pub models: Vec<(Option<String>, Model)>,
    pub imports: Vec<Import>,
    pub skips: Vec<SkipNote>,
}

impl DeepView for Resolved {
    type V = ResolvedV;

    open spec fn deep_view(&self) -> ResolvedV {
        ResolvedV {
            models: self.models.deep_view(),
            imports: self.imports.deep_view(),
            skips: self.skips.deep_view(),
        }
    }
}

/// One operation of a service: its classified parameters and optional body.
#[derive(Debug, Clone, PartialEq, Eq)]
pub struct Endpoint {
    pub name: String,
    pub body_param: Option<Field>,
    pub path_params: Vec<Field>,
    pub query_params: Vec<Field>,
    pub header_params: Vec<Field>,
    pub return_type: String,
    pub method: String,
    pub path: String,
}

impl DeepView for Endpoint {
    type V = EndpointV;

    open spec fn deep_view(&self) -> EndpointV {
        EndpointV {
            name: self.name@,
            body_param: self.body_param.deep_view(),
            path_params: self.path_params.deep_view(),
            query_params: self.query_params.deep_view(),
            header_params: self.header_params.deep_view(),
            return_type: self.return_type@,
            method: self.method@,
            path: self.path@,
        }
    }
}

/// One model artifact: a root descriptor, its nested descriptors grouped by
/// namespace in first-occurrence order, and its grouped imports.
#[derive(Debug, PartialEq, Eq)]
pub struct ModelFile {
    pub imports: Vec<GroupedImport>,
    pub root: Model,
    pub nested: Vec<(String, Vec<Model>)>,
}

impl DeepView for ModelFile {
    type V = ModelFileV;

    open spec fn deep_view(&self) -> ModelFileV {
        ModelFileV {
            imports: self.imports.deep_view(),
            root: self.root.deep_view(),
            nested: self.nested.deep_view(),
        }
    }
}

/// An index artifact listing the names one output group exports.
#[derive(Debug, PartialEq, Eq)]
pub struct IndexFile {
    pub exports: Vec<String>,
}

impl DeepView for IndexFile {
    type V = IndexFileV;

    open spec fn deep_view(&self) -> IndexFileV {
        IndexFileV { exports: self.exports.deep_view() }
    }
}

/// One service artifact: every endpoint of one tag, with the descriptors and
/// grouped imports its parameters brought along.
#[derive(Debug, PartialEq, Eq)]
pub struct ServiceFile {
    pub client_name_pascal: String,
    pub client_name_kebab: String,
    pub imports: Vec<GroupedImport>,
    pub name: String,
    pub base_path: String,
    pub endpoints: Vec<Endpoint>,
    pub nested: Vec<(String, Vec<Model>)>,
}

impl DeepView for ServiceFile {
    type V = ServiceFileV;

    open spec fn deep_view(&self) -> ServiceFileV {
        ServiceFileV {
            client_name_pascal: self.client_name_pascal@,
            client_name_kebab: self.client_name_kebab@,
            imports: self.imports.deep_view(),
            name: self.name@,
            base_path: self.base_path@,
            endpoints: self.endpoints.deep_view(),
            nested: self.nested.deep_view(),
        }
    }
}

} // verus!
