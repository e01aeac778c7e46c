//! The record of a module's imports and exports, as ECMAScript defines its
//! module records.

use vstd::prelude::*;
use std::path::{Path, PathBuf};
use std::sync::{Arc, RwLock};
use oxc_span::Span;
use rustc_hash::FxHashMap;

verus! {

/// The hasher of `rustc_hash`, named in the type of its hash maps.
#[verifier::external_type_specification]
#[verifier::external_body]
pub struct ExFxHasher(rustc_hash::FxHasher);

/// The builder of default hashers in std, named in the type of those maps.
#[verifier::external_type_specification]
#[verifier::external_body]
#[verifier::reject_recursive_types(H)]
pub struct ExBuildHasherDefault<H>(core::hash::BuildHasherDefault<H>);

/// A reader-writer lock of std. The record holds such locks for the runtime.
#[verifier::external_type_specification]
#[verifier::external_body]
#[verifier::reject_recursive_types(T)]
pub struct ExRwLock<T: ?Sized>(std::sync::RwLock<T>);

/// An owned path of std.
#[verifier::external_type_specification]
#[verifier::external_body]
pub struct ExPathBuf(std::path::PathBuf);

/// A path of std.
#[verifier::external_type_specification]
#[verifier::external_body]
pub struct ExPath(std::path::Path);

/// The record of one source text module.
#[derive(Debug, Default)]
pub struct ModuleRecord {
    /// Resolved absolute path of this module; set by the runtime.
    pub resolved_absolute_path: Arc<RwLock<PathBuf>>,
    /// The modules that this one asks for, each with the places where it
    /// does so.
    pub module_requests: FxHashMap<String, Vec<Span>>,
    /// What the requests resolve to; filled in by the runtime.
    pub resolved_module_requests: Arc<RwLock<FxHashMap<String, Box<Path>>>>,
    /// The import entries of this module.
    pub import_entries: Vec<ImportEntry>,
    /// Export entries for declarations within the module.
    pub local_export_entries: Vec<ExportEntry>,
    /// Export entries for reexported imports and for
    /// `export * as namespace` declarations.
    pub indirect_export_entries: Vec<ExportEntry>,
    /// Export entries for `export *` declarations, without those that name a
    /// namespace.
    pub star_export_entries: Vec<ExportEntry>,
    /// What `export *` brings in; filled in by the runtime.
    pub star_export_bindings: Arc<RwLock<FxHashMap<Box<Path>, Vec<String>>>>,
    /// The names that this file exports, without those of `export *`.
    pub exported_bindings: FxHashMap<String, Span>,
    pub exported_bindings_duplicated: Vec<NameSpan>,
    pub export_default: Option<Span>,
    pub export_default_duplicated: Vec<Span>,
}

/// A name and the place where it stands.
#[derive(Debug, Clone, PartialEq, Eq)]
pub struct NameSpan {
    name: String,
    span: Span,
}

impl NameSpan {
    /// The name that this value holds.
    pub closed spec fn held_name(&self) -> String {
        self.name
    }

    /// The span that this value holds.
    pub closed spec fn held_span(&self) -> Span {
        self.span
    }

    pub fn new(name: String, span: Span) -> (held: Self)
        ensures
            held.held_name() == name,
            held.held_span() == span,
    {
        Self { name, span }
    }

    pub fn name(&self) -> (name: &String)
        ensures
            *name == self.held_name(),
    {
        &self.name
    }

    pub fn span(&self) -> (span: Span)
        ensures
            span == self.held_span(),
    {
        self.span
    }
}

/// One import of a module.
#[derive(Debug, Clone, PartialEq, Eq)]
pub struct ImportEntry {
    /// The module specifier of the import declaration.
    pub module_request: NameSpan,
    /// The name under which the binding is exported by the module asked for.
    pub import_name: ImportImportName,
    /// The name under which the importing module reaches the value.
    pub local_name: NameSpan,
}

/// The import name of an import entry.
#[derive(Debug, Clone, PartialEq, Eq)]
pub enum ImportImportName {
    Name(NameSpan),
    NamespaceObject,
    Default(Span),
}

impl ImportImportName {
    pub fn is_default(&self) -> (is: bool)
        ensures
            is == (self is Default),
    {
        matches!(self, Self::Default(_))
    }

    pub fn is_namespace_object(&self) -> (is: bool)
        ensures
            is == (self is NamespaceObject),
    {
        matches!(self, Self::NamespaceObject)
    }
}

/// One export of a module.
#[derive(Debug, Default, Clone, PartialEq, Eq)]
pub struct ExportEntry {
    /// Span of the whole entry.
    pub span: Span,
    /// The module specifier of the export declaration, if it has one.
    pub module_request: Option<NameSpan>,
    /// The name under which the binding is exported by the module asked for.
    pub import_name: ExportImportName,
    /// The name under which this module exports the binding.
    pub export_name: ExportExportName,
    /// The name under which the module itself reaches the value.
    pub local_name: ExportLocalName,
}

/// The import name of an export entry.
#[derive(Debug, Default, Clone, PartialEq, Eq)]
pub enum ExportImportName {
    Name(NameSpan),
    /// `export * as ns from "mod"`
    All,
    /// `export * from "mod"`
    AllButDefault,
    /// The export declaration has no module specifier.
    #[default]
    Null,
}

impl ExportImportName {
    pub fn is_all(&self) -> (is: bool)
        ensures
            is == (self is All),
    {
        matches!(self, Self::All)
    }

    pub fn is_all_but_default(&self) -> (is: bool)
        ensures
            is == (self is AllButDefault),
    {
        matches!(self, Self::AllButDefault)
    }
}

/// The export name of an export entry.
#[derive(Debug, Default, Clone, PartialEq, Eq)]
pub enum ExportExportName {
    Name(NameSpan),
    Default(Span),
    #[default]
    Null,
}

impl ExportExportName {
    pub fn is_default(&self) -> (is: bool)
        ensures
            is == (self is Default),
    {
        matches!(self, Self::Default(_))
    }

    pub fn is_null(&self) -> (is: bool)
        ensures
            is == (self is Null),
    {
        matches!(self, Self::Null)
    }
}

/// The local name of an export entry.
#[derive(Debug, Default, Clone, PartialEq, Eq)]
pub enum ExportLocalName {
    Name(NameSpan),
    Default(Span),
    #[default]
    Null,
}

impl ExportLocalName {
    /// The name, where the entry has one.
    pub fn name(&self) -> (name: Option<&String>)
        ensures
            name.is_some() == (self is Name),
            name matches Some(found) ==> *found == self->Name_0.held_name(),
    {
        match self {
            Self::Name(ns) => Some(ns.name()),
            _ => None,
        }
    }

    pub fn is_default(&self) -> (is: bool)
        ensures
            is == (self is Default),
    {
        matches!(self, Self::Default(_))
    }

    pub fn is_null(&self) -> (is: bool)
        ensures
            is == (self is Null),
    {
        matches!(self, Self::Null)
    }
}

} // verus!
