//! Settings and service holders of the managed Postgres backend.
use vstd::prelude::*;

verus! {

/// How connections are pooled. Only session mode keeps prepared statements
/// across transactions.
#[derive(Clone, Copy, Debug, Default, PartialEq, Eq, Structural)]
pub enum PgPoolMode {
    #[default]
    Session,
    Transaction,
}

impl PgPoolMode {
    /// Whether prepared statements can be cached in this mode.
    pub fn support_prepare_cached(&self) -> (r: bool)
        ensures
            r <==> *self == PgPoolMode::Session,
    {
        match self {
            PgPoolMode::Session => true,
            PgPoolMode::Transaction => false,
        }
    }
}

/// The folder service over a server handle.
#[derive(Debug)]
pub struct SupabaseFolderCloudServiceImpl<T> {
    pub server: T,
}

impl<T> SupabaseFolderCloudServiceImpl<T> {
    /// The service over `server`.
    pub fn new(server: T) -> (r: Self)
        ensures
            r.server == server,
    {
        Self { server }
    }
}

/// The user authentication service over a server handle.
#[derive(Debug)]
pub struct SupabaseUserAuthServiceImpl<T> {
    pub server: T,
}

impl<T> SupabaseUserAuthServiceImpl<T> {
    /// The service over `server`.
    pub fn new(server: T) -> (r: Self)
        ensures
            r.server == server,
    {
        Self { server }
    }
}

/// The events that the document plugin answers.
#[derive(Clone, Copy, Debug, PartialEq, Eq, Hash, Structural)]
pub enum DocumentEvent {
    CreateDocument,
    OpenDocument,
    CloseDocument,
    ApplyAction,
    GetDocumentData,
    ConvertDataToDocument,
    DocumentRedo,
    DocumentUndo,
    DocumentCanRedo,
    DocumentCanUndo,
}

} // verus!
