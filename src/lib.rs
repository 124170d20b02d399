//! A client for a language-analysis backend that speaks the
//! `Content-Length`-framed JSON-RPC protocol over a child process's
//! standard streams.
//!
//! The library holds the logic: message framing ([`frame`]), the JSON
//! documents the protocol carries ([`json`], [`message`], [`lsp`]), the
//! session state machine with its request identifiers, pending-request table
//! and document synchronisation ([`client`]), and the operations callers
//! use, with the shaping of their replies ([`ops`], [`actions`]). Spawning
//! the process, moving bytes, and turning JSON text into [`json::Json`]
//! values and back are left to the caller.

pub mod actions;
pub mod client;
pub mod codegen;
pub mod diagnostics;
pub mod frame;
pub mod json;
pub mod lsp;
pub mod message;
pub mod ops;
pub mod params;
pub mod person;
pub mod text;

pub use client::{ClientError, Delivery, RustAnalyzerClient, SessionState};
pub use frame::{decode_frame, encode_frame, Decoded, FrameBuffer, FrameError};
pub use json::Json;
pub use message::{classify, Incoming, Reply};
pub use ops::{lookup_result, rename_result, Call, Lookup, RenameOutcome};
pub use params::{
    AnalyzeManifestParams, ApplyClippySuggestionsParams, ChangeSignatureParams,
    ExtractFunctionParams, FindDefinitionParams, FindReferencesParams, FormatCodeParams,
    GenerateEnumParams, GenerateStructParams, GenerateTestsParams, GenerateTraitImplParams,
    GetDiagnosticsParams, InlineFunctionParams, OrganizeImportsParams, RenameSymbolParams,
    RunCargoCheckParams, ValidateLifetimesParams, WorkspaceSymbolsParams,
};
pub use person::{create_person, Person};
