//! The parameters of each operation, as the outer dispatcher hands them in.
use vstd::prelude::*;

use crate::json::Json;

verus! {

pub struct FindDefinitionParams {
    pub file_path: String,
    pub line: u32,
    pub character: u32,
}

pub struct FindReferencesParams {
    pub file_path: String,
    pub line: u32,
    pub character: u32,
}

pub struct GetDiagnosticsParams {
    pub file_path: String,
}

pub struct WorkspaceSymbolsParams {
    pub query: String,
}

pub struct RenameSymbolParams {
    pub file_path: String,
    pub line: u32,
    pub character: u32,
    pub new_name: String,
}

pub struct FormatCodeParams {
    pub file_path: String,
}

pub struct AnalyzeManifestParams {
    pub manifest_path: String,
}

pub struct RunCargoCheckParams {
    pub workspace_path: String,
}

pub struct ExtractFunctionParams {
    pub file_path: String,
    pub start_line: u32,
    pub start_character: u32,
    pub end_line: u32,
    pub end_character: u32,
    pub function_name: String,
}

pub struct GenerateStructParams {
    pub struct_name: String,
    pub fields: Vec<Json>,
    pub derives: Option<Vec<String>>,
    pub file_path: String,
}

pub struct GenerateEnumParams {
    pub enum_name: String,
    pub variants: Vec<Json>,
    pub derives: Option<Vec<String>>,
    pub file_path: String,
}

pub struct GenerateTraitImplParams {
    pub trait_name: String,
    pub struct_name: String,
    pub file_path: String,
}

pub struct GenerateTestsParams {
    pub target_function: String,
    pub file_path: String,
    pub test_cases: Option<Vec<Json>>,
    pub target_struct: Option<String>,
    pub test_type: Option<String>,
}

pub struct InlineFunctionParams {
    pub file_path: String,
    pub line: u32,
    pub character: u32,
}

pub struct ChangeSignatureParams {
    pub file_path: String,
    pub line: u32,
    pub character: u32,
    pub new_signature: String,
}

pub struct OrganizeImportsParams {
    pub file_path: String,
}

pub struct ApplyClippySuggestionsParams {
    pub file_path: String,
}

pub struct ValidateLifetimesParams {
    pub file_path: String,
}

} // verus!
