//! Extraction of annotated Apex class declarations and emission of
//! matching TypeScript type-declaration text.
//!
//! The library scans raw Apex source text for classes whose documentation
//! carries the `@tsexport` marker, collects the fields and methods that are
//! exposed through an `@AuraEnabled` annotation, and renders one exported
//! interface block per class.  File discovery and I/O are left to the caller.

pub mod emit;
pub mod extract;
pub mod laws;
pub mod records;
pub mod scan;

pub use emit::TypeScriptGenerator;
pub use extract::ApexParser;
pub use extract::ExtractError;
pub use extract::ExtractFileError;
pub use extract::Extraction;
pub use records::ApexClass;
pub use records::ApexField;
pub use records::ApexMethod;
pub use records::ApexParameter;
