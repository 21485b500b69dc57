//! Module resolution, loading and sandboxing for a script host.
//!
//! The library decides whether a dynamically requested module may be loaded,
//! turns raw specifier strings into canonical locators, and manages a
//! whitelist of host-authorized entry modules together with a pluggable
//! module cache.  Fetching bytes from disk or network, and transpiling
//! source text, are collaborators the host supplies around this core.

pub mod cache;
pub mod errors;
pub mod laws;
pub mod locator;
pub mod module_loader;
pub mod paths;
pub mod record;
pub mod text;
pub mod whitelist;

pub use cache::DefaultModuleCacheProvider;
pub use cache::ModuleCacheProvider;
pub use errors::LoadError;
pub use errors::ResolveError;
pub use locator::Locator;
pub use locator::SchemeKind;
pub use locator::resolve_specifier;
pub use module_loader::FetchOrigin;
pub use module_loader::FetchPlan;
pub use module_loader::LoadOutcome;
pub use module_loader::LoaderOptions;
pub use module_loader::RustyLoader;
pub use record::ModuleCode;
pub use record::ModuleKind;
pub use record::ModuleRecord;
pub use whitelist::Whitelist;
