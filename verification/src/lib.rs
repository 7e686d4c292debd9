//! Schema and codec for describing guest CPU register modifications.
//!
//! A template names a set of CPUID leaf and MSR register bits to overwrite,
//! using a wildcard bit-string notation for each register.  The crate holds
//! the filter/value representation, the numeric and bitmap text codecs, the
//! strict document schema, and the resolver that turns a template selector
//! into a concrete template under host vendor and model gating.

pub mod bitmap;
pub mod doc;
pub mod num_text;
pub mod resolve;
pub mod schema;
pub mod template;

pub use bitmap::BitmapParseError;
pub use doc::DocValue;
pub use resolve::CpuTemplateType;
pub use resolve::CpuVendor;
pub use resolve::GetCpuTemplateError;
pub use resolve::ResolvedTemplate;
pub use resolve::StaticCpuTemplate;
pub use resolve::StaticTemplateCatalog;
pub use schema::SchemaValidationError;

pub use num_text::NumberParseError;
pub use num_text::NumberParseErrorKind;

pub use template::CpuidLeafModifier;
pub use template::CpuidLeafModifierView;
pub use template::CpuidRegister;
pub use template::CpuidRegisterModifier;
pub use template::CustomCpuTemplate;
pub use template::CustomCpuTemplateView;
pub use template::KvmCpuidFlags;
pub use template::RegisterModifier;
pub use template::RegisterValueFilter;
