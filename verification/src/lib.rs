//! Core of a multi-language bindings generator.
//!
//! The library builds a canonical semantic model (a [`ComponentInterface`])
//! of a component's public API from interface-definition-language text or
//! from annotated host-language declarations, and renders that model back
//! out as source text.

mod errors;
mod error_def;
mod gen_udl;
mod host;
mod idl;
mod interface;
mod roundtrip;
mod text;
mod types;
mod version;

pub use errors::CompileError;

pub use error_def::Error;
pub use error_def::ErrorV;
pub use error_def::lemma_duplicate_variants_kept;

pub use gen_udl::UDLFile;
pub use gen_udl::docstring;
pub use gen_udl::generate_udl_bindings;
pub use gen_udl::return_type_udl;
pub use gen_udl::spec_render_udl;
pub use gen_udl::spec_type_udl;
pub use gen_udl::type_udl;

pub use host::HostEnum;
pub use host::HostEnumV;
pub use host::HostVariant;
pub use host::HostVariantV;
pub use host::all_clean;
pub use host::first_bad;
pub use host::lemma_front_end_equivalence;
pub use host::merged_docs;
pub use host::variant_names;

pub use idl::IdlEnum;
pub use idl::IdlEnumV;
pub use idl::ParsedIdlV;
pub use idl::parse_idl;
pub use idl::parse_type_udl;
pub use idl::spec_parse_idl;
pub use idl::spec_parse_type;
pub use idl::type_no_names;

pub use interface::APIConverter;
pub use interface::ComponentInterface;
pub use interface::ComponentInterfaceV;
pub use interface::build_interface;
pub use interface::first_dup;
pub use interface::has_dup;
pub use interface::names_unique;
pub use interface::spec_first_unresolved;
pub use interface::spec_has_error;

pub use roundtrip::errors_to_enums;
pub use roundtrip::lemma_idl_pipeline_round_trip;
pub use roundtrip::lemma_parse_idl_wf;
pub use roundtrip::lemma_type_round_trip;
pub use roundtrip::lemma_udl_round_trip;
pub use roundtrip::wf_enum_node;
pub use roundtrip::wf_idl_error;
pub use roundtrip::wf_idl_interface;

pub use types::FfiType;
pub use types::Type;
pub use types::ffi_type;

pub use version::spec_version_compatible;
pub use version::version_compatible;
