//! Building blocks of macros that write the parameter lists of Bevy systems.
//!
//! A system body calls shorthand macros (`spawn!`, `load!`, `time!`,
//! `delta_time!`, `windows!`, `res!`, `query!`); `auto_system` reads the
//! body, renames each shorthand to the macro that expands it inside the
//! system, and writes the parameters that the shorthands need.
pub mod flags;
pub mod ident;
pub mod laws;
pub mod macros;
pub mod params;
pub mod query_text;
pub mod scan;
pub mod text;
pub mod token;

pub use flags::{Flags, ForloopContext};
pub use macros::{
    auto_sys, auto_system, auto_system_ok, delta_seconds, delta_time, internal_delta_seconds,
    internal_load, internal_mut_query, internal_query, internal_resource, internal_spawn,
    internal_time, internal_untyped_query, internal_windows, load, query, res, resource, spawn,
    time, try_auto_system, try_internal_mut_query, try_internal_query, try_internal_resource,
    try_internal_untyped_query, try_query, try_res, try_resource, windows,
};
pub use params::resource_param_name;
pub use query_text::{
    query_ident_name, query_text_ok, query_to_ident, try_query_to_ident, SystemQuery,
};
pub use ident::is_identifier;
pub use macros::{
    flags_can_build, internal_resource_input_ok, query_input_ok, resource_input_ok,
};
pub use scan::{macro_calls_complete, token_return_flags};
pub use token::{Delimiter, SourceStream, SourceToken, Spacing, Token};
