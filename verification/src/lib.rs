//! Building blocks for macros that help write inline assembly for ARM
//! targets.
//!
//! The library works on a plain model of a macro's input token stream
//! ([`EzTokenTree`], every literal held by its source text) and computes what
//! each macro expands to ([`OutTree`]): a string literal of assembly text made
//! from its value, or a `concat!` expression of several lines.
//! Input that a macro refuses is answered with a [`MacroError`] that names
//! the problem.
//!
//! These macros help you get your assembly written, but they have nearly no
//! ability to help ensure that your assembly is correct.

pub mod cpu_control;
pub mod error;
pub mod laws;
pub mod one_line;
pub mod scope;
pub mod text;
pub mod token;
pub mod util;
pub mod when;

pub use cpu_control::a32_set_cpu_control_impl;
pub use error::{CpuControlError, MacroError};
pub use one_line::{
    a32_fake_blx_impl, a32_read_spsr_to_impl, a32_write_spsr_from_impl, put_fn_in_section_impl,
};
pub use scope::a32_within_t32_impl;
pub use text::parse_u32;
pub use token::{Delimiter, EzTokenTree, OutTree, OutView, Spacing, TokenView};
pub use util::{
    extend_concat_as_lines, get_bool, get_group, get_ident, get_literal, get_punct,
    get_str_literal_content, next_local_label, one_str_literal, one_str_literal_or_panic,
};
pub use when::when_impl;
