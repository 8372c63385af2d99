//! A small stack-based virtual machine in the style of WebAssembly's
//! control-flow discipline, working on dynamically tagged values.
//!
//! A program is a set of named functions written as prefix expressions.
//! The parser turns a tree of leaves and lists into function records, the
//! preprocessor lowers structured control flow to absolute jumps while
//! checking stack arity, and the interpreter runs the flat instruction
//! stream against an operand stack, per-frame locals, and globals.
mod block_data;
mod calx;
mod err;
mod frame;
mod func;
mod host;
mod instr;
mod locals;
mod parser;
mod syntax;
mod text;
mod tree;
mod vm;
mod vm_model;

pub use block_data::{BlockData, BlockStack};
pub use calx::{display_value, parse_value, Calx, CalxType};
pub use err::CalxError;
pub use frame::CalxFrame;
pub use func::{func_wf, CalxFunc};
pub use host::FloatHost;
pub use instr::CalxInstr;
pub use locals::{first_name_at, names_view, track_spec, LocalsCollector};
pub use parser::{
    block_parses, do_parses, fn_types_fold, function_parses, if_parses, instr_parses, leaf_is,
    lines_form, parse_block, parse_block_types, parse_do, parse_fn_types, parse_function,
    parse_if, parse_instr, parse_instr_post, parse_usize, pieces_form, FnTypesSt,
};
pub use syntax::CalxSyntax;
pub use text::{i64_to_string, str_eq, u64_to_string};
pub use tree::{extract_nested, Cirru};
pub use vm::{dup_values, CalxImportsDict, CalxVM};
pub use vm_model::{advance_model, run_entry, run_model, step_model, FrameModel, FuncModel, RunSpec, StepSpec, VMModel};
