//! Validation of image-annotation records against integer rules such as
//! `TL == TR` or `TL == BL + 1`.
//!
//! A rule set is parsed once ([`parse_rules`]); each record is then reduced to
//! the counts of its `point` labels and checked against every rule
//! ([`check_json`]). The pieces that a parallel run over many files needs to
//! print its results in file order are in [`ordered`] and [`validate`].
pub mod check;
pub mod cli;
pub mod collections;
pub mod color;
pub mod expr;
pub mod ordered;
pub mod parser;
pub mod record;
pub mod rules;
pub mod text;
pub mod validate;

pub use check::{check_json, CheckError, CheckResult};
pub use collections::FlagSet;
pub use expr::{eval, Bindings, CmpOp, Expr};
pub use parser::parse_rule;
pub use record::{Record, Shape};
pub use rules::{parse_rules, rule_lines, ParseError};
