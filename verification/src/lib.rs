//! A rule-driven lexical linter: scans flattened token sequences for
//! configurable token patterns and reports each match as a diagnostic.

pub mod compiler;
pub mod diag;
pub mod engine;
pub mod lines;
pub mod pattern;
pub mod pos;
pub mod render;
pub mod rx;
pub mod text;
pub mod token;

use vstd::prelude::*;

verus! {

pub use compiler::CompilerMessage;
pub use compiler::CompilerMessageChild;
pub use compiler::CompilerMessageCode;
pub use compiler::CompilerMessageInner;
pub use compiler::CompilerMessageLevel;
pub use compiler::CompilerMessageReason;
pub use compiler::CompilerMessageTarget;
pub use compiler::CompilerMessageType;
pub use compiler::CompilerSpan;
pub use compiler::CompilerSpanText;
pub use compiler::SuggestionApplicability;
pub use diag::lint_tokens;
pub use diag::span;
pub use diag::LintError;
pub use engine::match_rule;
pub use pattern::Needle;
pub use pattern::Rule;
pub use pattern::Rules;
pub use pos::SourcePosition;
pub use token::DelimKind;
pub use token::Named;

} // verus!
