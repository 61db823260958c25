//! Layout and RSpec checks for Ruby source over prism's syntax tree.

pub mod syntax;
pub mod rules;
