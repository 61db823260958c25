//! The rules, one module each.

pub mod bytes;
pub mod lines;
pub mod rspec_dispatcher;
pub mod rspec_language;
pub mod safe_navigation_chain;
pub mod self_assignment;
pub mod semicolon;
pub mod send_range;
pub mod space_before_first_arg;
pub mod space_around_equals_in_parameter_default;
pub mod string_literals;
pub mod string_literals_in_interpolation;
pub mod space_around_keyword;
pub mod space_around_method_call_operator;
pub mod space_around_operators;
pub mod space_inside_block_braces;
pub mod space_inside_hash_literal_braces;
pub mod space_inside_reference_brackets;
pub mod space_inside_string_interpolation;
pub mod space_before_block_braces;
pub mod space_inside_array_literal_brackets;
pub mod space_inside_parens;
pub mod space_scan;
pub mod stabby_lambda_parentheses;
pub mod tokens;
pub mod trailing_comma;
pub mod trailing_comma_in_arguments;
pub mod trailing_comma_in_array_literal;
pub mod trailing_comma_in_hash_literal;
pub mod trailing_empty_lines;
