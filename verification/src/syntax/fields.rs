//! Per-type readers of prism nodes.
//!
//! Each reader checks a node's variant through `Node::as_*_node` and reads the
//! fields of that type in declaration order. Nothing is claimed of what they
//! return: they are part of the conversion of prism's tree that
//! `super::flatten::prism_tree` names, and the tree's shape is checked by
//! `super::flatten::check_tree`.

use vstd::prelude::*;
use ruby_prism::Node;
use super::flatten::{Slot, child, opt_child, list, loc, opt_loc, name, opt_name};
use super::kinds;

verus! {

/// Calls `Node::as_alias_global_variable_node` and, when it is `Some`, the flags and field
/// accessors of `ruby_prism::AliasGlobalVariableNode`; no property of the result is claimed.
#[verifier::external_body]
fn read_alias_global_variable_node<'a>(n: &Node<'a>) -> Option<(u16, Vec<Slot<'a>>)> {
    let x = n.as_alias_global_variable_node()?;
    Some((x.flags(), vec![
        child(x.new_name()), child(x.old_name()), loc(&x.keyword_loc()),
    ]))
}

/// Calls `Node::as_alias_method_node` and, when it is `Some`, the flags and field
/// accessors of `ruby_prism::AliasMethodNode`; no property of the result is claimed.
#[verifier::external_body]
fn read_alias_method_node<'a>(n: &Node<'a>) -> Option<(u16, Vec<Slot<'a>>)> {
    let x = n.as_alias_method_node()?;
    Some((x.flags(), vec![
        child(x.new_name()), child(x.old_name()), loc(&x.keyword_loc()),
    ]))
}

/// Calls `Node::as_alternation_pattern_node` and, when it is `Some`, the flags and field
/// accessors of `ruby_prism::AlternationPatternNode`; no property of the result is claimed.
#[verifier::external_body]
fn read_alternation_pattern_node<'a>(n: &Node<'a>) -> Option<(u16, Vec<Slot<'a>>)> {
    let x = n.as_alternation_pattern_node()?;
    Some((x.flags(), vec![
        child(x.left()), child(x.right()), loc(&x.operator_loc()),
    ]))
}

/// Calls `Node::as_and_node` and, when it is `Some`, the flags and field
/// accessors of `ruby_prism::AndNode`; no property of the result is claimed.
#[verifier::external_body]
fn read_and_node<'a>(n: &Node<'a>) -> Option<(u16, Vec<Slot<'a>>)> {
    let x = n.as_and_node()?;
    Some((x.flags(), vec![
        child(x.left()), child(x.right()), loc(&x.operator_loc()),
    ]))
}

/// Calls `Node::as_arguments_node` and, when it is `Some`, the flags and field
/// accessors of `ruby_prism::ArgumentsNode`; no property of the result is claimed.
#[verifier::external_body]
fn read_arguments_node<'a>(n: &Node<'a>) -> Option<(u16, Vec<Slot<'a>>)> {
    let x = n.as_arguments_node()?;
    Some((x.flags(), vec![
        list(&x.arguments()),
    ]))
}

/// Calls `Node::as_array_node` and, when it is `Some`, the flags and field
/// accessors of `ruby_prism::ArrayNode`; no property of the result is claimed.
#[verifier::external_body]
fn read_array_node<'a>(n: &Node<'a>) -> Option<(u16, Vec<Slot<'a>>)> {
    let x = n.as_array_node()?;
    Some((x.flags(), vec![
        list(&x.elements()), opt_loc(x.opening_loc()), opt_loc(x.closing_loc()),
    ]))
}

/// Calls `Node::as_array_pattern_node` and, when it is `Some`, the flags and field
/// accessors of `ruby_prism::ArrayPatternNode`; no property of the result is claimed.
#[verifier::external_body]
fn read_array_pattern_node<'a>(n: &Node<'a>) -> Option<(u16, Vec<Slot<'a>>)> {
    let x = n.as_array_pattern_node()?;
    Some((x.flags(), vec![
        opt_child(x.constant()), list(&x.requireds()), opt_child(x.rest()),
        list(&x.posts()), opt_loc(x.opening_loc()), opt_loc(x.closing_loc()),
    ]))
}

/// Calls `Node::as_assoc_node` and, when it is `Some`, the flags and field
/// accessors of `ruby_prism::AssocNode`; no property of the result is claimed.
#[verifier::external_body]
fn read_assoc_node<'a>(n: &Node<'a>) -> Option<(u16, Vec<Slot<'a>>)> {
    let x = n.as_assoc_node()?;
    Some((x.flags(), vec![
        child(x.key()), child(x.value()), opt_loc(x.operator_loc()),
    ]))
}

/// Calls `Node::as_assoc_splat_node` and, when it is `Some`, the flags and field
/// accessors of `ruby_prism::AssocSplatNode`; no property of the result is claimed.
#[verifier::external_body]
fn read_assoc_splat_node<'a>(n: &Node<'a>) -> Option<(u16, Vec<Slot<'a>>)> {
    let x = n.as_assoc_splat_node()?;
    Some((x.flags(), vec![
        opt_child(x.value()), loc(&x.operator_loc()),
    ]))
}

/// Calls `Node::as_back_reference_read_node` and, when it is `Some`, the flags and field
/// accessors of `ruby_prism::BackReferenceReadNode`; no property of the result is claimed.
#[verifier::external_body]
fn read_back_reference_read_node<'a>(n: &Node<'a>) -> Option<(u16, Vec<Slot<'a>>)> {
    let x = n.as_back_reference_read_node()?;
    Some((x.flags(), vec![
        name(&x.name()),
    ]))
}

/// Calls `Node::as_begin_node` and, when it is `Some`, the flags and field
/// accessors of `ruby_prism::BeginNode`; no property of the result is claimed.
#[verifier::external_body]
fn read_begin_node<'a>(n: &Node<'a>) -> Option<(u16, Vec<Slot<'a>>)> {
    let x = n.as_begin_node()?;
    Some((x.flags(), vec![
        opt_loc(x.begin_keyword_loc()), opt_child(x.statements().map(|c| c.as_node())),
        opt_child(x.rescue_clause().map(|c| c.as_node())), opt_child(x.else_clause().map(|c| c.as_node())),
        opt_child(x.ensure_clause().map(|c| c.as_node())), opt_loc(x.end_keyword_loc()),
    ]))
}

/// Calls `Node::as_block_argument_node` and, when it is `Some`, the flags and field
/// accessors of `ruby_prism::BlockArgumentNode`; no property of the result is claimed.
#[verifier::external_body]
fn read_block_argument_node<'a>(n: &Node<'a>) -> Option<(u16, Vec<Slot<'a>>)> {
    let x = n.as_block_argument_node()?;
    Some((x.flags(), vec![
        opt_child(x.expression()), loc(&x.operator_loc()),
    ]))
}

/// Calls `Node::as_block_local_variable_node` and, when it is `Some`, the flags and field
/// accessors of `ruby_prism::BlockLocalVariableNode`; no property of the result is claimed.
#[verifier::external_body]
fn read_block_local_variable_node<'a>(n: &Node<'a>) -> Option<(u16, Vec<Slot<'a>>)> {
    let x = n.as_block_local_variable_node()?;
    Some((x.flags(), vec![
        name(&x.name()),
    ]))
}

/// Calls `Node::as_block_node` and, when it is `Some`, the flags and field
/// accessors of `ruby_prism::BlockNode`; no property of the result is claimed.
#[verifier::external_body]
fn read_block_node<'a>(n: &Node<'a>) -> Option<(u16, Vec<Slot<'a>>)> {
    let x = n.as_block_node()?;
    Some((x.flags(), vec![
        Slot::Skipped, opt_child(x.parameters()), opt_child(x.body()),
        loc(&x.opening_loc()), loc(&x.closing_loc()),
    ]))
}

/// Calls `Node::as_block_parameter_node` and, when it is `Some`, the flags and field
/// accessors of `ruby_prism::BlockParameterNode`; no property of the result is claimed.
#[verifier::external_body]
fn read_block_parameter_node<'a>(n: &Node<'a>) -> Option<(u16, Vec<Slot<'a>>)> {
    let x = n.as_block_parameter_node()?;
    Some((x.flags(), vec![
        opt_name(x.name()), opt_loc(x.name_loc()), loc(&x.operator_loc()),
    ]))
}

/// Calls `Node::as_block_parameters_node` and, when it is `Some`, the flags and field
/// accessors of `ruby_prism::BlockParametersNode`; no property of the result is claimed.
#[verifier::external_body]
fn read_block_parameters_node<'a>(n: &Node<'a>) -> Option<(u16, Vec<Slot<'a>>)> {
    let x = n.as_block_parameters_node()?;
    Some((x.flags(), vec![
        opt_child(x.parameters().map(|c| c.as_node())), list(&x.locals()),
        opt_loc(x.opening_loc()), opt_loc(x.closing_loc()),
    ]))
}

/// Calls `Node::as_break_node` and, when it is `Some`, the flags and field
/// accessors of `ruby_prism::BreakNode`; no property of the result is claimed.
#[verifier::external_body]
fn read_break_node<'a>(n: &Node<'a>) -> Option<(u16, Vec<Slot<'a>>)> {
    let x = n.as_break_node()?;
    Some((x.flags(), vec![
        opt_child(x.arguments().map(|c| c.as_node())), loc(&x.keyword_loc()),
    ]))
}

/// Calls `Node::as_call_and_write_node` and, when it is `Some`, the flags and field
/// accessors of `ruby_prism::CallAndWriteNode`; no property of the result is claimed.
#[verifier::external_body]
fn read_call_and_write_node<'a>(n: &Node<'a>) -> Option<(u16, Vec<Slot<'a>>)> {
    let x = n.as_call_and_write_node()?;
    Some((x.flags(), vec![
        opt_child(x.receiver()), opt_loc(x.call_operator_loc()), opt_loc(x.message_loc()),
        name(&x.read_name()), name(&x.write_name()), loc(&x.operator_loc()), child(x.value()),
    ]))
}

/// Calls `Node::as_call_node` and, when it is `Some`, the flags and field
/// accessors of `ruby_prism::CallNode`; no property of the result is claimed.
#[verifier::external_body]
fn read_call_node<'a>(n: &Node<'a>) -> Option<(u16, Vec<Slot<'a>>)> {
    let x = n.as_call_node()?;
    Some((x.flags(), vec![
        opt_child(x.receiver()), opt_loc(x.call_operator_loc()), name(&x.name()),
        opt_loc(x.message_loc()), opt_loc(x.opening_loc()), opt_child(x.arguments().map(|c| c.as_node())),
        opt_loc(x.closing_loc()), opt_loc(x.equal_loc()), opt_child(x.block()),
    ]))
}

/// Calls `Node::as_call_operator_write_node` and, when it is `Some`, the flags and field
/// accessors of `ruby_prism::CallOperatorWriteNode`; no property of the result is claimed.
#[verifier::external_body]
fn read_call_operator_write_node<'a>(n: &Node<'a>) -> Option<(u16, Vec<Slot<'a>>)> {
    let x = n.as_call_operator_write_node()?;
    Some((x.flags(), vec![
        opt_child(x.receiver()), opt_loc(x.call_operator_loc()), opt_loc(x.message_loc()),
        name(&x.read_name()), name(&x.write_name()), name(&x.binary_operator()), loc(&x.binary_operator_loc()),
        child(x.value()),
    ]))
}

/// Calls `Node::as_call_or_write_node` and, when it is `Some`, the flags and field
/// accessors of `ruby_prism::CallOrWriteNode`; no property of the result is claimed.
#[verifier::external_body]
fn read_call_or_write_node<'a>(n: &Node<'a>) -> Option<(u16, Vec<Slot<'a>>)> {
    let x = n.as_call_or_write_node()?;
    Some((x.flags(), vec![
        opt_child(x.receiver()), opt_loc(x.call_operator_loc()), opt_loc(x.message_loc()),
        name(&x.read_name()), name(&x.write_name()), loc(&x.operator_loc()), child(x.value()),
    ]))
}

/// Calls `Node::as_call_target_node` and, when it is `Some`, the flags and field
/// accessors of `ruby_prism::CallTargetNode`; no property of the result is claimed.
#[verifier::external_body]
fn read_call_target_node<'a>(n: &Node<'a>) -> Option<(u16, Vec<Slot<'a>>)> {
    let x = n.as_call_target_node()?;
    Some((x.flags(), vec![
        child(x.receiver()), loc(&x.call_operator_loc()), name(&x.name()), loc(&x.message_loc()),
    ]))
}

/// Calls `Node::as_capture_pattern_node` and, when it is `Some`, the flags and field
/// accessors of `ruby_prism::CapturePatternNode`; no property of the result is claimed.
#[verifier::external_body]
fn read_capture_pattern_node<'a>(n: &Node<'a>) -> Option<(u16, Vec<Slot<'a>>)> {
    let x = n.as_capture_pattern_node()?;
    Some((x.flags(), vec![
        child(x.value()), child(x.target().as_node()), loc(&x.operator_loc()),
    ]))
}

/// Calls `Node::as_case_match_node` and, when it is `Some`, the flags and field
/// accessors of `ruby_prism::CaseMatchNode`; no property of the result is claimed.
#[verifier::external_body]
fn read_case_match_node<'a>(n: &Node<'a>) -> Option<(u16, Vec<Slot<'a>>)> {
    let x = n.as_case_match_node()?;
    Some((x.flags(), vec![
        opt_child(x.predicate()), list(&x.conditions()), opt_child(x.else_clause().map(|c| c.as_node())),
        loc(&x.case_keyword_loc()), loc(&x.end_keyword_loc()),
    ]))
}

/// Calls `Node::as_case_node` and, when it is `Some`, the flags and field
/// accessors of `ruby_prism::CaseNode`; no property of the result is claimed.
#[verifier::external_body]
fn read_case_node<'a>(n: &Node<'a>) -> Option<(u16, Vec<Slot<'a>>)> {
    let x = n.as_case_node()?;
    Some((x.flags(), vec![
        opt_child(x.predicate()), list(&x.conditions()), opt_child(x.else_clause().map(|c| c.as_node())),
        loc(&x.case_keyword_loc()), loc(&x.end_keyword_loc()),
    ]))
}

/// Calls `Node::as_class_node` and, when it is `Some`, the flags and field
/// accessors of `ruby_prism::ClassNode`; no property of the result is claimed.
#[verifier::external_body]
fn read_class_node<'a>(n: &Node<'a>) -> Option<(u16, Vec<Slot<'a>>)> {
    let x = n.as_class_node()?;
    Some((x.flags(), vec![
        Slot::Skipped, loc(&x.class_keyword_loc()), child(x.constant_path()),
        opt_loc(x.inheritance_operator_loc()), opt_child(x.superclass()), opt_child(x.body()),
        loc(&x.end_keyword_loc()), name(&x.name()),
    ]))
}

/// Calls `Node::as_class_variable_and_write_node` and, when it is `Some`, the flags and field
/// accessors of `ruby_prism::ClassVariableAndWriteNode`; no property of the result is claimed.
#[verifier::external_body]
fn read_class_variable_and_write_node<'a>(n: &Node<'a>) -> Option<(u16, Vec<Slot<'a>>)> {
    let x = n.as_class_variable_and_write_node()?;
    Some((x.flags(), vec![
        name(&x.name()), loc(&x.name_loc()), loc(&x.operator_loc()), child(x.value()),
    ]))
}

/// Calls `Node::as_class_variable_operator_write_node` and, when it is `Some`, the flags and field
/// accessors of `ruby_prism::ClassVariableOperatorWriteNode`; no property of the result is claimed.
#[verifier::external_body]
fn read_class_variable_operator_write_node<'a>(n: &Node<'a>) -> Option<(u16, Vec<Slot<'a>>)> {
    let x = n.as_class_variable_operator_write_node()?;
    Some((x.flags(), vec![
        name(&x.name()), loc(&x.name_loc()), loc(&x.binary_operator_loc()), child(x.value()),
        name(&x.binary_operator()),
    ]))
}

/// Calls `Node::as_class_variable_or_write_node` and, when it is `Some`, the flags and field
/// accessors of `ruby_prism::ClassVariableOrWriteNode`; no property of the result is claimed.
#[verifier::external_body]
fn read_class_variable_or_write_node<'a>(n: &Node<'a>) -> Option<(u16, Vec<Slot<'a>>)> {
    let x = n.as_class_variable_or_write_node()?;
    Some((x.flags(), vec![
        name(&x.name()), loc(&x.name_loc()), loc(&x.operator_loc()), child(x.value()),
    ]))
}

/// Calls `Node::as_class_variable_read_node` and, when it is `Some`, the flags and field
/// accessors of `ruby_prism::ClassVariableReadNode`; no property of the result is claimed.
#[verifier::external_body]
fn read_class_variable_read_node<'a>(n: &Node<'a>) -> Option<(u16, Vec<Slot<'a>>)> {
    let x = n.as_class_variable_read_node()?;
    Some((x.flags(), vec![
        name(&x.name()),
    ]))
}

/// Calls `Node::as_class_variable_target_node` and, when it is `Some`, the flags and field
/// accessors of `ruby_prism::ClassVariableTargetNode`; no property of the result is claimed.
#[verifier::external_body]
fn read_class_variable_target_node<'a>(n: &Node<'a>) -> Option<(u16, Vec<Slot<'a>>)> {
    let x = n.as_class_variable_target_node()?;
    Some((x.flags(), vec![
        name(&x.name()),
    ]))
}

/// Calls `Node::as_class_variable_write_node` and, when it is `Some`, the flags and field
/// accessors of `ruby_prism::ClassVariableWriteNode`; no property of the result is claimed.
#[verifier::external_body]
fn read_class_variable_write_node<'a>(n: &Node<'a>) -> Option<(u16, Vec<Slot<'a>>)> {
    let x = n.as_class_variable_write_node()?;
    Some((x.flags(), vec![
        name(&x.name()), loc(&x.name_loc()), child(x.value()), loc(&x.operator_loc()),
    ]))
}

/// Calls `Node::as_constant_and_write_node` and, when it is `Some`, the flags and field
/// accessors of `ruby_prism::ConstantAndWriteNode`; no property of the result is claimed.
#[verifier::external_body]
fn read_constant_and_write_node<'a>(n: &Node<'a>) -> Option<(u16, Vec<Slot<'a>>)> {
    let x = n.as_constant_and_write_node()?;
    Some((x.flags(), vec![
        name(&x.name()), loc(&x.name_loc()), loc(&x.operator_loc()), child(x.value()),
    ]))
}

/// Calls `Node::as_constant_operator_write_node` and, when it is `Some`, the flags and field
/// accessors of `ruby_prism::ConstantOperatorWriteNode`; no property of the result is claimed.
#[verifier::external_body]
fn read_constant_operator_write_node<'a>(n: &Node<'a>) -> Option<(u16, Vec<Slot<'a>>)> {
    let x = n.as_constant_operator_write_node()?;
    Some((x.flags(), vec![
        name(&x.name()), loc(&x.name_loc()), loc(&x.binary_operator_loc()), child(x.value()),
        name(&x.binary_operator()),
    ]))
}

/// Calls `Node::as_constant_or_write_node` and, when it is `Some`, the flags and field
/// accessors of `ruby_prism::ConstantOrWriteNode`; no property of the result is claimed.
#[verifier::external_body]
fn read_constant_or_write_node<'a>(n: &Node<'a>) -> Option<(u16, Vec<Slot<'a>>)> {
    let x = n.as_constant_or_write_node()?;
    Some((x.flags(), vec![
        name(&x.name()), loc(&x.name_loc()), loc(&x.operator_loc()), child(x.value()),
    ]))
}

/// Calls `Node::as_constant_path_and_write_node` and, when it is `Some`, the flags and field
/// accessors of `ruby_prism::ConstantPathAndWriteNode`; no property of the result is claimed.
#[verifier::external_body]
fn read_constant_path_and_write_node<'a>(n: &Node<'a>) -> Option<(u16, Vec<Slot<'a>>)> {
    let x = n.as_constant_path_and_write_node()?;
    Some((x.flags(), vec![
        child(x.target().as_node()), loc(&x.operator_loc()), child(x.value()),
    ]))
}

/// Calls `Node::as_constant_path_node` and, when it is `Some`, the flags and field
/// accessors of `ruby_prism::ConstantPathNode`; no property of the result is claimed.
#[verifier::external_body]
fn read_constant_path_node<'a>(n: &Node<'a>) -> Option<(u16, Vec<Slot<'a>>)> {
    let x = n.as_constant_path_node()?;
    Some((x.flags(), vec![
        opt_child(x.parent()), opt_name(x.name()), loc(&x.delimiter_loc()),
        loc(&x.name_loc()),
    ]))
}

/// Calls `Node::as_constant_path_operator_write_node` and, when it is `Some`, the flags and field
/// accessors of `ruby_prism::ConstantPathOperatorWriteNode`; no property of the result is claimed.
#[verifier::external_body]
fn read_constant_path_operator_write_node<'a>(n: &Node<'a>) -> Option<(u16, Vec<Slot<'a>>)> {
    let x = n.as_constant_path_operator_write_node()?;
    Some((x.flags(), vec![
        child(x.target().as_node()), loc(&x.binary_operator_loc()), child(x.value()),
        name(&x.binary_operator()),
    ]))
}

/// Calls `Node::as_constant_path_or_write_node` and, when it is `Some`, the flags and field
/// accessors of `ruby_prism::ConstantPathOrWriteNode`; no property of the result is claimed.
#[verifier::external_body]
fn read_constant_path_or_write_node<'a>(n: &Node<'a>) -> Option<(u16, Vec<Slot<'a>>)> {
    let x = n.as_constant_path_or_write_node()?;
    Some((x.flags(), vec![
        child(x.target().as_node()), loc(&x.operator_loc()), child(x.value()),
    ]))
}

/// Calls `Node::as_constant_path_target_node` and, when it is `Some`, the flags and field
/// accessors of `ruby_prism::ConstantPathTargetNode`; no property of the result is claimed.
#[verifier::external_body]
fn read_constant_path_target_node<'a>(n: &Node<'a>) -> Option<(u16, Vec<Slot<'a>>)> {
    let x = n.as_constant_path_target_node()?;
    Some((x.flags(), vec![
        opt_child(x.parent()), opt_name(x.name()), loc(&x.delimiter_loc()),
        loc(&x.name_loc()),
    ]))
}

/// Calls `Node::as_constant_path_write_node` and, when it is `Some`, the flags and field
/// accessors of `ruby_prism::ConstantPathWriteNode`; no property of the result is claimed.
#[verifier::external_body]
fn read_constant_path_write_node<'a>(n: &Node<'a>) -> Option<(u16, Vec<Slot<'a>>)> {
    let x = n.as_constant_path_write_node()?;
    Some((x.flags(), vec![
        child(x.target().as_node()), loc(&x.operator_loc()), child(x.value()),
    ]))
}

/// Calls `Node::as_constant_read_node` and, when it is `Some`, the flags and field
/// accessors of `ruby_prism::ConstantReadNode`; no property of the result is claimed.
#[verifier::external_body]
fn read_constant_read_node<'a>(n: &Node<'a>) -> Option<(u16, Vec<Slot<'a>>)> {
    let x = n.as_constant_read_node()?;
    Some((x.flags(), vec![
        name(&x.name()),
    ]))
}

/// Calls `Node::as_constant_target_node` and, when it is `Some`, the flags and field
/// accessors of `ruby_prism::ConstantTargetNode`; no property of the result is claimed.
#[verifier::external_body]
fn read_constant_target_node<'a>(n: &Node<'a>) -> Option<(u16, Vec<Slot<'a>>)> {
    let x = n.as_constant_target_node()?;
    Some((x.flags(), vec![
        name(&x.name()),
    ]))
}

/// Calls `Node::as_constant_write_node` and, when it is `Some`, the flags and field
/// accessors of `ruby_prism::ConstantWriteNode`; no property of the result is claimed.
#[verifier::external_body]
fn read_constant_write_node<'a>(n: &Node<'a>) -> Option<(u16, Vec<Slot<'a>>)> {
    let x = n.as_constant_write_node()?;
    Some((x.flags(), vec![
        name(&x.name()), loc(&x.name_loc()), child(x.value()), loc(&x.operator_loc()),
    ]))
}

/// Calls `Node::as_def_node` and, when it is `Some`, the flags and field
/// accessors of `ruby_prism::DefNode`; no property of the result is claimed.
#[verifier::external_body]
fn read_def_node<'a>(n: &Node<'a>) -> Option<(u16, Vec<Slot<'a>>)> {
    let x = n.as_def_node()?;
    Some((x.flags(), vec![
        name(&x.name()), loc(&x.name_loc()), opt_child(x.receiver()), opt_child(x.parameters().map(|c| c.as_node())),
        opt_child(x.body()), Slot::Skipped, loc(&x.def_keyword_loc()), opt_loc(x.operator_loc()),
        opt_loc(x.lparen_loc()), opt_loc(x.rparen_loc()), opt_loc(x.equal_loc()),
        opt_loc(x.end_keyword_loc()),
    ]))
}

/// Calls `Node::as_defined_node` and, when it is `Some`, the flags and field
/// accessors of `ruby_prism::DefinedNode`; no property of the result is claimed.
#[verifier::external_body]
fn read_defined_node<'a>(n: &Node<'a>) -> Option<(u16, Vec<Slot<'a>>)> {
    let x = n.as_defined_node()?;
    Some((x.flags(), vec![
        opt_loc(x.lparen_loc()), child(x.value()), opt_loc(x.rparen_loc()),
        loc(&x.keyword_loc()),
    ]))
}

/// Calls `Node::as_else_node` and, when it is `Some`, the flags and field
/// accessors of `ruby_prism::ElseNode`; no property of the result is claimed.
#[verifier::external_body]
fn read_else_node<'a>(n: &Node<'a>) -> Option<(u16, Vec<Slot<'a>>)> {
    let x = n.as_else_node()?;
    Some((x.flags(), vec![
        loc(&x.else_keyword_loc()), opt_child(x.statements().map(|c| c.as_node())),
        opt_loc(x.end_keyword_loc()),
    ]))
}

/// Calls `Node::as_embedded_statements_node` and, when it is `Some`, the flags and field
/// accessors of `ruby_prism::EmbeddedStatementsNode`; no property of the result is claimed.
#[verifier::external_body]
fn read_embedded_statements_node<'a>(n: &Node<'a>) -> Option<(u16, Vec<Slot<'a>>)> {
    let x = n.as_embedded_statements_node()?;
    Some((x.flags(), vec![
        loc(&x.opening_loc()), opt_child(x.statements().map(|c| c.as_node())),
        loc(&x.closing_loc()),
    ]))
}

/// Calls `Node::as_embedded_variable_node` and, when it is `Some`, the flags and field
/// accessors of `ruby_prism::EmbeddedVariableNode`; no property of the result is claimed.
#[verifier::external_body]
fn read_embedded_variable_node<'a>(n: &Node<'a>) -> Option<(u16, Vec<Slot<'a>>)> {
    let x = n.as_embedded_variable_node()?;
    Some((x.flags(), vec![
        loc(&x.operator_loc()), child(x.variable()),
    ]))
}

/// Calls `Node::as_ensure_node` and, when it is `Some`, the flags and field
/// accessors of `ruby_prism::EnsureNode`; no property of the result is claimed.
#[verifier::external_body]
fn read_ensure_node<'a>(n: &Node<'a>) -> Option<(u16, Vec<Slot<'a>>)> {
    let x = n.as_ensure_node()?;
    Some((x.flags(), vec![
        loc(&x.ensure_keyword_loc()), opt_child(x.statements().map(|c| c.as_node())),
        loc(&x.end_keyword_loc()),
    ]))
}

/// Calls `Node::as_error_recovery_node` and, when it is `Some`, the flags and field
/// accessors of `ruby_prism::ErrorRecoveryNode`; no property of the result is claimed.
#[verifier::external_body]
fn read_error_recovery_node<'a>(n: &Node<'a>) -> Option<(u16, Vec<Slot<'a>>)> {
    let x = n.as_error_recovery_node()?;
    Some((x.flags(), vec![
        opt_child(x.unexpected()),
    ]))
}

/// Calls `Node::as_false_node` and, when it is `Some`, the flags and field
/// accessors of `ruby_prism::FalseNode`; no property of the result is claimed.
#[verifier::external_body]
fn read_false_node<'a>(n: &Node<'a>) -> Option<(u16, Vec<Slot<'a>>)> {
    let x = n.as_false_node()?;
    Some((x.flags(), Vec::new()))
}

/// Calls `Node::as_find_pattern_node` and, when it is `Some`, the flags and field
/// accessors of `ruby_prism::FindPatternNode`; no property of the result is claimed.
#[verifier::external_body]
fn read_find_pattern_node<'a>(n: &Node<'a>) -> Option<(u16, Vec<Slot<'a>>)> {
    let x = n.as_find_pattern_node()?;
    Some((x.flags(), vec![
        opt_child(x.constant()), child(x.left().as_node()), list(&x.requireds()),
        child(x.right().as_node()), opt_loc(x.opening_loc()), opt_loc(x.closing_loc()),
    ]))
}

/// Calls `Node::as_flip_flop_node` and, when it is `Some`, the flags and field
/// accessors of `ruby_prism::FlipFlopNode`; no property of the result is claimed.
#[verifier::external_body]
fn read_flip_flop_node<'a>(n: &Node<'a>) -> Option<(u16, Vec<Slot<'a>>)> {
    let x = n.as_flip_flop_node()?;
    Some((x.flags(), vec![
        opt_child(x.left()), opt_child(x.right()), loc(&x.operator_loc()),
    ]))
}

/// Calls `Node::as_float_node` and, when it is `Some`, the flags and field
/// accessors of `ruby_prism::FloatNode`; no property of the result is claimed.
#[verifier::external_body]
fn read_float_node<'a>(n: &Node<'a>) -> Option<(u16, Vec<Slot<'a>>)> {
    let x = n.as_float_node()?;
    Some((x.flags(), vec![
        Slot::Skipped,
    ]))
}

/// Calls `Node::as_for_node` and, when it is `Some`, the flags and field
/// accessors of `ruby_prism::ForNode`; no property of the result is claimed.
#[verifier::external_body]
fn read_for_node<'a>(n: &Node<'a>) -> Option<(u16, Vec<Slot<'a>>)> {
    let x = n.as_for_node()?;
    Some((x.flags(), vec![
        child(x.index()), child(x.collection()), opt_child(x.statements().map(|c| c.as_node())),
        loc(&x.for_keyword_loc()), loc(&x.in_keyword_loc()), opt_loc(x.do_keyword_loc()),
        loc(&x.end_keyword_loc()),
    ]))
}

/// Calls `Node::as_forwarding_arguments_node` and, when it is `Some`, the flags and field
/// accessors of `ruby_prism::ForwardingArgumentsNode`; no property of the result is claimed.
#[verifier::external_body]
fn read_forwarding_arguments_node<'a>(n: &Node<'a>) -> Option<(u16, Vec<Slot<'a>>)> {
    let x = n.as_forwarding_arguments_node()?;
    Some((x.flags(), Vec::new()))
}

/// Calls `Node::as_forwarding_parameter_node` and, when it is `Some`, the flags and field
/// accessors of `ruby_prism::ForwardingParameterNode`; no property of the result is claimed.
#[verifier::external_body]
fn read_forwarding_parameter_node<'a>(n: &Node<'a>) -> Option<(u16, Vec<Slot<'a>>)> {
    let x = n.as_forwarding_parameter_node()?;
    Some((x.flags(), Vec::new()))
}

/// Calls `Node::as_forwarding_super_node` and, when it is `Some`, the flags and field
/// accessors of `ruby_prism::ForwardingSuperNode`; no property of the result is claimed.
#[verifier::external_body]
fn read_forwarding_super_node<'a>(n: &Node<'a>) -> Option<(u16, Vec<Slot<'a>>)> {
    let x = n.as_forwarding_super_node()?;
    Some((x.flags(), vec![
        loc(&x.keyword_loc()), opt_child(x.block().map(|c| c.as_node())),
    ]))
}

/// Calls `Node::as_global_variable_and_write_node` and, when it is `Some`, the flags and field
/// accessors of `ruby_prism::GlobalVariableAndWriteNode`; no property of the result is claimed.
#[verifier::external_body]
fn read_global_variable_and_write_node<'a>(n: &Node<'a>) -> Option<(u16, Vec<Slot<'a>>)> {
    let x = n.as_global_variable_and_write_node()?;
    Some((x.flags(), vec![
        name(&x.name()), loc(&x.name_loc()), loc(&x.operator_loc()), child(x.value()),
    ]))
}

/// Calls `Node::as_global_variable_operator_write_node` and, when it is `Some`, the flags and field
/// accessors of `ruby_prism::GlobalVariableOperatorWriteNode`; no property of the result is claimed.
#[verifier::external_body]
fn read_global_variable_operator_write_node<'a>(n: &Node<'a>) -> Option<(u16, Vec<Slot<'a>>)> {
    let x = n.as_global_variable_operator_write_node()?;
    Some((x.flags(), vec![
        name(&x.name()), loc(&x.name_loc()), loc(&x.binary_operator_loc()), child(x.value()),
        name(&x.binary_operator()),
    ]))
}

/// Calls `Node::as_global_variable_or_write_node` and, when it is `Some`, the flags and field
/// accessors of `ruby_prism::GlobalVariableOrWriteNode`; no property of the result is claimed.
#[verifier::external_body]
fn read_global_variable_or_write_node<'a>(n: &Node<'a>) -> Option<(u16, Vec<Slot<'a>>)> {
    let x = n.as_global_variable_or_write_node()?;
    Some((x.flags(), vec![
        name(&x.name()), loc(&x.name_loc()), loc(&x.operator_loc()), child(x.value()),
    ]))
}

/// Calls `Node::as_global_variable_read_node` and, when it is `Some`, the flags and field
/// accessors of `ruby_prism::GlobalVariableReadNode`; no property of the result is claimed.
#[verifier::external_body]
fn read_global_variable_read_node<'a>(n: &Node<'a>) -> Option<(u16, Vec<Slot<'a>>)> {
    let x = n.as_global_variable_read_node()?;
    Some((x.flags(), vec![
        name(&x.name()),
    ]))
}

/// Calls `Node::as_global_variable_target_node` and, when it is `Some`, the flags and field
/// accessors of `ruby_prism::GlobalVariableTargetNode`; no property of the result is claimed.
#[verifier::external_body]
fn read_global_variable_target_node<'a>(n: &Node<'a>) -> Option<(u16, Vec<Slot<'a>>)> {
    let x = n.as_global_variable_target_node()?;
    Some((x.flags(), vec![
        name(&x.name()),
    ]))
}

/// Calls `Node::as_global_variable_write_node` and, when it is `Some`, the flags and field
/// accessors of `ruby_prism::GlobalVariableWriteNode`; no property of the result is claimed.
#[verifier::external_body]
fn read_global_variable_write_node<'a>(n: &Node<'a>) -> Option<(u16, Vec<Slot<'a>>)> {
    let x = n.as_global_variable_write_node()?;
    Some((x.flags(), vec![
        name(&x.name()), loc(&x.name_loc()), child(x.value()), loc(&x.operator_loc()),
    ]))
}

/// Calls `Node::as_hash_node` and, when it is `Some`, the flags and field
/// accessors of `ruby_prism::HashNode`; no property of the result is claimed.
#[verifier::external_body]
fn read_hash_node<'a>(n: &Node<'a>) -> Option<(u16, Vec<Slot<'a>>)> {
    let x = n.as_hash_node()?;
    Some((x.flags(), vec![
        loc(&x.opening_loc()), list(&x.elements()), loc(&x.closing_loc()),
    ]))
}

/// Calls `Node::as_hash_pattern_node` and, when it is `Some`, the flags and field
/// accessors of `ruby_prism::HashPatternNode`; no property of the result is claimed.
#[verifier::external_body]
fn read_hash_pattern_node<'a>(n: &Node<'a>) -> Option<(u16, Vec<Slot<'a>>)> {
    let x = n.as_hash_pattern_node()?;
    Some((x.flags(), vec![
        opt_child(x.constant()), list(&x.elements()), opt_child(x.rest()),
        opt_loc(x.opening_loc()), opt_loc(x.closing_loc()),
    ]))
}

/// Calls `Node::as_if_node` and, when it is `Some`, the flags and field
/// accessors of `ruby_prism::IfNode`; no property of the result is claimed.
#[verifier::external_body]
fn read_if_node<'a>(n: &Node<'a>) -> Option<(u16, Vec<Slot<'a>>)> {
    let x = n.as_if_node()?;
    Some((x.flags(), vec![
        opt_loc(x.if_keyword_loc()), child(x.predicate()), opt_loc(x.then_keyword_loc()),
        opt_child(x.statements().map(|c| c.as_node())), opt_child(x.subsequent()),
        opt_loc(x.end_keyword_loc()),
    ]))
}

/// Calls `Node::as_imaginary_node` and, when it is `Some`, the flags and field
/// accessors of `ruby_prism::ImaginaryNode`; no property of the result is claimed.
#[verifier::external_body]
fn read_imaginary_node<'a>(n: &Node<'a>) -> Option<(u16, Vec<Slot<'a>>)> {
    let x = n.as_imaginary_node()?;
    Some((x.flags(), vec![
        child(x.numeric()),
    ]))
}

/// Calls `Node::as_implicit_node` and, when it is `Some`, the flags and field
/// accessors of `ruby_prism::ImplicitNode`; no property of the result is claimed.
#[verifier::external_body]
fn read_implicit_node<'a>(n: &Node<'a>) -> Option<(u16, Vec<Slot<'a>>)> {
    let x = n.as_implicit_node()?;
    Some((x.flags(), vec![
        child(x.value()),
    ]))
}

/// Calls `Node::as_implicit_rest_node` and, when it is `Some`, the flags and field
/// accessors of `ruby_prism::ImplicitRestNode`; no property of the result is claimed.
#[verifier::external_body]
fn read_implicit_rest_node<'a>(n: &Node<'a>) -> Option<(u16, Vec<Slot<'a>>)> {
    let x = n.as_implicit_rest_node()?;
    Some((x.flags(), Vec::new()))
}

/// Calls `Node::as_in_node` and, when it is `Some`, the flags and field
/// accessors of `ruby_prism::InNode`; no property of the result is claimed.
#[verifier::external_body]
fn read_in_node<'a>(n: &Node<'a>) -> Option<(u16, Vec<Slot<'a>>)> {
    let x = n.as_in_node()?;
    Some((x.flags(), vec![
        child(x.pattern()), opt_child(x.statements().map(|c| c.as_node())),
        loc(&x.in_keyword_loc()), opt_loc(x.then_keyword_loc()),
    ]))
}

/// Calls `Node::as_index_and_write_node` and, when it is `Some`, the flags and field
/// accessors of `ruby_prism::IndexAndWriteNode`; no property of the result is claimed.
#[verifier::external_body]
fn read_index_and_write_node<'a>(n: &Node<'a>) -> Option<(u16, Vec<Slot<'a>>)> {
    let x = n.as_index_and_write_node()?;
    Some((x.flags(), vec![
        opt_child(x.receiver()), opt_loc(x.call_operator_loc()), loc(&x.opening_loc()),
        opt_child(x.arguments().map(|c| c.as_node())), loc(&x.closing_loc()),
        opt_child(x.block().map(|c| c.as_node())), loc(&x.operator_loc()),
        child(x.value()),
    ]))
}

/// Calls `Node::as_index_operator_write_node` and, when it is `Some`, the flags and field
/// accessors of `ruby_prism::IndexOperatorWriteNode`; no property of the result is claimed.
#[verifier::external_body]
fn read_index_operator_write_node<'a>(n: &Node<'a>) -> Option<(u16, Vec<Slot<'a>>)> {
    let x = n.as_index_operator_write_node()?;
    Some((x.flags(), vec![
        opt_child(x.receiver()), opt_loc(x.call_operator_loc()), loc(&x.opening_loc()),
        opt_child(x.arguments().map(|c| c.as_node())), loc(&x.closing_loc()),
        opt_child(x.block().map(|c| c.as_node())), name(&x.binary_operator()),
        loc(&x.binary_operator_loc()), child(x.value()),
    ]))
}

/// Calls `Node::as_index_or_write_node` and, when it is `Some`, the flags and field
/// accessors of `ruby_prism::IndexOrWriteNode`; no property of the result is claimed.
#[verifier::external_body]
fn read_index_or_write_node<'a>(n: &Node<'a>) -> Option<(u16, Vec<Slot<'a>>)> {
    let x = n.as_index_or_write_node()?;
    Some((x.flags(), vec![
        opt_child(x.receiver()), opt_loc(x.call_operator_loc()), loc(&x.opening_loc()),
        opt_child(x.arguments().map(|c| c.as_node())), loc(&x.closing_loc()),
        opt_child(x.block().map(|c| c.as_node())), loc(&x.operator_loc()),
        child(x.value()),
    ]))
}

/// Calls `Node::as_index_target_node` and, when it is `Some`, the flags and field
/// accessors of `ruby_prism::IndexTargetNode`; no property of the result is claimed.
#[verifier::external_body]
fn read_index_target_node<'a>(n: &Node<'a>) -> Option<(u16, Vec<Slot<'a>>)> {
    let x = n.as_index_target_node()?;
    Some((x.flags(), vec![
        child(x.receiver()), loc(&x.opening_loc()), opt_child(x.arguments().map(|c| c.as_node())),
        loc(&x.closing_loc()), opt_child(x.block().map(|c| c.as_node())),
    ]))
}

/// Calls `Node::as_instance_variable_and_write_node` and, when it is `Some`, the flags and field
/// accessors of `ruby_prism::InstanceVariableAndWriteNode`; no property of the result is claimed.
#[verifier::external_body]
fn read_instance_variable_and_write_node<'a>(n: &Node<'a>) -> Option<(u16, Vec<Slot<'a>>)> {
    let x = n.as_instance_variable_and_write_node()?;
    Some((x.flags(), vec![
        name(&x.name()), loc(&x.name_loc()), loc(&x.operator_loc()), child(x.value()),
    ]))
}

/// Calls `Node::as_instance_variable_operator_write_node` and, when it is `Some`, the flags and field
/// accessors of `ruby_prism::InstanceVariableOperatorWriteNode`; no property of the result is claimed.
#[verifier::external_body]
fn read_instance_variable_operator_write_node<'a>(n: &Node<'a>) -> Option<(u16, Vec<Slot<'a>>)> {
    let x = n.as_instance_variable_operator_write_node()?;
    Some((x.flags(), vec![
        name(&x.name()), loc(&x.name_loc()), loc(&x.binary_operator_loc()), child(x.value()),
        name(&x.binary_operator()),
    ]))
}

/// Calls `Node::as_instance_variable_or_write_node` and, when it is `Some`, the flags and field
/// accessors of `ruby_prism::InstanceVariableOrWriteNode`; no property of the result is claimed.
#[verifier::external_body]
fn read_instance_variable_or_write_node<'a>(n: &Node<'a>) -> Option<(u16, Vec<Slot<'a>>)> {
    let x = n.as_instance_variable_or_write_node()?;
    Some((x.flags(), vec![
        name(&x.name()), loc(&x.name_loc()), loc(&x.operator_loc()), child(x.value()),
    ]))
}

/// Calls `Node::as_instance_variable_read_node` and, when it is `Some`, the flags and field
/// accessors of `ruby_prism::InstanceVariableReadNode`; no property of the result is claimed.
#[verifier::external_body]
fn read_instance_variable_read_node<'a>(n: &Node<'a>) -> Option<(u16, Vec<Slot<'a>>)> {
    let x = n.as_instance_variable_read_node()?;
    Some((x.flags(), vec![
        name(&x.name()),
    ]))
}

/// Calls `Node::as_instance_variable_target_node` and, when it is `Some`, the flags and field
/// accessors of `ruby_prism::InstanceVariableTargetNode`; no property of the result is claimed.
#[verifier::external_body]
fn read_instance_variable_target_node<'a>(n: &Node<'a>) -> Option<(u16, Vec<Slot<'a>>)> {
    let x = n.as_instance_variable_target_node()?;
    Some((x.flags(), vec![
        name(&x.name()),
    ]))
}

/// Calls `Node::as_instance_variable_write_node` and, when it is `Some`, the flags and field
/// accessors of `ruby_prism::InstanceVariableWriteNode`; no property of the result is claimed.
#[verifier::external_body]
fn read_instance_variable_write_node<'a>(n: &Node<'a>) -> Option<(u16, Vec<Slot<'a>>)> {
    let x = n.as_instance_variable_write_node()?;
    Some((x.flags(), vec![
        name(&x.name()), loc(&x.name_loc()), child(x.value()), loc(&x.operator_loc()),
    ]))
}

/// Calls `Node::as_integer_node` and, when it is `Some`, the flags and field
/// accessors of `ruby_prism::IntegerNode`; no property of the result is claimed.
#[verifier::external_body]
fn read_integer_node<'a>(n: &Node<'a>) -> Option<(u16, Vec<Slot<'a>>)> {
    let x = n.as_integer_node()?;
    Some((x.flags(), vec![
        Slot::Skipped,
    ]))
}

/// Calls `Node::as_interpolated_match_last_line_node` and, when it is `Some`, the flags and field
/// accessors of `ruby_prism::InterpolatedMatchLastLineNode`; no property of the result is claimed.
#[verifier::external_body]
fn read_interpolated_match_last_line_node<'a>(n: &Node<'a>) -> Option<(u16, Vec<Slot<'a>>)> {
    let x = n.as_interpolated_match_last_line_node()?;
    Some((x.flags(), vec![
        loc(&x.opening_loc()), list(&x.parts()), loc(&x.closing_loc()),
    ]))
}

/// Calls `Node::as_interpolated_regular_expression_node` and, when it is `Some`, the flags and field
/// accessors of `ruby_prism::InterpolatedRegularExpressionNode`; no property of the result is claimed.
#[verifier::external_body]
fn read_interpolated_regular_expression_node<'a>(n: &Node<'a>) -> Option<(u16, Vec<Slot<'a>>)> {
    let x = n.as_interpolated_regular_expression_node()?;
    Some((x.flags(), vec![
        loc(&x.opening_loc()), list(&x.parts()), loc(&x.closing_loc()),
    ]))
}

/// Calls `Node::as_interpolated_string_node` and, when it is `Some`, the flags and field
/// accessors of `ruby_prism::InterpolatedStringNode`; no property of the result is claimed.
#[verifier::external_body]
fn read_interpolated_string_node<'a>(n: &Node<'a>) -> Option<(u16, Vec<Slot<'a>>)> {
    let x = n.as_interpolated_string_node()?;
    Some((x.flags(), vec![
        opt_loc(x.opening_loc()), list(&x.parts()), opt_loc(x.closing_loc()),
    ]))
}

/// Calls `Node::as_interpolated_symbol_node` and, when it is `Some`, the flags and field
/// accessors of `ruby_prism::InterpolatedSymbolNode`; no property of the result is claimed.
#[verifier::external_body]
fn read_interpolated_symbol_node<'a>(n: &Node<'a>) -> Option<(u16, Vec<Slot<'a>>)> {
    let x = n.as_interpolated_symbol_node()?;
    Some((x.flags(), vec![
        opt_loc(x.opening_loc()), list(&x.parts()), opt_loc(x.closing_loc()),
    ]))
}

/// Calls `Node::as_interpolated_x_string_node` and, when it is `Some`, the flags and field
/// accessors of `ruby_prism::InterpolatedXStringNode`; no property of the result is claimed.
#[verifier::external_body]
fn read_interpolated_x_string_node<'a>(n: &Node<'a>) -> Option<(u16, Vec<Slot<'a>>)> {
    let x = n.as_interpolated_x_string_node()?;
    Some((x.flags(), vec![
        loc(&x.opening_loc()), list(&x.parts()), loc(&x.closing_loc()),
    ]))
}

/// Calls `Node::as_it_local_variable_read_node` and, when it is `Some`, the flags and field
/// accessors of `ruby_prism::ItLocalVariableReadNode`; no property of the result is claimed.
#[verifier::external_body]
fn read_it_local_variable_read_node<'a>(n: &Node<'a>) -> Option<(u16, Vec<Slot<'a>>)> {
    let x = n.as_it_local_variable_read_node()?;
    Some((x.flags(), Vec::new()))
}

/// Calls `Node::as_it_parameters_node` and, when it is `Some`, the flags and field
/// accessors of `ruby_prism::ItParametersNode`; no property of the result is claimed.
#[verifier::external_body]
fn read_it_parameters_node<'a>(n: &Node<'a>) -> Option<(u16, Vec<Slot<'a>>)> {
    let x = n.as_it_parameters_node()?;
    Some((x.flags(), Vec::new()))
}

/// Calls `Node::as_keyword_hash_node` and, when it is `Some`, the flags and field
/// accessors of `ruby_prism::KeywordHashNode`; no property of the result is claimed.
#[verifier::external_body]
fn read_keyword_hash_node<'a>(n: &Node<'a>) -> Option<(u16, Vec<Slot<'a>>)> {
    let x = n.as_keyword_hash_node()?;
    Some((x.flags(), vec![
        list(&x.elements()),
    ]))
}

/// Calls `Node::as_keyword_rest_parameter_node` and, when it is `Some`, the flags and field
/// accessors of `ruby_prism::KeywordRestParameterNode`; no property of the result is claimed.
#[verifier::external_body]
fn read_keyword_rest_parameter_node<'a>(n: &Node<'a>) -> Option<(u16, Vec<Slot<'a>>)> {
    let x = n.as_keyword_rest_parameter_node()?;
    Some((x.flags(), vec![
        opt_name(x.name()), opt_loc(x.name_loc()), loc(&x.operator_loc()),
    ]))
}

/// Calls `Node::as_lambda_node` and, when it is `Some`, the flags and field
/// accessors of `ruby_prism::LambdaNode`; no property of the result is claimed.
#[verifier::external_body]
fn read_lambda_node<'a>(n: &Node<'a>) -> Option<(u16, Vec<Slot<'a>>)> {
    let x = n.as_lambda_node()?;
    Some((x.flags(), vec![
        Slot::Skipped, loc(&x.operator_loc()), loc(&x.opening_loc()), loc(&x.closing_loc()),
        opt_child(x.parameters()), opt_child(x.body()),
    ]))
}

/// Calls `Node::as_local_variable_and_write_node` and, when it is `Some`, the flags and field
/// accessors of `ruby_prism::LocalVariableAndWriteNode`; no property of the result is claimed.
#[verifier::external_body]
fn read_local_variable_and_write_node<'a>(n: &Node<'a>) -> Option<(u16, Vec<Slot<'a>>)> {
    let x = n.as_local_variable_and_write_node()?;
    Some((x.flags(), vec![
        loc(&x.name_loc()), loc(&x.operator_loc()), child(x.value()), name(&x.name()),
        Slot::Number(x.depth() as u32),
    ]))
}

/// Calls `Node::as_local_variable_operator_write_node` and, when it is `Some`, the flags and field
/// accessors of `ruby_prism::LocalVariableOperatorWriteNode`; no property of the result is claimed.
#[verifier::external_body]
fn read_local_variable_operator_write_node<'a>(n: &Node<'a>) -> Option<(u16, Vec<Slot<'a>>)> {
    let x = n.as_local_variable_operator_write_node()?;
    Some((x.flags(), vec![
        loc(&x.name_loc()), loc(&x.binary_operator_loc()), child(x.value()),
        name(&x.name()), name(&x.binary_operator()), Slot::Number(x.depth() as u32),
    ]))
}

/// Calls `Node::as_local_variable_or_write_node` and, when it is `Some`, the flags and field
/// accessors of `ruby_prism::LocalVariableOrWriteNode`; no property of the result is claimed.
#[verifier::external_body]
fn read_local_variable_or_write_node<'a>(n: &Node<'a>) -> Option<(u16, Vec<Slot<'a>>)> {
    let x = n.as_local_variable_or_write_node()?;
    Some((x.flags(), vec![
        loc(&x.name_loc()), loc(&x.operator_loc()), child(x.value()), name(&x.name()),
        Slot::Number(x.depth() as u32),
    ]))
}

/// Calls `Node::as_local_variable_read_node` and, when it is `Some`, the flags and field
/// accessors of `ruby_prism::LocalVariableReadNode`; no property of the result is claimed.
#[verifier::external_body]
fn read_local_variable_read_node<'a>(n: &Node<'a>) -> Option<(u16, Vec<Slot<'a>>)> {
    let x = n.as_local_variable_read_node()?;
    Some((x.flags(), vec![
        name(&x.name()), Slot::Number(x.depth() as u32),
    ]))
}

/// Calls `Node::as_local_variable_target_node` and, when it is `Some`, the flags and field
/// accessors of `ruby_prism::LocalVariableTargetNode`; no property of the result is claimed.
#[verifier::external_body]
fn read_local_variable_target_node<'a>(n: &Node<'a>) -> Option<(u16, Vec<Slot<'a>>)> {
    let x = n.as_local_variable_target_node()?;
    Some((x.flags(), vec![
        name(&x.name()), Slot::Number(x.depth() as u32),
    ]))
}

/// Calls `Node::as_local_variable_write_node` and, when it is `Some`, the flags and field
/// accessors of `ruby_prism::LocalVariableWriteNode`; no property of the result is claimed.
#[verifier::external_body]
fn read_local_variable_write_node<'a>(n: &Node<'a>) -> Option<(u16, Vec<Slot<'a>>)> {
    let x = n.as_local_variable_write_node()?;
    Some((x.flags(), vec![
        name(&x.name()), Slot::Number(x.depth() as u32), loc(&x.name_loc()), child(x.value()),
        loc(&x.operator_loc()),
    ]))
}

/// Calls `Node::as_match_last_line_node` and, when it is `Some`, the flags and field
/// accessors of `ruby_prism::MatchLastLineNode`; no property of the result is claimed.
#[verifier::external_body]
fn read_match_last_line_node<'a>(n: &Node<'a>) -> Option<(u16, Vec<Slot<'a>>)> {
    let x = n.as_match_last_line_node()?;
    Some((x.flags(), vec![
        loc(&x.opening_loc()), loc(&x.content_loc()), loc(&x.closing_loc()), Slot::Text(x.unescaped().to_vec()),
    ]))
}

/// Calls `Node::as_match_predicate_node` and, when it is `Some`, the flags and field
/// accessors of `ruby_prism::MatchPredicateNode`; no property of the result is claimed.
#[verifier::external_body]
fn read_match_predicate_node<'a>(n: &Node<'a>) -> Option<(u16, Vec<Slot<'a>>)> {
    let x = n.as_match_predicate_node()?;
    Some((x.flags(), vec![
        child(x.value()), child(x.pattern()), loc(&x.keyword_loc()),
    ]))
}

/// Calls `Node::as_match_required_node` and, when it is `Some`, the flags and field
/// accessors of `ruby_prism::MatchRequiredNode`; no property of the result is claimed.
#[verifier::external_body]
fn read_match_required_node<'a>(n: &Node<'a>) -> Option<(u16, Vec<Slot<'a>>)> {
    let x = n.as_match_required_node()?;
    Some((x.flags(), vec![
        child(x.value()), child(x.pattern()), loc(&x.operator_loc()),
    ]))
}

/// Calls `Node::as_match_write_node` and, when it is `Some`, the flags and field
/// accessors of `ruby_prism::MatchWriteNode`; no property of the result is claimed.
#[verifier::external_body]
fn read_match_write_node<'a>(n: &Node<'a>) -> Option<(u16, Vec<Slot<'a>>)> {
    let x = n.as_match_write_node()?;
    Some((x.flags(), vec![
        child(x.call().as_node()), list(&x.targets()),
    ]))
}

/// Calls `Node::as_module_node` and, when it is `Some`, the flags and field
/// accessors of `ruby_prism::ModuleNode`; no property of the result is claimed.
#[verifier::external_body]
fn read_module_node<'a>(n: &Node<'a>) -> Option<(u16, Vec<Slot<'a>>)> {
    let x = n.as_module_node()?;
    Some((x.flags(), vec![
        Slot::Skipped, loc(&x.module_keyword_loc()), child(x.constant_path()),
        opt_child(x.body()), loc(&x.end_keyword_loc()), name(&x.name()),
    ]))
}

/// Calls `Node::as_multi_target_node` and, when it is `Some`, the flags and field
/// accessors of `ruby_prism::MultiTargetNode`; no property of the result is claimed.
#[verifier::external_body]
fn read_multi_target_node<'a>(n: &Node<'a>) -> Option<(u16, Vec<Slot<'a>>)> {
    let x = n.as_multi_target_node()?;
    Some((x.flags(), vec![
        list(&x.lefts()), opt_child(x.rest()), list(&x.rights()), opt_loc(x.lparen_loc()),
        opt_loc(x.rparen_loc()),
    ]))
}

/// Calls `Node::as_multi_write_node` and, when it is `Some`, the flags and field
/// accessors of `ruby_prism::MultiWriteNode`; no property of the result is claimed.
#[verifier::external_body]
fn read_multi_write_node<'a>(n: &Node<'a>) -> Option<(u16, Vec<Slot<'a>>)> {
    let x = n.as_multi_write_node()?;
    Some((x.flags(), vec![
        list(&x.lefts()), opt_child(x.rest()), list(&x.rights()), opt_loc(x.lparen_loc()),
        opt_loc(x.rparen_loc()), loc(&x.operator_loc()), child(x.value()),
    ]))
}

/// Calls `Node::as_next_node` and, when it is `Some`, the flags and field
/// accessors of `ruby_prism::NextNode`; no property of the result is claimed.
#[verifier::external_body]
fn read_next_node<'a>(n: &Node<'a>) -> Option<(u16, Vec<Slot<'a>>)> {
    let x = n.as_next_node()?;
    Some((x.flags(), vec![
        opt_child(x.arguments().map(|c| c.as_node())), loc(&x.keyword_loc()),
    ]))
}

/// Calls `Node::as_nil_node` and, when it is `Some`, the flags and field
/// accessors of `ruby_prism::NilNode`; no property of the result is claimed.
#[verifier::external_body]
fn read_nil_node<'a>(n: &Node<'a>) -> Option<(u16, Vec<Slot<'a>>)> {
    let x = n.as_nil_node()?;
    Some((x.flags(), Vec::new()))
}

/// Calls `Node::as_no_block_parameter_node` and, when it is `Some`, the flags and field
/// accessors of `ruby_prism::NoBlockParameterNode`; no property of the result is claimed.
#[verifier::external_body]
fn read_no_block_parameter_node<'a>(n: &Node<'a>) -> Option<(u16, Vec<Slot<'a>>)> {
    let x = n.as_no_block_parameter_node()?;
    Some((x.flags(), vec![
        loc(&x.operator_loc()), loc(&x.keyword_loc()),
    ]))
}

/// Calls `Node::as_no_keywords_parameter_node` and, when it is `Some`, the flags and field
/// accessors of `ruby_prism::NoKeywordsParameterNode`; no property of the result is claimed.
#[verifier::external_body]
fn read_no_keywords_parameter_node<'a>(n: &Node<'a>) -> Option<(u16, Vec<Slot<'a>>)> {
    let x = n.as_no_keywords_parameter_node()?;
    Some((x.flags(), vec![
        loc(&x.operator_loc()), loc(&x.keyword_loc()),
    ]))
}

/// Calls `Node::as_numbered_parameters_node` and, when it is `Some`, the flags and field
/// accessors of `ruby_prism::NumberedParametersNode`; no property of the result is claimed.
#[verifier::external_body]
fn read_numbered_parameters_node<'a>(n: &Node<'a>) -> Option<(u16, Vec<Slot<'a>>)> {
    let x = n.as_numbered_parameters_node()?;
    Some((x.flags(), vec![
        Slot::Number(x.maximum() as u32),
    ]))
}

/// Calls `Node::as_numbered_reference_read_node` and, when it is `Some`, the flags and field
/// accessors of `ruby_prism::NumberedReferenceReadNode`; no property of the result is claimed.
#[verifier::external_body]
fn read_numbered_reference_read_node<'a>(n: &Node<'a>) -> Option<(u16, Vec<Slot<'a>>)> {
    let x = n.as_numbered_reference_read_node()?;
    Some((x.flags(), vec![
        Slot::Number(x.number() as u32),
    ]))
}

/// Calls `Node::as_optional_keyword_parameter_node` and, when it is `Some`, the flags and field
/// accessors of `ruby_prism::OptionalKeywordParameterNode`; no property of the result is claimed.
#[verifier::external_body]
fn read_optional_keyword_parameter_node<'a>(n: &Node<'a>) -> Option<(u16, Vec<Slot<'a>>)> {
    let x = n.as_optional_keyword_parameter_node()?;
    Some((x.flags(), vec![
        name(&x.name()), loc(&x.name_loc()), child(x.value()),
    ]))
}

/// Calls `Node::as_optional_parameter_node` and, when it is `Some`, the flags and field
/// accessors of `ruby_prism::OptionalParameterNode`; no property of the result is claimed.
#[verifier::external_body]
fn read_optional_parameter_node<'a>(n: &Node<'a>) -> Option<(u16, Vec<Slot<'a>>)> {
    let x = n.as_optional_parameter_node()?;
    Some((x.flags(), vec![
        name(&x.name()), loc(&x.name_loc()), loc(&x.operator_loc()), child(x.value()),
    ]))
}

/// Calls `Node::as_or_node` and, when it is `Some`, the flags and field
/// accessors of `ruby_prism::OrNode`; no property of the result is claimed.
#[verifier::external_body]
fn read_or_node<'a>(n: &Node<'a>) -> Option<(u16, Vec<Slot<'a>>)> {
    let x = n.as_or_node()?;
    Some((x.flags(), vec![
        child(x.left()), child(x.right()), loc(&x.operator_loc()),
    ]))
}

/// Calls `Node::as_parameters_node` and, when it is `Some`, the flags and field
/// accessors of `ruby_prism::ParametersNode`; no property of the result is claimed.
#[verifier::external_body]
fn read_parameters_node<'a>(n: &Node<'a>) -> Option<(u16, Vec<Slot<'a>>)> {
    let x = n.as_parameters_node()?;
    Some((x.flags(), vec![
        list(&x.requireds()), list(&x.optionals()), opt_child(x.rest()), list(&x.posts()),
        list(&x.keywords()), opt_child(x.keyword_rest()), opt_child(x.block()),
    ]))
}

/// Calls `Node::as_parentheses_node` and, when it is `Some`, the flags and field
/// accessors of `ruby_prism::ParenthesesNode`; no property of the result is claimed.
#[verifier::external_body]
fn read_parentheses_node<'a>(n: &Node<'a>) -> Option<(u16, Vec<Slot<'a>>)> {
    let x = n.as_parentheses_node()?;
    Some((x.flags(), vec![
        opt_child(x.body()), loc(&x.opening_loc()), loc(&x.closing_loc()),
    ]))
}

/// Calls `Node::as_pinned_expression_node` and, when it is `Some`, the flags and field
/// accessors of `ruby_prism::PinnedExpressionNode`; no property of the result is claimed.
#[verifier::external_body]
fn read_pinned_expression_node<'a>(n: &Node<'a>) -> Option<(u16, Vec<Slot<'a>>)> {
    let x = n.as_pinned_expression_node()?;
    Some((x.flags(), vec![
        child(x.expression()), loc(&x.operator_loc()), loc(&x.lparen_loc()),
        loc(&x.rparen_loc()),
    ]))
}

/// Calls `Node::as_pinned_variable_node` and, when it is `Some`, the flags and field
/// accessors of `ruby_prism::PinnedVariableNode`; no property of the result is claimed.
#[verifier::external_body]
fn read_pinned_variable_node<'a>(n: &Node<'a>) -> Option<(u16, Vec<Slot<'a>>)> {
    let x = n.as_pinned_variable_node()?;
    Some((x.flags(), vec![
        child(x.variable()), loc(&x.operator_loc()),
    ]))
}

/// Calls `Node::as_post_execution_node` and, when it is `Some`, the flags and field
/// accessors of `ruby_prism::PostExecutionNode`; no property of the result is claimed.
#[verifier::external_body]
fn read_post_execution_node<'a>(n: &Node<'a>) -> Option<(u16, Vec<Slot<'a>>)> {
    let x = n.as_post_execution_node()?;
    Some((x.flags(), vec![
        opt_child(x.statements().map(|c| c.as_node())), loc(&x.keyword_loc()),
        loc(&x.opening_loc()), loc(&x.closing_loc()),
    ]))
}

/// Calls `Node::as_pre_execution_node` and, when it is `Some`, the flags and field
/// accessors of `ruby_prism::PreExecutionNode`; no property of the result is claimed.
#[verifier::external_body]
fn read_pre_execution_node<'a>(n: &Node<'a>) -> Option<(u16, Vec<Slot<'a>>)> {
    let x = n.as_pre_execution_node()?;
    Some((x.flags(), vec![
        opt_child(x.statements().map(|c| c.as_node())), loc(&x.keyword_loc()),
        loc(&x.opening_loc()), loc(&x.closing_loc()),
    ]))
}

/// Calls `Node::as_program_node` and, when it is `Some`, the flags and field
/// accessors of `ruby_prism::ProgramNode`; no property of the result is claimed.
#[verifier::external_body]
fn read_program_node<'a>(n: &Node<'a>) -> Option<(u16, Vec<Slot<'a>>)> {
    let x = n.as_program_node()?;
    Some((x.flags(), vec![
        Slot::Skipped, child(x.statements().as_node()),
    ]))
}

/// Calls `Node::as_range_node` and, when it is `Some`, the flags and field
/// accessors of `ruby_prism::RangeNode`; no property of the result is claimed.
#[verifier::external_body]
fn read_range_node<'a>(n: &Node<'a>) -> Option<(u16, Vec<Slot<'a>>)> {
    let x = n.as_range_node()?;
    Some((x.flags(), vec![
        opt_child(x.left()), opt_child(x.right()), loc(&x.operator_loc()),
    ]))
}

/// Calls `Node::as_rational_node` and, when it is `Some`, the flags and field
/// accessors of `ruby_prism::RationalNode`; no property of the result is claimed.
#[verifier::external_body]
fn read_rational_node<'a>(n: &Node<'a>) -> Option<(u16, Vec<Slot<'a>>)> {
    let x = n.as_rational_node()?;
    Some((x.flags(), vec![
        Slot::Skipped, Slot::Skipped,
    ]))
}

/// Calls `Node::as_redo_node` and, when it is `Some`, the flags and field
/// accessors of `ruby_prism::RedoNode`; no property of the result is claimed.
#[verifier::external_body]
fn read_redo_node<'a>(n: &Node<'a>) -> Option<(u16, Vec<Slot<'a>>)> {
    let x = n.as_redo_node()?;
    Some((x.flags(), Vec::new()))
}

/// Calls `Node::as_regular_expression_node` and, when it is `Some`, the flags and field
/// accessors of `ruby_prism::RegularExpressionNode`; no property of the result is claimed.
#[verifier::external_body]
fn read_regular_expression_node<'a>(n: &Node<'a>) -> Option<(u16, Vec<Slot<'a>>)> {
    let x = n.as_regular_expression_node()?;
    Some((x.flags(), vec![
        loc(&x.opening_loc()), loc(&x.content_loc()), loc(&x.closing_loc()), Slot::Text(x.unescaped().to_vec()),
    ]))
}

/// Calls `Node::as_required_keyword_parameter_node` and, when it is `Some`, the flags and field
/// accessors of `ruby_prism::RequiredKeywordParameterNode`; no property of the result is claimed.
#[verifier::external_body]
fn read_required_keyword_parameter_node<'a>(n: &Node<'a>) -> Option<(u16, Vec<Slot<'a>>)> {
    let x = n.as_required_keyword_parameter_node()?;
    Some((x.flags(), vec![
        name(&x.name()), loc(&x.name_loc()),
    ]))
}

/// Calls `Node::as_required_parameter_node` and, when it is `Some`, the flags and field
/// accessors of `ruby_prism::RequiredParameterNode`; no property of the result is claimed.
#[verifier::external_body]
fn read_required_parameter_node<'a>(n: &Node<'a>) -> Option<(u16, Vec<Slot<'a>>)> {
    let x = n.as_required_parameter_node()?;
    Some((x.flags(), vec![
        name(&x.name()),
    ]))
}

/// Calls `Node::as_rescue_modifier_node` and, when it is `Some`, the flags and field
/// accessors of `ruby_prism::RescueModifierNode`; no property of the result is claimed.
#[verifier::external_body]
fn read_rescue_modifier_node<'a>(n: &Node<'a>) -> Option<(u16, Vec<Slot<'a>>)> {
    let x = n.as_rescue_modifier_node()?;
    Some((x.flags(), vec![
        child(x.expression()), loc(&x.keyword_loc()), child(x.rescue_expression()),
    ]))
}

/// Calls `Node::as_rescue_node` and, when it is `Some`, the flags and field
/// accessors of `ruby_prism::RescueNode`; no property of the result is claimed.
#[verifier::external_body]
fn read_rescue_node<'a>(n: &Node<'a>) -> Option<(u16, Vec<Slot<'a>>)> {
    let x = n.as_rescue_node()?;
    Some((x.flags(), vec![
        loc(&x.keyword_loc()), list(&x.exceptions()), opt_loc(x.operator_loc()), opt_child(x.reference()),
        opt_loc(x.then_keyword_loc()), opt_child(x.statements().map(|c| c.as_node())),
        opt_child(x.subsequent().map(|c| c.as_node())),
    ]))
}

/// Calls `Node::as_rest_parameter_node` and, when it is `Some`, the flags and field
/// accessors of `ruby_prism::RestParameterNode`; no property of the result is claimed.
#[verifier::external_body]
fn read_rest_parameter_node<'a>(n: &Node<'a>) -> Option<(u16, Vec<Slot<'a>>)> {
    let x = n.as_rest_parameter_node()?;
    Some((x.flags(), vec![
        opt_name(x.name()), opt_loc(x.name_loc()), loc(&x.operator_loc()),
    ]))
}

/// Calls `Node::as_retry_node` and, when it is `Some`, the flags and field
/// accessors of `ruby_prism::RetryNode`; no property of the result is claimed.
#[verifier::external_body]
fn read_retry_node<'a>(n: &Node<'a>) -> Option<(u16, Vec<Slot<'a>>)> {
    let x = n.as_retry_node()?;
    Some((x.flags(), Vec::new()))
}

/// Calls `Node::as_return_node` and, when it is `Some`, the flags and field
/// accessors of `ruby_prism::ReturnNode`; no property of the result is claimed.
#[verifier::external_body]
fn read_return_node<'a>(n: &Node<'a>) -> Option<(u16, Vec<Slot<'a>>)> {
    let x = n.as_return_node()?;
    Some((x.flags(), vec![
        loc(&x.keyword_loc()), opt_child(x.arguments().map(|c| c.as_node())),
    ]))
}

/// Calls `Node::as_self_node` and, when it is `Some`, the flags and field
/// accessors of `ruby_prism::SelfNode`; no property of the result is claimed.
#[verifier::external_body]
fn read_self_node<'a>(n: &Node<'a>) -> Option<(u16, Vec<Slot<'a>>)> {
    let x = n.as_self_node()?;
    Some((x.flags(), Vec::new()))
}

/// Calls `Node::as_shareable_constant_node` and, when it is `Some`, the flags and field
/// accessors of `ruby_prism::ShareableConstantNode`; no property of the result is claimed.
#[verifier::external_body]
fn read_shareable_constant_node<'a>(n: &Node<'a>) -> Option<(u16, Vec<Slot<'a>>)> {
    let x = n.as_shareable_constant_node()?;
    Some((x.flags(), vec![
        child(x.write()),
    ]))
}

/// Calls `Node::as_singleton_class_node` and, when it is `Some`, the flags and field
/// accessors of `ruby_prism::SingletonClassNode`; no property of the result is claimed.
#[verifier::external_body]
fn read_singleton_class_node<'a>(n: &Node<'a>) -> Option<(u16, Vec<Slot<'a>>)> {
    let x = n.as_singleton_class_node()?;
    Some((x.flags(), vec![
        Slot::Skipped, loc(&x.class_keyword_loc()), loc(&x.operator_loc()), child(x.expression()),
        opt_child(x.body()), loc(&x.end_keyword_loc()),
    ]))
}

/// Calls `Node::as_source_encoding_node` and, when it is `Some`, the flags and field
/// accessors of `ruby_prism::SourceEncodingNode`; no property of the result is claimed.
#[verifier::external_body]
fn read_source_encoding_node<'a>(n: &Node<'a>) -> Option<(u16, Vec<Slot<'a>>)> {
    let x = n.as_source_encoding_node()?;
    Some((x.flags(), Vec::new()))
}

/// Calls `Node::as_source_file_node` and, when it is `Some`, the flags and field
/// accessors of `ruby_prism::SourceFileNode`; no property of the result is claimed.
#[verifier::external_body]
fn read_source_file_node<'a>(n: &Node<'a>) -> Option<(u16, Vec<Slot<'a>>)> {
    let x = n.as_source_file_node()?;
    Some((x.flags(), vec![
        Slot::Text(x.filepath().to_vec()),
    ]))
}

/// Calls `Node::as_source_line_node` and, when it is `Some`, the flags and field
/// accessors of `ruby_prism::SourceLineNode`; no property of the result is claimed.
#[verifier::external_body]
fn read_source_line_node<'a>(n: &Node<'a>) -> Option<(u16, Vec<Slot<'a>>)> {
    let x = n.as_source_line_node()?;
    Some((x.flags(), Vec::new()))
}

/// Calls `Node::as_splat_node` and, when it is `Some`, the flags and field
/// accessors of `ruby_prism::SplatNode`; no property of the result is claimed.
#[verifier::external_body]
fn read_splat_node<'a>(n: &Node<'a>) -> Option<(u16, Vec<Slot<'a>>)> {
    let x = n.as_splat_node()?;
    Some((x.flags(), vec![
        loc(&x.operator_loc()), opt_child(x.expression()),
    ]))
}

/// Calls `Node::as_statements_node` and, when it is `Some`, the flags and field
/// accessors of `ruby_prism::StatementsNode`; no property of the result is claimed.
#[verifier::external_body]
fn read_statements_node<'a>(n: &Node<'a>) -> Option<(u16, Vec<Slot<'a>>)> {
    let x = n.as_statements_node()?;
    Some((x.flags(), vec![
        list(&x.body()),
    ]))
}

/// Calls `Node::as_string_node` and, when it is `Some`, the flags and field
/// accessors of `ruby_prism::StringNode`; no property of the result is claimed.
#[verifier::external_body]
fn read_string_node<'a>(n: &Node<'a>) -> Option<(u16, Vec<Slot<'a>>)> {
    let x = n.as_string_node()?;
    Some((x.flags(), vec![
        opt_loc(x.opening_loc()), loc(&x.content_loc()), opt_loc(x.closing_loc()),
        Slot::Text(x.unescaped().to_vec()),
    ]))
}

/// Calls `Node::as_super_node` and, when it is `Some`, the flags and field
/// accessors of `ruby_prism::SuperNode`; no property of the result is claimed.
#[verifier::external_body]
fn read_super_node<'a>(n: &Node<'a>) -> Option<(u16, Vec<Slot<'a>>)> {
    let x = n.as_super_node()?;
    Some((x.flags(), vec![
        loc(&x.keyword_loc()), opt_loc(x.lparen_loc()), opt_child(x.arguments().map(|c| c.as_node())),
        opt_loc(x.rparen_loc()), opt_child(x.block()),
    ]))
}

/// Calls `Node::as_symbol_node` and, when it is `Some`, the flags and field
/// accessors of `ruby_prism::SymbolNode`; no property of the result is claimed.
#[verifier::external_body]
fn read_symbol_node<'a>(n: &Node<'a>) -> Option<(u16, Vec<Slot<'a>>)> {
    let x = n.as_symbol_node()?;
    Some((x.flags(), vec![
        opt_loc(x.opening_loc()), loc(&x.content_loc()), opt_loc(x.closing_loc()),
        Slot::Text(x.unescaped().to_vec()),
    ]))
}

/// Calls `Node::as_true_node` and, when it is `Some`, the flags and field
/// accessors of `ruby_prism::TrueNode`; no property of the result is claimed.
#[verifier::external_body]
fn read_true_node<'a>(n: &Node<'a>) -> Option<(u16, Vec<Slot<'a>>)> {
    let x = n.as_true_node()?;
    Some((x.flags(), Vec::new()))
}

/// Calls `Node::as_undef_node` and, when it is `Some`, the flags and field
/// accessors of `ruby_prism::UndefNode`; no property of the result is claimed.
#[verifier::external_body]
fn read_undef_node<'a>(n: &Node<'a>) -> Option<(u16, Vec<Slot<'a>>)> {
    let x = n.as_undef_node()?;
    Some((x.flags(), vec![
        list(&x.names()), loc(&x.keyword_loc()),
    ]))
}

/// Calls `Node::as_unless_node` and, when it is `Some`, the flags and field
/// accessors of `ruby_prism::UnlessNode`; no property of the result is claimed.
#[verifier::external_body]
fn read_unless_node<'a>(n: &Node<'a>) -> Option<(u16, Vec<Slot<'a>>)> {
    let x = n.as_unless_node()?;
    Some((x.flags(), vec![
        loc(&x.unless_keyword_loc()), child(x.predicate()), opt_loc(x.then_keyword_loc()),
        opt_child(x.statements().map(|c| c.as_node())), opt_child(x.else_clause().map(|c| c.as_node())),
        opt_loc(x.end_keyword_loc()),
    ]))
}

/// Calls `Node::as_until_node` and, when it is `Some`, the flags and field
/// accessors of `ruby_prism::UntilNode`; no property of the result is claimed.
#[verifier::external_body]
fn read_until_node<'a>(n: &Node<'a>) -> Option<(u16, Vec<Slot<'a>>)> {
    let x = n.as_until_node()?;
    Some((x.flags(), vec![
        loc(&x.until_keyword_loc()), opt_loc(x.do_keyword_loc()), opt_loc(x.end_keyword_loc()),
        child(x.predicate()), opt_child(x.statements().map(|c| c.as_node())),
    ]))
}

/// Calls `Node::as_when_node` and, when it is `Some`, the flags and field
/// accessors of `ruby_prism::WhenNode`; no property of the result is claimed.
#[verifier::external_body]
fn read_when_node<'a>(n: &Node<'a>) -> Option<(u16, Vec<Slot<'a>>)> {
    let x = n.as_when_node()?;
    Some((x.flags(), vec![
        loc(&x.when_keyword_loc()), list(&x.conditions()), opt_loc(x.then_keyword_loc()),
        opt_child(x.statements().map(|c| c.as_node())),
    ]))
}

/// Calls `Node::as_while_node` and, when it is `Some`, the flags and field
/// accessors of `ruby_prism::WhileNode`; no property of the result is claimed.
#[verifier::external_body]
fn read_while_node<'a>(n: &Node<'a>) -> Option<(u16, Vec<Slot<'a>>)> {
    let x = n.as_while_node()?;
    Some((x.flags(), vec![
        loc(&x.while_keyword_loc()), opt_loc(x.do_keyword_loc()), opt_loc(x.end_keyword_loc()),
        child(x.predicate()), opt_child(x.statements().map(|c| c.as_node())),
    ]))
}

/// Calls `Node::as_x_string_node` and, when it is `Some`, the flags and field
/// accessors of `ruby_prism::XStringNode`; no property of the result is claimed.
#[verifier::external_body]
fn read_x_string_node<'a>(n: &Node<'a>) -> Option<(u16, Vec<Slot<'a>>)> {
    let x = n.as_x_string_node()?;
    Some((x.flags(), vec![
        loc(&x.opening_loc()), loc(&x.content_loc()), loc(&x.closing_loc()), Slot::Text(x.unescaped().to_vec()),
    ]))
}

/// Calls `Node::as_yield_node` and, when it is `Some`, the flags and field
/// accessors of `ruby_prism::YieldNode`; no property of the result is claimed.
#[verifier::external_body]
fn read_yield_node<'a>(n: &Node<'a>) -> Option<(u16, Vec<Slot<'a>>)> {
    let x = n.as_yield_node()?;
    Some((x.flags(), vec![
        loc(&x.keyword_loc()), opt_loc(x.lparen_loc()), opt_child(x.arguments().map(|c| c.as_node())),
        opt_loc(x.rparen_loc()),
    ]))
}

/// The kind of `n` and its flags and fields, read by the reader of its type;
/// `None` when no reader recognises the node.
pub fn read_node<'a>(n: &Node<'a>) -> (r: Option<(u16, u16, Vec<Slot<'a>>)>)
    ensures
        r matches Some((k, _, _)) ==> kinds::ALIAS_GLOBAL_VARIABLE_NODE <= k <= kinds::YIELD_NODE,
{
    if let Some((flags, slots)) = read_alias_global_variable_node(n) {
        return Some((kinds::ALIAS_GLOBAL_VARIABLE_NODE, flags, slots));
    }
    if let Some((flags, slots)) = read_alias_method_node(n) {
        return Some((kinds::ALIAS_METHOD_NODE, flags, slots));
    }
    if let Some((flags, slots)) = read_alternation_pattern_node(n) {
        return Some((kinds::ALTERNATION_PATTERN_NODE, flags, slots));
    }
    if let Some((flags, slots)) = read_and_node(n) {
        return Some((kinds::AND_NODE, flags, slots));
    }
    if let Some((flags, slots)) = read_arguments_node(n) {
        return Some((kinds::ARGUMENTS_NODE, flags, slots));
    }
    if let Some((flags, slots)) = read_array_node(n) {
        return Some((kinds::ARRAY_NODE, flags, slots));
    }
    if let Some((flags, slots)) = read_array_pattern_node(n) {
        return Some((kinds::ARRAY_PATTERN_NODE, flags, slots));
    }
    if let Some((flags, slots)) = read_assoc_node(n) {
        return Some((kinds::ASSOC_NODE, flags, slots));
    }
    if let Some((flags, slots)) = read_assoc_splat_node(n) {
        return Some((kinds::ASSOC_SPLAT_NODE, flags, slots));
    }
    if let Some((flags, slots)) = read_back_reference_read_node(n) {
        return Some((kinds::BACK_REFERENCE_READ_NODE, flags, slots));
    }
    if let Some((flags, slots)) = read_begin_node(n) {
        return Some((kinds::BEGIN_NODE, flags, slots));
    }
    if let Some((flags, slots)) = read_block_argument_node(n) {
        return Some((kinds::BLOCK_ARGUMENT_NODE, flags, slots));
    }
    if let Some((flags, slots)) = read_block_local_variable_node(n) {
        return Some((kinds::BLOCK_LOCAL_VARIABLE_NODE, flags, slots));
    }
    if let Some((flags, slots)) = read_block_node(n) {
        return Some((kinds::BLOCK_NODE, flags, slots));
    }
    if let Some((flags, slots)) = read_block_parameter_node(n) {
        return Some((kinds::BLOCK_PARAMETER_NODE, flags, slots));
    }
    if let Some((flags, slots)) = read_block_parameters_node(n) {
        return Some((kinds::BLOCK_PARAMETERS_NODE, flags, slots));
    }
    if let Some((flags, slots)) = read_break_node(n) {
        return Some((kinds::BREAK_NODE, flags, slots));
    }
    if let Some((flags, slots)) = read_call_and_write_node(n) {
        return Some((kinds::CALL_AND_WRITE_NODE, flags, slots));
    }
    if let Some((flags, slots)) = read_call_node(n) {
        return Some((kinds::CALL_NODE, flags, slots));
    }
    if let Some((flags, slots)) = read_call_operator_write_node(n) {
        return Some((kinds::CALL_OPERATOR_WRITE_NODE, flags, slots));
    }
    if let Some((flags, slots)) = read_call_or_write_node(n) {
        return Some((kinds::CALL_OR_WRITE_NODE, flags, slots));
    }
    if let Some((flags, slots)) = read_call_target_node(n) {
        return Some((kinds::CALL_TARGET_NODE, flags, slots));
    }
    if let Some((flags, slots)) = read_capture_pattern_node(n) {
        return Some((kinds::CAPTURE_PATTERN_NODE, flags, slots));
    }
    if let Some((flags, slots)) = read_case_match_node(n) {
        return Some((kinds::CASE_MATCH_NODE, flags, slots));
    }
    if let Some((flags, slots)) = read_case_node(n) {
        return Some((kinds::CASE_NODE, flags, slots));
    }
    if let Some((flags, slots)) = read_class_node(n) {
        return Some((kinds::CLASS_NODE, flags, slots));
    }
    if let Some((flags, slots)) = read_class_variable_and_write_node(n) {
        return Some((kinds::CLASS_VARIABLE_AND_WRITE_NODE, flags, slots));
    }
    if let Some((flags, slots)) = read_class_variable_operator_write_node(n) {
        return Some((kinds::CLASS_VARIABLE_OPERATOR_WRITE_NODE, flags, slots));
    }
    if let Some((flags, slots)) = read_class_variable_or_write_node(n) {
        return Some((kinds::CLASS_VARIABLE_OR_WRITE_NODE, flags, slots));
    }
    if let Some((flags, slots)) = read_class_variable_read_node(n) {
        return Some((kinds::CLASS_VARIABLE_READ_NODE, flags, slots));
    }
    if let Some((flags, slots)) = read_class_variable_target_node(n) {
        return Some((kinds::CLASS_VARIABLE_TARGET_NODE, flags, slots));
    }
    if let Some((flags, slots)) = read_class_variable_write_node(n) {
        return Some((kinds::CLASS_VARIABLE_WRITE_NODE, flags, slots));
    }
    if let Some((flags, slots)) = read_constant_and_write_node(n) {
        return Some((kinds::CONSTANT_AND_WRITE_NODE, flags, slots));
    }
    if let Some((flags, slots)) = read_constant_operator_write_node(n) {
        return Some((kinds::CONSTANT_OPERATOR_WRITE_NODE, flags, slots));
    }
    if let Some((flags, slots)) = read_constant_or_write_node(n) {
        return Some((kinds::CONSTANT_OR_WRITE_NODE, flags, slots));
    }
    if let Some((flags, slots)) = read_constant_path_and_write_node(n) {
        return Some((kinds::CONSTANT_PATH_AND_WRITE_NODE, flags, slots));
    }
    if let Some((flags, slots)) = read_constant_path_node(n) {
        return Some((kinds::CONSTANT_PATH_NODE, flags, slots));
    }
    if let Some((flags, slots)) = read_constant_path_operator_write_node(n) {
        return Some((kinds::CONSTANT_PATH_OPERATOR_WRITE_NODE, flags, slots));
    }
    if let Some((flags, slots)) = read_constant_path_or_write_node(n) {
        return Some((kinds::CONSTANT_PATH_OR_WRITE_NODE, flags, slots));
    }
    if let Some((flags, slots)) = read_constant_path_target_node(n) {
        return Some((kinds::CONSTANT_PATH_TARGET_NODE, flags, slots));
    }
    if let Some((flags, slots)) = read_constant_path_write_node(n) {
        return Some((kinds::CONSTANT_PATH_WRITE_NODE, flags, slots));
    }
    if let Some((flags, slots)) = read_constant_read_node(n) {
        return Some((kinds::CONSTANT_READ_NODE, flags, slots));
    }
    if let Some((flags, slots)) = read_constant_target_node(n) {
        return Some((kinds::CONSTANT_TARGET_NODE, flags, slots));
    }
    if let Some((flags, slots)) = read_constant_write_node(n) {
        return Some((kinds::CONSTANT_WRITE_NODE, flags, slots));
    }
    if let Some((flags, slots)) = read_def_node(n) {
        return Some((kinds::DEF_NODE, flags, slots));
    }
    if let Some((flags, slots)) = read_defined_node(n) {
        return Some((kinds::DEFINED_NODE, flags, slots));
    }
    if let Some((flags, slots)) = read_else_node(n) {
        return Some((kinds::ELSE_NODE, flags, slots));
    }
    if let Some((flags, slots)) = read_embedded_statements_node(n) {
        return Some((kinds::EMBEDDED_STATEMENTS_NODE, flags, slots));
    }
    if let Some((flags, slots)) = read_embedded_variable_node(n) {
        return Some((kinds::EMBEDDED_VARIABLE_NODE, flags, slots));
    }
    if let Some((flags, slots)) = read_ensure_node(n) {
        return Some((kinds::ENSURE_NODE, flags, slots));
    }
    if let Some((flags, slots)) = read_error_recovery_node(n) {
        return Some((kinds::ERROR_RECOVERY_NODE, flags, slots));
    }
    if let Some((flags, slots)) = read_false_node(n) {
        return Some((kinds::FALSE_NODE, flags, slots));
    }
    if let Some((flags, slots)) = read_find_pattern_node(n) {
        return Some((kinds::FIND_PATTERN_NODE, flags, slots));
    }
    if let Some((flags, slots)) = read_flip_flop_node(n) {
        return Some((kinds::FLIP_FLOP_NODE, flags, slots));
    }
    if let Some((flags, slots)) = read_float_node(n) {
        return Some((kinds::FLOAT_NODE, flags, slots));
    }
    if let Some((flags, slots)) = read_for_node(n) {
        return Some((kinds::FOR_NODE, flags, slots));
    }
    if let Some((flags, slots)) = read_forwarding_arguments_node(n) {
        return Some((kinds::FORWARDING_ARGUMENTS_NODE, flags, slots));
    }
    if let Some((flags, slots)) = read_forwarding_parameter_node(n) {
        return Some((kinds::FORWARDING_PARAMETER_NODE, flags, slots));
    }
    if let Some((flags, slots)) = read_forwarding_super_node(n) {
        return Some((kinds::FORWARDING_SUPER_NODE, flags, slots));
    }
    if let Some((flags, slots)) = read_global_variable_and_write_node(n) {
        return Some((kinds::GLOBAL_VARIABLE_AND_WRITE_NODE, flags, slots));
    }
    if let Some((flags, slots)) = read_global_variable_operator_write_node(n) {
        return Some((kinds::GLOBAL_VARIABLE_OPERATOR_WRITE_NODE, flags, slots));
    }
    if let Some((flags, slots)) = read_global_variable_or_write_node(n) {
        return Some((kinds::GLOBAL_VARIABLE_OR_WRITE_NODE, flags, slots));
    }
    if let Some((flags, slots)) = read_global_variable_read_node(n) {
        return Some((kinds::GLOBAL_VARIABLE_READ_NODE, flags, slots));
    }
    if let Some((flags, slots)) = read_global_variable_target_node(n) {
        return Some((kinds::GLOBAL_VARIABLE_TARGET_NODE, flags, slots));
    }
    if let Some((flags, slots)) = read_global_variable_write_node(n) {
        return Some((kinds::GLOBAL_VARIABLE_WRITE_NODE, flags, slots));
    }
    if let Some((flags, slots)) = read_hash_node(n) {
        return Some((kinds::HASH_NODE, flags, slots));
    }
    if let Some((flags, slots)) = read_hash_pattern_node(n) {
        return Some((kinds::HASH_PATTERN_NODE, flags, slots));
    }
    if let Some((flags, slots)) = read_if_node(n) {
        return Some((kinds::IF_NODE, flags, slots));
    }
    if let Some((flags, slots)) = read_imaginary_node(n) {
        return Some((kinds::IMAGINARY_NODE, flags, slots));
    }
    if let Some((flags, slots)) = read_implicit_node(n) {
        return Some((kinds::IMPLICIT_NODE, flags, slots));
    }
    if let Some((flags, slots)) = read_implicit_rest_node(n) {
        return Some((kinds::IMPLICIT_REST_NODE, flags, slots));
    }
    if let Some((flags, slots)) = read_in_node(n) {
        return Some((kinds::IN_NODE, flags, slots));
    }
    if let Some((flags, slots)) = read_index_and_write_node(n) {
        return Some((kinds::INDEX_AND_WRITE_NODE, flags, slots));
    }
    if let Some((flags, slots)) = read_index_operator_write_node(n) {
        return Some((kinds::INDEX_OPERATOR_WRITE_NODE, flags, slots));
    }
    if let Some((flags, slots)) = read_index_or_write_node(n) {
        return Some((kinds::INDEX_OR_WRITE_NODE, flags, slots));
    }
    if let Some((flags, slots)) = read_index_target_node(n) {
        return Some((kinds::INDEX_TARGET_NODE, flags, slots));
    }
    if let Some((flags, slots)) = read_instance_variable_and_write_node(n) {
        return Some((kinds::INSTANCE_VARIABLE_AND_WRITE_NODE, flags, slots));
    }
    if let Some((flags, slots)) = read_instance_variable_operator_write_node(n) {
        return Some((kinds::INSTANCE_VARIABLE_OPERATOR_WRITE_NODE, flags, slots));
    }
    if let Some((flags, slots)) = read_instance_variable_or_write_node(n) {
        return Some((kinds::INSTANCE_VARIABLE_OR_WRITE_NODE, flags, slots));
    }
    if let Some((flags, slots)) = read_instance_variable_read_node(n) {
        return Some((kinds::INSTANCE_VARIABLE_READ_NODE, flags, slots));
    }
    if let Some((flags, slots)) = read_instance_variable_target_node(n) {
        return Some((kinds::INSTANCE_VARIABLE_TARGET_NODE, flags, slots));
    }
    if let Some((flags, slots)) = read_instance_variable_write_node(n) {
        return Some((kinds::INSTANCE_VARIABLE_WRITE_NODE, flags, slots));
    }
    if let Some((flags, slots)) = read_integer_node(n) {
        return Some((kinds::INTEGER_NODE, flags, slots));
    }
    if let Some((flags, slots)) = read_interpolated_match_last_line_node(n) {
        return Some((kinds::INTERPOLATED_MATCH_LAST_LINE_NODE, flags, slots));
    }
    if let Some((flags, slots)) = read_interpolated_regular_expression_node(n) {
        return Some((kinds::INTERPOLATED_REGULAR_EXPRESSION_NODE, flags, slots));
    }
    if let Some((flags, slots)) = read_interpolated_string_node(n) {
        return Some((kinds::INTERPOLATED_STRING_NODE, flags, slots));
    }
    if let Some((flags, slots)) = read_interpolated_symbol_node(n) {
        return Some((kinds::INTERPOLATED_SYMBOL_NODE, flags, slots));
    }
    if let Some((flags, slots)) = read_interpolated_x_string_node(n) {
        return Some((kinds::INTERPOLATED_X_STRING_NODE, flags, slots));
    }
    if let Some((flags, slots)) = read_it_local_variable_read_node(n) {
        return Some((kinds::IT_LOCAL_VARIABLE_READ_NODE, flags, slots));
    }
    if let Some((flags, slots)) = read_it_parameters_node(n) {
        return Some((kinds::IT_PARAMETERS_NODE, flags, slots));
    }
    if let Some((flags, slots)) = read_keyword_hash_node(n) {
        return Some((kinds::KEYWORD_HASH_NODE, flags, slots));
    }
    if let Some((flags, slots)) = read_keyword_rest_parameter_node(n) {
        return Some((kinds::KEYWORD_REST_PARAMETER_NODE, flags, slots));
    }
    if let Some((flags, slots)) = read_lambda_node(n) {
        return Some((kinds::LAMBDA_NODE, flags, slots));
    }
    if let Some((flags, slots)) = read_local_variable_and_write_node(n) {
        return Some((kinds::LOCAL_VARIABLE_AND_WRITE_NODE, flags, slots));
    }
    if let Some((flags, slots)) = read_local_variable_operator_write_node(n) {
        return Some((kinds::LOCAL_VARIABLE_OPERATOR_WRITE_NODE, flags, slots));
    }
    if let Some((flags, slots)) = read_local_variable_or_write_node(n) {
        return Some((kinds::LOCAL_VARIABLE_OR_WRITE_NODE, flags, slots));
    }
    if let Some((flags, slots)) = read_local_variable_read_node(n) {
        return Some((kinds::LOCAL_VARIABLE_READ_NODE, flags, slots));
    }
    if let Some((flags, slots)) = read_local_variable_target_node(n) {
        return Some((kinds::LOCAL_VARIABLE_TARGET_NODE, flags, slots));
    }
    if let Some((flags, slots)) = read_local_variable_write_node(n) {
        return Some((kinds::LOCAL_VARIABLE_WRITE_NODE, flags, slots));
    }
    if let Some((flags, slots)) = read_match_last_line_node(n) {
        return Some((kinds::MATCH_LAST_LINE_NODE, flags, slots));
    }
    if let Some((flags, slots)) = read_match_predicate_node(n) {
        return Some((kinds::MATCH_PREDICATE_NODE, flags, slots));
    }
    if let Some((flags, slots)) = read_match_required_node(n) {
        return Some((kinds::MATCH_REQUIRED_NODE, flags, slots));
    }
    if let Some((flags, slots)) = read_match_write_node(n) {
        return Some((kinds::MATCH_WRITE_NODE, flags, slots));
    }
    if let Some((flags, slots)) = read_module_node(n) {
        return Some((kinds::MODULE_NODE, flags, slots));
    }
    if let Some((flags, slots)) = read_multi_target_node(n) {
        return Some((kinds::MULTI_TARGET_NODE, flags, slots));
    }
    if let Some((flags, slots)) = read_multi_write_node(n) {
        return Some((kinds::MULTI_WRITE_NODE, flags, slots));
    }
    if let Some((flags, slots)) = read_next_node(n) {
        return Some((kinds::NEXT_NODE, flags, slots));
    }
    if let Some((flags, slots)) = read_nil_node(n) {
        return Some((kinds::NIL_NODE, flags, slots));
    }
    if let Some((flags, slots)) = read_no_block_parameter_node(n) {
        return Some((kinds::NO_BLOCK_PARAMETER_NODE, flags, slots));
    }
    if let Some((flags, slots)) = read_no_keywords_parameter_node(n) {
        return Some((kinds::NO_KEYWORDS_PARAMETER_NODE, flags, slots));
    }
    if let Some((flags, slots)) = read_numbered_parameters_node(n) {
        return Some((kinds::NUMBERED_PARAMETERS_NODE, flags, slots));
    }
    if let Some((flags, slots)) = read_numbered_reference_read_node(n) {
        return Some((kinds::NUMBERED_REFERENCE_READ_NODE, flags, slots));
    }
    if let Some((flags, slots)) = read_optional_keyword_parameter_node(n) {
        return Some((kinds::OPTIONAL_KEYWORD_PARAMETER_NODE, flags, slots));
    }
    if let Some((flags, slots)) = read_optional_parameter_node(n) {
        return Some((kinds::OPTIONAL_PARAMETER_NODE, flags, slots));
    }
    if let Some((flags, slots)) = read_or_node(n) {
        return Some((kinds::OR_NODE, flags, slots));
    }
    if let Some((flags, slots)) = read_parameters_node(n) {
        return Some((kinds::PARAMETERS_NODE, flags, slots));
    }
    if let Some((flags, slots)) = read_parentheses_node(n) {
        return Some((kinds::PARENTHESES_NODE, flags, slots));
    }
    if let Some((flags, slots)) = read_pinned_expression_node(n) {
        return Some((kinds::PINNED_EXPRESSION_NODE, flags, slots));
    }
    if let Some((flags, slots)) = read_pinned_variable_node(n) {
        return Some((kinds::PINNED_VARIABLE_NODE, flags, slots));
    }
    if let Some((flags, slots)) = read_post_execution_node(n) {
        return Some((kinds::POST_EXECUTION_NODE, flags, slots));
    }
    if let Some((flags, slots)) = read_pre_execution_node(n) {
        return Some((kinds::PRE_EXECUTION_NODE, flags, slots));
    }
    if let Some((flags, slots)) = read_program_node(n) {
        return Some((kinds::PROGRAM_NODE, flags, slots));
    }
    if let Some((flags, slots)) = read_range_node(n) {
        return Some((kinds::RANGE_NODE, flags, slots));
    }
    if let Some((flags, slots)) = read_rational_node(n) {
        return Some((kinds::RATIONAL_NODE, flags, slots));
    }
    if let Some((flags, slots)) = read_redo_node(n) {
        return Some((kinds::REDO_NODE, flags, slots));
    }
    if let Some((flags, slots)) = read_regular_expression_node(n) {
        return Some((kinds::REGULAR_EXPRESSION_NODE, flags, slots));
    }
    if let Some((flags, slots)) = read_required_keyword_parameter_node(n) {
        return Some((kinds::REQUIRED_KEYWORD_PARAMETER_NODE, flags, slots));
    }
    if let Some((flags, slots)) = read_required_parameter_node(n) {
        return Some((kinds::REQUIRED_PARAMETER_NODE, flags, slots));
    }
    if let Some((flags, slots)) = read_rescue_modifier_node(n) {
        return Some((kinds::RESCUE_MODIFIER_NODE, flags, slots));
    }
    if let Some((flags, slots)) = read_rescue_node(n) {
        return Some((kinds::RESCUE_NODE, flags, slots));
    }
    if let Some((flags, slots)) = read_rest_parameter_node(n) {
        return Some((kinds::REST_PARAMETER_NODE, flags, slots));
    }
    if let Some((flags, slots)) = read_retry_node(n) {
        return Some((kinds::RETRY_NODE, flags, slots));
    }
    if let Some((flags, slots)) = read_return_node(n) {
        return Some((kinds::RETURN_NODE, flags, slots));
    }
    if let Some((flags, slots)) = read_self_node(n) {
        return Some((kinds::SELF_NODE, flags, slots));
    }
    if let Some((flags, slots)) = read_shareable_constant_node(n) {
        return Some((kinds::SHAREABLE_CONSTANT_NODE, flags, slots));
    }
    if let Some((flags, slots)) = read_singleton_class_node(n) {
        return Some((kinds::SINGLETON_CLASS_NODE, flags, slots));
    }
    if let Some((flags, slots)) = read_source_encoding_node(n) {
        return Some((kinds::SOURCE_ENCODING_NODE, flags, slots));
    }
    if let Some((flags, slots)) = read_source_file_node(n) {
        return Some((kinds::SOURCE_FILE_NODE, flags, slots));
    }
    if let Some((flags, slots)) = read_source_line_node(n) {
        return Some((kinds::SOURCE_LINE_NODE, flags, slots));
    }
    if let Some((flags, slots)) = read_splat_node(n) {
        return Some((kinds::SPLAT_NODE, flags, slots));
    }
    if let Some((flags, slots)) = read_statements_node(n) {
        return Some((kinds::STATEMENTS_NODE, flags, slots));
    }
    if let Some((flags, slots)) = read_string_node(n) {
        return Some((kinds::STRING_NODE, flags, slots));
    }
    if let Some((flags, slots)) = read_super_node(n) {
        return Some((kinds::SUPER_NODE, flags, slots));
    }
    if let Some((flags, slots)) = read_symbol_node(n) {
        return Some((kinds::SYMBOL_NODE, flags, slots));
    }
    if let Some((flags, slots)) = read_true_node(n) {
        return Some((kinds::TRUE_NODE, flags, slots));
    }
    if let Some((flags, slots)) = read_undef_node(n) {
        return Some((kinds::UNDEF_NODE, flags, slots));
    }
    if let Some((flags, slots)) = read_unless_node(n) {
        return Some((kinds::UNLESS_NODE, flags, slots));
    }
    if let Some((flags, slots)) = read_until_node(n) {
        return Some((kinds::UNTIL_NODE, flags, slots));
    }
    if let Some((flags, slots)) = read_when_node(n) {
        return Some((kinds::WHEN_NODE, flags, slots));
    }
    if let Some((flags, slots)) = read_while_node(n) {
        return Some((kinds::WHILE_NODE, flags, slots));
    }
    if let Some((flags, slots)) = read_x_string_node(n) {
        return Some((kinds::X_STRING_NODE, flags, slots));
    }
    if let Some((flags, slots)) = read_yield_node(n) {
        return Some((kinds::YIELD_NODE, flags, slots));
    }
    None
}

} // verus!
