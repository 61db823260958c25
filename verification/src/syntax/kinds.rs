//! Node kinds and field positions of the syntax tree.
//!
//! A node's `kind` is the position of its type in prism's node list (counted
//! from one); its `fields` follow the declaration order of that type's fields.

use vstd::prelude::*;

verus! {

/// `AliasGlobalVariableNode`.
pub const ALIAS_GLOBAL_VARIABLE_NODE: u16 = 1;
/// `AliasMethodNode`.
pub const ALIAS_METHOD_NODE: u16 = 2;
/// `AlternationPatternNode`.
pub const ALTERNATION_PATTERN_NODE: u16 = 3;
/// `AndNode`.
pub const AND_NODE: u16 = 4;
/// `ArgumentsNode`.
pub const ARGUMENTS_NODE: u16 = 5;
/// `ArrayNode`.
pub const ARRAY_NODE: u16 = 6;
/// `ArrayPatternNode`.
pub const ARRAY_PATTERN_NODE: u16 = 7;
/// `AssocNode`.
pub const ASSOC_NODE: u16 = 8;
/// `AssocSplatNode`.
pub const ASSOC_SPLAT_NODE: u16 = 9;
/// `BackReferenceReadNode`.
pub const BACK_REFERENCE_READ_NODE: u16 = 10;
/// `BeginNode`.
pub const BEGIN_NODE: u16 = 11;
/// `BlockArgumentNode`.
pub const BLOCK_ARGUMENT_NODE: u16 = 12;
/// `BlockLocalVariableNode`.
pub const BLOCK_LOCAL_VARIABLE_NODE: u16 = 13;
/// `BlockNode`.
pub const BLOCK_NODE: u16 = 14;
/// `BlockParameterNode`.
pub const BLOCK_PARAMETER_NODE: u16 = 15;
/// `BlockParametersNode`.
pub const BLOCK_PARAMETERS_NODE: u16 = 16;
/// `BreakNode`.
pub const BREAK_NODE: u16 = 17;
/// `CallAndWriteNode`.
pub const CALL_AND_WRITE_NODE: u16 = 18;
/// `CallNode`.
pub const CALL_NODE: u16 = 19;
/// `CallOperatorWriteNode`.
pub const CALL_OPERATOR_WRITE_NODE: u16 = 20;
/// `CallOrWriteNode`.
pub const CALL_OR_WRITE_NODE: u16 = 21;
/// `CallTargetNode`.
pub const CALL_TARGET_NODE: u16 = 22;
/// `CapturePatternNode`.
pub const CAPTURE_PATTERN_NODE: u16 = 23;
/// `CaseMatchNode`.
pub const CASE_MATCH_NODE: u16 = 24;
/// `CaseNode`.
pub const CASE_NODE: u16 = 25;
/// `ClassNode`.
pub const CLASS_NODE: u16 = 26;
/// `ClassVariableAndWriteNode`.
pub const CLASS_VARIABLE_AND_WRITE_NODE: u16 = 27;
/// `ClassVariableOperatorWriteNode`.
pub const CLASS_VARIABLE_OPERATOR_WRITE_NODE: u16 = 28;
/// `ClassVariableOrWriteNode`.
pub const CLASS_VARIABLE_OR_WRITE_NODE: u16 = 29;
/// `ClassVariableReadNode`.
pub const CLASS_VARIABLE_READ_NODE: u16 = 30;
/// `ClassVariableTargetNode`.
pub const CLASS_VARIABLE_TARGET_NODE: u16 = 31;
/// `ClassVariableWriteNode`.
pub const CLASS_VARIABLE_WRITE_NODE: u16 = 32;
/// `ConstantAndWriteNode`.
pub const CONSTANT_AND_WRITE_NODE: u16 = 33;
/// `ConstantOperatorWriteNode`.
pub const CONSTANT_OPERATOR_WRITE_NODE: u16 = 34;
/// `ConstantOrWriteNode`.
pub const CONSTANT_OR_WRITE_NODE: u16 = 35;
/// `ConstantPathAndWriteNode`.
pub const CONSTANT_PATH_AND_WRITE_NODE: u16 = 36;
/// `ConstantPathNode`.
pub const CONSTANT_PATH_NODE: u16 = 37;
/// `ConstantPathOperatorWriteNode`.
pub const CONSTANT_PATH_OPERATOR_WRITE_NODE: u16 = 38;
/// `ConstantPathOrWriteNode`.
pub const CONSTANT_PATH_OR_WRITE_NODE: u16 = 39;
/// `ConstantPathTargetNode`.
pub const CONSTANT_PATH_TARGET_NODE: u16 = 40;
/// `ConstantPathWriteNode`.
pub const CONSTANT_PATH_WRITE_NODE: u16 = 41;
/// `ConstantReadNode`.
pub const CONSTANT_READ_NODE: u16 = 42;
/// `ConstantTargetNode`.
pub const CONSTANT_TARGET_NODE: u16 = 43;
/// `ConstantWriteNode`.
pub const CONSTANT_WRITE_NODE: u16 = 44;
/// `DefNode`.
pub const DEF_NODE: u16 = 45;
/// `DefinedNode`.
pub const DEFINED_NODE: u16 = 46;
/// `ElseNode`.
pub const ELSE_NODE: u16 = 47;
/// `EmbeddedStatementsNode`.
pub const EMBEDDED_STATEMENTS_NODE: u16 = 48;
/// `EmbeddedVariableNode`.
pub const EMBEDDED_VARIABLE_NODE: u16 = 49;
/// `EnsureNode`.
pub const ENSURE_NODE: u16 = 50;
/// `ErrorRecoveryNode`.
pub const ERROR_RECOVERY_NODE: u16 = 51;
/// `FalseNode`.
pub const FALSE_NODE: u16 = 52;
/// `FindPatternNode`.
pub const FIND_PATTERN_NODE: u16 = 53;
/// `FlipFlopNode`.
pub const FLIP_FLOP_NODE: u16 = 54;
/// `FloatNode`.
pub const FLOAT_NODE: u16 = 55;
/// `ForNode`.
pub const FOR_NODE: u16 = 56;
/// `ForwardingArgumentsNode`.
pub const FORWARDING_ARGUMENTS_NODE: u16 = 57;
/// `ForwardingParameterNode`.
pub const FORWARDING_PARAMETER_NODE: u16 = 58;
/// `ForwardingSuperNode`.
pub const FORWARDING_SUPER_NODE: u16 = 59;
/// `GlobalVariableAndWriteNode`.
pub const GLOBAL_VARIABLE_AND_WRITE_NODE: u16 = 60;
/// `GlobalVariableOperatorWriteNode`.
pub const GLOBAL_VARIABLE_OPERATOR_WRITE_NODE: u16 = 61;
/// `GlobalVariableOrWriteNode`.
pub const GLOBAL_VARIABLE_OR_WRITE_NODE: u16 = 62;
/// `GlobalVariableReadNode`.
pub const GLOBAL_VARIABLE_READ_NODE: u16 = 63;
/// `GlobalVariableTargetNode`.
pub const GLOBAL_VARIABLE_TARGET_NODE: u16 = 64;
/// `GlobalVariableWriteNode`.
pub const GLOBAL_VARIABLE_WRITE_NODE: u16 = 65;
/// `HashNode`.
pub const HASH_NODE: u16 = 66;
/// `HashPatternNode`.
pub const HASH_PATTERN_NODE: u16 = 67;
/// `IfNode`.
pub const IF_NODE: u16 = 68;
/// `ImaginaryNode`.
pub const IMAGINARY_NODE: u16 = 69;
/// `ImplicitNode`.
pub const IMPLICIT_NODE: u16 = 70;
/// `ImplicitRestNode`.
pub const IMPLICIT_REST_NODE: u16 = 71;
/// `InNode`.
pub const IN_NODE: u16 = 72;
/// `IndexAndWriteNode`.
pub const INDEX_AND_WRITE_NODE: u16 = 73;
/// `IndexOperatorWriteNode`.
pub const INDEX_OPERATOR_WRITE_NODE: u16 = 74;
/// `IndexOrWriteNode`.
pub const INDEX_OR_WRITE_NODE: u16 = 75;
/// `IndexTargetNode`.
pub const INDEX_TARGET_NODE: u16 = 76;
/// `InstanceVariableAndWriteNode`.
pub const INSTANCE_VARIABLE_AND_WRITE_NODE: u16 = 77;
/// `InstanceVariableOperatorWriteNode`.
pub const INSTANCE_VARIABLE_OPERATOR_WRITE_NODE: u16 = 78;
/// `InstanceVariableOrWriteNode`.
pub const INSTANCE_VARIABLE_OR_WRITE_NODE: u16 = 79;
/// `InstanceVariableReadNode`.
pub const INSTANCE_VARIABLE_READ_NODE: u16 = 80;
/// `InstanceVariableTargetNode`.
pub const INSTANCE_VARIABLE_TARGET_NODE: u16 = 81;
/// `InstanceVariableWriteNode`.
pub const INSTANCE_VARIABLE_WRITE_NODE: u16 = 82;
/// `IntegerNode`.
pub const INTEGER_NODE: u16 = 83;
/// `InterpolatedMatchLastLineNode`.
pub const INTERPOLATED_MATCH_LAST_LINE_NODE: u16 = 84;
/// `InterpolatedRegularExpressionNode`.
pub const INTERPOLATED_REGULAR_EXPRESSION_NODE: u16 = 85;
/// `InterpolatedStringNode`.
pub const INTERPOLATED_STRING_NODE: u16 = 86;
/// `InterpolatedSymbolNode`.
pub const INTERPOLATED_SYMBOL_NODE: u16 = 87;
/// `InterpolatedXStringNode`.
pub const INTERPOLATED_X_STRING_NODE: u16 = 88;
/// `ItLocalVariableReadNode`.
pub const IT_LOCAL_VARIABLE_READ_NODE: u16 = 89;
/// `ItParametersNode`.
pub const IT_PARAMETERS_NODE: u16 = 90;
/// `KeywordHashNode`.
pub const KEYWORD_HASH_NODE: u16 = 91;
/// `KeywordRestParameterNode`.
pub const KEYWORD_REST_PARAMETER_NODE: u16 = 92;
/// `LambdaNode`.
pub const LAMBDA_NODE: u16 = 93;
/// `LocalVariableAndWriteNode`.
pub const LOCAL_VARIABLE_AND_WRITE_NODE: u16 = 94;
/// `LocalVariableOperatorWriteNode`.
pub const LOCAL_VARIABLE_OPERATOR_WRITE_NODE: u16 = 95;
/// `LocalVariableOrWriteNode`.
pub const LOCAL_VARIABLE_OR_WRITE_NODE: u16 = 96;
/// `LocalVariableReadNode`.
pub const LOCAL_VARIABLE_READ_NODE: u16 = 97;
/// `LocalVariableTargetNode`.
pub const LOCAL_VARIABLE_TARGET_NODE: u16 = 98;
/// `LocalVariableWriteNode`.
pub const LOCAL_VARIABLE_WRITE_NODE: u16 = 99;
/// `MatchLastLineNode`.
pub const MATCH_LAST_LINE_NODE: u16 = 100;
/// `MatchPredicateNode`.
pub const MATCH_PREDICATE_NODE: u16 = 101;
/// `MatchRequiredNode`.
pub const MATCH_REQUIRED_NODE: u16 = 102;
/// `MatchWriteNode`.
pub const MATCH_WRITE_NODE: u16 = 103;
/// `ModuleNode`.
pub const MODULE_NODE: u16 = 104;
/// `MultiTargetNode`.
pub const MULTI_TARGET_NODE: u16 = 105;
/// `MultiWriteNode`.
pub const MULTI_WRITE_NODE: u16 = 106;
/// `NextNode`.
pub const NEXT_NODE: u16 = 107;
/// `NilNode`.
pub const NIL_NODE: u16 = 108;
/// `NoBlockParameterNode`.
pub const NO_BLOCK_PARAMETER_NODE: u16 = 109;
/// `NoKeywordsParameterNode`.
pub const NO_KEYWORDS_PARAMETER_NODE: u16 = 110;
/// `NumberedParametersNode`.
pub const NUMBERED_PARAMETERS_NODE: u16 = 111;
/// `NumberedReferenceReadNode`.
pub const NUMBERED_REFERENCE_READ_NODE: u16 = 112;
/// `OptionalKeywordParameterNode`.
pub const OPTIONAL_KEYWORD_PARAMETER_NODE: u16 = 113;
/// `OptionalParameterNode`.
pub const OPTIONAL_PARAMETER_NODE: u16 = 114;
/// `OrNode`.
pub const OR_NODE: u16 = 115;
/// `ParametersNode`.
pub const PARAMETERS_NODE: u16 = 116;
/// `ParenthesesNode`.
pub const PARENTHESES_NODE: u16 = 117;
/// `PinnedExpressionNode`.
pub const PINNED_EXPRESSION_NODE: u16 = 118;
/// `PinnedVariableNode`.
pub const PINNED_VARIABLE_NODE: u16 = 119;
/// `PostExecutionNode`.
pub const POST_EXECUTION_NODE: u16 = 120;
/// `PreExecutionNode`.
pub const PRE_EXECUTION_NODE: u16 = 121;
/// `ProgramNode`.
pub const PROGRAM_NODE: u16 = 122;
/// `RangeNode`.
pub const RANGE_NODE: u16 = 123;
/// `RationalNode`.
pub const RATIONAL_NODE: u16 = 124;
/// `RedoNode`.
pub const REDO_NODE: u16 = 125;
/// `RegularExpressionNode`.
pub const REGULAR_EXPRESSION_NODE: u16 = 126;
/// `RequiredKeywordParameterNode`.
pub const REQUIRED_KEYWORD_PARAMETER_NODE: u16 = 127;
/// `RequiredParameterNode`.
pub const REQUIRED_PARAMETER_NODE: u16 = 128;
/// `RescueModifierNode`.
pub const RESCUE_MODIFIER_NODE: u16 = 129;
/// `RescueNode`.
pub const RESCUE_NODE: u16 = 130;
/// `RestParameterNode`.
pub const REST_PARAMETER_NODE: u16 = 131;
/// `RetryNode`.
pub const RETRY_NODE: u16 = 132;
/// `ReturnNode`.
pub const RETURN_NODE: u16 = 133;
/// `SelfNode`.
pub const SELF_NODE: u16 = 134;
/// `ShareableConstantNode`.
pub const SHAREABLE_CONSTANT_NODE: u16 = 135;
/// `SingletonClassNode`.
pub const SINGLETON_CLASS_NODE: u16 = 136;
/// `SourceEncodingNode`.
pub const SOURCE_ENCODING_NODE: u16 = 137;
/// `SourceFileNode`.
pub const SOURCE_FILE_NODE: u16 = 138;
/// `SourceLineNode`.
pub const SOURCE_LINE_NODE: u16 = 139;
/// `SplatNode`.
pub const SPLAT_NODE: u16 = 140;
/// `StatementsNode`.
pub const STATEMENTS_NODE: u16 = 141;
/// `StringNode`.
pub const STRING_NODE: u16 = 142;
/// `SuperNode`.
pub const SUPER_NODE: u16 = 143;
/// `SymbolNode`.
pub const SYMBOL_NODE: u16 = 144;
/// `TrueNode`.
pub const TRUE_NODE: u16 = 145;
/// `UndefNode`.
pub const UNDEF_NODE: u16 = 146;
/// `UnlessNode`.
pub const UNLESS_NODE: u16 = 147;
/// `UntilNode`.
pub const UNTIL_NODE: u16 = 148;
/// `WhenNode`.
pub const WHEN_NODE: u16 = 149;
/// `WhileNode`.
pub const WHILE_NODE: u16 = 150;
/// `XStringNode`.
pub const X_STRING_NODE: u16 = 151;
/// `YieldNode`.
pub const YIELD_NODE: u16 = 152;

/// Field `new_name` of `AliasGlobalVariableNode`.
pub const ALIAS_GLOBAL_VARIABLE_NODE_NEW_NAME: usize = 0;
/// Field `old_name` of `AliasGlobalVariableNode`.
pub const ALIAS_GLOBAL_VARIABLE_NODE_OLD_NAME: usize = 1;
/// Field `keyword_loc` of `AliasGlobalVariableNode`.
pub const ALIAS_GLOBAL_VARIABLE_NODE_KEYWORD_LOC: usize = 2;
/// Field `new_name` of `AliasMethodNode`.
pub const ALIAS_METHOD_NODE_NEW_NAME: usize = 0;
/// Field `old_name` of `AliasMethodNode`.
pub const ALIAS_METHOD_NODE_OLD_NAME: usize = 1;
/// Field `keyword_loc` of `AliasMethodNode`.
pub const ALIAS_METHOD_NODE_KEYWORD_LOC: usize = 2;
/// Field `left` of `AlternationPatternNode`.
pub const ALTERNATION_PATTERN_NODE_LEFT: usize = 0;
/// Field `right` of `AlternationPatternNode`.
pub const ALTERNATION_PATTERN_NODE_RIGHT: usize = 1;
/// Field `operator_loc` of `AlternationPatternNode`.
pub const ALTERNATION_PATTERN_NODE_OPERATOR_LOC: usize = 2;
/// Field `left` of `AndNode`.
pub const AND_NODE_LEFT: usize = 0;
/// Field `right` of `AndNode`.
pub const AND_NODE_RIGHT: usize = 1;
/// Field `operator_loc` of `AndNode`.
pub const AND_NODE_OPERATOR_LOC: usize = 2;
/// Field `arguments` of `ArgumentsNode`.
pub const ARGUMENTS_NODE_ARGUMENTS: usize = 0;
/// Field `elements` of `ArrayNode`.
pub const ARRAY_NODE_ELEMENTS: usize = 0;
/// Field `opening_loc` of `ArrayNode`.
pub const ARRAY_NODE_OPENING_LOC: usize = 1;
/// Field `closing_loc` of `ArrayNode`.
pub const ARRAY_NODE_CLOSING_LOC: usize = 2;
/// Field `constant` of `ArrayPatternNode`.
pub const ARRAY_PATTERN_NODE_CONSTANT: usize = 0;
/// Field `requireds` of `ArrayPatternNode`.
pub const ARRAY_PATTERN_NODE_REQUIREDS: usize = 1;
/// Field `rest` of `ArrayPatternNode`.
pub const ARRAY_PATTERN_NODE_REST: usize = 2;
/// Field `posts` of `ArrayPatternNode`.
pub const ARRAY_PATTERN_NODE_POSTS: usize = 3;
/// Field `opening_loc` of `ArrayPatternNode`.
pub const ARRAY_PATTERN_NODE_OPENING_LOC: usize = 4;
/// Field `closing_loc` of `ArrayPatternNode`.
pub const ARRAY_PATTERN_NODE_CLOSING_LOC: usize = 5;
/// Field `key` of `AssocNode`.
pub const ASSOC_NODE_KEY: usize = 0;
/// Field `value` of `AssocNode`.
pub const ASSOC_NODE_VALUE: usize = 1;
/// Field `operator_loc` of `AssocNode`.
pub const ASSOC_NODE_OPERATOR_LOC: usize = 2;
/// Field `value` of `AssocSplatNode`.
pub const ASSOC_SPLAT_NODE_VALUE: usize = 0;
/// Field `operator_loc` of `AssocSplatNode`.
pub const ASSOC_SPLAT_NODE_OPERATOR_LOC: usize = 1;
/// Field `name` of `BackReferenceReadNode`.
pub const BACK_REFERENCE_READ_NODE_NAME: usize = 0;
/// Field `begin_keyword_loc` of `BeginNode`.
pub const BEGIN_NODE_BEGIN_KEYWORD_LOC: usize = 0;
/// Field `statements` of `BeginNode`.
pub const BEGIN_NODE_STATEMENTS: usize = 1;
/// Field `rescue_clause` of `BeginNode`.
pub const BEGIN_NODE_RESCUE_CLAUSE: usize = 2;
/// Field `else_clause` of `BeginNode`.
pub const BEGIN_NODE_ELSE_CLAUSE: usize = 3;
/// Field `ensure_clause` of `BeginNode`.
pub const BEGIN_NODE_ENSURE_CLAUSE: usize = 4;
/// Field `end_keyword_loc` of `BeginNode`.
pub const BEGIN_NODE_END_KEYWORD_LOC: usize = 5;
/// Field `expression` of `BlockArgumentNode`.
pub const BLOCK_ARGUMENT_NODE_EXPRESSION: usize = 0;
/// Field `operator_loc` of `BlockArgumentNode`.
pub const BLOCK_ARGUMENT_NODE_OPERATOR_LOC: usize = 1;
/// Field `name` of `BlockLocalVariableNode`.
pub const BLOCK_LOCAL_VARIABLE_NODE_NAME: usize = 0;
/// Field `locals` of `BlockNode`.
pub const BLOCK_NODE_LOCALS: usize = 0;
/// Field `parameters` of `BlockNode`.
pub const BLOCK_NODE_PARAMETERS: usize = 1;
/// Field `body` of `BlockNode`.
pub const BLOCK_NODE_BODY: usize = 2;
/// Field `opening_loc` of `BlockNode`.
pub const BLOCK_NODE_OPENING_LOC: usize = 3;
/// Field `closing_loc` of `BlockNode`.
pub const BLOCK_NODE_CLOSING_LOC: usize = 4;
/// Field `name` of `BlockParameterNode`.
pub const BLOCK_PARAMETER_NODE_NAME: usize = 0;
/// Field `name_loc` of `BlockParameterNode`.
pub const BLOCK_PARAMETER_NODE_NAME_LOC: usize = 1;
/// Field `operator_loc` of `BlockParameterNode`.
pub const BLOCK_PARAMETER_NODE_OPERATOR_LOC: usize = 2;
/// Field `parameters` of `BlockParametersNode`.
pub const BLOCK_PARAMETERS_NODE_PARAMETERS: usize = 0;
/// Field `locals` of `BlockParametersNode`.
pub const BLOCK_PARAMETERS_NODE_LOCALS: usize = 1;
/// Field `opening_loc` of `BlockParametersNode`.
pub const BLOCK_PARAMETERS_NODE_OPENING_LOC: usize = 2;
/// Field `closing_loc` of `BlockParametersNode`.
pub const BLOCK_PARAMETERS_NODE_CLOSING_LOC: usize = 3;
/// Field `arguments` of `BreakNode`.
pub const BREAK_NODE_ARGUMENTS: usize = 0;
/// Field `keyword_loc` of `BreakNode`.
pub const BREAK_NODE_KEYWORD_LOC: usize = 1;
/// Field `receiver` of `CallAndWriteNode`.
pub const CALL_AND_WRITE_NODE_RECEIVER: usize = 0;
/// Field `call_operator_loc` of `CallAndWriteNode`.
pub const CALL_AND_WRITE_NODE_CALL_OPERATOR_LOC: usize = 1;
/// Field `message_loc` of `CallAndWriteNode`.
pub const CALL_AND_WRITE_NODE_MESSAGE_LOC: usize = 2;
/// Field `read_name` of `CallAndWriteNode`.
pub const CALL_AND_WRITE_NODE_READ_NAME: usize = 3;
/// Field `write_name` of `CallAndWriteNode`.
pub const CALL_AND_WRITE_NODE_WRITE_NAME: usize = 4;
/// Field `operator_loc` of `CallAndWriteNode`.
pub const CALL_AND_WRITE_NODE_OPERATOR_LOC: usize = 5;
/// Field `value` of `CallAndWriteNode`.
pub const CALL_AND_WRITE_NODE_VALUE: usize = 6;
/// Field `receiver` of `CallNode`.
pub const CALL_NODE_RECEIVER: usize = 0;
/// Field `call_operator_loc` of `CallNode`.
pub const CALL_NODE_CALL_OPERATOR_LOC: usize = 1;
/// Field `name` of `CallNode`.
pub const CALL_NODE_NAME: usize = 2;
/// Field `message_loc` of `CallNode`.
pub const CALL_NODE_MESSAGE_LOC: usize = 3;
/// Field `opening_loc` of `CallNode`.
pub const CALL_NODE_OPENING_LOC: usize = 4;
/// Field `arguments` of `CallNode`.
pub const CALL_NODE_ARGUMENTS: usize = 5;
/// Field `closing_loc` of `CallNode`.
pub const CALL_NODE_CLOSING_LOC: usize = 6;
/// Field `equal_loc` of `CallNode`.
pub const CALL_NODE_EQUAL_LOC: usize = 7;
/// Field `block` of `CallNode`.
pub const CALL_NODE_BLOCK: usize = 8;
/// Field `receiver` of `CallOperatorWriteNode`.
pub const CALL_OPERATOR_WRITE_NODE_RECEIVER: usize = 0;
/// Field `call_operator_loc` of `CallOperatorWriteNode`.
pub const CALL_OPERATOR_WRITE_NODE_CALL_OPERATOR_LOC: usize = 1;
/// Field `message_loc` of `CallOperatorWriteNode`.
pub const CALL_OPERATOR_WRITE_NODE_MESSAGE_LOC: usize = 2;
/// Field `read_name` of `CallOperatorWriteNode`.
pub const CALL_OPERATOR_WRITE_NODE_READ_NAME: usize = 3;
/// Field `write_name` of `CallOperatorWriteNode`.
pub const CALL_OPERATOR_WRITE_NODE_WRITE_NAME: usize = 4;
/// Field `binary_operator` of `CallOperatorWriteNode`.
pub const CALL_OPERATOR_WRITE_NODE_BINARY_OPERATOR: usize = 5;
/// Field `binary_operator_loc` of `CallOperatorWriteNode`.
pub const CALL_OPERATOR_WRITE_NODE_BINARY_OPERATOR_LOC: usize = 6;
/// Field `value` of `CallOperatorWriteNode`.
pub const CALL_OPERATOR_WRITE_NODE_VALUE: usize = 7;
/// Field `receiver` of `CallOrWriteNode`.
pub const CALL_OR_WRITE_NODE_RECEIVER: usize = 0;
/// Field `call_operator_loc` of `CallOrWriteNode`.
pub const CALL_OR_WRITE_NODE_CALL_OPERATOR_LOC: usize = 1;
/// Field `message_loc` of `CallOrWriteNode`.
pub const CALL_OR_WRITE_NODE_MESSAGE_LOC: usize = 2;
/// Field `read_name` of `CallOrWriteNode`.
pub const CALL_OR_WRITE_NODE_READ_NAME: usize = 3;
/// Field `write_name` of `CallOrWriteNode`.
pub const CALL_OR_WRITE_NODE_WRITE_NAME: usize = 4;
/// Field `operator_loc` of `CallOrWriteNode`.
pub const CALL_OR_WRITE_NODE_OPERATOR_LOC: usize = 5;
/// Field `value` of `CallOrWriteNode`.
pub const CALL_OR_WRITE_NODE_VALUE: usize = 6;
/// Field `receiver` of `CallTargetNode`.
pub const CALL_TARGET_NODE_RECEIVER: usize = 0;
/// Field `call_operator_loc` of `CallTargetNode`.
pub const CALL_TARGET_NODE_CALL_OPERATOR_LOC: usize = 1;
/// Field `name` of `CallTargetNode`.
pub const CALL_TARGET_NODE_NAME: usize = 2;
/// Field `message_loc` of `CallTargetNode`.
pub const CALL_TARGET_NODE_MESSAGE_LOC: usize = 3;
/// Field `value` of `CapturePatternNode`.
pub const CAPTURE_PATTERN_NODE_VALUE: usize = 0;
/// Field `target` of `CapturePatternNode`.
pub const CAPTURE_PATTERN_NODE_TARGET: usize = 1;
/// Field `operator_loc` of `CapturePatternNode`.
pub const CAPTURE_PATTERN_NODE_OPERATOR_LOC: usize = 2;
/// Field `predicate` of `CaseMatchNode`.
pub const CASE_MATCH_NODE_PREDICATE: usize = 0;
/// Field `conditions` of `CaseMatchNode`.
pub const CASE_MATCH_NODE_CONDITIONS: usize = 1;
/// Field `else_clause` of `CaseMatchNode`.
pub const CASE_MATCH_NODE_ELSE_CLAUSE: usize = 2;
/// Field `case_keyword_loc` of `CaseMatchNode`.
pub const CASE_MATCH_NODE_CASE_KEYWORD_LOC: usize = 3;
/// Field `end_keyword_loc` of `CaseMatchNode`.
pub const CASE_MATCH_NODE_END_KEYWORD_LOC: usize = 4;
/// Field `predicate` of `CaseNode`.
pub const CASE_NODE_PREDICATE: usize = 0;
/// Field `conditions` of `CaseNode`.
pub const CASE_NODE_CONDITIONS: usize = 1;
/// Field `else_clause` of `CaseNode`.
pub const CASE_NODE_ELSE_CLAUSE: usize = 2;
/// Field `case_keyword_loc` of `CaseNode`.
pub const CASE_NODE_CASE_KEYWORD_LOC: usize = 3;
/// Field `end_keyword_loc` of `CaseNode`.
pub const CASE_NODE_END_KEYWORD_LOC: usize = 4;
/// Field `locals` of `ClassNode`.
pub const CLASS_NODE_LOCALS: usize = 0;
/// Field `class_keyword_loc` of `ClassNode`.
pub const CLASS_NODE_CLASS_KEYWORD_LOC: usize = 1;
/// Field `constant_path` of `ClassNode`.
pub const CLASS_NODE_CONSTANT_PATH: usize = 2;
/// Field `inheritance_operator_loc` of `ClassNode`.
pub const CLASS_NODE_INHERITANCE_OPERATOR_LOC: usize = 3;
/// Field `superclass` of `ClassNode`.
pub const CLASS_NODE_SUPERCLASS: usize = 4;
/// Field `body` of `ClassNode`.
pub const CLASS_NODE_BODY: usize = 5;
/// Field `end_keyword_loc` of `ClassNode`.
pub const CLASS_NODE_END_KEYWORD_LOC: usize = 6;
/// Field `name` of `ClassNode`.
pub const CLASS_NODE_NAME: usize = 7;
/// Field `name` of `ClassVariableAndWriteNode`.
pub const CLASS_VARIABLE_AND_WRITE_NODE_NAME: usize = 0;
/// Field `name_loc` of `ClassVariableAndWriteNode`.
pub const CLASS_VARIABLE_AND_WRITE_NODE_NAME_LOC: usize = 1;
/// Field `operator_loc` of `ClassVariableAndWriteNode`.
pub const CLASS_VARIABLE_AND_WRITE_NODE_OPERATOR_LOC: usize = 2;
/// Field `value` of `ClassVariableAndWriteNode`.
pub const CLASS_VARIABLE_AND_WRITE_NODE_VALUE: usize = 3;
/// Field `name` of `ClassVariableOperatorWriteNode`.
pub const CLASS_VARIABLE_OPERATOR_WRITE_NODE_NAME: usize = 0;
/// Field `name_loc` of `ClassVariableOperatorWriteNode`.
pub const CLASS_VARIABLE_OPERATOR_WRITE_NODE_NAME_LOC: usize = 1;
/// Field `binary_operator_loc` of `ClassVariableOperatorWriteNode`.
pub const CLASS_VARIABLE_OPERATOR_WRITE_NODE_BINARY_OPERATOR_LOC: usize = 2;
/// Field `value` of `ClassVariableOperatorWriteNode`.
pub const CLASS_VARIABLE_OPERATOR_WRITE_NODE_VALUE: usize = 3;
/// Field `binary_operator` of `ClassVariableOperatorWriteNode`.
pub const CLASS_VARIABLE_OPERATOR_WRITE_NODE_BINARY_OPERATOR: usize = 4;
/// Field `name` of `ClassVariableOrWriteNode`.
pub const CLASS_VARIABLE_OR_WRITE_NODE_NAME: usize = 0;
/// Field `name_loc` of `ClassVariableOrWriteNode`.
pub const CLASS_VARIABLE_OR_WRITE_NODE_NAME_LOC: usize = 1;
/// Field `operator_loc` of `ClassVariableOrWriteNode`.
pub const CLASS_VARIABLE_OR_WRITE_NODE_OPERATOR_LOC: usize = 2;
/// Field `value` of `ClassVariableOrWriteNode`.
pub const CLASS_VARIABLE_OR_WRITE_NODE_VALUE: usize = 3;
/// Field `name` of `ClassVariableReadNode`.
pub const CLASS_VARIABLE_READ_NODE_NAME: usize = 0;
/// Field `name` of `ClassVariableTargetNode`.
pub const CLASS_VARIABLE_TARGET_NODE_NAME: usize = 0;
/// Field `name` of `ClassVariableWriteNode`.
pub const CLASS_VARIABLE_WRITE_NODE_NAME: usize = 0;
/// Field `name_loc` of `ClassVariableWriteNode`.
pub const CLASS_VARIABLE_WRITE_NODE_NAME_LOC: usize = 1;
/// Field `value` of `ClassVariableWriteNode`.
pub const CLASS_VARIABLE_WRITE_NODE_VALUE: usize = 2;
/// Field `operator_loc` of `ClassVariableWriteNode`.
pub const CLASS_VARIABLE_WRITE_NODE_OPERATOR_LOC: usize = 3;
/// Field `name` of `ConstantAndWriteNode`.
pub const CONSTANT_AND_WRITE_NODE_NAME: usize = 0;
/// Field `name_loc` of `ConstantAndWriteNode`.
pub const CONSTANT_AND_WRITE_NODE_NAME_LOC: usize = 1;
/// Field `operator_loc` of `ConstantAndWriteNode`.
pub const CONSTANT_AND_WRITE_NODE_OPERATOR_LOC: usize = 2;
/// Field `value` of `ConstantAndWriteNode`.
pub const CONSTANT_AND_WRITE_NODE_VALUE: usize = 3;
/// Field `name` of `ConstantOperatorWriteNode`.
pub const CONSTANT_OPERATOR_WRITE_NODE_NAME: usize = 0;
/// Field `name_loc` of `ConstantOperatorWriteNode`.
pub const CONSTANT_OPERATOR_WRITE_NODE_NAME_LOC: usize = 1;
/// Field `binary_operator_loc` of `ConstantOperatorWriteNode`.
pub const CONSTANT_OPERATOR_WRITE_NODE_BINARY_OPERATOR_LOC: usize = 2;
/// Field `value` of `ConstantOperatorWriteNode`.
pub const CONSTANT_OPERATOR_WRITE_NODE_VALUE: usize = 3;
/// Field `binary_operator` of `ConstantOperatorWriteNode`.
pub const CONSTANT_OPERATOR_WRITE_NODE_BINARY_OPERATOR: usize = 4;
/// Field `name` of `ConstantOrWriteNode`.
pub const CONSTANT_OR_WRITE_NODE_NAME: usize = 0;
/// Field `name_loc` of `ConstantOrWriteNode`.
pub const CONSTANT_OR_WRITE_NODE_NAME_LOC: usize = 1;
/// Field `operator_loc` of `ConstantOrWriteNode`.
pub const CONSTANT_OR_WRITE_NODE_OPERATOR_LOC: usize = 2;
/// Field `value` of `ConstantOrWriteNode`.
pub const CONSTANT_OR_WRITE_NODE_VALUE: usize = 3;
/// Field `target` of `ConstantPathAndWriteNode`.
pub const CONSTANT_PATH_AND_WRITE_NODE_TARGET: usize = 0;
/// Field `operator_loc` of `ConstantPathAndWriteNode`.
pub const CONSTANT_PATH_AND_WRITE_NODE_OPERATOR_LOC: usize = 1;
/// Field `value` of `ConstantPathAndWriteNode`.
pub const CONSTANT_PATH_AND_WRITE_NODE_VALUE: usize = 2;
/// Field `parent` of `ConstantPathNode`.
pub const CONSTANT_PATH_NODE_PARENT: usize = 0;
/// Field `name` of `ConstantPathNode`.
pub const CONSTANT_PATH_NODE_NAME: usize = 1;
/// Field `delimiter_loc` of `ConstantPathNode`.
pub const CONSTANT_PATH_NODE_DELIMITER_LOC: usize = 2;
/// Field `name_loc` of `ConstantPathNode`.
pub const CONSTANT_PATH_NODE_NAME_LOC: usize = 3;
/// Field `target` of `ConstantPathOperatorWriteNode`.
pub const CONSTANT_PATH_OPERATOR_WRITE_NODE_TARGET: usize = 0;
/// Field `binary_operator_loc` of `ConstantPathOperatorWriteNode`.
pub const CONSTANT_PATH_OPERATOR_WRITE_NODE_BINARY_OPERATOR_LOC: usize = 1;
/// Field `value` of `ConstantPathOperatorWriteNode`.
pub const CONSTANT_PATH_OPERATOR_WRITE_NODE_VALUE: usize = 2;
/// Field `binary_operator` of `ConstantPathOperatorWriteNode`.
pub const CONSTANT_PATH_OPERATOR_WRITE_NODE_BINARY_OPERATOR: usize = 3;
/// Field `target` of `ConstantPathOrWriteNode`.
pub const CONSTANT_PATH_OR_WRITE_NODE_TARGET: usize = 0;
/// Field `operator_loc` of `ConstantPathOrWriteNode`.
pub const CONSTANT_PATH_OR_WRITE_NODE_OPERATOR_LOC: usize = 1;
/// Field `value` of `ConstantPathOrWriteNode`.
pub const CONSTANT_PATH_OR_WRITE_NODE_VALUE: usize = 2;
/// Field `parent` of `ConstantPathTargetNode`.
pub const CONSTANT_PATH_TARGET_NODE_PARENT: usize = 0;
/// Field `name` of `ConstantPathTargetNode`.
pub const CONSTANT_PATH_TARGET_NODE_NAME: usize = 1;
/// Field `delimiter_loc` of `ConstantPathTargetNode`.
pub const CONSTANT_PATH_TARGET_NODE_DELIMITER_LOC: usize = 2;
/// Field `name_loc` of `ConstantPathTargetNode`.
pub const CONSTANT_PATH_TARGET_NODE_NAME_LOC: usize = 3;
/// Field `target` of `ConstantPathWriteNode`.
pub const CONSTANT_PATH_WRITE_NODE_TARGET: usize = 0;
/// Field `operator_loc` of `ConstantPathWriteNode`.
pub const CONSTANT_PATH_WRITE_NODE_OPERATOR_LOC: usize = 1;
/// Field `value` of `ConstantPathWriteNode`.
pub const CONSTANT_PATH_WRITE_NODE_VALUE: usize = 2;
/// Field `name` of `ConstantReadNode`.
pub const CONSTANT_READ_NODE_NAME: usize = 0;
/// Field `name` of `ConstantTargetNode`.
pub const CONSTANT_TARGET_NODE_NAME: usize = 0;
/// Field `name` of `ConstantWriteNode`.
pub const CONSTANT_WRITE_NODE_NAME: usize = 0;
/// Field `name_loc` of `ConstantWriteNode`.
pub const CONSTANT_WRITE_NODE_NAME_LOC: usize = 1;
/// Field `value` of `ConstantWriteNode`.
pub const CONSTANT_WRITE_NODE_VALUE: usize = 2;
/// Field `operator_loc` of `ConstantWriteNode`.
pub const CONSTANT_WRITE_NODE_OPERATOR_LOC: usize = 3;
/// Field `name` of `DefNode`.
pub const DEF_NODE_NAME: usize = 0;
/// Field `name_loc` of `DefNode`.
pub const DEF_NODE_NAME_LOC: usize = 1;
/// Field `receiver` of `DefNode`.
pub const DEF_NODE_RECEIVER: usize = 2;
/// Field `parameters` of `DefNode`.
pub const DEF_NODE_PARAMETERS: usize = 3;
/// Field `body` of `DefNode`.
pub const DEF_NODE_BODY: usize = 4;
/// Field `locals` of `DefNode`.
pub const DEF_NODE_LOCALS: usize = 5;
/// Field `def_keyword_loc` of `DefNode`.
pub const DEF_NODE_DEF_KEYWORD_LOC: usize = 6;
/// Field `operator_loc` of `DefNode`.
pub const DEF_NODE_OPERATOR_LOC: usize = 7;
/// Field `lparen_loc` of `DefNode`.
pub const DEF_NODE_LPAREN_LOC: usize = 8;
/// Field `rparen_loc` of `DefNode`.
pub const DEF_NODE_RPAREN_LOC: usize = 9;
/// Field `equal_loc` of `DefNode`.
pub const DEF_NODE_EQUAL_LOC: usize = 10;
/// Field `end_keyword_loc` of `DefNode`.
pub const DEF_NODE_END_KEYWORD_LOC: usize = 11;
/// Field `lparen_loc` of `DefinedNode`.
pub const DEFINED_NODE_LPAREN_LOC: usize = 0;
/// Field `value` of `DefinedNode`.
pub const DEFINED_NODE_VALUE: usize = 1;
/// Field `rparen_loc` of `DefinedNode`.
pub const DEFINED_NODE_RPAREN_LOC: usize = 2;
/// Field `keyword_loc` of `DefinedNode`.
pub const DEFINED_NODE_KEYWORD_LOC: usize = 3;
/// Field `else_keyword_loc` of `ElseNode`.
pub const ELSE_NODE_ELSE_KEYWORD_LOC: usize = 0;
/// Field `statements` of `ElseNode`.
pub const ELSE_NODE_STATEMENTS: usize = 1;
/// Field `end_keyword_loc` of `ElseNode`.
pub const ELSE_NODE_END_KEYWORD_LOC: usize = 2;
/// Field `opening_loc` of `EmbeddedStatementsNode`.
pub const EMBEDDED_STATEMENTS_NODE_OPENING_LOC: usize = 0;
/// Field `statements` of `EmbeddedStatementsNode`.
pub const EMBEDDED_STATEMENTS_NODE_STATEMENTS: usize = 1;
/// Field `closing_loc` of `EmbeddedStatementsNode`.
pub const EMBEDDED_STATEMENTS_NODE_CLOSING_LOC: usize = 2;
/// Field `operator_loc` of `EmbeddedVariableNode`.
pub const EMBEDDED_VARIABLE_NODE_OPERATOR_LOC: usize = 0;
/// Field `variable` of `EmbeddedVariableNode`.
pub const EMBEDDED_VARIABLE_NODE_VARIABLE: usize = 1;
/// Field `ensure_keyword_loc` of `EnsureNode`.
pub const ENSURE_NODE_ENSURE_KEYWORD_LOC: usize = 0;
/// Field `statements` of `EnsureNode`.
pub const ENSURE_NODE_STATEMENTS: usize = 1;
/// Field `end_keyword_loc` of `EnsureNode`.
pub const ENSURE_NODE_END_KEYWORD_LOC: usize = 2;
/// Field `unexpected` of `ErrorRecoveryNode`.
pub const ERROR_RECOVERY_NODE_UNEXPECTED: usize = 0;
/// Field `constant` of `FindPatternNode`.
pub const FIND_PATTERN_NODE_CONSTANT: usize = 0;
/// Field `left` of `FindPatternNode`.
pub const FIND_PATTERN_NODE_LEFT: usize = 1;
/// Field `requireds` of `FindPatternNode`.
pub const FIND_PATTERN_NODE_REQUIREDS: usize = 2;
/// Field `right` of `FindPatternNode`.
pub const FIND_PATTERN_NODE_RIGHT: usize = 3;
/// Field `opening_loc` of `FindPatternNode`.
pub const FIND_PATTERN_NODE_OPENING_LOC: usize = 4;
/// Field `closing_loc` of `FindPatternNode`.
pub const FIND_PATTERN_NODE_CLOSING_LOC: usize = 5;
/// Field `left` of `FlipFlopNode`.
pub const FLIP_FLOP_NODE_LEFT: usize = 0;
/// Field `right` of `FlipFlopNode`.
pub const FLIP_FLOP_NODE_RIGHT: usize = 1;
/// Field `operator_loc` of `FlipFlopNode`.
pub const FLIP_FLOP_NODE_OPERATOR_LOC: usize = 2;
/// Field `value` of `FloatNode`.
pub const FLOAT_NODE_VALUE: usize = 0;
/// Field `index` of `ForNode`.
pub const FOR_NODE_INDEX: usize = 0;
/// Field `collection` of `ForNode`.
pub const FOR_NODE_COLLECTION: usize = 1;
/// Field `statements` of `ForNode`.
pub const FOR_NODE_STATEMENTS: usize = 2;
/// Field `for_keyword_loc` of `ForNode`.
pub const FOR_NODE_FOR_KEYWORD_LOC: usize = 3;
/// Field `in_keyword_loc` of `ForNode`.
pub const FOR_NODE_IN_KEYWORD_LOC: usize = 4;
/// Field `do_keyword_loc` of `ForNode`.
pub const FOR_NODE_DO_KEYWORD_LOC: usize = 5;
/// Field `end_keyword_loc` of `ForNode`.
pub const FOR_NODE_END_KEYWORD_LOC: usize = 6;
/// Field `keyword_loc` of `ForwardingSuperNode`.
pub const FORWARDING_SUPER_NODE_KEYWORD_LOC: usize = 0;
/// Field `block` of `ForwardingSuperNode`.
pub const FORWARDING_SUPER_NODE_BLOCK: usize = 1;
/// Field `name` of `GlobalVariableAndWriteNode`.
pub const GLOBAL_VARIABLE_AND_WRITE_NODE_NAME: usize = 0;
/// Field `name_loc` of `GlobalVariableAndWriteNode`.
pub const GLOBAL_VARIABLE_AND_WRITE_NODE_NAME_LOC: usize = 1;
/// Field `operator_loc` of `GlobalVariableAndWriteNode`.
pub const GLOBAL_VARIABLE_AND_WRITE_NODE_OPERATOR_LOC: usize = 2;
/// Field `value` of `GlobalVariableAndWriteNode`.
pub const GLOBAL_VARIABLE_AND_WRITE_NODE_VALUE: usize = 3;
/// Field `name` of `GlobalVariableOperatorWriteNode`.
pub const GLOBAL_VARIABLE_OPERATOR_WRITE_NODE_NAME: usize = 0;
/// Field `name_loc` of `GlobalVariableOperatorWriteNode`.
pub const GLOBAL_VARIABLE_OPERATOR_WRITE_NODE_NAME_LOC: usize = 1;
/// Field `binary_operator_loc` of `GlobalVariableOperatorWriteNode`.
pub const GLOBAL_VARIABLE_OPERATOR_WRITE_NODE_BINARY_OPERATOR_LOC: usize = 2;
/// Field `value` of `GlobalVariableOperatorWriteNode`.
pub const GLOBAL_VARIABLE_OPERATOR_WRITE_NODE_VALUE: usize = 3;
/// Field `binary_operator` of `GlobalVariableOperatorWriteNode`.
pub const GLOBAL_VARIABLE_OPERATOR_WRITE_NODE_BINARY_OPERATOR: usize = 4;
/// Field `name` of `GlobalVariableOrWriteNode`.
pub const GLOBAL_VARIABLE_OR_WRITE_NODE_NAME: usize = 0;
/// Field `name_loc` of `GlobalVariableOrWriteNode`.
pub const GLOBAL_VARIABLE_OR_WRITE_NODE_NAME_LOC: usize = 1;
/// Field `operator_loc` of `GlobalVariableOrWriteNode`.
pub const GLOBAL_VARIABLE_OR_WRITE_NODE_OPERATOR_LOC: usize = 2;
/// Field `value` of `GlobalVariableOrWriteNode`.
pub const GLOBAL_VARIABLE_OR_WRITE_NODE_VALUE: usize = 3;
/// Field `name` of `GlobalVariableReadNode`.
pub const GLOBAL_VARIABLE_READ_NODE_NAME: usize = 0;
/// Field `name` of `GlobalVariableTargetNode`.
pub const GLOBAL_VARIABLE_TARGET_NODE_NAME: usize = 0;
/// Field `name` of `GlobalVariableWriteNode`.
pub const GLOBAL_VARIABLE_WRITE_NODE_NAME: usize = 0;
/// Field `name_loc` of `GlobalVariableWriteNode`.
pub const GLOBAL_VARIABLE_WRITE_NODE_NAME_LOC: usize = 1;
/// Field `value` of `GlobalVariableWriteNode`.
pub const GLOBAL_VARIABLE_WRITE_NODE_VALUE: usize = 2;
/// Field `operator_loc` of `GlobalVariableWriteNode`.
pub const GLOBAL_VARIABLE_WRITE_NODE_OPERATOR_LOC: usize = 3;
/// Field `opening_loc` of `HashNode`.
pub const HASH_NODE_OPENING_LOC: usize = 0;
/// Field `elements` of `HashNode`.
pub const HASH_NODE_ELEMENTS: usize = 1;
/// Field `closing_loc` of `HashNode`.
pub const HASH_NODE_CLOSING_LOC: usize = 2;
/// Field `constant` of `HashPatternNode`.
pub const HASH_PATTERN_NODE_CONSTANT: usize = 0;
/// Field `elements` of `HashPatternNode`.
pub const HASH_PATTERN_NODE_ELEMENTS: usize = 1;
/// Field `rest` of `HashPatternNode`.
pub const HASH_PATTERN_NODE_REST: usize = 2;
/// Field `opening_loc` of `HashPatternNode`.
pub const HASH_PATTERN_NODE_OPENING_LOC: usize = 3;
/// Field `closing_loc` of `HashPatternNode`.
pub const HASH_PATTERN_NODE_CLOSING_LOC: usize = 4;
/// Field `if_keyword_loc` of `IfNode`.
pub const IF_NODE_IF_KEYWORD_LOC: usize = 0;
/// Field `predicate` of `IfNode`.
pub const IF_NODE_PREDICATE: usize = 1;
/// Field `then_keyword_loc` of `IfNode`.
pub const IF_NODE_THEN_KEYWORD_LOC: usize = 2;
/// Field `statements` of `IfNode`.
pub const IF_NODE_STATEMENTS: usize = 3;
/// Field `subsequent` of `IfNode`.
pub const IF_NODE_SUBSEQUENT: usize = 4;
/// Field `end_keyword_loc` of `IfNode`.
pub const IF_NODE_END_KEYWORD_LOC: usize = 5;
/// Field `numeric` of `ImaginaryNode`.
pub const IMAGINARY_NODE_NUMERIC: usize = 0;
/// Field `value` of `ImplicitNode`.
pub const IMPLICIT_NODE_VALUE: usize = 0;
/// Field `pattern` of `InNode`.
pub const IN_NODE_PATTERN: usize = 0;
/// Field `statements` of `InNode`.
pub const IN_NODE_STATEMENTS: usize = 1;
/// Field `in_keyword_loc` of `InNode`.
pub const IN_NODE_IN_KEYWORD_LOC: usize = 2;
/// Field `then_keyword_loc` of `InNode`.
pub const IN_NODE_THEN_KEYWORD_LOC: usize = 3;
/// Field `receiver` of `IndexAndWriteNode`.
pub const INDEX_AND_WRITE_NODE_RECEIVER: usize = 0;
/// Field `call_operator_loc` of `IndexAndWriteNode`.
pub const INDEX_AND_WRITE_NODE_CALL_OPERATOR_LOC: usize = 1;
/// Field `opening_loc` of `IndexAndWriteNode`.
pub const INDEX_AND_WRITE_NODE_OPENING_LOC: usize = 2;
/// Field `arguments` of `IndexAndWriteNode`.
pub const INDEX_AND_WRITE_NODE_ARGUMENTS: usize = 3;
/// Field `closing_loc` of `IndexAndWriteNode`.
pub const INDEX_AND_WRITE_NODE_CLOSING_LOC: usize = 4;
/// Field `block` of `IndexAndWriteNode`.
pub const INDEX_AND_WRITE_NODE_BLOCK: usize = 5;
/// Field `operator_loc` of `IndexAndWriteNode`.
pub const INDEX_AND_WRITE_NODE_OPERATOR_LOC: usize = 6;
/// Field `value` of `IndexAndWriteNode`.
pub const INDEX_AND_WRITE_NODE_VALUE: usize = 7;
/// Field `receiver` of `IndexOperatorWriteNode`.
pub const INDEX_OPERATOR_WRITE_NODE_RECEIVER: usize = 0;
/// Field `call_operator_loc` of `IndexOperatorWriteNode`.
pub const INDEX_OPERATOR_WRITE_NODE_CALL_OPERATOR_LOC: usize = 1;
/// Field `opening_loc` of `IndexOperatorWriteNode`.
pub const INDEX_OPERATOR_WRITE_NODE_OPENING_LOC: usize = 2;
/// Field `arguments` of `IndexOperatorWriteNode`.
pub const INDEX_OPERATOR_WRITE_NODE_ARGUMENTS: usize = 3;
/// Field `closing_loc` of `IndexOperatorWriteNode`.
pub const INDEX_OPERATOR_WRITE_NODE_CLOSING_LOC: usize = 4;
/// Field `block` of `IndexOperatorWriteNode`.
pub const INDEX_OPERATOR_WRITE_NODE_BLOCK: usize = 5;
/// Field `binary_operator` of `IndexOperatorWriteNode`.
pub const INDEX_OPERATOR_WRITE_NODE_BINARY_OPERATOR: usize = 6;
/// Field `binary_operator_loc` of `IndexOperatorWriteNode`.
pub const INDEX_OPERATOR_WRITE_NODE_BINARY_OPERATOR_LOC: usize = 7;
/// Field `value` of `IndexOperatorWriteNode`.
pub const INDEX_OPERATOR_WRITE_NODE_VALUE: usize = 8;
/// Field `receiver` of `IndexOrWriteNode`.
pub const INDEX_OR_WRITE_NODE_RECEIVER: usize = 0;
/// Field `call_operator_loc` of `IndexOrWriteNode`.
pub const INDEX_OR_WRITE_NODE_CALL_OPERATOR_LOC: usize = 1;
/// Field `opening_loc` of `IndexOrWriteNode`.
pub const INDEX_OR_WRITE_NODE_OPENING_LOC: usize = 2;
/// Field `arguments` of `IndexOrWriteNode`.
pub const INDEX_OR_WRITE_NODE_ARGUMENTS: usize = 3;
/// Field `closing_loc` of `IndexOrWriteNode`.
pub const INDEX_OR_WRITE_NODE_CLOSING_LOC: usize = 4;
/// Field `block` of `IndexOrWriteNode`.
pub const INDEX_OR_WRITE_NODE_BLOCK: usize = 5;
/// Field `operator_loc` of `IndexOrWriteNode`.
pub const INDEX_OR_WRITE_NODE_OPERATOR_LOC: usize = 6;
/// Field `value` of `IndexOrWriteNode`.
pub const INDEX_OR_WRITE_NODE_VALUE: usize = 7;
/// Field `receiver` of `IndexTargetNode`.
pub const INDEX_TARGET_NODE_RECEIVER: usize = 0;
/// Field `opening_loc` of `IndexTargetNode`.
pub const INDEX_TARGET_NODE_OPENING_LOC: usize = 1;
/// Field `arguments` of `IndexTargetNode`.
pub const INDEX_TARGET_NODE_ARGUMENTS: usize = 2;
/// Field `closing_loc` of `IndexTargetNode`.
pub const INDEX_TARGET_NODE_CLOSING_LOC: usize = 3;
/// Field `block` of `IndexTargetNode`.
pub const INDEX_TARGET_NODE_BLOCK: usize = 4;
/// Field `name` of `InstanceVariableAndWriteNode`.
pub const INSTANCE_VARIABLE_AND_WRITE_NODE_NAME: usize = 0;
/// Field `name_loc` of `InstanceVariableAndWriteNode`.
pub const INSTANCE_VARIABLE_AND_WRITE_NODE_NAME_LOC: usize = 1;
/// Field `operator_loc` of `InstanceVariableAndWriteNode`.
pub const INSTANCE_VARIABLE_AND_WRITE_NODE_OPERATOR_LOC: usize = 2;
/// Field `value` of `InstanceVariableAndWriteNode`.
pub const INSTANCE_VARIABLE_AND_WRITE_NODE_VALUE: usize = 3;
/// Field `name` of `InstanceVariableOperatorWriteNode`.
pub const INSTANCE_VARIABLE_OPERATOR_WRITE_NODE_NAME: usize = 0;
/// Field `name_loc` of `InstanceVariableOperatorWriteNode`.
pub const INSTANCE_VARIABLE_OPERATOR_WRITE_NODE_NAME_LOC: usize = 1;
/// Field `binary_operator_loc` of `InstanceVariableOperatorWriteNode`.
pub const INSTANCE_VARIABLE_OPERATOR_WRITE_NODE_BINARY_OPERATOR_LOC: usize = 2;
/// Field `value` of `InstanceVariableOperatorWriteNode`.
pub const INSTANCE_VARIABLE_OPERATOR_WRITE_NODE_VALUE: usize = 3;
/// Field `binary_operator` of `InstanceVariableOperatorWriteNode`.
pub const INSTANCE_VARIABLE_OPERATOR_WRITE_NODE_BINARY_OPERATOR: usize = 4;
/// Field `name` of `InstanceVariableOrWriteNode`.
pub const INSTANCE_VARIABLE_OR_WRITE_NODE_NAME: usize = 0;
/// Field `name_loc` of `InstanceVariableOrWriteNode`.
pub const INSTANCE_VARIABLE_OR_WRITE_NODE_NAME_LOC: usize = 1;
/// Field `operator_loc` of `InstanceVariableOrWriteNode`.
pub const INSTANCE_VARIABLE_OR_WRITE_NODE_OPERATOR_LOC: usize = 2;
/// Field `value` of `InstanceVariableOrWriteNode`.
pub const INSTANCE_VARIABLE_OR_WRITE_NODE_VALUE: usize = 3;
/// Field `name` of `InstanceVariableReadNode`.
pub const INSTANCE_VARIABLE_READ_NODE_NAME: usize = 0;
/// Field `name` of `InstanceVariableTargetNode`.
pub const INSTANCE_VARIABLE_TARGET_NODE_NAME: usize = 0;
/// Field `name` of `InstanceVariableWriteNode`.
pub const INSTANCE_VARIABLE_WRITE_NODE_NAME: usize = 0;
/// Field `name_loc` of `InstanceVariableWriteNode`.
pub const INSTANCE_VARIABLE_WRITE_NODE_NAME_LOC: usize = 1;
/// Field `value` of `InstanceVariableWriteNode`.
pub const INSTANCE_VARIABLE_WRITE_NODE_VALUE: usize = 2;
/// Field `operator_loc` of `InstanceVariableWriteNode`.
pub const INSTANCE_VARIABLE_WRITE_NODE_OPERATOR_LOC: usize = 3;
/// Field `value` of `IntegerNode`.
pub const INTEGER_NODE_VALUE: usize = 0;
/// Field `opening_loc` of `InterpolatedMatchLastLineNode`.
pub const INTERPOLATED_MATCH_LAST_LINE_NODE_OPENING_LOC: usize = 0;
/// Field `parts` of `InterpolatedMatchLastLineNode`.
pub const INTERPOLATED_MATCH_LAST_LINE_NODE_PARTS: usize = 1;
/// Field `closing_loc` of `InterpolatedMatchLastLineNode`.
pub const INTERPOLATED_MATCH_LAST_LINE_NODE_CLOSING_LOC: usize = 2;
/// Field `opening_loc` of `InterpolatedRegularExpressionNode`.
pub const INTERPOLATED_REGULAR_EXPRESSION_NODE_OPENING_LOC: usize = 0;
/// Field `parts` of `InterpolatedRegularExpressionNode`.
pub const INTERPOLATED_REGULAR_EXPRESSION_NODE_PARTS: usize = 1;
/// Field `closing_loc` of `InterpolatedRegularExpressionNode`.
pub const INTERPOLATED_REGULAR_EXPRESSION_NODE_CLOSING_LOC: usize = 2;
/// Field `opening_loc` of `InterpolatedStringNode`.
pub const INTERPOLATED_STRING_NODE_OPENING_LOC: usize = 0;
/// Field `parts` of `InterpolatedStringNode`.
pub const INTERPOLATED_STRING_NODE_PARTS: usize = 1;
/// Field `closing_loc` of `InterpolatedStringNode`.
pub const INTERPOLATED_STRING_NODE_CLOSING_LOC: usize = 2;
/// Field `opening_loc` of `InterpolatedSymbolNode`.
pub const INTERPOLATED_SYMBOL_NODE_OPENING_LOC: usize = 0;
/// Field `parts` of `InterpolatedSymbolNode`.
pub const INTERPOLATED_SYMBOL_NODE_PARTS: usize = 1;
/// Field `closing_loc` of `InterpolatedSymbolNode`.
pub const INTERPOLATED_SYMBOL_NODE_CLOSING_LOC: usize = 2;
/// Field `opening_loc` of `InterpolatedXStringNode`.
pub const INTERPOLATED_X_STRING_NODE_OPENING_LOC: usize = 0;
/// Field `parts` of `InterpolatedXStringNode`.
pub const INTERPOLATED_X_STRING_NODE_PARTS: usize = 1;
/// Field `closing_loc` of `InterpolatedXStringNode`.
pub const INTERPOLATED_X_STRING_NODE_CLOSING_LOC: usize = 2;
/// Field `elements` of `KeywordHashNode`.
pub const KEYWORD_HASH_NODE_ELEMENTS: usize = 0;
/// Field `name` of `KeywordRestParameterNode`.
pub const KEYWORD_REST_PARAMETER_NODE_NAME: usize = 0;
/// Field `name_loc` of `KeywordRestParameterNode`.
pub const KEYWORD_REST_PARAMETER_NODE_NAME_LOC: usize = 1;
/// Field `operator_loc` of `KeywordRestParameterNode`.
pub const KEYWORD_REST_PARAMETER_NODE_OPERATOR_LOC: usize = 2;
/// Field `locals` of `LambdaNode`.
pub const LAMBDA_NODE_LOCALS: usize = 0;
/// Field `operator_loc` of `LambdaNode`.
pub const LAMBDA_NODE_OPERATOR_LOC: usize = 1;
/// Field `opening_loc` of `LambdaNode`.
pub const LAMBDA_NODE_OPENING_LOC: usize = 2;
/// Field `closing_loc` of `LambdaNode`.
pub const LAMBDA_NODE_CLOSING_LOC: usize = 3;
/// Field `parameters` of `LambdaNode`.
pub const LAMBDA_NODE_PARAMETERS: usize = 4;
/// Field `body` of `LambdaNode`.
pub const LAMBDA_NODE_BODY: usize = 5;
/// Field `name_loc` of `LocalVariableAndWriteNode`.
pub const LOCAL_VARIABLE_AND_WRITE_NODE_NAME_LOC: usize = 0;
/// Field `operator_loc` of `LocalVariableAndWriteNode`.
pub const LOCAL_VARIABLE_AND_WRITE_NODE_OPERATOR_LOC: usize = 1;
/// Field `value` of `LocalVariableAndWriteNode`.
pub const LOCAL_VARIABLE_AND_WRITE_NODE_VALUE: usize = 2;
/// Field `name` of `LocalVariableAndWriteNode`.
pub const LOCAL_VARIABLE_AND_WRITE_NODE_NAME: usize = 3;
/// Field `depth` of `LocalVariableAndWriteNode`.
pub const LOCAL_VARIABLE_AND_WRITE_NODE_DEPTH: usize = 4;
/// Field `name_loc` of `LocalVariableOperatorWriteNode`.
pub const LOCAL_VARIABLE_OPERATOR_WRITE_NODE_NAME_LOC: usize = 0;
/// Field `binary_operator_loc` of `LocalVariableOperatorWriteNode`.
pub const LOCAL_VARIABLE_OPERATOR_WRITE_NODE_BINARY_OPERATOR_LOC: usize = 1;
/// Field `value` of `LocalVariableOperatorWriteNode`.
pub const LOCAL_VARIABLE_OPERATOR_WRITE_NODE_VALUE: usize = 2;
/// Field `name` of `LocalVariableOperatorWriteNode`.
pub const LOCAL_VARIABLE_OPERATOR_WRITE_NODE_NAME: usize = 3;
/// Field `binary_operator` of `LocalVariableOperatorWriteNode`.
pub const LOCAL_VARIABLE_OPERATOR_WRITE_NODE_BINARY_OPERATOR: usize = 4;
/// Field `depth` of `LocalVariableOperatorWriteNode`.
pub const LOCAL_VARIABLE_OPERATOR_WRITE_NODE_DEPTH: usize = 5;
/// Field `name_loc` of `LocalVariableOrWriteNode`.
pub const LOCAL_VARIABLE_OR_WRITE_NODE_NAME_LOC: usize = 0;
/// Field `operator_loc` of `LocalVariableOrWriteNode`.
pub const LOCAL_VARIABLE_OR_WRITE_NODE_OPERATOR_LOC: usize = 1;
/// Field `value` of `LocalVariableOrWriteNode`.
pub const LOCAL_VARIABLE_OR_WRITE_NODE_VALUE: usize = 2;
/// Field `name` of `LocalVariableOrWriteNode`.
pub const LOCAL_VARIABLE_OR_WRITE_NODE_NAME: usize = 3;
/// Field `depth` of `LocalVariableOrWriteNode`.
pub const LOCAL_VARIABLE_OR_WRITE_NODE_DEPTH: usize = 4;
/// Field `name` of `LocalVariableReadNode`.
pub const LOCAL_VARIABLE_READ_NODE_NAME: usize = 0;
/// Field `depth` of `LocalVariableReadNode`.
pub const LOCAL_VARIABLE_READ_NODE_DEPTH: usize = 1;
/// Field `name` of `LocalVariableTargetNode`.
pub const LOCAL_VARIABLE_TARGET_NODE_NAME: usize = 0;
/// Field `depth` of `LocalVariableTargetNode`.
pub const LOCAL_VARIABLE_TARGET_NODE_DEPTH: usize = 1;
/// Field `name` of `LocalVariableWriteNode`.
pub const LOCAL_VARIABLE_WRITE_NODE_NAME: usize = 0;
/// Field `depth` of `LocalVariableWriteNode`.
pub const LOCAL_VARIABLE_WRITE_NODE_DEPTH: usize = 1;
/// Field `name_loc` of `LocalVariableWriteNode`.
pub const LOCAL_VARIABLE_WRITE_NODE_NAME_LOC: usize = 2;
/// Field `value` of `LocalVariableWriteNode`.
pub const LOCAL_VARIABLE_WRITE_NODE_VALUE: usize = 3;
/// Field `operator_loc` of `LocalVariableWriteNode`.
pub const LOCAL_VARIABLE_WRITE_NODE_OPERATOR_LOC: usize = 4;
/// Field `opening_loc` of `MatchLastLineNode`.
pub const MATCH_LAST_LINE_NODE_OPENING_LOC: usize = 0;
/// Field `content_loc` of `MatchLastLineNode`.
pub const MATCH_LAST_LINE_NODE_CONTENT_LOC: usize = 1;
/// Field `closing_loc` of `MatchLastLineNode`.
pub const MATCH_LAST_LINE_NODE_CLOSING_LOC: usize = 2;
/// Field `unescaped` of `MatchLastLineNode`.
pub const MATCH_LAST_LINE_NODE_UNESCAPED: usize = 3;
/// Field `value` of `MatchPredicateNode`.
pub const MATCH_PREDICATE_NODE_VALUE: usize = 0;
/// Field `pattern` of `MatchPredicateNode`.
pub const MATCH_PREDICATE_NODE_PATTERN: usize = 1;
/// Field `keyword_loc` of `MatchPredicateNode`.
pub const MATCH_PREDICATE_NODE_KEYWORD_LOC: usize = 2;
/// Field `value` of `MatchRequiredNode`.
pub const MATCH_REQUIRED_NODE_VALUE: usize = 0;
/// Field `pattern` of `MatchRequiredNode`.
pub const MATCH_REQUIRED_NODE_PATTERN: usize = 1;
/// Field `operator_loc` of `MatchRequiredNode`.
pub const MATCH_REQUIRED_NODE_OPERATOR_LOC: usize = 2;
/// Field `call` of `MatchWriteNode`.
pub const MATCH_WRITE_NODE_CALL: usize = 0;
/// Field `targets` of `MatchWriteNode`.
pub const MATCH_WRITE_NODE_TARGETS: usize = 1;
/// Field `locals` of `ModuleNode`.
pub const MODULE_NODE_LOCALS: usize = 0;
/// Field `module_keyword_loc` of `ModuleNode`.
pub const MODULE_NODE_MODULE_KEYWORD_LOC: usize = 1;
/// Field `constant_path` of `ModuleNode`.
pub const MODULE_NODE_CONSTANT_PATH: usize = 2;
/// Field `body` of `ModuleNode`.
pub const MODULE_NODE_BODY: usize = 3;
/// Field `end_keyword_loc` of `ModuleNode`.
pub const MODULE_NODE_END_KEYWORD_LOC: usize = 4;
/// Field `name` of `ModuleNode`.
pub const MODULE_NODE_NAME: usize = 5;
/// Field `lefts` of `MultiTargetNode`.
pub const MULTI_TARGET_NODE_LEFTS: usize = 0;
/// Field `rest` of `MultiTargetNode`.
pub const MULTI_TARGET_NODE_REST: usize = 1;
/// Field `rights` of `MultiTargetNode`.
pub const MULTI_TARGET_NODE_RIGHTS: usize = 2;
/// Field `lparen_loc` of `MultiTargetNode`.
pub const MULTI_TARGET_NODE_LPAREN_LOC: usize = 3;
/// Field `rparen_loc` of `MultiTargetNode`.
pub const MULTI_TARGET_NODE_RPAREN_LOC: usize = 4;
/// Field `lefts` of `MultiWriteNode`.
pub const MULTI_WRITE_NODE_LEFTS: usize = 0;
/// Field `rest` of `MultiWriteNode`.
pub const MULTI_WRITE_NODE_REST: usize = 1;
/// Field `rights` of `MultiWriteNode`.
pub const MULTI_WRITE_NODE_RIGHTS: usize = 2;
/// Field `lparen_loc` of `MultiWriteNode`.
pub const MULTI_WRITE_NODE_LPAREN_LOC: usize = 3;
/// Field `rparen_loc` of `MultiWriteNode`.
pub const MULTI_WRITE_NODE_RPAREN_LOC: usize = 4;
/// Field `operator_loc` of `MultiWriteNode`.
pub const MULTI_WRITE_NODE_OPERATOR_LOC: usize = 5;
/// Field `value` of `MultiWriteNode`.
pub const MULTI_WRITE_NODE_VALUE: usize = 6;
/// Field `arguments` of `NextNode`.
pub const NEXT_NODE_ARGUMENTS: usize = 0;
/// Field `keyword_loc` of `NextNode`.
pub const NEXT_NODE_KEYWORD_LOC: usize = 1;
/// Field `operator_loc` of `NoBlockParameterNode`.
pub const NO_BLOCK_PARAMETER_NODE_OPERATOR_LOC: usize = 0;
/// Field `keyword_loc` of `NoBlockParameterNode`.
pub const NO_BLOCK_PARAMETER_NODE_KEYWORD_LOC: usize = 1;
/// Field `operator_loc` of `NoKeywordsParameterNode`.
pub const NO_KEYWORDS_PARAMETER_NODE_OPERATOR_LOC: usize = 0;
/// Field `keyword_loc` of `NoKeywordsParameterNode`.
pub const NO_KEYWORDS_PARAMETER_NODE_KEYWORD_LOC: usize = 1;
/// Field `maximum` of `NumberedParametersNode`.
pub const NUMBERED_PARAMETERS_NODE_MAXIMUM: usize = 0;
/// Field `number` of `NumberedReferenceReadNode`.
pub const NUMBERED_REFERENCE_READ_NODE_NUMBER: usize = 0;
/// Field `name` of `OptionalKeywordParameterNode`.
pub const OPTIONAL_KEYWORD_PARAMETER_NODE_NAME: usize = 0;
/// Field `name_loc` of `OptionalKeywordParameterNode`.
pub const OPTIONAL_KEYWORD_PARAMETER_NODE_NAME_LOC: usize = 1;
/// Field `value` of `OptionalKeywordParameterNode`.
pub const OPTIONAL_KEYWORD_PARAMETER_NODE_VALUE: usize = 2;
/// Field `name` of `OptionalParameterNode`.
pub const OPTIONAL_PARAMETER_NODE_NAME: usize = 0;
/// Field `name_loc` of `OptionalParameterNode`.
pub const OPTIONAL_PARAMETER_NODE_NAME_LOC: usize = 1;
/// Field `operator_loc` of `OptionalParameterNode`.
pub const OPTIONAL_PARAMETER_NODE_OPERATOR_LOC: usize = 2;
/// Field `value` of `OptionalParameterNode`.
pub const OPTIONAL_PARAMETER_NODE_VALUE: usize = 3;
/// Field `left` of `OrNode`.
pub const OR_NODE_LEFT: usize = 0;
/// Field `right` of `OrNode`.
pub const OR_NODE_RIGHT: usize = 1;
/// Field `operator_loc` of `OrNode`.
pub const OR_NODE_OPERATOR_LOC: usize = 2;
/// Field `requireds` of `ParametersNode`.
pub const PARAMETERS_NODE_REQUIREDS: usize = 0;
/// Field `optionals` of `ParametersNode`.
pub const PARAMETERS_NODE_OPTIONALS: usize = 1;
/// Field `rest` of `ParametersNode`.
pub const PARAMETERS_NODE_REST: usize = 2;
/// Field `posts` of `ParametersNode`.
pub const PARAMETERS_NODE_POSTS: usize = 3;
/// Field `keywords` of `ParametersNode`.
pub const PARAMETERS_NODE_KEYWORDS: usize = 4;
/// Field `keyword_rest` of `ParametersNode`.
pub const PARAMETERS_NODE_KEYWORD_REST: usize = 5;
/// Field `block` of `ParametersNode`.
pub const PARAMETERS_NODE_BLOCK: usize = 6;
/// Field `body` of `ParenthesesNode`.
pub const PARENTHESES_NODE_BODY: usize = 0;
/// Field `opening_loc` of `ParenthesesNode`.
pub const PARENTHESES_NODE_OPENING_LOC: usize = 1;
/// Field `closing_loc` of `ParenthesesNode`.
pub const PARENTHESES_NODE_CLOSING_LOC: usize = 2;
/// Field `expression` of `PinnedExpressionNode`.
pub const PINNED_EXPRESSION_NODE_EXPRESSION: usize = 0;
/// Field `operator_loc` of `PinnedExpressionNode`.
pub const PINNED_EXPRESSION_NODE_OPERATOR_LOC: usize = 1;
/// Field `lparen_loc` of `PinnedExpressionNode`.
pub const PINNED_EXPRESSION_NODE_LPAREN_LOC: usize = 2;
/// Field `rparen_loc` of `PinnedExpressionNode`.
pub const PINNED_EXPRESSION_NODE_RPAREN_LOC: usize = 3;
/// Field `variable` of `PinnedVariableNode`.
pub const PINNED_VARIABLE_NODE_VARIABLE: usize = 0;
/// Field `operator_loc` of `PinnedVariableNode`.
pub const PINNED_VARIABLE_NODE_OPERATOR_LOC: usize = 1;
/// Field `statements` of `PostExecutionNode`.
pub const POST_EXECUTION_NODE_STATEMENTS: usize = 0;
/// Field `keyword_loc` of `PostExecutionNode`.
pub const POST_EXECUTION_NODE_KEYWORD_LOC: usize = 1;
/// Field `opening_loc` of `PostExecutionNode`.
pub const POST_EXECUTION_NODE_OPENING_LOC: usize = 2;
/// Field `closing_loc` of `PostExecutionNode`.
pub const POST_EXECUTION_NODE_CLOSING_LOC: usize = 3;
/// Field `statements` of `PreExecutionNode`.
pub const PRE_EXECUTION_NODE_STATEMENTS: usize = 0;
/// Field `keyword_loc` of `PreExecutionNode`.
pub const PRE_EXECUTION_NODE_KEYWORD_LOC: usize = 1;
/// Field `opening_loc` of `PreExecutionNode`.
pub const PRE_EXECUTION_NODE_OPENING_LOC: usize = 2;
/// Field `closing_loc` of `PreExecutionNode`.
pub const PRE_EXECUTION_NODE_CLOSING_LOC: usize = 3;
/// Field `locals` of `ProgramNode`.
pub const PROGRAM_NODE_LOCALS: usize = 0;
/// Field `statements` of `ProgramNode`.
pub const PROGRAM_NODE_STATEMENTS: usize = 1;
/// Field `left` of `RangeNode`.
pub const RANGE_NODE_LEFT: usize = 0;
/// Field `right` of `RangeNode`.
pub const RANGE_NODE_RIGHT: usize = 1;
/// Field `operator_loc` of `RangeNode`.
pub const RANGE_NODE_OPERATOR_LOC: usize = 2;
/// Field `numerator` of `RationalNode`.
pub const RATIONAL_NODE_NUMERATOR: usize = 0;
/// Field `denominator` of `RationalNode`.
pub const RATIONAL_NODE_DENOMINATOR: usize = 1;
/// Field `opening_loc` of `RegularExpressionNode`.
pub const REGULAR_EXPRESSION_NODE_OPENING_LOC: usize = 0;
/// Field `content_loc` of `RegularExpressionNode`.
pub const REGULAR_EXPRESSION_NODE_CONTENT_LOC: usize = 1;
/// Field `closing_loc` of `RegularExpressionNode`.
pub const REGULAR_EXPRESSION_NODE_CLOSING_LOC: usize = 2;
/// Field `unescaped` of `RegularExpressionNode`.
pub const REGULAR_EXPRESSION_NODE_UNESCAPED: usize = 3;
/// Field `name` of `RequiredKeywordParameterNode`.
pub const REQUIRED_KEYWORD_PARAMETER_NODE_NAME: usize = 0;
/// Field `name_loc` of `RequiredKeywordParameterNode`.
pub const REQUIRED_KEYWORD_PARAMETER_NODE_NAME_LOC: usize = 1;
/// Field `name` of `RequiredParameterNode`.
pub const REQUIRED_PARAMETER_NODE_NAME: usize = 0;
/// Field `expression` of `RescueModifierNode`.
pub const RESCUE_MODIFIER_NODE_EXPRESSION: usize = 0;
/// Field `keyword_loc` of `RescueModifierNode`.
pub const RESCUE_MODIFIER_NODE_KEYWORD_LOC: usize = 1;
/// Field `rescue_expression` of `RescueModifierNode`.
pub const RESCUE_MODIFIER_NODE_RESCUE_EXPRESSION: usize = 2;
/// Field `keyword_loc` of `RescueNode`.
pub const RESCUE_NODE_KEYWORD_LOC: usize = 0;
/// Field `exceptions` of `RescueNode`.
pub const RESCUE_NODE_EXCEPTIONS: usize = 1;
/// Field `operator_loc` of `RescueNode`.
pub const RESCUE_NODE_OPERATOR_LOC: usize = 2;
/// Field `reference` of `RescueNode`.
pub const RESCUE_NODE_REFERENCE: usize = 3;
/// Field `then_keyword_loc` of `RescueNode`.
pub const RESCUE_NODE_THEN_KEYWORD_LOC: usize = 4;
/// Field `statements` of `RescueNode`.
pub const RESCUE_NODE_STATEMENTS: usize = 5;
/// Field `subsequent` of `RescueNode`.
pub const RESCUE_NODE_SUBSEQUENT: usize = 6;
/// Field `name` of `RestParameterNode`.
pub const REST_PARAMETER_NODE_NAME: usize = 0;
/// Field `name_loc` of `RestParameterNode`.
pub const REST_PARAMETER_NODE_NAME_LOC: usize = 1;
/// Field `operator_loc` of `RestParameterNode`.
pub const REST_PARAMETER_NODE_OPERATOR_LOC: usize = 2;
/// Field `keyword_loc` of `ReturnNode`.
pub const RETURN_NODE_KEYWORD_LOC: usize = 0;
/// Field `arguments` of `ReturnNode`.
pub const RETURN_NODE_ARGUMENTS: usize = 1;
/// Field `write` of `ShareableConstantNode`.
pub const SHAREABLE_CONSTANT_NODE_WRITE: usize = 0;
/// Field `locals` of `SingletonClassNode`.
pub const SINGLETON_CLASS_NODE_LOCALS: usize = 0;
/// Field `class_keyword_loc` of `SingletonClassNode`.
pub const SINGLETON_CLASS_NODE_CLASS_KEYWORD_LOC: usize = 1;
/// Field `operator_loc` of `SingletonClassNode`.
pub const SINGLETON_CLASS_NODE_OPERATOR_LOC: usize = 2;
/// Field `expression` of `SingletonClassNode`.
pub const SINGLETON_CLASS_NODE_EXPRESSION: usize = 3;
/// Field `body` of `SingletonClassNode`.
pub const SINGLETON_CLASS_NODE_BODY: usize = 4;
/// Field `end_keyword_loc` of `SingletonClassNode`.
pub const SINGLETON_CLASS_NODE_END_KEYWORD_LOC: usize = 5;
/// Field `filepath` of `SourceFileNode`.
pub const SOURCE_FILE_NODE_FILEPATH: usize = 0;
/// Field `operator_loc` of `SplatNode`.
pub const SPLAT_NODE_OPERATOR_LOC: usize = 0;
/// Field `expression` of `SplatNode`.
pub const SPLAT_NODE_EXPRESSION: usize = 1;
/// Field `body` of `StatementsNode`.
pub const STATEMENTS_NODE_BODY: usize = 0;
/// Field `opening_loc` of `StringNode`.
pub const STRING_NODE_OPENING_LOC: usize = 0;
/// Field `content_loc` of `StringNode`.
pub const STRING_NODE_CONTENT_LOC: usize = 1;
/// Field `closing_loc` of `StringNode`.
pub const STRING_NODE_CLOSING_LOC: usize = 2;
/// Field `unescaped` of `StringNode`.
pub const STRING_NODE_UNESCAPED: usize = 3;
/// Field `keyword_loc` of `SuperNode`.
pub const SUPER_NODE_KEYWORD_LOC: usize = 0;
/// Field `lparen_loc` of `SuperNode`.
pub const SUPER_NODE_LPAREN_LOC: usize = 1;
/// Field `arguments` of `SuperNode`.
pub const SUPER_NODE_ARGUMENTS: usize = 2;
/// Field `rparen_loc` of `SuperNode`.
pub const SUPER_NODE_RPAREN_LOC: usize = 3;
/// Field `block` of `SuperNode`.
pub const SUPER_NODE_BLOCK: usize = 4;
/// Field `opening_loc` of `SymbolNode`.
pub const SYMBOL_NODE_OPENING_LOC: usize = 0;
/// Field `content_loc` of `SymbolNode`.
pub const SYMBOL_NODE_CONTENT_LOC: usize = 1;
/// Field `closing_loc` of `SymbolNode`.
pub const SYMBOL_NODE_CLOSING_LOC: usize = 2;
/// Field `unescaped` of `SymbolNode`.
pub const SYMBOL_NODE_UNESCAPED: usize = 3;
/// Field `names` of `UndefNode`.
pub const UNDEF_NODE_NAMES: usize = 0;
/// Field `keyword_loc` of `UndefNode`.
pub const UNDEF_NODE_KEYWORD_LOC: usize = 1;
/// Field `unless_keyword_loc` of `UnlessNode`.
pub const UNLESS_NODE_UNLESS_KEYWORD_LOC: usize = 0;
/// Field `predicate` of `UnlessNode`.
pub const UNLESS_NODE_PREDICATE: usize = 1;
/// Field `then_keyword_loc` of `UnlessNode`.
pub const UNLESS_NODE_THEN_KEYWORD_LOC: usize = 2;
/// Field `statements` of `UnlessNode`.
pub const UNLESS_NODE_STATEMENTS: usize = 3;
/// Field `else_clause` of `UnlessNode`.
pub const UNLESS_NODE_ELSE_CLAUSE: usize = 4;
/// Field `end_keyword_loc` of `UnlessNode`.
pub const UNLESS_NODE_END_KEYWORD_LOC: usize = 5;
/// Field `until_keyword_loc` of `UntilNode`.
pub const UNTIL_NODE_UNTIL_KEYWORD_LOC: usize = 0;
/// Field `do_keyword_loc` of `UntilNode`.
pub const UNTIL_NODE_DO_KEYWORD_LOC: usize = 1;
/// Field `end_keyword_loc` of `UntilNode`.
pub const UNTIL_NODE_END_KEYWORD_LOC: usize = 2;
/// Field `predicate` of `UntilNode`.
pub const UNTIL_NODE_PREDICATE: usize = 3;
/// Field `statements` of `UntilNode`.
pub const UNTIL_NODE_STATEMENTS: usize = 4;
/// Field `when_keyword_loc` of `WhenNode`.
pub const WHEN_NODE_WHEN_KEYWORD_LOC: usize = 0;
/// Field `conditions` of `WhenNode`.
pub const WHEN_NODE_CONDITIONS: usize = 1;
/// Field `then_keyword_loc` of `WhenNode`.
pub const WHEN_NODE_THEN_KEYWORD_LOC: usize = 2;
/// Field `statements` of `WhenNode`.
pub const WHEN_NODE_STATEMENTS: usize = 3;
/// Field `while_keyword_loc` of `WhileNode`.
pub const WHILE_NODE_WHILE_KEYWORD_LOC: usize = 0;
/// Field `do_keyword_loc` of `WhileNode`.
pub const WHILE_NODE_DO_KEYWORD_LOC: usize = 1;
/// Field `end_keyword_loc` of `WhileNode`.
pub const WHILE_NODE_END_KEYWORD_LOC: usize = 2;
/// Field `predicate` of `WhileNode`.
pub const WHILE_NODE_PREDICATE: usize = 3;
/// Field `statements` of `WhileNode`.
pub const WHILE_NODE_STATEMENTS: usize = 4;
/// Field `opening_loc` of `XStringNode`.
pub const X_STRING_NODE_OPENING_LOC: usize = 0;
/// Field `content_loc` of `XStringNode`.
pub const X_STRING_NODE_CONTENT_LOC: usize = 1;
/// Field `closing_loc` of `XStringNode`.
pub const X_STRING_NODE_CLOSING_LOC: usize = 2;
/// Field `unescaped` of `XStringNode`.
pub const X_STRING_NODE_UNESCAPED: usize = 3;
/// Field `keyword_loc` of `YieldNode`.
pub const YIELD_NODE_KEYWORD_LOC: usize = 0;
/// Field `lparen_loc` of `YieldNode`.
pub const YIELD_NODE_LPAREN_LOC: usize = 1;
/// Field `arguments` of `YieldNode`.
pub const YIELD_NODE_ARGUMENTS: usize = 2;
/// Field `rparen_loc` of `YieldNode`.
pub const YIELD_NODE_RPAREN_LOC: usize = 3;

/// Kinds whose type declares no child node: the walk reports them as leaves.
pub open spec fn spec_is_leaf_kind(kind: u16) -> bool {
    kind == BACK_REFERENCE_READ_NODE
    || kind == BLOCK_LOCAL_VARIABLE_NODE
    || kind == BLOCK_PARAMETER_NODE
    || kind == CLASS_VARIABLE_READ_NODE
    || kind == CLASS_VARIABLE_TARGET_NODE
    || kind == CONSTANT_READ_NODE
    || kind == CONSTANT_TARGET_NODE
    || kind == FALSE_NODE
    || kind == FLOAT_NODE
    || kind == FORWARDING_ARGUMENTS_NODE
    || kind == FORWARDING_PARAMETER_NODE
    || kind == GLOBAL_VARIABLE_READ_NODE
    || kind == GLOBAL_VARIABLE_TARGET_NODE
    || kind == IMPLICIT_REST_NODE
    || kind == INSTANCE_VARIABLE_READ_NODE
    || kind == INSTANCE_VARIABLE_TARGET_NODE
    || kind == INTEGER_NODE
    || kind == IT_LOCAL_VARIABLE_READ_NODE
    || kind == IT_PARAMETERS_NODE
    || kind == KEYWORD_REST_PARAMETER_NODE
    || kind == LOCAL_VARIABLE_READ_NODE
    || kind == LOCAL_VARIABLE_TARGET_NODE
    || kind == MATCH_LAST_LINE_NODE
    || kind == NIL_NODE
    || kind == NO_BLOCK_PARAMETER_NODE
    || kind == NO_KEYWORDS_PARAMETER_NODE
    || kind == NUMBERED_PARAMETERS_NODE
    || kind == NUMBERED_REFERENCE_READ_NODE
    || kind == RATIONAL_NODE
    || kind == REDO_NODE
    || kind == REGULAR_EXPRESSION_NODE
    || kind == REQUIRED_KEYWORD_PARAMETER_NODE
    || kind == REQUIRED_PARAMETER_NODE
    || kind == REST_PARAMETER_NODE
    || kind == RETRY_NODE
    || kind == SELF_NODE
    || kind == SOURCE_ENCODING_NODE
    || kind == SOURCE_FILE_NODE
    || kind == SOURCE_LINE_NODE
    || kind == STRING_NODE
    || kind == SYMBOL_NODE
    || kind == TRUE_NODE
    || kind == X_STRING_NODE
}

/// Whether `kind` names a type without child nodes.
#[verifier::when_used_as_spec(spec_is_leaf_kind)]
pub fn is_leaf_kind(kind: u16) -> (r: bool)
    ensures
        r == spec_is_leaf_kind(kind),
{
    kind == BACK_REFERENCE_READ_NODE
    || kind == BLOCK_LOCAL_VARIABLE_NODE
    || kind == BLOCK_PARAMETER_NODE
    || kind == CLASS_VARIABLE_READ_NODE
    || kind == CLASS_VARIABLE_TARGET_NODE
    || kind == CONSTANT_READ_NODE
    || kind == CONSTANT_TARGET_NODE
    || kind == FALSE_NODE
    || kind == FLOAT_NODE
    || kind == FORWARDING_ARGUMENTS_NODE
    || kind == FORWARDING_PARAMETER_NODE
    || kind == GLOBAL_VARIABLE_READ_NODE
    || kind == GLOBAL_VARIABLE_TARGET_NODE
    || kind == IMPLICIT_REST_NODE
    || kind == INSTANCE_VARIABLE_READ_NODE
    || kind == INSTANCE_VARIABLE_TARGET_NODE
    || kind == INTEGER_NODE
    || kind == IT_LOCAL_VARIABLE_READ_NODE
    || kind == IT_PARAMETERS_NODE
    || kind == KEYWORD_REST_PARAMETER_NODE
    || kind == LOCAL_VARIABLE_READ_NODE
    || kind == LOCAL_VARIABLE_TARGET_NODE
    || kind == MATCH_LAST_LINE_NODE
    || kind == NIL_NODE
    || kind == NO_BLOCK_PARAMETER_NODE
    || kind == NO_KEYWORDS_PARAMETER_NODE
    || kind == NUMBERED_PARAMETERS_NODE
    || kind == NUMBERED_REFERENCE_READ_NODE
    || kind == RATIONAL_NODE
    || kind == REDO_NODE
    || kind == REGULAR_EXPRESSION_NODE
    || kind == REQUIRED_KEYWORD_PARAMETER_NODE
    || kind == REQUIRED_PARAMETER_NODE
    || kind == REST_PARAMETER_NODE
    || kind == RETRY_NODE
    || kind == SELF_NODE
    || kind == SOURCE_ENCODING_NODE
    || kind == SOURCE_FILE_NODE
    || kind == SOURCE_LINE_NODE
    || kind == STRING_NODE
    || kind == SYMBOL_NODE
    || kind == TRUE_NODE
    || kind == X_STRING_NODE
}

} // verus!
