mod abi;
mod decl;
mod expr;
mod intrinsic;
mod pattern;
mod registry;
mod stmt;
mod types;
mod view;

pub use abi::ForeignAbi;
pub use decl::{
    EnumDef, EnumField, EnumPayload, EnumVariant, ExternalVerbDecl, GenericParam, Param,
    PerformDecl, Program, Role, RoleDecl, RoleMethod, StructDef, StructField, StructFieldRole,
    TopLevelDecl, TypeName, VerbDecl, builtin_enum_definitions, is_builtin_enum_list,
    is_plain_parameter, is_plain_type, is_single_tuple_variant, is_zero_span,
};
pub use expr::{Argument, BinaryOp, CaseBody, CaseBranch, CaseMode, Expr, StructFieldInit, UnaryOp};
pub use intrinsic::{
    IntrinsicKind, IntrinsicSpec, intrinsic_name, intrinsic_parameters, lookup_call_intrinsic,
    lookup_intrinsic, spec_lookup_call_intrinsic, spec_lookup_intrinsic,
};
pub use pattern::{LiteralPattern, NamedPattern, Pattern, PatternBinding, VariantPayload};
pub use registry::RegistryStatus;
pub use stmt::{Block, Stmt};
pub use types::{
    BuiltinType, BuiltinTypeSpec, builtin_type_name, lookup_builtin_type, spec_lookup_builtin_type,
};
pub use view::{
    EnumDefView, EnumFieldView, EnumVariantView, PayloadView, StructDefView, StructFieldView,
    TypeView, copy_enum_def, copy_generic_params, copy_struct_def, copy_type_name,
    copy_type_names, enum_def_view, enum_def_views, enum_field_view, enum_variant_view,
    parameter_views, payload_view, struct_def_view, struct_def_views, struct_field_view,
    type_view, type_views,
};
