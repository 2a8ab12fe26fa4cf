//! The decoded attributes as mathematical values, for use in contracts.

use vstd::prelude::*;
use crate::classfile::attribute_info::{AttributeInfo, CodeAttribute, ExceptionTableEntry};

verus! {

/// What a `CodeAttribute` holds, as mathematical values.
pub struct CodeAttributeView {
    pub max_stack: u16,
    pub max_locals: u16,
    pub code: Seq<u8>,
    pub exception_table: Seq<ExceptionTableEntry>,
    pub attribute_table: Seq<AttributeInfoView>,
}

/// What an `AttributeInfo` holds, as mathematical values.
pub enum AttributeInfoView {
    ConstantValue,
    Code(CodeAttributeView),
    Exceptions,
    SourceFile,
    LineNumberTable,
    LocalVariableTable,
    InnerClasses,
    Synthetic,
    Deprecated,
    EnclosingMethod,
    Signature,
    SourceDebugExtension,
    LocalVariableTypeTable,
    RuntimeVisibleAnnotations,
    RuntimeInvisibleAnnotations,
    RuntimeVisibleParameterAnnotations,
    RuntimeInvisibleParameterAnnotations,
    AnnotationDefault,
    StackMapTable,
    BootstrapMethods,
    RuntimeVisibleTypeAnnotations,
    RuntimeInvisibleTypeAnnotations,
    MethodParameters,
    Module,
    ModulePackages,
    ModuleMainClass,
    NestHost,
    NestMembers,
    Unimplemented(Seq<char>),
    Unknown(Seq<char>),
}

/// The mathematical value of one attribute.
pub open spec fn attribute_view(attribute: AttributeInfo) -> AttributeInfoView
    decreases attribute, 0int,
{
    match attribute {
        AttributeInfo::ConstantValue() => AttributeInfoView::ConstantValue,
        AttributeInfo::Code(code) => AttributeInfoView::Code(code_view(code)),
        AttributeInfo::Exceptions() => AttributeInfoView::Exceptions,
        AttributeInfo::SourceFile() => AttributeInfoView::SourceFile,
        AttributeInfo::LineNumberTable() => AttributeInfoView::LineNumberTable,
        AttributeInfo::LocalVariableTable() => AttributeInfoView::LocalVariableTable,
        AttributeInfo::InnerClasses() => AttributeInfoView::InnerClasses,
        AttributeInfo::Synthetic() => AttributeInfoView::Synthetic,
        AttributeInfo::Deprecated() => AttributeInfoView::Deprecated,
        AttributeInfo::EnclosingMethod() => AttributeInfoView::EnclosingMethod,
        AttributeInfo::Signature() => AttributeInfoView::Signature,
        AttributeInfo::SourceDebugExtension() => AttributeInfoView::SourceDebugExtension,
        AttributeInfo::LocalVariableTypeTable() => AttributeInfoView::LocalVariableTypeTable,
        AttributeInfo::RuntimeVisibleAnnotations() => AttributeInfoView::RuntimeVisibleAnnotations,
        AttributeInfo::RuntimeInvisibleAnnotations() => AttributeInfoView::RuntimeInvisibleAnnotations,
        AttributeInfo::RuntimeVisibleParameterAnnotations() => AttributeInfoView::RuntimeVisibleParameterAnnotations,
        AttributeInfo::RuntimeInvisibleParameterAnnotations() => AttributeInfoView::RuntimeInvisibleParameterAnnotations,
        AttributeInfo::AnnotationDefault() => AttributeInfoView::AnnotationDefault,
        AttributeInfo::StackMapTable() => AttributeInfoView::StackMapTable,
        AttributeInfo::BootstrapMethods() => AttributeInfoView::BootstrapMethods,
        AttributeInfo::RuntimeVisibleTypeAnnotations() => AttributeInfoView::RuntimeVisibleTypeAnnotations,
        AttributeInfo::RuntimeInvisibleTypeAnnotations() => AttributeInfoView::RuntimeInvisibleTypeAnnotations,
        AttributeInfo::MethodParameters() => AttributeInfoView::MethodParameters,
        AttributeInfo::Module() => AttributeInfoView::Module,
        AttributeInfo::ModulePackages() => AttributeInfoView::ModulePackages,
        AttributeInfo::ModuleMainClass() => AttributeInfoView::ModuleMainClass,
        AttributeInfo::NestHost() => AttributeInfoView::NestHost,
        AttributeInfo::NestMembers() => AttributeInfoView::NestMembers,
        AttributeInfo::Unimplemented(name) => AttributeInfoView::Unimplemented(name@),
        AttributeInfo::Unknown(name) => AttributeInfoView::Unknown(name@),
    }
}

/// The mathematical value of a `Code` attribute's body.
pub open spec fn code_view(code: CodeAttribute) -> CodeAttributeView
    decreases code, 1int,
{
    CodeAttributeView {
        max_stack: code.max_stack,
        max_locals: code.max_locals,
        code: code.code@,
        exception_table: code.exception_table@,
        attribute_table: Seq::new(
            code.attribute_table@.len(),
            |i: int|
                if 0 <= i < code.attribute_table@.len() {
                    attribute_view(code.attribute_table@[i])
                } else {
                    AttributeInfoView::ConstantValue
                },
        ),
    }
}

impl View for AttributeInfo {
    type V = AttributeInfoView;

    open spec fn view(&self) -> AttributeInfoView {
        attribute_view(*self)
    }
}

impl View for CodeAttribute {
    type V = CodeAttributeView;

    open spec fn view(&self) -> CodeAttributeView {
        code_view(*self)
    }
}

/// The views of the attributes of a table, in order.
pub open spec fn table_view(table: Seq<AttributeInfo>) -> Seq<AttributeInfoView> {
    Seq::new(table.len(), |i: int| table[i]@)
}

/// The nested table of a `Code` attribute's view holds the views of the
/// attributes nested in it.
pub proof fn lemma_nested_table_view(code: CodeAttribute)
    ensures
        code@.attribute_table == table_view(code.attribute_table@),
{
    assert(code@.attribute_table =~= table_view(code.attribute_table@));
}

impl AttributeInfoView {
    /// The name under which the attribute stands in a class file.
    pub open spec fn name(self) -> Seq<char> {
        match self {
            AttributeInfoView::ConstantValue => "ConstantValue"@,
            AttributeInfoView::Code(_) => "Code"@,
            AttributeInfoView::Exceptions => "Exceptions"@,
            AttributeInfoView::SourceFile => "SourceFile"@,
            AttributeInfoView::LineNumberTable => "LineNumberTable"@,
            AttributeInfoView::LocalVariableTable => "LocalVariableTable"@,
            AttributeInfoView::InnerClasses => "InnerClasses"@,
            AttributeInfoView::Synthetic => "Synthetic"@,
            AttributeInfoView::Deprecated => "Deprecated"@,
            AttributeInfoView::EnclosingMethod => "EnclosingMethod"@,
            AttributeInfoView::Signature => "Signature"@,
            AttributeInfoView::SourceDebugExtension => "SourceDebugExtension"@,
            AttributeInfoView::LocalVariableTypeTable => "LocalVariableTypeTable"@,
            AttributeInfoView::RuntimeVisibleAnnotations => "RuntimeVisibleAnnotations"@,
            AttributeInfoView::RuntimeInvisibleAnnotations => "RuntimeInvisibleAnnotations"@,
            AttributeInfoView::RuntimeVisibleParameterAnnotations => "RuntimeVisibleParameterAnnotations"@,
            AttributeInfoView::RuntimeInvisibleParameterAnnotations => "RuntimeInvisibleParameterAnnotations"@,
            AttributeInfoView::AnnotationDefault => "AnnotationDefault"@,
            AttributeInfoView::StackMapTable => "StackMapTable"@,
            AttributeInfoView::BootstrapMethods => "BootstrapMethods"@,
            AttributeInfoView::RuntimeVisibleTypeAnnotations => "RuntimeVisibleTypeAnnotations"@,
            AttributeInfoView::RuntimeInvisibleTypeAnnotations => "RuntimeInvisibleTypeAnnotations"@,
            AttributeInfoView::MethodParameters => "MethodParameters"@,
            AttributeInfoView::Module => "Module"@,
            AttributeInfoView::ModulePackages => "ModulePackages"@,
            AttributeInfoView::ModuleMainClass => "ModuleMainClass"@,
            AttributeInfoView::NestHost => "NestHost"@,
            AttributeInfoView::NestMembers => "NestMembers"@,
            AttributeInfoView::Unimplemented(name) => name,
            AttributeInfoView::Unknown(name) => name,
        }
    }
}

/// Whether `name` is one of the attribute names that the class-file format
/// registers.
pub open spec fn is_registered(name: Seq<char>) -> bool {
    ||| name == "ConstantValue"@
    ||| name == "Code"@
    ||| name == "Exceptions"@
    ||| name == "SourceFile"@
    ||| name == "LineNumberTable"@
    ||| name == "LocalVariableTable"@
    ||| name == "InnerClasses"@
    ||| name == "Synthetic"@
    ||| name == "Deprecated"@
    ||| name == "EnclosingMethod"@
    ||| name == "Signature"@
    ||| name == "SourceDebugExtension"@
    ||| name == "LocalVariableTypeTable"@
    ||| name == "RuntimeVisibleAnnotations"@
    ||| name == "RuntimeInvisibleAnnotations"@
    ||| name == "RuntimeVisibleParameterAnnotations"@
    ||| name == "RuntimeInvisibleParameterAnnotations"@
    ||| name == "AnnotationDefault"@
    ||| name == "StackMapTable"@
    ||| name == "BootstrapMethods"@
    ||| name == "RuntimeVisibleTypeAnnotations"@
    ||| name == "RuntimeInvisibleTypeAnnotations"@
    ||| name == "MethodParameters"@
    ||| name == "Module"@
    ||| name == "ModulePackages"@
    ||| name == "ModuleMainClass"@
    ||| name == "NestHost"@
    ||| name == "NestMembers"@
}

/// How many `Code` attributes stand one inside the other in `attribute`,
/// itself included: 0 for an attribute that is not `Code`.
pub open spec fn nesting(attribute: AttributeInfoView) -> nat
    decreases attribute,
{
    match attribute {
        AttributeInfoView::Code(code) => 1 + table_nesting(code.attribute_table),
        _ => 0,
    }
}

/// The deepest nesting among the attributes of `table`.
pub open spec fn table_nesting(table: Seq<AttributeInfoView>) -> nat
    decreases table,
{
    if table.len() == 0 {
        0
    } else {
        let first = nesting(table.first());
        let others = table_nesting(table.drop_first());
        if first >= others {
            first
        } else {
            others
        }
    }
}

} // verus!
