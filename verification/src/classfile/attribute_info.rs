use vstd::prelude::*;
use crate::classfile::class_file_stream::{ClassFileStream, be_u16, be_u32};
use crate::classfile::error::DecodeError;
use crate::classfile::format::{
    Decoded,
    attribute_info_at,
    attribute_records_at,
    attribute_table_at,
    code_attribute_at,
    code_lengths_agree,
    declared_span,
    done,
    exception_entry_at,
    exception_table_at,
    exception_table_bytes,
    failed,
    header_len,
};
use crate::classfile::attribute_view::{
    AttributeInfoView,
    CodeAttributeView,
    is_registered,
    lemma_nested_table_view,
    table_view,
};
use crate::classfile::lemmas::{lemma_exception_table_round_trip, lemma_table_takes_declared_span};
use crate::oops::constant_pool::{CpEntry, resolve_name, same_text, utf8_at};

verus! {

/// One handler range of a method's exception table. The three `pc` fields
/// are offsets into the bytecode of the `Code` attribute that owns the
/// entry.
#[derive(Clone, Copy, Debug, PartialEq, Eq, Structural)]
pub struct ExceptionTableEntry {
    pub start_pc: u16,
    pub end_pc: u16,
    pub handler_pc: u16,
    /// Constant-pool index of the class caught, or 0 for a handler that
    /// catches everything.
    pub catch_type: u16,
}

impl ExceptionTableEntry {
    /// Whether the entry's offsets fit a bytecode sequence of `code_len`
    /// bytes: the guarded range is ordered and ends inside the code or at
    /// its end, and the handler starts inside the code.
    pub open spec fn fits(self, code_len: int) -> bool {
        self.start_pc <= self.end_pc <= code_len && self.handler_pc < code_len
    }

    /// Whether the entry's offsets fit a bytecode sequence of `code_len`
    /// bytes.
    pub fn is_within(&self, code_len: usize) -> (ok: bool)
        ensures
            ok == self.fits(code_len as int),
    {
        self.start_pc <= self.end_pc && self.end_pc as usize <= code_len
            && (self.handler_pc as usize) < code_len
    }

    /// Whether this is a handler for every exception type.
    pub fn catches_all(&self) -> (all: bool)
        ensures
            all == (self.catch_type == 0),
    {
        self.catch_type == 0
    }
}

/// The decoded body of a `Code` attribute.
#[derive(Debug, PartialEq, Eq)]
pub struct CodeAttribute {
    pub max_stack: u16,
    pub max_locals: u16,
    /// The method's bytecode, kept as it stands in the file.
    pub code: Vec<u8>,
    pub exception_table: Vec<ExceptionTableEntry>,
    /// The attributes nested inside this one.
    pub attribute_table: AttributeTable,
}

/// An attribute table: attributes in the order in which they stand in the
/// file.
pub type AttributeTable = Vec<AttributeInfo>;

/// One decoded attribute.
///
/// Only `Code` is decoded in full. The other names that the class-file
/// format registers have a variant of their own, without payload, which
/// stands for the attribute's kind; the decoder itself reports such an
/// attribute as `Unimplemented` with the name it found, and a name that the
/// format does not register as `Unknown`.
#[derive(Debug, PartialEq, Eq)]
pub enum AttributeInfo {
    ConstantValue(),
    Code(CodeAttribute),
    Exceptions(),
    SourceFile(),
    LineNumberTable(),
    LocalVariableTable(),
    InnerClasses(),
    Synthetic(),
    Deprecated(),
    EnclosingMethod(),
    Signature(),
    SourceDebugExtension(),
    LocalVariableTypeTable(),
    RuntimeVisibleAnnotations(),
    RuntimeInvisibleAnnotations(),
    RuntimeVisibleParameterAnnotations(),
    RuntimeInvisibleParameterAnnotations(),
    AnnotationDefault(),
    StackMapTable(),
    BootstrapMethods(),
    RuntimeVisibleTypeAnnotations(),
    RuntimeInvisibleTypeAnnotations(),
    MethodParameters(),
    Module(),
    ModulePackages(),
    ModuleMainClass(),
    NestHost(),
    NestMembers(),
    /// A registered attribute that this decoder passes over.
    Unimplemented(String),
    /// An attribute whose name the format does not register.
    Unknown(String),
}

impl CodeAttribute {
    /// A `Code` attribute with no bytecode, no handlers and no nested
    /// attributes.
    pub fn new() -> (code: CodeAttribute)
        ensures
            code@ == (CodeAttributeView {
                max_stack: 0,
                max_locals: 0,
                code: Seq::empty(),
                exception_table: Seq::empty(),
                attribute_table: Seq::empty(),
            }),
    {
        let code = CodeAttribute {
            max_stack: 0,
            max_locals: 0,
            code: Vec::new(),
            exception_table: Vec::new(),
            attribute_table: Vec::new(),
        };
        assert(code@.attribute_table =~= Seq::empty());
        code
    }
}

/// Whether `name` is one of the attribute names that the class-file format
/// registers.
pub fn is_registered_name(name: &str) -> (registered: bool)
    ensures
        registered == is_registered(name@),
{
    same_text(name, "ConstantValue")
        || same_text(name, "Code")
        || same_text(name, "Exceptions")
        || same_text(name, "SourceFile")
        || same_text(name, "LineNumberTable")
        || same_text(name, "LocalVariableTable")
        || same_text(name, "InnerClasses")
        || same_text(name, "Synthetic")
        || same_text(name, "Deprecated")
        || same_text(name, "EnclosingMethod")
        || same_text(name, "Signature")
        || same_text(name, "SourceDebugExtension")
        || same_text(name, "LocalVariableTypeTable")
        || same_text(name, "RuntimeVisibleAnnotations")
        || same_text(name, "RuntimeInvisibleAnnotations")
        || same_text(name, "RuntimeVisibleParameterAnnotations")
        || same_text(name, "RuntimeInvisibleParameterAnnotations")
        || same_text(name, "AnnotationDefault")
        || same_text(name, "StackMapTable")
        || same_text(name, "BootstrapMethods")
        || same_text(name, "RuntimeVisibleTypeAnnotations")
        || same_text(name, "RuntimeInvisibleTypeAnnotations")
        || same_text(name, "MethodParameters")
        || same_text(name, "Module")
        || same_text(name, "ModulePackages")
        || same_text(name, "ModuleMainClass")
        || same_text(name, "NestHost")
        || same_text(name, "NestMembers")
}

/// Decodes an exception table: a 16-bit count, then that many entries of
/// four 16-bit fields each, in file order.
///
/// Every announced entry is produced, with its fields as they stand in the
/// file. Where the announced entries do not all fit in what is left of the
/// stream, nothing but the count is consumed.
#[allow(non_snake_case)]
pub fn readExceptionTable(stream: &mut ClassFileStream) -> (r: Result<
    Vec<ExceptionTableEntry>,
    DecodeError,
>)
    ensures
        final(stream).data() == old(stream).data(),
        old(stream).offset() <= final(stream).offset() <= final(stream).data().len(),
        final(stream).offset() == exception_table_at(old(stream).data(), old(stream).offset()).end,
        match exception_table_at(old(stream).data(), old(stream).offset()).result {
            Ok(table) => r is Ok && r->Ok_0@ == table,
            Err(error) => r == Err::<Vec<ExceptionTableEntry>, DecodeError>(error),
        },
        r matches Ok(table) ==> table@.len() == be_u16(old(stream).data(), old(stream).offset()),
        r matches Ok(table) ==> exception_table_bytes(table@) == old(stream).data().subrange(
            old(stream).offset(),
            final(stream).offset(),
        ),
{
    let ghost bytes = stream.data();
    let length = stream.read_u16()?;
    let ghost first = stream.offset();
    if stream.remaining() < 8 * (length as usize) {
        return Err(DecodeError::TruncatedStream);
    }
    let mut exceptions: Vec<ExceptionTableEntry> = Vec::new();
    let mut i: u16 = 0;
    while i < length
        invariant
            stream.data() == bytes,
            old(stream).offset() == first - 2,
            i <= length,
            bytes.len() - first >= 8 * length,
            stream.offset() == first + 8 * i,
            exceptions@.len() == i,
            forall|k: int|
                0 <= k < i ==> exceptions@[k] == exception_entry_at(bytes, first + 8 * k),
        decreases length - i,
    {
        let start_pc = stream.read_u16()?;
        let end_pc = stream.read_u16()?;
        let handler_pc = stream.read_u16()?;
        let catch_type = stream.read_u16()?;
        exceptions.push(ExceptionTableEntry { start_pc, end_pc, handler_pc, catch_type });
        i = i + 1;
    }
    assert(exceptions@ =~= exception_table_at(bytes, first - 2).result->Ok_0);
    proof {
        lemma_exception_table_round_trip(bytes, first - 2);
    }
    Ok(exceptions)
}

/// What a table decodes to when `prefix` has been decoded already and
/// `rest` is the outcome for the records that follow.
spec fn after_prefix(
    prefix: Seq<AttributeInfoView>,
    rest: Decoded<Seq<AttributeInfoView>>,
) -> Decoded<Seq<AttributeInfoView>> {
    match rest.result {
        Ok(others) => done(prefix + others, rest.end),
        Err(error) => failed(error, rest.end),
    }
}

/// Decoding `count` records is decoding the first and then the others.
proof fn lemma_first_record_joins_prefix(
    bytes: Seq<u8>,
    at: int,
    pool: Seq<CpEntry>,
    depth: nat,
    count: nat,
    prefix: Seq<AttributeInfoView>,
)
    requires
        count > 0,
        attribute_info_at(bytes, at, pool, depth).result is Ok,
    ensures
        after_prefix(prefix, attribute_records_at(bytes, at, pool, depth, count)) == after_prefix(
            prefix.push(attribute_info_at(bytes, at, pool, depth).result->Ok_0),
            attribute_records_at(
                bytes,
                attribute_info_at(bytes, at, pool, depth).end,
                pool,
                depth,
                (count - 1) as nat,
            ),
        ),
{
    let first = attribute_info_at(bytes, at, pool, depth);
    let rest = attribute_records_at(bytes, first.end, pool, depth, (count - 1) as nat);
    if rest.result is Ok {
        let others = rest.result->Ok_0;
        assert(prefix + (seq![first.result->Ok_0] + others) =~= prefix.push(first.result->Ok_0)
            + others);
    }
}

/// Decodes an attribute table: a 16-bit count, then that many
/// `attribute_info` records, in file order. `Code` attributes in it may
/// nest at most `max_depth` levels deep, themselves included.
///
/// The first record that cannot be decoded ends the reading with its
/// error, and the cursor stays where that record's decoding left it.
pub fn read_read_attribute(
    stream: &mut ClassFileStream,
    entries: &[CpEntry],
    max_depth: usize,
) -> (r: Result<AttributeTable, DecodeError>)
    ensures
        final(stream).data() == old(stream).data(),
        old(stream).offset() <= final(stream).offset() <= final(stream).data().len(),
        final(stream).offset() == attribute_table_at(
            old(stream).data(),
            old(stream).offset(),
            entries@,
            max_depth as nat,
        ).end,
        match attribute_table_at(
            old(stream).data(),
            old(stream).offset(),
            entries@,
            max_depth as nat,
        ).result {
            Ok(table) => r is Ok && table_view(r->Ok_0@) == table,
            Err(error) => r == Err::<AttributeTable, DecodeError>(error),
        },
        r matches Ok(table) ==> table@.len() == be_u16(old(stream).data(), old(stream).offset()),
        r is Ok && code_lengths_agree(
            old(stream).data(),
            old(stream).offset() + 2,
            entries@,
            max_depth as nat,
            be_u16(old(stream).data(), old(stream).offset()) as nat,
        ) ==> final(stream).offset() == old(stream).offset() + 2 + declared_span(
            old(stream).data(),
            old(stream).offset() + 2,
            be_u16(old(stream).data(), old(stream).offset()) as nat,
        ),
    decreases max_depth, 2int,
{
    let ghost bytes = stream.data();
    let att_count = stream.read_u16()?;
    let ghost first = stream.offset();
    let ghost whole = attribute_records_at(
        bytes,
        first,
        entries@,
        max_depth as nat,
        att_count as nat,
    );
    let mut attrs: Vec<AttributeInfo> = Vec::new();
    let mut j: u16 = 0;
    assert(table_view(attrs@) + whole.result->Ok_0 =~= whole.result->Ok_0);
    while j < att_count
        invariant
            stream.data() == bytes,
            bytes == old(stream).data(),
            whole == attribute_table_at(bytes, old(stream).offset(), entries@, max_depth as nat),
            old(stream).offset() <= stream.offset() <= bytes.len(),
            j <= att_count,
            attrs@.len() == j,
            att_count == be_u16(bytes, old(stream).offset()),
            first == old(stream).offset() + 2,
            whole == after_prefix(
                table_view(attrs@),
                attribute_records_at(
                    bytes,
                    stream.offset(),
                    entries@,
                    max_depth as nat,
                    (att_count - j) as nat,
                ),
            ),
        decreases att_count - j,
    {
        let ghost at = stream.offset();
        let ghost before = table_view(attrs@);
        let attr = read_attribute_info(stream, entries, max_depth)?;
        proof {
            lemma_first_record_joins_prefix(
                bytes,
                at,
                entries@,
                max_depth as nat,
                (att_count - j) as nat,
                before,
            );
            assert(table_view(attrs@.push(attr)) =~= before.push(attr@));
        }
        attrs.push(attr);
        j = j + 1;
    }
    assert(table_view(attrs@) + Seq::<AttributeInfoView>::empty() =~= table_view(attrs@));
    proof {
        if code_lengths_agree(bytes, first, entries@, max_depth as nat, att_count as nat) {
            lemma_table_takes_declared_span(bytes, first - 2, entries@, max_depth as nat);
        }
    }
    Ok(attrs)
}

/// Decodes one `attribute_info` record: a 16-bit name index, a 32-bit
/// length and a body.
///
/// The name index must name a `Utf8` entry of `entries`, else the record is
/// refused with `MalformedIndex`. A record named `Code` has its body
/// decoded, provided that `max_depth` is not 0; the attributes nested in it
/// are then read with `max_depth - 1`. Any other record has exactly its
/// declared length passed over and is reported by name: as `Unimplemented`
/// where the format registers the name, as `Unknown` where it does not.
pub fn read_attribute_info(
    stream: &mut ClassFileStream,
    entries: &[CpEntry],
    max_depth: usize,
) -> (r: Result<AttributeInfo, DecodeError>)
    ensures
        final(stream).data() == old(stream).data(),
        old(stream).offset() <= final(stream).offset() <= final(stream).data().len(),
        final(stream).offset() == attribute_info_at(
            old(stream).data(),
            old(stream).offset(),
            entries@,
            max_depth as nat,
        ).end,
        match attribute_info_at(
            old(stream).data(),
            old(stream).offset(),
            entries@,
            max_depth as nat,
        ).result {
            Ok(attribute) => r is Ok && r->Ok_0@ == attribute,
            Err(error) => r == Err::<AttributeInfo, DecodeError>(error),
        },
        old(stream).unread() >= header_len() && utf8_at(
            entries@,
            be_u16(old(stream).data(), old(stream).offset()) as int,
        ) is None ==> r == Err::<AttributeInfo, DecodeError>(DecodeError::MalformedIndex),
    decreases max_depth, 0int,
{
    let attr_name_index = stream.read_u16()?;
    let attr_len = stream.read_u32()?;
    let attr_name = resolve_name(entries, attr_name_index)?;
    if same_text(attr_name.as_str(), "Code") {
        if max_depth == 0 {
            return Err(DecodeError::RecursionLimitExceeded);
        }
        let attribute = read_code_attribute(stream, entries, max_depth - 1)?;
        Ok(AttributeInfo::Code(attribute))
    } else {
        stream.skip(attr_len)?;
        if is_registered_name(attr_name.as_str()) {
            Ok(AttributeInfo::Unimplemented(attr_name.clone()))
        } else {
            Ok(AttributeInfo::Unknown(attr_name.clone()))
        }
    }
}

/// Decodes the body of a `Code` attribute, with the cursor just after the
/// record's header: `max_stack`, `max_locals`, a 32-bit `code_length`,
/// exactly that many bytes of bytecode, an exception table, and an
/// attribute table whose `Code` attributes may nest `max_depth` levels
/// further.
pub fn read_code_attribute(
    stream: &mut ClassFileStream,
    entries: &[CpEntry],
    max_depth: usize,
) -> (r: Result<CodeAttribute, DecodeError>)
    ensures
        final(stream).data() == old(stream).data(),
        old(stream).offset() <= final(stream).offset() <= final(stream).data().len(),
        final(stream).offset() == code_attribute_at(
            old(stream).data(),
            old(stream).offset(),
            entries@,
            max_depth as nat,
        ).end,
        match code_attribute_at(
            old(stream).data(),
            old(stream).offset(),
            entries@,
            max_depth as nat,
        ).result {
            Ok(code) => r is Ok && r->Ok_0@ == code,
            Err(error) => r == Err::<CodeAttribute, DecodeError>(error),
        },
        r matches Ok(code) ==> code.code@ == old(stream).data().subrange(
            old(stream).offset() + 8,
            old(stream).offset() + 8 + be_u32(old(stream).data(), old(stream).offset() + 4),
        ),
    decreases max_depth, 3int,
{
    let max_stack = stream.read_u16()?;
    let max_locals = stream.read_u16()?;
    let code_length = stream.read_u32()?;
    let code = stream.read_to_length(code_length)?;
    let exception_table = readExceptionTable(stream)?;
    let attribute_table = read_read_attribute(stream, entries, max_depth)?;
    let attribute = CodeAttribute { max_stack, max_locals, code, exception_table, attribute_table };
    proof {
        lemma_nested_table_view(attribute);
    }
    Ok(attribute)
}

impl AttributeInfo {
    /// The name under which the attribute stands in a class file: for a
    /// registered kind the name that the format gives it, for the two
    /// catch-alls the name that was found.
    pub fn name(&self) -> (name: &str)
        ensures
            name@ == self@.name(),
    {
        match self {
            AttributeInfo::ConstantValue() => "ConstantValue",
            AttributeInfo::Code(_) => "Code",
            AttributeInfo::Exceptions() => "Exceptions",
            AttributeInfo::SourceFile() => "SourceFile",
            AttributeInfo::LineNumberTable() => "LineNumberTable",
            AttributeInfo::LocalVariableTable() => "LocalVariableTable",
            AttributeInfo::InnerClasses() => "InnerClasses",
            AttributeInfo::Synthetic() => "Synthetic",
            AttributeInfo::Deprecated() => "Deprecated",
            AttributeInfo::EnclosingMethod() => "EnclosingMethod",
            AttributeInfo::Signature() => "Signature",
            AttributeInfo::SourceDebugExtension() => "SourceDebugExtension",
            AttributeInfo::LocalVariableTypeTable() => "LocalVariableTypeTable",
            AttributeInfo::RuntimeVisibleAnnotations() => "RuntimeVisibleAnnotations",
            AttributeInfo::RuntimeInvisibleAnnotations() => "RuntimeInvisibleAnnotations",
            AttributeInfo::RuntimeVisibleParameterAnnotations() => "RuntimeVisibleParameterAnnotations",
            AttributeInfo::RuntimeInvisibleParameterAnnotations() => "RuntimeInvisibleParameterAnnotations",
            AttributeInfo::AnnotationDefault() => "AnnotationDefault",
            AttributeInfo::StackMapTable() => "StackMapTable",
            AttributeInfo::BootstrapMethods() => "BootstrapMethods",
            AttributeInfo::RuntimeVisibleTypeAnnotations() => "RuntimeVisibleTypeAnnotations",
            AttributeInfo::RuntimeInvisibleTypeAnnotations() => "RuntimeInvisibleTypeAnnotations",
            AttributeInfo::MethodParameters() => "MethodParameters",
            AttributeInfo::Module() => "Module",
            AttributeInfo::ModulePackages() => "ModulePackages",
            AttributeInfo::ModuleMainClass() => "ModuleMainClass",
            AttributeInfo::NestHost() => "NestHost",
            AttributeInfo::NestMembers() => "NestMembers",
            AttributeInfo::Unimplemented(name) => name.as_str(),
            AttributeInfo::Unknown(name) => name.as_str(),
        }
    }
}

impl CodeAttribute {
    /// Whether every entry of the exception table fits the bytecode: see
    /// `ExceptionTableEntry::fits`.
    pub fn handlers_fit(&self) -> (ok: bool)
        ensures
            ok == forall|i: int|
                0 <= i < self.exception_table@.len() ==> (#[trigger] self.exception_table@[i]).fits(
                    self.code@.len() as int,
                ),
    {
        let mut i: usize = 0;
        while i < self.exception_table.len()
            invariant
                i <= self.exception_table@.len(),
                forall|k: int|
                    0 <= k < i ==> (#[trigger] self.exception_table@[k]).fits(
                        self.code@.len() as int,
                    ),
            decreases self.exception_table@.len() - i,
        {
            if !self.exception_table[i].is_within(self.code.len()) {
                return false;
            }
            i = i + 1;
        }
        true
    }
}

/// A copy of a `Code` attribute's body, nested attributes included.
fn copy_code(code: &CodeAttribute) -> (copy: CodeAttribute)
    ensures
        copy@ == code@,
    decreases code, 1int,
{
    let mut attribute_table: Vec<AttributeInfo> = Vec::new();
    let mut i: usize = 0;
    while i < code.attribute_table.len()
        invariant
            i <= code.attribute_table@.len(),
            attribute_table@.len() == i,
            forall|k: int| 0 <= k < i ==> attribute_table@[k]@ == code.attribute_table@[k]@,
        decreases code.attribute_table@.len() - i,
    {
        proof {
            assert(decreases_to!(code => code.attribute_table));
            assert(decreases_to!(code.attribute_table => code.attribute_table[i as int]));
        }
        attribute_table.push(copy_attribute(&code.attribute_table[i]));
        i = i + 1;
    }
    let copy = CodeAttribute {
        max_stack: code.max_stack,
        max_locals: code.max_locals,
        code: code.code.clone(),
        exception_table: code.exception_table.clone(),
        attribute_table,
    };
    assert(copy@.attribute_table =~= code@.attribute_table);
    assert(copy@.exception_table =~= code@.exception_table);
    assert(copy@.code =~= code@.code);
    copy
}

/// A copy of an attribute, nested attributes included.
fn copy_attribute(attribute: &AttributeInfo) -> (copy: AttributeInfo)
    ensures
        copy@ == attribute@,
    decreases attribute, 0int,
{
    match attribute {
        AttributeInfo::Code(code) => AttributeInfo::Code(copy_code(code)),
        AttributeInfo::ConstantValue() => AttributeInfo::ConstantValue(),
        AttributeInfo::Exceptions() => AttributeInfo::Exceptions(),
        AttributeInfo::SourceFile() => AttributeInfo::SourceFile(),
        AttributeInfo::LineNumberTable() => AttributeInfo::LineNumberTable(),
        AttributeInfo::LocalVariableTable() => AttributeInfo::LocalVariableTable(),
        AttributeInfo::InnerClasses() => AttributeInfo::InnerClasses(),
        AttributeInfo::Synthetic() => AttributeInfo::Synthetic(),
        AttributeInfo::Deprecated() => AttributeInfo::Deprecated(),
        AttributeInfo::EnclosingMethod() => AttributeInfo::EnclosingMethod(),
        AttributeInfo::Signature() => AttributeInfo::Signature(),
        AttributeInfo::SourceDebugExtension() => AttributeInfo::SourceDebugExtension(),
        AttributeInfo::LocalVariableTypeTable() => AttributeInfo::LocalVariableTypeTable(),
        AttributeInfo::RuntimeVisibleAnnotations() => AttributeInfo::RuntimeVisibleAnnotations(),
        AttributeInfo::RuntimeInvisibleAnnotations() => AttributeInfo::RuntimeInvisibleAnnotations(),
        AttributeInfo::RuntimeVisibleParameterAnnotations() => AttributeInfo::RuntimeVisibleParameterAnnotations(),
        AttributeInfo::RuntimeInvisibleParameterAnnotations() => AttributeInfo::RuntimeInvisibleParameterAnnotations(),
        AttributeInfo::AnnotationDefault() => AttributeInfo::AnnotationDefault(),
        AttributeInfo::StackMapTable() => AttributeInfo::StackMapTable(),
        AttributeInfo::BootstrapMethods() => AttributeInfo::BootstrapMethods(),
        AttributeInfo::RuntimeVisibleTypeAnnotations() => AttributeInfo::RuntimeVisibleTypeAnnotations(),
        AttributeInfo::RuntimeInvisibleTypeAnnotations() => AttributeInfo::RuntimeInvisibleTypeAnnotations(),
        AttributeInfo::MethodParameters() => AttributeInfo::MethodParameters(),
        AttributeInfo::Module() => AttributeInfo::Module(),
        AttributeInfo::ModulePackages() => AttributeInfo::ModulePackages(),
        AttributeInfo::ModuleMainClass() => AttributeInfo::ModuleMainClass(),
        AttributeInfo::NestHost() => AttributeInfo::NestHost(),
        AttributeInfo::NestMembers() => AttributeInfo::NestMembers(),
        AttributeInfo::Unimplemented(name) => AttributeInfo::Unimplemented(name.clone()),
        AttributeInfo::Unknown(name) => AttributeInfo::Unknown(name.clone()),
    }
}

impl Clone for CodeAttribute {
    fn clone(&self) -> (copy: CodeAttribute)
        ensures
            copy@ == self@,
    {
        copy_code(self)
    }
}

impl Clone for AttributeInfo {
    fn clone(&self) -> (copy: AttributeInfo)
        ensures
            copy@ == self@,
    {
        copy_attribute(self)
    }
}

} // verus!
