//! What holds of the format whatever the bytes are.

use vstd::prelude::*;
use crate::classfile::attribute_info::ExceptionTableEntry;
use crate::classfile::attribute_view::{
    AttributeInfoView,
    CodeAttributeView,
    is_registered,
    nesting,
    table_nesting,
};
use crate::classfile::class_file_stream::{be_u16, be_u32};
use crate::classfile::error::DecodeError;
use crate::classfile::format::{
    attribute_info_at,
    attribute_records_at,
    attribute_table_at,
    code_attribute_at,
    code_lengths_agree,
    code_name,
    declared_length,
    declared_span,
    done,
    exception_entries_bytes,
    exception_entry_at,
    exception_entry_bytes,
    exception_entry_len,
    exception_table_at,
    exception_table_bytes,
    failed,
    header_len,
    u16_bytes,
};
use crate::oops::constant_pool::{CpEntry, utf8_at};

verus! {

/// Writing a 16-bit value read at `at` gives back the two bytes at `at`.
pub proof fn lemma_u16_bytes_of_be_u16(bytes: Seq<u8>, at: int)
    requires
        0 <= at,
        at + 2 <= bytes.len(),
    ensures
        u16_bytes(be_u16(bytes, at)) == bytes.subrange(at, at + 2),
{
    assert(u16_bytes(be_u16(bytes, at)) =~= bytes.subrange(at, at + 2));
}

/// Reading the two bytes of a 16-bit value gives the value back.
pub proof fn lemma_be_u16_of_u16_bytes(value: u16, bytes: Seq<u8>, at: int)
    requires
        0 <= at,
        at + 2 <= bytes.len(),
        bytes.subrange(at, at + 2) == u16_bytes(value),
    ensures
        be_u16(bytes, at) == value,
{
    assert(bytes[at] == bytes.subrange(at, at + 2)[0]);
    assert(bytes[at + 1] == bytes.subrange(at, at + 2)[1]);
}

/// Writing the entry read at `at` gives back the eight bytes at `at`.
pub proof fn lemma_exception_entry_round_trip(bytes: Seq<u8>, at: int)
    requires
        0 <= at,
        at + exception_entry_len() <= bytes.len(),
    ensures
        exception_entry_bytes(exception_entry_at(bytes, at)) == bytes.subrange(
            at,
            at + exception_entry_len(),
        ),
{
    lemma_u16_bytes_of_be_u16(bytes, at);
    lemma_u16_bytes_of_be_u16(bytes, at + 2);
    lemma_u16_bytes_of_be_u16(bytes, at + 4);
    lemma_u16_bytes_of_be_u16(bytes, at + 6);
    assert(exception_entry_bytes(exception_entry_at(bytes, at)) =~= bytes.subrange(at, at + 8));
}

/// Writing the first `count` entries found from `first` on gives back the
/// bytes that they were read from.
proof fn lemma_exception_entries_round_trip(bytes: Seq<u8>, first: int, count: nat)
    requires
        0 <= first,
        first + exception_entry_len() * count <= bytes.len(),
    ensures
        exception_entries_bytes(
            Seq::new(count, |i: int| exception_entry_at(bytes, first + exception_entry_len() * i)),
        ) == bytes.subrange(first, first + exception_entry_len() * count),
    decreases count,
{
    let entries = Seq::new(
        count,
        |i: int| exception_entry_at(bytes, first + exception_entry_len() * i),
    );
    if count == 0 {
        assert(exception_entries_bytes(entries) =~= bytes.subrange(first, first));
    } else {
        let fewer = (count - 1) as nat;
        let last_at = first + exception_entry_len() * fewer;
        lemma_exception_entries_round_trip(bytes, first, fewer);
        lemma_exception_entry_round_trip(bytes, last_at);
        assert(entries.drop_last() =~= Seq::new(
            fewer,
            |i: int| exception_entry_at(bytes, first + exception_entry_len() * i),
        ));
        assert(entries.last() == exception_entry_at(bytes, last_at));
        assert(bytes.subrange(first, last_at) + bytes.subrange(last_at, last_at + 8)
            =~= bytes.subrange(first, first + exception_entry_len() * count));
    }
}

/// An exception table that announces `L` entries decodes to exactly `L`
/// entries, each with the four fields that stand in the file, and writing
/// the decoded table gives back the very bytes that it was read from.
pub proof fn lemma_exception_table_round_trip(bytes: Seq<u8>, at: int)
    requires
        0 <= at,
        exception_table_at(bytes, at).result is Ok,
    ensures
        ({
            let decoded = exception_table_at(bytes, at);
            let table = decoded.result->Ok_0;
            &&& table.len() == be_u16(bytes, at)
            &&& forall|i: int|
                0 <= i < table.len() ==> table[i] == exception_entry_at(
                    bytes,
                    at + 2 + exception_entry_len() * i,
                )
            &&& decoded.end == at + 2 + exception_entry_len() * table.len()
            &&& decoded.end <= bytes.len()
            &&& exception_table_bytes(table) == bytes.subrange(at, decoded.end)
        }),
{
    let decoded = exception_table_at(bytes, at);
    let table = decoded.result->Ok_0;
    let count = be_u16(bytes, at) as nat;
    lemma_u16_bytes_of_be_u16(bytes, at);
    lemma_exception_entries_round_trip(bytes, at + 2, count);
    assert(exception_table_bytes(table) =~= bytes.subrange(at, decoded.end));
}

/// The entries of a table take eight bytes each.
pub proof fn lemma_exception_entries_bytes_len(entries: Seq<ExceptionTableEntry>)
    ensures
        exception_entries_bytes(entries).len() == exception_entry_len() * entries.len(),
    decreases entries.len(),
{
    if entries.len() > 0 {
        lemma_exception_entries_bytes_len(entries.drop_last());
    }
}

/// In the bytes of a run of entries, entry `i` stands at offset `8 * i`.
proof fn lemma_exception_entry_bytes_at(entries: Seq<ExceptionTableEntry>, i: int)
    requires
        0 <= i < entries.len(),
    ensures
        exception_entries_bytes(entries).len() == exception_entry_len() * entries.len(),
        exception_entries_bytes(entries).subrange(
            exception_entry_len() * i,
            exception_entry_len() * i + exception_entry_len(),
        ) == exception_entry_bytes(entries[i]),
    decreases entries.len(),
{
    let all = exception_entries_bytes(entries);
    let before = exception_entries_bytes(entries.drop_last());
    lemma_exception_entries_bytes_len(entries);
    lemma_exception_entries_bytes_len(entries.drop_last());
    if i == entries.len() - 1 {
        assert(all.subrange(8 * i, 8 * i + 8) =~= exception_entry_bytes(entries.last()));
    } else {
        lemma_exception_entry_bytes_at(entries.drop_last(), i);
        assert(all.subrange(8 * i, 8 * i + 8) =~= before.subrange(8 * i, 8 * i + 8));
    }
}

/// Reading the eight bytes of an entry gives the entry back.
proof fn lemma_exception_entry_at_its_bytes(entry: ExceptionTableEntry, bytes: Seq<u8>, at: int)
    requires
        0 <= at,
        at + exception_entry_len() <= bytes.len(),
        bytes.subrange(at, at + exception_entry_len()) == exception_entry_bytes(entry),
    ensures
        exception_entry_at(bytes, at) == entry,
{
    let eight = bytes.subrange(at, at + 8);
    assert(bytes.subrange(at, at + 2) =~= eight.subrange(0, 2));
    assert(bytes.subrange(at + 2, at + 4) =~= eight.subrange(2, 4));
    assert(bytes.subrange(at + 4, at + 6) =~= eight.subrange(4, 6));
    assert(bytes.subrange(at + 6, at + 8) =~= eight.subrange(6, 8));
    assert(eight.subrange(0, 2) =~= u16_bytes(entry.start_pc));
    assert(eight.subrange(2, 4) =~= u16_bytes(entry.end_pc));
    assert(eight.subrange(4, 6) =~= u16_bytes(entry.handler_pc));
    assert(eight.subrange(6, 8) =~= u16_bytes(entry.catch_type));
    lemma_be_u16_of_u16_bytes(entry.start_pc, bytes, at);
    lemma_be_u16_of_u16_bytes(entry.end_pc, bytes, at + 2);
    lemma_be_u16_of_u16_bytes(entry.handler_pc, bytes, at + 4);
    lemma_be_u16_of_u16_bytes(entry.catch_type, bytes, at + 6);
}

/// A table of at most 65 535 entries, once written, decodes to itself and
/// to nothing more: the decoder stops at the end of its bytes.
pub proof fn lemma_exception_table_decodes_its_bytes(entries: Seq<ExceptionTableEntry>)
    requires
        entries.len() <= 0xffff,
    ensures
        exception_table_at(exception_table_bytes(entries), 0) == done(
            entries,
            exception_table_bytes(entries).len() as int,
        ),
{
    let bytes = exception_table_bytes(entries);
    let body = exception_entries_bytes(entries);
    lemma_exception_entries_bytes_len(entries);
    assert(bytes.subrange(0, 2) =~= u16_bytes(entries.len() as u16));
    lemma_be_u16_of_u16_bytes(entries.len() as u16, bytes, 0);
    let decoded = exception_table_at(bytes, 0);
    assert(decoded.result is Ok);
    let table = decoded.result->Ok_0;
    assert forall|i: int| 0 <= i < entries.len() implies table[i] == entries[i] by {
        lemma_exception_entry_bytes_at(entries, i);
        assert(bytes.subrange(2 + 8 * i, 2 + 8 * i + 8) =~= body.subrange(8 * i, 8 * i + 8));
        lemma_exception_entry_at_its_bytes(entries[i], bytes, 2 + 8 * i);
    }
    assert(table =~= entries);
}

/// A record that is not a `Code` attribute takes its header and exactly its
/// declared length.
pub proof fn lemma_plain_record_takes_declared_length(
    bytes: Seq<u8>,
    at: int,
    pool: Seq<CpEntry>,
    depth: nat,
)
    requires
        attribute_info_at(bytes, at, pool, depth).result is Ok,
        !(attribute_info_at(bytes, at, pool, depth).result->Ok_0 is Code),
    ensures
        attribute_info_at(bytes, at, pool, depth).end == at + header_len() + declared_length(
            bytes,
            at,
        ),
{
}

/// `count` records that decode, and whose `Code` records declare the
/// length that they take, are `count` attributes, and take between them the
/// sum of their headers and declared lengths.
pub proof fn lemma_records_take_declared_span(
    bytes: Seq<u8>,
    at: int,
    pool: Seq<CpEntry>,
    depth: nat,
    count: nat,
)
    requires
        attribute_records_at(bytes, at, pool, depth, count).result is Ok,
        code_lengths_agree(bytes, at, pool, depth, count),
    ensures
        attribute_records_at(bytes, at, pool, depth, count).result->Ok_0.len() == count,
        attribute_records_at(bytes, at, pool, depth, count).end == at + declared_span(
            bytes,
            at,
            count,
        ),
    decreases count,
{
    if count > 0 {
        let first = attribute_info_at(bytes, at, pool, depth);
        if !(first.result->Ok_0 is Code) {
            lemma_plain_record_takes_declared_length(bytes, at, pool, depth);
        }
        lemma_records_take_declared_span(bytes, first.end, pool, depth, (count - 1) as nat);
    }
}

/// An attribute table of `N` records that decodes, and whose `Code`
/// records declare the length that they take, holds `N` attributes and
/// ends where the declarations say: after its count and, for each record,
/// six bytes of header and the declared length.
pub proof fn lemma_table_takes_declared_span(
    bytes: Seq<u8>,
    at: int,
    pool: Seq<CpEntry>,
    depth: nat,
)
    requires
        attribute_table_at(bytes, at, pool, depth).result is Ok,
        code_lengths_agree(bytes, at + 2, pool, depth, be_u16(bytes, at) as nat),
    ensures
        attribute_table_at(bytes, at, pool, depth).result->Ok_0.len() == be_u16(bytes, at),
        attribute_table_at(bytes, at, pool, depth).end == at + 2 + declared_span(
            bytes,
            at + 2,
            be_u16(bytes, at) as nat,
        ),
{
    lemma_records_take_declared_span(bytes, at + 2, pool, depth, be_u16(bytes, at) as nat);
}

/// Records that decode to no `Code` attribute declare the lengths that they
/// take.
pub proof fn lemma_plain_records_agree(
    bytes: Seq<u8>,
    at: int,
    pool: Seq<CpEntry>,
    depth: nat,
    count: nat,
)
    requires
        attribute_records_at(bytes, at, pool, depth, count).result is Ok,
        forall|i: int|
            0 <= i < attribute_records_at(bytes, at, pool, depth, count).result->Ok_0.len()
                ==> !(#[trigger] attribute_records_at(
                bytes,
                at,
                pool,
                depth,
                count,
            ).result->Ok_0[i] is Code),
    ensures
        code_lengths_agree(bytes, at, pool, depth, count),
    decreases count,
{
    if count > 0 {
        let first = attribute_info_at(bytes, at, pool, depth);
        let rest = attribute_records_at(bytes, first.end, pool, depth, (count - 1) as nat);
        let all = attribute_records_at(bytes, at, pool, depth, count).result->Ok_0;
        assert(all[0] == first.result->Ok_0);
        lemma_plain_record_takes_declared_length(bytes, at, pool, depth);
        assert forall|i: int| 0 <= i < rest.result->Ok_0.len() implies !(
        #[trigger] rest.result->Ok_0[i] is Code) by {
            assert(all[i + 1] == rest.result->Ok_0[i]);
        }
        lemma_plain_records_agree(bytes, first.end, pool, depth, (count - 1) as nat);
    }
}

/// The bytecode of a `Code` attribute is kept whole: as many bytes as the
/// 32-bit `code_length` says, however many that is, and the very bytes that
/// follow it in the file.
pub proof fn lemma_code_is_kept_whole(bytes: Seq<u8>, at: int, pool: Seq<CpEntry>, depth: nat)
    requires
        0 <= at,
        code_attribute_at(bytes, at, pool, depth).result is Ok,
    ensures
        ({
            let code = code_attribute_at(bytes, at, pool, depth).result->Ok_0;
            &&& code.max_stack == be_u16(bytes, at)
            &&& code.max_locals == be_u16(bytes, at + 2)
            &&& code.code.len() == be_u32(bytes, at + 4)
            &&& code.code == bytes.subrange(at + 8, at + 8 + be_u32(bytes, at + 4))
            &&& exception_table_at(bytes, at + 8 + be_u32(bytes, at + 4)).result == Ok::<
                Seq<ExceptionTableEntry>,
                DecodeError,
            >(code.exception_table)
        }),
{
}

/// A record whose name index is 0, lies outside the constant pool or names
/// an entry that is not text is refused with `MalformedIndex`, whatever
/// else it holds; the cursor is left after its header.
pub proof fn lemma_bad_name_index_is_refused(
    bytes: Seq<u8>,
    at: int,
    pool: Seq<CpEntry>,
    depth: nat,
)
    requires
        bytes.len() - at >= header_len(),
        ({
            let index = be_u16(bytes, at) as int;
            index == 0 || index >= pool.len() || !(pool[index] is Utf8)
        }),
    ensures
        attribute_info_at(bytes, at, pool, depth) == failed::<AttributeInfoView>(
            DecodeError::MalformedIndex,
            at + header_len(),
        ),
{
}

/// A record that decodes has a name index that names a text entry of the
/// constant pool, and is reported by that text: as `Code` where the text is
/// `Code`, as `Unimplemented` where it is another registered name, as
/// `Unknown` where it is not registered. No other kind comes out of the
/// decoder.
pub proof fn lemma_name_comes_from_pool(bytes: Seq<u8>, at: int, pool: Seq<CpEntry>, depth: nat)
    requires
        attribute_info_at(bytes, at, pool, depth).result is Ok,
    ensures
        ({
            let index = be_u16(bytes, at) as int;
            let attribute = attribute_info_at(bytes, at, pool, depth).result->Ok_0;
            &&& 0 < index < pool.len()
            &&& pool[index] is Utf8
            &&& match attribute {
                AttributeInfoView::Code(_) => pool[index]->val@ == code_name(),
                AttributeInfoView::Unimplemented(name) => pool[index]->val@ == name
                    && is_registered(name) && name != code_name(),
                AttributeInfoView::Unknown(name) => pool[index]->val@ == name && !is_registered(
                    name,
                ),
                _ => false,
            }
        }),
{
}

/// The registered names are the names of the kinds: a name is registered
/// exactly when it is the name of a kind other than the two catch-alls.
pub proof fn lemma_registered_names_are_the_kinds(name: Seq<char>)
    ensures
        is_registered(name) <==> exists|kind: AttributeInfoView|
            !(kind is Unimplemented) && !(kind is Unknown) && #[trigger] kind.name() == name,
{
    if is_registered(name) {
        let code = CodeAttributeView {
            max_stack: 0,
            max_locals: 0,
            code: Seq::empty(),
            exception_table: Seq::empty(),
            attribute_table: Seq::empty(),
        };
        assert(AttributeInfoView::ConstantValue.name() == "ConstantValue"@);
        assert(AttributeInfoView::Code(code).name() == "Code"@);
        assert(AttributeInfoView::Exceptions.name() == "Exceptions"@);
        assert(AttributeInfoView::SourceFile.name() == "SourceFile"@);
        assert(AttributeInfoView::LineNumberTable.name() == "LineNumberTable"@);
        assert(AttributeInfoView::LocalVariableTable.name() == "LocalVariableTable"@);
        assert(AttributeInfoView::InnerClasses.name() == "InnerClasses"@);
        assert(AttributeInfoView::Synthetic.name() == "Synthetic"@);
        assert(AttributeInfoView::Deprecated.name() == "Deprecated"@);
        assert(AttributeInfoView::EnclosingMethod.name() == "EnclosingMethod"@);
        assert(AttributeInfoView::Signature.name() == "Signature"@);
        assert(AttributeInfoView::SourceDebugExtension.name() == "SourceDebugExtension"@);
        assert(AttributeInfoView::LocalVariableTypeTable.name() == "LocalVariableTypeTable"@);
        assert(AttributeInfoView::RuntimeVisibleAnnotations.name()
            == "RuntimeVisibleAnnotations"@);
        assert(AttributeInfoView::RuntimeInvisibleAnnotations.name()
            == "RuntimeInvisibleAnnotations"@);
        assert(AttributeInfoView::RuntimeVisibleParameterAnnotations.name()
            == "RuntimeVisibleParameterAnnotations"@);
        assert(AttributeInfoView::RuntimeInvisibleParameterAnnotations.name()
            == "RuntimeInvisibleParameterAnnotations"@);
        assert(AttributeInfoView::AnnotationDefault.name() == "AnnotationDefault"@);
        assert(AttributeInfoView::StackMapTable.name() == "StackMapTable"@);
        assert(AttributeInfoView::BootstrapMethods.name() == "BootstrapMethods"@);
        assert(AttributeInfoView::RuntimeVisibleTypeAnnotations.name()
            == "RuntimeVisibleTypeAnnotations"@);
        assert(AttributeInfoView::RuntimeInvisibleTypeAnnotations.name()
            == "RuntimeInvisibleTypeAnnotations"@);
        assert(AttributeInfoView::MethodParameters.name() == "MethodParameters"@);
        assert(AttributeInfoView::Module.name() == "Module"@);
        assert(AttributeInfoView::ModulePackages.name() == "ModulePackages"@);
        assert(AttributeInfoView::ModuleMainClass.name() == "ModuleMainClass"@);
        assert(AttributeInfoView::NestHost.name() == "NestHost"@);
        assert(AttributeInfoView::NestMembers.name() == "NestMembers"@);
    }
}

/// The nesting of a table whose first attribute is `first`.
proof fn lemma_table_nesting_of_joined(first: AttributeInfoView, others: Seq<AttributeInfoView>)
    ensures
        table_nesting(seq![first] + others) == if nesting(first) >= table_nesting(others) {
            nesting(first)
        } else {
            table_nesting(others)
        },
{
    let all = seq![first] + others;
    assert(all.first() == first);
    assert(all.drop_first() =~= others);
}

/// An exception table is read forwards and inside the bytes.
pub proof fn lemma_exception_table_end_in_bounds(bytes: Seq<u8>, at: int)
    requires
        0 <= at <= bytes.len(),
    ensures
        at <= exception_table_at(bytes, at).end <= bytes.len(),
{
}

/// A record is read forwards and inside the bytes: whether it decodes or
/// not, the cursor is left at or after the place where it stood, and never
/// past the end.
pub proof fn lemma_attribute_info_end_in_bounds(
    bytes: Seq<u8>,
    at: int,
    pool: Seq<CpEntry>,
    depth: nat,
)
    requires
        0 <= at <= bytes.len(),
    ensures
        at <= attribute_info_at(bytes, at, pool, depth).end <= bytes.len(),
    decreases depth, 0int, 0int,
{
    if bytes.len() - at >= header_len() {
        let name = utf8_at(pool, be_u16(bytes, at) as int);
        if name == Some(code_name()) && depth > 0 {
            lemma_code_attribute_end_in_bounds(bytes, at + header_len(), pool, (depth - 1) as nat);
        }
    }
}

/// The body of a `Code` attribute is read forwards and inside the bytes.
pub proof fn lemma_code_attribute_end_in_bounds(
    bytes: Seq<u8>,
    at: int,
    pool: Seq<CpEntry>,
    depth: nat,
)
    requires
        0 <= at <= bytes.len(),
    ensures
        at <= code_attribute_at(bytes, at, pool, depth).end <= bytes.len(),
    decreases depth, 3int, 0int,
{
    if bytes.len() - at >= 8 {
        let code_length = be_u32(bytes, at + 4) as int;
        if bytes.len() - (at + 8) >= code_length {
            let handlers = exception_table_at(bytes, at + 8 + code_length);
            lemma_exception_table_end_in_bounds(bytes, at + 8 + code_length);
            if handlers.result is Ok {
                lemma_attribute_table_end_in_bounds(bytes, handlers.end, pool, depth);
            }
        }
    }
}

/// An attribute table is read forwards and inside the bytes.
pub proof fn lemma_attribute_table_end_in_bounds(
    bytes: Seq<u8>,
    at: int,
    pool: Seq<CpEntry>,
    depth: nat,
)
    requires
        0 <= at <= bytes.len(),
    ensures
        at <= attribute_table_at(bytes, at, pool, depth).end <= bytes.len(),
    decreases depth, 2int, 0int,
{
    if bytes.len() - at >= 2 {
        lemma_attribute_records_end_in_bounds(bytes, at + 2, pool, depth, be_u16(bytes, at) as nat);
    }
}

/// Records are read forwards and inside the bytes.
pub proof fn lemma_attribute_records_end_in_bounds(
    bytes: Seq<u8>,
    at: int,
    pool: Seq<CpEntry>,
    depth: nat,
    count: nat,
)
    requires
        0 <= at <= bytes.len(),
    ensures
        at <= attribute_records_at(bytes, at, pool, depth, count).end <= bytes.len(),
    decreases depth, 1int, count,
{
    if count > 0 {
        let first = attribute_info_at(bytes, at, pool, depth);
        lemma_attribute_info_end_in_bounds(bytes, at, pool, depth);
        if first.result is Ok {
            lemma_attribute_records_end_in_bounds(
                bytes,
                first.end,
                pool,
                depth,
                (count - 1) as nat,
            );
        }
    }
}

/// An attribute that decodes under the limit `depth` nests no deeper than
/// `depth`.
pub proof fn lemma_attribute_info_nesting(bytes: Seq<u8>, at: int, pool: Seq<CpEntry>, depth: nat)
    requires
        attribute_info_at(bytes, at, pool, depth).result is Ok,
    ensures
        nesting(attribute_info_at(bytes, at, pool, depth).result->Ok_0) <= depth,
    decreases depth, 0int, 0int,
{
    if attribute_info_at(bytes, at, pool, depth).result->Ok_0 is Code {
        lemma_code_attribute_nesting(bytes, at + header_len(), pool, (depth - 1) as nat);
    }
}

/// The attributes nested in a `Code` attribute that decodes under the limit
/// `depth` nest no deeper than `depth`.
pub proof fn lemma_code_attribute_nesting(bytes: Seq<u8>, at: int, pool: Seq<CpEntry>, depth: nat)
    requires
        code_attribute_at(bytes, at, pool, depth).result is Ok,
    ensures
        table_nesting(code_attribute_at(bytes, at, pool, depth).result->Ok_0.attribute_table)
            <= depth,
    decreases depth, 3int, 0int,
{
    let code_length = be_u32(bytes, at + 4) as int;
    let handlers = exception_table_at(bytes, at + 8 + code_length);
    lemma_attribute_table_nesting(bytes, handlers.end, pool, depth);
}

/// A table that decodes under the limit `depth` nests no deeper than
/// `depth`.
pub proof fn lemma_attribute_table_nesting(
    bytes: Seq<u8>,
    at: int,
    pool: Seq<CpEntry>,
    depth: nat,
)
    requires
        attribute_table_at(bytes, at, pool, depth).result is Ok,
    ensures
        table_nesting(attribute_table_at(bytes, at, pool, depth).result->Ok_0) <= depth,
    decreases depth, 2int, 0int,
{
    lemma_attribute_records_nesting(bytes, at + 2, pool, depth, be_u16(bytes, at) as nat);
}

/// Records that decode under the limit `depth` nest no deeper than `depth`.
pub proof fn lemma_attribute_records_nesting(
    bytes: Seq<u8>,
    at: int,
    pool: Seq<CpEntry>,
    depth: nat,
    count: nat,
)
    requires
        attribute_records_at(bytes, at, pool, depth, count).result is Ok,
    ensures
        table_nesting(attribute_records_at(bytes, at, pool, depth, count).result->Ok_0) <= depth,
    decreases depth, 1int, count,
{
    if count > 0 {
        let first = attribute_info_at(bytes, at, pool, depth);
        let rest = attribute_records_at(bytes, first.end, pool, depth, (count - 1) as nat);
        lemma_attribute_info_nesting(bytes, at, pool, depth);
        lemma_attribute_records_nesting(bytes, first.end, pool, depth, (count - 1) as nat);
        lemma_table_nesting_of_joined(first.result->Ok_0, rest.result->Ok_0);
    }
}

/// The limit on nesting does nothing but refuse. Where a record decodes
/// under the limit `high`, it decodes to the same attribute, with the
/// cursor left at the same place, under every lower limit that its nesting
/// does not exceed, and is refused with `RecursionLimitExceeded` under
/// every limit that its nesting does exceed.
pub proof fn lemma_attribute_info_under_lower_limit(
    bytes: Seq<u8>,
    at: int,
    pool: Seq<CpEntry>,
    low: nat,
    high: nat,
)
    requires
        low <= high,
        attribute_info_at(bytes, at, pool, high).result is Ok,
    ensures
        nesting(attribute_info_at(bytes, at, pool, high).result->Ok_0) <= low
            ==> attribute_info_at(bytes, at, pool, low) == attribute_info_at(bytes, at, pool, high),
        nesting(attribute_info_at(bytes, at, pool, high).result->Ok_0) > low ==> attribute_info_at(
            bytes,
            at,
            pool,
            low,
        ).result == Err::<AttributeInfoView, DecodeError>(DecodeError::RecursionLimitExceeded),
    decreases high, 0int, 0int,
{
    if attribute_info_at(bytes, at, pool, high).result->Ok_0 is Code && low > 0 {
        lemma_code_attribute_under_lower_limit(
            bytes,
            at + header_len(),
            pool,
            (low - 1) as nat,
            (high - 1) as nat,
        );
    }
}

/// The same of the body of a `Code` attribute, by the nesting of the
/// attributes inside it.
pub proof fn lemma_code_attribute_under_lower_limit(
    bytes: Seq<u8>,
    at: int,
    pool: Seq<CpEntry>,
    low: nat,
    high: nat,
)
    requires
        low <= high,
        code_attribute_at(bytes, at, pool, high).result is Ok,
    ensures
        table_nesting(code_attribute_at(bytes, at, pool, high).result->Ok_0.attribute_table) <= low
            ==> code_attribute_at(bytes, at, pool, low) == code_attribute_at(bytes, at, pool, high),
        table_nesting(code_attribute_at(bytes, at, pool, high).result->Ok_0.attribute_table) > low
            ==> code_attribute_at(bytes, at, pool, low).result == Err::<
            CodeAttributeView,
            DecodeError,
        >(DecodeError::RecursionLimitExceeded),
    decreases high, 3int, 0int,
{
    let code_length = be_u32(bytes, at + 4) as int;
    let handlers = exception_table_at(bytes, at + 8 + code_length);
    lemma_attribute_table_under_lower_limit(bytes, handlers.end, pool, low, high);
}

/// The same of an attribute table.
pub proof fn lemma_attribute_table_under_lower_limit(
    bytes: Seq<u8>,
    at: int,
    pool: Seq<CpEntry>,
    low: nat,
    high: nat,
)
    requires
        low <= high,
        attribute_table_at(bytes, at, pool, high).result is Ok,
    ensures
        table_nesting(attribute_table_at(bytes, at, pool, high).result->Ok_0) <= low
            ==> attribute_table_at(bytes, at, pool, low) == attribute_table_at(
            bytes,
            at,
            pool,
            high,
        ),
        table_nesting(attribute_table_at(bytes, at, pool, high).result->Ok_0) > low
            ==> attribute_table_at(bytes, at, pool, low).result == Err::<
            Seq<AttributeInfoView>,
            DecodeError,
        >(DecodeError::RecursionLimitExceeded),
    decreases high, 2int, 0int,
{
    lemma_attribute_records_under_lower_limit(
        bytes,
        at + 2,
        pool,
        low,
        high,
        be_u16(bytes, at) as nat,
    );
}

/// The same of a run of records.
pub proof fn lemma_attribute_records_under_lower_limit(
    bytes: Seq<u8>,
    at: int,
    pool: Seq<CpEntry>,
    low: nat,
    high: nat,
    count: nat,
)
    requires
        low <= high,
        attribute_records_at(bytes, at, pool, high, count).result is Ok,
    ensures
        table_nesting(attribute_records_at(bytes, at, pool, high, count).result->Ok_0) <= low
            ==> attribute_records_at(bytes, at, pool, low, count) == attribute_records_at(
            bytes,
            at,
            pool,
            high,
            count,
        ),
        table_nesting(attribute_records_at(bytes, at, pool, high, count).result->Ok_0) > low
            ==> attribute_records_at(bytes, at, pool, low, count).result == Err::<
            Seq<AttributeInfoView>,
            DecodeError,
        >(DecodeError::RecursionLimitExceeded),
    decreases high, 1int, count,
{
    if count > 0 {
        let first = attribute_info_at(bytes, at, pool, high);
        let rest = attribute_records_at(bytes, first.end, pool, high, (count - 1) as nat);
        lemma_attribute_info_under_lower_limit(bytes, at, pool, low, high);
        lemma_attribute_records_under_lower_limit(
            bytes,
            first.end,
            pool,
            low,
            high,
            (count - 1) as nat,
        );
        lemma_table_nesting_of_joined(first.result->Ok_0, rest.result->Ok_0);
    }
}

} // verus!
