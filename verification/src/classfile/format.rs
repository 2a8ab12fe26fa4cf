//! The `attribute_info` format, as functions from bytes to values.
//!
//! Each function here says what stands at a position of a byte sequence:
//! the value found and the position just after it, or the reason why no
//! value is there and the position at which reading stops. The decoders
//! are specified by them.

use vstd::prelude::*;
use crate::classfile::attribute_info::ExceptionTableEntry;
use crate::classfile::attribute_view::{AttributeInfoView, CodeAttributeView, is_registered};
use crate::classfile::class_file_stream::{be_u16, be_u32};
use crate::classfile::error::DecodeError;
use crate::oops::constant_pool::{CpEntry, utf8_at};

verus! {

/// The outcome of decoding at some position: the value or the error, and
/// the position at which the cursor is left.
pub struct Decoded<T> {
    pub result: Result<T, DecodeError>,
    pub end: int,
}

/// A value was decoded, and the cursor stands at `end`.
pub open spec fn done<T>(value: T, end: int) -> Decoded<T> {
    Decoded { result: Ok(value), end }
}

/// Decoding stopped at `end` with `error`.
pub open spec fn failed<T>(error: DecodeError, end: int) -> Decoded<T> {
    Decoded { result: Err(error), end }
}

/// Bytes of the header of an `attribute_info` record: a 16-bit name index
/// and a 32-bit length.
pub open spec fn header_len() -> int {
    6
}

/// Bytes of one entry of an exception table: four 16-bit fields.
pub open spec fn exception_entry_len() -> int {
    8
}

/// The exception-table entry whose eight bytes start at `at`.
pub open spec fn exception_entry_at(bytes: Seq<u8>, at: int) -> ExceptionTableEntry {
    ExceptionTableEntry {
        start_pc: be_u16(bytes, at),
        end_pc: be_u16(bytes, at + 2),
        handler_pc: be_u16(bytes, at + 4),
        catch_type: be_u16(bytes, at + 6),
    }
}

/// The exception table that starts at `at`: a 16-bit count, then that many
/// entries, in file order.
///
/// It is truncated where the count itself does not fit, and where the
/// entries that it announces do not all fit; in the second case reading
/// stops just after the count.
pub open spec fn exception_table_at(bytes: Seq<u8>, at: int) -> Decoded<Seq<ExceptionTableEntry>> {
    if bytes.len() - at < 2 {
        failed(DecodeError::TruncatedStream, at)
    } else {
        let count = be_u16(bytes, at) as int;
        let first = at + 2;
        if bytes.len() - first < exception_entry_len() * count {
            failed(DecodeError::TruncatedStream, first)
        } else {
            done(
                Seq::new(
                    count as nat,
                    |i: int| exception_entry_at(bytes, first + exception_entry_len() * i),
                ),
                first + exception_entry_len() * count,
            )
        }
    }
}

/// The text `Code`, the name of the one attribute that is decoded in full.
pub open spec fn code_name() -> Seq<char> {
    "Code"@
}

/// The attribute whose record starts at `at`.
///
/// The record is a name index, a length and a body. A `Code` attribute's
/// body is decoded, which needs `depth` to be at least 1 and leaves
/// `depth - 1` for the attributes nested in it; how far it reaches is
/// decided by what it holds, not by the length. Any other body is passed
/// over by the length, and only the name is kept.
pub open spec fn attribute_info_at(
    bytes: Seq<u8>,
    at: int,
    pool: Seq<CpEntry>,
    depth: nat,
) -> Decoded<AttributeInfoView>
    decreases depth, 0int, 0int,
{
    if bytes.len() - at < 2 {
        failed(DecodeError::TruncatedStream, at)
    } else if bytes.len() - (at + 2) < 4 {
        failed(DecodeError::TruncatedStream, at + 2)
    } else {
        let length = be_u32(bytes, at + 2) as int;
        let body = at + header_len();
        match utf8_at(pool, be_u16(bytes, at) as int) {
            None => failed(DecodeError::MalformedIndex, body),
            Some(name) => if name == code_name() {
                if depth == 0 {
                    failed(DecodeError::RecursionLimitExceeded, body)
                } else {
                    let code = code_attribute_at(bytes, body, pool, (depth - 1) as nat);
                    match code.result {
                        Ok(value) => done(AttributeInfoView::Code(value), code.end),
                        Err(error) => failed(error, code.end),
                    }
                }
            } else if bytes.len() - body < length {
                failed(DecodeError::TruncatedStream, body)
            } else if is_registered(name) {
                done(AttributeInfoView::Unimplemented(name), body + length)
            } else {
                done(AttributeInfoView::Unknown(name), body + length)
            },
        }
    }
}

/// The body of a `Code` attribute that starts at `at`: `max_stack`,
/// `max_locals`, a 32-bit `code_length`, that many bytes of bytecode, an
/// exception table and an attribute table, whose `Code` attributes may
/// nest `depth` levels further.
pub open spec fn code_attribute_at(
    bytes: Seq<u8>,
    at: int,
    pool: Seq<CpEntry>,
    depth: nat,
) -> Decoded<CodeAttributeView>
    decreases depth, 3int, 0int,
{
    if bytes.len() - at < 2 {
        failed(DecodeError::TruncatedStream, at)
    } else if bytes.len() - (at + 2) < 2 {
        failed(DecodeError::TruncatedStream, at + 2)
    } else if bytes.len() - (at + 4) < 4 {
        failed(DecodeError::TruncatedStream, at + 4)
    } else {
        let code_length = be_u32(bytes, at + 4) as int;
        let code_start = at + 8;
        if bytes.len() - code_start < code_length {
            failed(DecodeError::TruncatedStream, code_start)
        } else {
            let handlers = exception_table_at(bytes, code_start + code_length);
            match handlers.result {
                Err(error) => failed(error, handlers.end),
                Ok(exception_table) => {
                    let nested = attribute_table_at(bytes, handlers.end, pool, depth);
                    match nested.result {
                        Err(error) => failed(error, nested.end),
                        Ok(attribute_table) => done(
                            CodeAttributeView {
                                max_stack: be_u16(bytes, at),
                                max_locals: be_u16(bytes, at + 2),
                                code: bytes.subrange(code_start, code_start + code_length),
                                exception_table,
                                attribute_table,
                            },
                            nested.end,
                        ),
                    }
                },
            }
        }
    }
}

/// The attribute table that starts at `at`: a 16-bit count, then that many
/// records, in file order.
pub open spec fn attribute_table_at(
    bytes: Seq<u8>,
    at: int,
    pool: Seq<CpEntry>,
    depth: nat,
) -> Decoded<Seq<AttributeInfoView>>
    decreases depth, 2int, 0int,
{
    if bytes.len() - at < 2 {
        failed(DecodeError::TruncatedStream, at)
    } else {
        attribute_records_at(bytes, at + 2, pool, depth, be_u16(bytes, at) as nat)
    }
}

/// `count` records one after the other, the first at `at`. The first one
/// that cannot be decoded ends the reading.
pub open spec fn attribute_records_at(
    bytes: Seq<u8>,
    at: int,
    pool: Seq<CpEntry>,
    depth: nat,
    count: nat,
) -> Decoded<Seq<AttributeInfoView>>
    decreases depth, 1int, count,
{
    if count == 0 {
        done(Seq::empty(), at)
    } else {
        let first = attribute_info_at(bytes, at, pool, depth);
        match first.result {
            Err(error) => failed(error, first.end),
            Ok(attribute) => {
                let rest = attribute_records_at(bytes, first.end, pool, depth, (count - 1) as nat);
                match rest.result {
                    Err(error) => failed(error, rest.end),
                    Ok(others) => done(seq![attribute] + others, rest.end),
                }
            },
        }
    }
}

/// The two bytes that hold `value`, high byte first.
pub open spec fn u16_bytes(value: u16) -> Seq<u8> {
    seq![(value / 0x100) as u8, (value % 0x100) as u8]
}

/// The eight bytes that hold one exception-table entry.
pub open spec fn exception_entry_bytes(entry: ExceptionTableEntry) -> Seq<u8> {
    u16_bytes(entry.start_pc) + u16_bytes(entry.end_pc) + u16_bytes(entry.handler_pc) + u16_bytes(
        entry.catch_type,
    )
}

/// The bytes of the given entries, one after the other.
pub open spec fn exception_entries_bytes(entries: Seq<ExceptionTableEntry>) -> Seq<u8>
    decreases entries.len(),
{
    if entries.len() == 0 {
        Seq::empty()
    } else {
        exception_entries_bytes(entries.drop_last()) + exception_entry_bytes(entries.last())
    }
}

/// The bytes of an exception table: the number of entries, then the
/// entries.
pub open spec fn exception_table_bytes(entries: Seq<ExceptionTableEntry>) -> Seq<u8> {
    u16_bytes(entries.len() as u16) + exception_entries_bytes(entries)
}

/// The length that the record at `at` declares for its body.
pub open spec fn declared_length(bytes: Seq<u8>, at: int) -> int {
    be_u32(bytes, at + 2) as int
}

/// The bytes that the record at `at` takes by its own declaration: its
/// header and the declared length of its body.
pub open spec fn declared_record_len(bytes: Seq<u8>, at: int) -> int {
    header_len() + declared_length(bytes, at)
}

/// The bytes that `count` records take by their own declaration, where the
/// first stands at `at` and each of the others where the declaration of the
/// one before it ends.
pub open spec fn declared_span(bytes: Seq<u8>, at: int, count: nat) -> int
    decreases count,
{
    if count == 0 {
        0
    } else {
        declared_record_len(bytes, at) + declared_span(
            bytes,
            at + declared_record_len(bytes, at),
            (count - 1) as nat,
        )
    }
}

/// Whether each `Code` record among the `count` records from `at` on
/// declares as its length what its body is found to take. (A record of
/// another name takes its declared length by the way it is read.)
pub open spec fn code_lengths_agree(
    bytes: Seq<u8>,
    at: int,
    pool: Seq<CpEntry>,
    depth: nat,
    count: nat,
) -> bool
    decreases count,
{
    count == 0 || {
        let first = attribute_info_at(bytes, at, pool, depth);
        &&& first.result matches Ok(AttributeInfoView::Code(_)) ==> first.end == at
            + declared_record_len(bytes, at)
        &&& code_lengths_agree(
            bytes,
            at + declared_record_len(bytes, at),
            pool,
            depth,
            (count - 1) as nat,
        )
    }
}

} // verus!
