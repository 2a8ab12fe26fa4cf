use vstd::prelude::*;
use crate::classfile::attribute_info::{AttributeInfo, AttributeTable};
use crate::classfile::attribute_view::{AttributeInfoView, lemma_nested_table_view, table_view};

verus! {

/// Something worth reporting that did not stop the decoding.
#[derive(Debug, PartialEq, Eq)]
pub enum Diagnostic {
    /// An attribute had a name that the class-file format does not
    /// register. It was passed over by its declared length.
    UnknownAttribute(String),
}

impl Clone for Diagnostic {
    fn clone(&self) -> (copy: Diagnostic)
        ensures
            copy == *self,
    {
        match self {
            Diagnostic::UnknownAttribute(name) => Diagnostic::UnknownAttribute(name.clone()),
        }
    }
}

/// The names that the given diagnostics carry, in order.
pub open spec fn diagnostic_names(notes: Seq<Diagnostic>) -> Seq<Seq<char>> {
    Seq::new(notes.len(), |i: int| notes[i]->UnknownAttribute_0@)
}

/// The names of the unknown attributes in `attribute`: its own where it is
/// one, and those of the attributes nested in it where it is `Code`.
pub open spec fn unknown_names_in(attribute: AttributeInfoView) -> Seq<Seq<char>>
    decreases attribute,
{
    match attribute {
        AttributeInfoView::Unknown(name) => seq![name],
        AttributeInfoView::Code(code) => unknown_names(code.attribute_table),
        _ => Seq::empty(),
    }
}

/// The names of the unknown attributes of `table` and of the tables
/// nested in it, in file order.
pub open spec fn unknown_names(table: Seq<AttributeInfoView>) -> Seq<Seq<char>>
    decreases table,
{
    if table.len() == 0 {
        Seq::empty()
    } else {
        unknown_names(table.drop_last()) + unknown_names_in(table.last())
    }
}

/// Appends to `notes` one diagnostic for each unknown attribute of `table`.
fn note_unknown_attributes(table: &AttributeTable, notes: &mut Vec<Diagnostic>)
    ensures
        diagnostic_names(final(notes)@) == diagnostic_names(old(notes)@) + unknown_names(
            table_view(table@),
        ),
    decreases table,
{
    let ghost before = diagnostic_names(notes@);
    let ghost views = table_view(table@);
    let mut i: usize = 0;
    assert(diagnostic_names(notes@) =~= before + unknown_names(views.take(0)));
    while i < table.len()
        invariant
            i <= table.len(),
            views == table_view(table@),
            diagnostic_names(notes@) == before + unknown_names(views.take(i as int)),
        decreases table.len() - i,
    {
        let ghost so_far = diagnostic_names(notes@);
        let ghost here = unknown_names_in(table@[i as int]@);
        proof {
            assert(views.take(i + 1).drop_last() =~= views.take(i as int));
            assert(views.take(i + 1).last() == table@[i as int]@);
            assert(unknown_names(views.take(i + 1)) == unknown_names(views.take(i as int)) + here);
            assert(before + (unknown_names(views.take(i as int)) + here) =~= so_far + here);
        }
        match &table[i] {
            AttributeInfo::Unknown(name) => {
                notes.push(Diagnostic::UnknownAttribute(name.clone()));
                assert(diagnostic_names(notes@) =~= so_far + here);
            },
            AttributeInfo::Code(code) => {
                proof {
                    lemma_nested_table_view(*code);
                    assert(table@[i as int]->Code_0 == *code);
                    assert(decreases_to!(table => table[i as int]));
                    assert(decreases_to!(table[i as int] => table[i as int]->Code_0));
                    assert(decreases_to!(code => code.attribute_table));
                }
                note_unknown_attributes(&code.attribute_table, notes);
            },
            _ => {
                assert(so_far + here =~= so_far);
            },
        }
        i = i + 1;
    }
    assert(views.take(table.len() as int) =~= views);
}

/// The diagnostics that go with a decoded table: one `UnknownAttribute` for
/// each attribute of an unregistered name, in file order, those nested in
/// `Code` attributes included.
pub fn diagnostics(table: &AttributeTable) -> (notes: Vec<Diagnostic>)
    ensures
        diagnostic_names(notes@) == unknown_names(table_view(table@)),
{
    let mut notes: Vec<Diagnostic> = Vec::new();
    note_unknown_attributes(table, &mut notes);
    assert(diagnostic_names(Seq::<Diagnostic>::empty()) + unknown_names(table_view(table@))
        =~= unknown_names(table_view(table@)));
    notes
}

} // verus!
