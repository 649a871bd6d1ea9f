//! Properties of the transform as a whole.
use vstd::prelude::*;
use crate::control::{
    attr_control, control_of, field_widgets, is_control, lemma_field_error_persists,
    lemma_record_error_persists, record_widgets, ControlAnnotation, GenError, Widget,
};
use crate::descriptor::{Attribute, FieldDescriptor, Token, TypeBody, TypeDescriptor};
use crate::docs::description;
use crate::plan::{plan_of, zipped, PlanView};

verus! {

/// Attributes that hold no `control(...)` annotation ask for no widget.
proof fn lemma_field_without_control(ident: String, attrs: Seq<Attribute>)
    requires
        forall|j: int| 0 <= j < attrs.len() ==> !is_control(#[trigger] attrs[j]),
    ensures
        field_widgets(ident, attrs) == Ok::<Seq<Widget>, GenError>(Seq::empty()),
    decreases attrs.len(),
{
    if attrs.len() > 0 {
        lemma_field_without_control(ident, attrs.drop_last());
    }
}

/// Fields none of which holds a `control(...)` annotation ask for no widget.
proof fn lemma_record_without_control(fields: Seq<FieldDescriptor>)
    requires
        forall|i: int, j: int|
            0 <= i < fields.len() && 0 <= j < fields[i].attrs@.len() ==> !is_control(
                #[trigger] fields[i].attrs@[j],
            ),
    ensures
        record_widgets(fields) == Ok::<Seq<Widget>, GenError>(Seq::empty()),
    decreases fields.len(),
{
    if fields.len() > 0 {
        let last = fields.last();
        assert(forall|j: int|
            0 <= j < last.attrs@.len() ==> !is_control(#[trigger] last.attrs@[j])) by {
            assert forall|j: int| 0 <= j < last.attrs@.len() implies !is_control(
                #[trigger] last.attrs@[j],
            ) by {
                assert(fields[fields.len() - 1].attrs@[j] == last.attrs@[j]);
            }
        }
        lemma_field_without_control(last.ident, last.attrs@);
        assert(forall|i: int, j: int|
            0 <= i < fields.drop_last().len() && 0 <= j < fields.drop_last()[i].attrs@.len()
                ==> fields.drop_last()[i].attrs@[j] == fields[i].attrs@[j]);
        lemma_record_without_control(fields.drop_last());
        assert(Seq::<Widget>::empty() + Seq::<Widget>::empty() =~= Seq::<Widget>::empty());
    }
}

/// A record in which no field carries a `control(...)` annotation gives a
/// form with no rows.
pub proof fn lemma_unannotated_record_has_no_rows(input: TypeDescriptor)
    requires
        input.body is Record,
        forall|i: int, j: int|
            0 <= i < input.body->Record_0@.len() && 0 <= j
                < input.body->Record_0@[i].attrs@.len() ==> !is_control(
                #[trigger] input.body->Record_0@[i].attrs@[j],
            ),
    ensures
        plan_of(input) == Ok::<PlanView, GenError>(
            PlanView::Form { record_name: input.name@, rows: Seq::empty() },
        ),
{
    let fields = input.body->Record_0@;
    lemma_record_without_control(fields);
    let ds = crate::plan::descriptions(fields);
    assert(zipped(Seq::empty(), ds) =~= Seq::empty());
}

/// A field whose only `control(...)` annotation, at position `k`, asks for
/// `c` gives exactly one widget: `c` bound to the field.
proof fn lemma_sole_control(ident: String, attrs: Seq<Attribute>, k: int, c: ControlAnnotation, m: int)
    requires
        0 <= k < attrs.len(),
        0 <= m <= attrs.len(),
        attr_control(attrs[k]) == Ok::<Option<ControlAnnotation>, GenError>(Some(c)),
        forall|j: int| 0 <= j < attrs.len() && j != k ==> !is_control(#[trigger] attrs[j]),
    ensures
        field_widgets(ident, attrs.take(m)) == (if m <= k {
            Ok::<Seq<Widget>, GenError>(Seq::empty())
        } else {
            Ok::<Seq<Widget>, GenError>(seq![Widget { field: ident, control: c }])
        }),
    decreases m,
{
    if m > 0 {
        lemma_sole_control(ident, attrs, k, c, m - 1);
        assert(attrs.take(m).drop_last() =~= attrs.take(m - 1));
        assert(attrs.take(m).last() == attrs[m - 1]);
        if m - 1 == k {
            assert(Seq::<Widget>::empty().push(Widget { field: ident, control: c }) =~= seq![
                Widget { field: ident, control: c },
            ]);
        }
    } else {
        assert(attrs.take(0) =~= Seq::<Attribute>::empty());
    }
}

/// The widgets of a prefix of the fields begin the widgets of all fields.
proof fn lemma_record_prefix(fields: Seq<FieldDescriptor>, n: int)
    requires
        0 <= n <= fields.len(),
        record_widgets(fields) is Ok,
    ensures
        record_widgets(fields.take(n)) is Ok,
        record_widgets(fields.take(n))->Ok_0.len() <= record_widgets(fields)->Ok_0.len(),
        record_widgets(fields)->Ok_0.take(record_widgets(fields.take(n))->Ok_0.len() as int)
            == record_widgets(fields.take(n))->Ok_0,
    decreases fields.len() - n,
{
    if n == fields.len() {
        assert(fields.take(n) =~= fields);
        assert(record_widgets(fields)->Ok_0.take(record_widgets(fields)->Ok_0.len() as int)
            =~= record_widgets(fields)->Ok_0);
    } else {
        lemma_record_prefix(fields, n + 1);
        assert(fields.take(n + 1).drop_last() =~= fields.take(n));
        let all = record_widgets(fields)->Ok_0;
        let longer = record_widgets(fields.take(n + 1))->Ok_0;
        let shorter = record_widgets(fields.take(n))->Ok_0;
        assert(longer.take(shorter.len() as int) =~= shorter);
        assert(all.take(shorter.len() as int) =~= shorter);
    }
}

/// In a record that gives a form, a field whose only `control(...)`
/// annotation asks for `c`, and whose preceding fields give one widget
/// between them for each of them, stands in its own row: `c` bound to the
/// field, beside the field's own description.
proof fn lemma_row_of_sole_control(input: TypeDescriptor, i: int, k: int, c: ControlAnnotation)
    requires
        input.body is Record,
        0 <= i < input.body->Record_0@.len(),
        record_widgets(input.body->Record_0@) is Ok,
        record_widgets(input.body->Record_0@.take(i)) is Ok,
        record_widgets(input.body->Record_0@.take(i))->Ok_0.len() == i,
        0 <= k < input.body->Record_0@[i].attrs@.len(),
        attr_control(input.body->Record_0@[i].attrs@[k]) == Ok::<
            Option<ControlAnnotation>,
            GenError,
        >(Some(c)),
        forall|j: int|
            0 <= j < input.body->Record_0@[i].attrs@.len() && j != k ==> !is_control(
                #[trigger] input.body->Record_0@[i].attrs@[j],
            ),
    ensures
        plan_of(input) is Ok,
        plan_of(input)->Ok_0 is Form,
        i < plan_of(input)->Ok_0->Form_rows.len(),
        plan_of(input)->Ok_0->Form_rows[i] == (
            Widget { field: input.body->Record_0@[i].ident, control: c },
            description(input.body->Record_0@[i].attrs@),
        ),
{
    let fields = input.body->Record_0@;
    let f = fields[i];
    lemma_sole_control(f.ident, f.attrs@, k, c, f.attrs@.len() as int);
    assert(f.attrs@.take(f.attrs@.len() as int) =~= f.attrs@);
    lemma_record_prefix(fields, i + 1);
    assert(fields.take(i + 1).drop_last() =~= fields.take(i));
    assert(fields.take(i + 1).last() == f);
    let all = record_widgets(fields)->Ok_0;
    let upto = record_widgets(fields.take(i + 1))->Ok_0;
    assert(upto.len() == i + 1);
    assert(upto[i] == Widget { field: f.ident, control: c });
    assert(all.take(i + 1)[i] == upto[i]);
}

/// In a record that gives a form, a field annotated `control(bool)` (its only
/// control annotation), whose preceding fields give one widget between them
/// for each of them, stands in its own row: a checkbox bound to the field,
/// beside the field's own description.
pub proof fn lemma_checkbox_row(input: TypeDescriptor, i: int, k: int)
    requires
        input.body is Record,
        0 <= i < input.body->Record_0@.len(),
        record_widgets(input.body->Record_0@) is Ok,
        record_widgets(input.body->Record_0@.take(i)) is Ok,
        record_widgets(input.body->Record_0@.take(i))->Ok_0.len() == i,
        0 <= k < input.body->Record_0@[i].attrs@.len(),
        is_control(input.body->Record_0@[i].attrs@[k]),
        input.body->Record_0@[i].attrs@[k]->List_tokens@.len() >= 1,
        input.body->Record_0@[i].attrs@[k]->List_tokens@[0] is Ident,
        input.body->Record_0@[i].attrs@[k]->List_tokens@[0]->Ident_0@ == "bool"@,
        forall|j: int|
            0 <= j < input.body->Record_0@[i].attrs@.len() && j != k ==> !is_control(
                #[trigger] input.body->Record_0@[i].attrs@[j],
            ),
    ensures
        plan_of(input) is Ok,
        plan_of(input)->Ok_0 is Form,
        i < plan_of(input)->Ok_0->Form_rows.len(),
        plan_of(input)->Ok_0->Form_rows[i] == (
            Widget { field: input.body->Record_0@[i].ident, control: ControlAnnotation::Checkbox },
            description(input.body->Record_0@[i].attrs@),
        ),
{
    reveal_strlit("bool");
    reveal_strlit("slider");
    reveal_strlit("textbox");
    assert("bool"@.len() == 4 && "slider"@.len() == 6 && "textbox"@.len() == 7);
    assert("bool"@ != "slider"@ && "bool"@ != "textbox"@);
    let a = input.body->Record_0@[i].attrs@[k];
    assert(control_of(a->List_tokens@) == Ok::<Option<ControlAnnotation>, GenError>(
        Some(ControlAnnotation::Checkbox),
    ));
    lemma_row_of_sole_control(input, i, k, ControlAnnotation::Checkbox);
}

/// In a record that gives a form, a field annotated `control(slider(r))` (its
/// only control annotation), whose preceding fields give one widget between
/// them for each of them, stands in its own row: a slider over `r`, verbatim,
/// bound to the field, beside the field's own description.
pub proof fn lemma_slider_row(input: TypeDescriptor, i: int, k: int)
    requires
        input.body is Record,
        0 <= i < input.body->Record_0@.len(),
        record_widgets(input.body->Record_0@) is Ok,
        record_widgets(input.body->Record_0@.take(i)) is Ok,
        record_widgets(input.body->Record_0@.take(i))->Ok_0.len() == i,
        0 <= k < input.body->Record_0@[i].attrs@.len(),
        is_control(input.body->Record_0@[i].attrs@[k]),
        input.body->Record_0@[i].attrs@[k]->List_tokens@.len() >= 2,
        input.body->Record_0@[i].attrs@[k]->List_tokens@[0] is Ident,
        input.body->Record_0@[i].attrs@[k]->List_tokens@[0]->Ident_0@ == "slider"@,
        input.body->Record_0@[i].attrs@[k]->List_tokens@[1] is Group,
        forall|j: int|
            0 <= j < input.body->Record_0@[i].attrs@.len() && j != k ==> !is_control(
                #[trigger] input.body->Record_0@[i].attrs@[j],
            ),
    ensures
        plan_of(input) is Ok,
        plan_of(input)->Ok_0 is Form,
        i < plan_of(input)->Ok_0->Form_rows.len(),
        plan_of(input)->Ok_0->Form_rows[i] == (
            Widget {
                field: input.body->Record_0@[i].ident,
                control: ControlAnnotation::Slider {
                    range: input.body->Record_0@[i].attrs@[k]->List_tokens@[1]->Group_0,
                },
            },
            description(input.body->Record_0@[i].attrs@),
        ),
{
    let a = input.body->Record_0@[i].attrs@[k];
    let c = ControlAnnotation::Slider { range: a->List_tokens@[1]->Group_0 };
    assert(control_of(a->List_tokens@) == Ok::<Option<ControlAnnotation>, GenError>(Some(c)));
    lemma_row_of_sole_control(input, i, k, c);
}

/// Attributes none of which is malformed give their widgets or a missing
/// parameter.
proof fn lemma_field_not_malformed(ident: String, attrs: Seq<Attribute>, m: int)
    requires
        0 <= m <= attrs.len(),
        forall|j: int|
            0 <= j < m ==> #[trigger] attr_control(attrs[j]) != Err::<
                Option<ControlAnnotation>,
                GenError,
            >(GenError::MalformedAnnotationSyntax),
    ensures
        field_widgets(ident, attrs.take(m)) is Ok || field_widgets(ident, attrs.take(m)) == Err::<
            Seq<Widget>,
            GenError,
        >(GenError::MissingRequiredParameter),
    decreases m,
{
    if m > 0 {
        lemma_field_not_malformed(ident, attrs, m - 1);
        assert(attrs.take(m).drop_last() =~= attrs.take(m - 1));
        assert(attrs.take(m).last() == attrs[m - 1]);
        assert(attr_control(attrs[m - 1]) != Err::<Option<ControlAnnotation>, GenError>(
            GenError::MalformedAnnotationSyntax,
        ));
    } else {
        assert(attrs.take(0) =~= Seq::<Attribute>::empty());
    }
}

/// Fields none of whose attributes is malformed give their widgets or a
/// missing parameter.
proof fn lemma_record_not_malformed(fields: Seq<FieldDescriptor>, n: int)
    requires
        0 <= n <= fields.len(),
        forall|i: int, j: int|
            0 <= i < n && 0 <= j < fields[i].attrs@.len() ==> #[trigger] attr_control(
                fields[i].attrs@[j],
            ) != Err::<Option<ControlAnnotation>, GenError>(GenError::MalformedAnnotationSyntax),
    ensures
        record_widgets(fields.take(n)) is Ok || record_widgets(fields.take(n)) == Err::<
            Seq<Widget>,
            GenError,
        >(GenError::MissingRequiredParameter),
    decreases n,
{
    if n > 0 {
        lemma_record_not_malformed(fields, n - 1);
        assert(fields.take(n).drop_last() =~= fields.take(n - 1));
        let f = fields[n - 1];
        assert(fields.take(n).last() == f);
        lemma_field_not_malformed(f.ident, f.attrs@, f.attrs@.len() as int);
        assert(f.attrs@.take(f.attrs@.len() as int) =~= f.attrs@);
    } else {
        assert(fields.take(0) =~= Seq::<FieldDescriptor>::empty());
    }
}

/// A record field annotated `control(slider)` without a range group aborts
/// the transform with `MissingRequiredParameter`, unless a malformed
/// annotation comes before it.
pub proof fn lemma_slider_without_range_aborts(input: TypeDescriptor, i: int, k: int)
    requires
        input.body is Record,
        0 <= i < input.body->Record_0@.len(),
        0 <= k < input.body->Record_0@[i].attrs@.len(),
        is_control(input.body->Record_0@[i].attrs@[k]),
        input.body->Record_0@[i].attrs@[k]->List_tokens@.len() >= 1,
        input.body->Record_0@[i].attrs@[k]->List_tokens@[0] is Ident,
        input.body->Record_0@[i].attrs@[k]->List_tokens@[0]->Ident_0@ == "slider"@,
        !(input.body->Record_0@[i].attrs@[k]->List_tokens@.len() >= 2
            && input.body->Record_0@[i].attrs@[k]->List_tokens@[1] is Group),
        forall|i2: int, j2: int|
            0 <= i2 < i && 0 <= j2 < input.body->Record_0@[i2].attrs@.len()
                ==> #[trigger] attr_control(input.body->Record_0@[i2].attrs@[j2]) != Err::<
                Option<ControlAnnotation>,
                GenError,
            >(GenError::MalformedAnnotationSyntax),
        forall|j2: int|
            0 <= j2 < k ==> #[trigger] attr_control(input.body->Record_0@[i].attrs@[j2]) != Err::<
                Option<ControlAnnotation>,
                GenError,
            >(GenError::MalformedAnnotationSyntax),
    ensures
        plan_of(input) == Err::<PlanView, GenError>(GenError::MissingRequiredParameter),
{
    let fields = input.body->Record_0@;
    let f = fields[i];
    let missing = GenError::MissingRequiredParameter;
    assert(attr_control(f.attrs@[k]) == Err::<Option<ControlAnnotation>, GenError>(missing));
    lemma_field_not_malformed(f.ident, f.attrs@, k);
    assert(f.attrs@.take(k + 1).drop_last() =~= f.attrs@.take(k));
    assert(f.attrs@.take(k + 1).last() == f.attrs@[k]);
    lemma_field_error_persists(f.ident, f.attrs@, k + 1, missing);
    lemma_record_not_malformed(fields, i);
    assert(fields.take(i + 1).drop_last() =~= fields.take(i));
    assert(fields.take(i + 1).last() == f);
    lemma_record_error_persists(fields, i + 1, missing);
}

} // verus!
