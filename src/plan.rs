//! Plan assembly: the form of a record, the selector of an enumerated type.
use vstd::prelude::*;
use crate::control::{parse_widgets_from_fields, record_widgets, GenError, Widget};
use crate::descriptor::{FieldDescriptor, TypeBody, TypeDescriptor};
use crate::docs::{describe_field, description, views};

verus! {

/// One row of a form: a widget, followed on the same line by a description.
#[derive(Debug)]
pub struct FormRow {
    pub widget: Widget,
    pub description: String,
}

/// What to render for an annotated type.
#[derive(Debug)]
pub enum GenerationPlan {
    /// A vertical flow of rows, top to bottom, for the record `record_name`.
    Form { record_name: String, rows: Vec<FormRow> },
    /// One selectable choice per variant of `enum_name`, in the type's own
    /// order, each labelled by the variant's display text.
    Selector { enum_name: String },
}

/// The mathematical content of a [`GenerationPlan`].
pub enum PlanView {
    Form { record_name: Seq<char>, rows: Seq<(Widget, Seq<char>)> },
    Selector { enum_name: Seq<char> },
}

/// The pairs (widget, description) of a sequence of rows.
pub open spec fn rows_view(rows: Seq<FormRow>) -> Seq<(Widget, Seq<char>)> {
    rows.map_values(|r: FormRow| (r.widget, r.description@))
}

impl View for GenerationPlan {
    type V = PlanView;

    open spec fn view(&self) -> PlanView {
        match self {
            GenerationPlan::Form { record_name, rows } => PlanView::Form {
                record_name: record_name@,
                rows: rows_view(rows@),
            },
            GenerationPlan::Selector { enum_name } => PlanView::Selector { enum_name: enum_name@ },
        }
    }
}

/// The smaller of two integers.
pub open spec fn min_len(a: int, b: int) -> int {
    if a <= b {
        a
    } else {
        b
    }
}

/// Position-by-position pairing of `ws` and `ds`, as long as the shorter.
pub open spec fn zipped(ws: Seq<Widget>, ds: Seq<Seq<char>>) -> Seq<(Widget, Seq<char>)> {
    Seq::new(min_len(ws.len() as int, ds.len() as int) as nat, |i: int| (ws[i], ds[i]))
}

/// The description of every field, in declaration order.
pub open spec fn descriptions(fields: Seq<FieldDescriptor>) -> Seq<Seq<char>> {
    fields.map_values(|f: FieldDescriptor| description(f.attrs@))
}

/// The plan for an annotated type, or why there is none.
///
/// For a record, the widgets of all fields (fields without a recognised
/// control contribute none) are paired by position with the descriptions of
/// all fields. Where an unannotated field precedes an annotated one, a widget
/// therefore stands beside the description of an earlier field.
pub open spec fn plan_of(input: TypeDescriptor) -> Result<PlanView, GenError> {
    match input.body {
        TypeBody::Record(fields) => match record_widgets(fields@) {
            Err(e) => Err(e),
            Ok(ws) => Ok(
                PlanView::Form { record_name: input.name@, rows: zipped(ws, descriptions(fields@)) },
            ),
        },
        TypeBody::Enumeration => Ok(PlanView::Selector { enum_name: input.name@ }),
        _ => Err(GenError::UnsupportedShape),
    }
}

/// The description of every field, in declaration order.
pub fn parse_doc_comments_from_fields(fields: &Vec<FieldDescriptor>) -> (r: Vec<String>)
    ensures
        views(r@) == descriptions(fields@),
{
    let mut out: Vec<String> = Vec::new();
    let mut i: usize = 0;
    while i < fields.len()
        invariant
            i <= fields.len(),
            views(out@) == descriptions(fields@.take(i as int)),
        decreases fields.len() - i,
    {
        let ghost prev = out@;
        let d = describe_field(&fields[i]);
        out.push(d);
        proof {
            assert(views(out@) =~= views(prev).push(d@));
            assert(descriptions(fields@.take(i + 1)) =~= descriptions(fields@.take(i as int)).push(
                description(fields@[i as int].attrs@),
            ));
        }
        i = i + 1;
    }
    assert(fields@.take(i as int) =~= fields@);
    out
}

/// Pairs widgets and descriptions by position, as far as the shorter goes.
pub fn assemble_rows(widgets: Vec<Widget>, docs: Vec<String>) -> (r: Vec<FormRow>)
    ensures
        rows_view(r@) == zipped(widgets@, views(docs@)),
{
    let ghost ws = widgets@;
    let ghost ds = views(docs@);
    let mut widgets = widgets;
    let mut docs = docs;
    let mut rows: Vec<FormRow> = Vec::new();
    let ghost k: int = 0;
    while widgets.len() > 0 && docs.len() > 0
        invariant
            0 <= k <= min_len(ws.len() as int, ds.len() as int),
            widgets@ == ws.subrange(k, ws.len() as int),
            widgets.len() == ws.len() - k,
            docs.len() == ds.len() - k,
            views(docs@) == ds.subrange(k, ds.len() as int),
            rows_view(rows@) == zipped(ws, ds).take(k),
        decreases widgets.len(),
    {
        let ghost prev = rows@;
        let ghost old_docs = docs@;
        let ghost old_widgets = widgets@;
        let w = widgets.remove(0);
        let d = docs.remove(0);
        assert(views(old_docs)[0] == d@);
        assert(d@ == ds[k]);
        rows.push(FormRow { widget: w, description: d });
        proof {
            assert(w == old_widgets[0]);
            assert(w == ws[k]);
            assert(rows_view(rows@) =~= rows_view(prev).push((w, d@)));
            assert(zipped(ws, ds).take(k + 1) =~= zipped(ws, ds).take(k).push((ws[k], ds[k])));
            assert(views(docs@) =~= views(old_docs).subrange(1, old_docs.len() as int));
            k = k + 1;
            assert(widgets@ =~= ws.subrange(k, ws.len() as int));
            assert(views(docs@) =~= ds.subrange(k, ds.len() as int));
        }
    }
    assert(zipped(ws, ds).take(k) =~= zipped(ws, ds));
    rows
}

/// Builds the plan for an annotated type: a form for a record with named
/// fields, a selector for an enumerated type, and `UnsupportedShape` for any
/// other shape. The first malformed or incomplete `control(...)` annotation
/// aborts the whole record.
pub fn expand(input: TypeDescriptor) -> (r: Result<GenerationPlan, GenError>)
    ensures
        match r {
            Ok(p) => plan_of(input) == Ok::<PlanView, GenError>(p@),
            Err(e) => plan_of(input) == Err::<PlanView, GenError>(e),
        },
        input.body is TupleLike ==> r == Err::<GenerationPlan, GenError>(GenError::UnsupportedShape),
{
    let TypeDescriptor { name, body } = input;
    match body {
        TypeBody::Record(fields) => {
            let docs = parse_doc_comments_from_fields(&fields);
            match parse_widgets_from_fields(&fields) {
                Err(e) => Err(e),
                Ok(widgets) => {
                    let rows = assemble_rows(widgets, docs);
                    Ok(GenerationPlan::Form { record_name: name, rows })
                },
            }
        },
        TypeBody::Enumeration => Ok(GenerationPlan::Selector { enum_name: name }),
        _ => Err(GenError::UnsupportedShape),
    }
}

} // verus!
