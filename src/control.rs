//! Control resolution: the widgets that a field's `control(...)` annotations
//! ask for.
use vstd::prelude::*;
use crate::descriptor::{Attribute, FieldDescriptor, Token};

verus! {

/// A recognised widget kind, with its parameters.
#[derive(Debug)]
pub enum ControlAnnotation {
    /// `control(slider(<range>))`: a slider over the inclusive range whose
    /// source text is `range`, kept verbatim.
    Slider { range: String },
    /// `control(textbox)`: a single-line text entry with an empty hint.
    Textbox,
    /// `control(bool)`: a checkbox without inline text.
    Checkbox,
}

/// A widget bound to the field named `field`.
#[derive(Debug)]
pub struct Widget {
    pub field: String,
    pub control: ControlAnnotation,
}

/// Why a type cannot be turned into a form.
#[derive(Clone, Copy, Debug, PartialEq, Eq, Structural)]
pub enum GenError {
    /// The type is neither a record with named fields nor an enumerated type.
    UnsupportedShape,
    /// A `slider` annotation lacks its range group.
    MissingRequiredParameter,
    /// A `control` annotation's arguments do not begin with an identifier.
    MalformedAnnotationSyntax,
}

/// The meaning of the argument list of a `control(...)` annotation:
/// `Ok(None)` for a well-formed but unrecognised kind.
pub open spec fn control_of(tokens: Seq<Token>) -> Result<Option<ControlAnnotation>, GenError> {
    if tokens.len() == 0 {
        Err(GenError::MalformedAnnotationSyntax)
    } else {
        match tokens[0] {
            Token::Ident(kind) => {
                if kind@ == "slider"@ {
                    if tokens.len() >= 2 && tokens[1] is Group {
                        Ok(Some(ControlAnnotation::Slider { range: tokens[1]->Group_0 }))
                    } else {
                        Err(GenError::MissingRequiredParameter)
                    }
                } else if kind@ == "textbox"@ {
                    Ok(Some(ControlAnnotation::Textbox))
                } else if kind@ == "bool"@ {
                    Ok(Some(ControlAnnotation::Checkbox))
                } else {
                    Ok(None)
                }
            },
            _ => Err(GenError::MalformedAnnotationSyntax),
        }
    }
}

/// Whether `a` is a `control(...)` annotation.
pub open spec fn is_control(a: Attribute) -> bool {
    a is List && a->List_path@ == "control"@
}

/// The control an attribute asks for; attributes other than `control(...)`
/// ask for none.
pub open spec fn attr_control(a: Attribute) -> Result<Option<ControlAnnotation>, GenError> {
    if is_control(a) {
        control_of(a->List_tokens@)
    } else {
        Ok(None)
    }
}

/// The widgets asked for by `attrs`, bound to `ident`, in order; the first
/// error among them, if any.
pub open spec fn field_widgets(ident: String, attrs: Seq<Attribute>) -> Result<
    Seq<Widget>,
    GenError,
>
    decreases attrs.len(),
{
    if attrs.len() == 0 {
        Ok(Seq::empty())
    } else {
        match field_widgets(ident, attrs.drop_last()) {
            Err(e) => Err(e),
            Ok(ws) => match attr_control(attrs.last()) {
                Err(e) => Err(e),
                Ok(None) => Ok(ws),
                Ok(Some(c)) => Ok(ws.push(Widget { field: ident, control: c })),
            },
        }
    }
}

/// The widgets of all fields, concatenated in declaration order; fields
/// without a recognised control contribute none. The first error, if any.
pub open spec fn record_widgets(fields: Seq<FieldDescriptor>) -> Result<Seq<Widget>, GenError>
    decreases fields.len(),
{
    if fields.len() == 0 {
        Ok(Seq::empty())
    } else {
        match record_widgets(fields.drop_last()) {
            Err(e) => Err(e),
            Ok(ws) => match field_widgets(fields.last().ident, fields.last().attrs@) {
                Err(e) => Err(e),
                Ok(more) => Ok(ws + more),
            },
        }
    }
}

/// Whether `s` holds exactly the characters of `lit`.
fn text_is(s: &String, lit: &str) -> (r: bool)
    ensures
        r == (s@ == lit@),
{
    *s == String::from_str(lit)
}

/// Interprets the argument list of a `control(...)` annotation.
pub fn parse_control(tokens: &Vec<Token>) -> (r: Result<Option<ControlAnnotation>, GenError>)
    ensures
        r == control_of(tokens@),
{
    if tokens.len() == 0 {
        return Err(GenError::MalformedAnnotationSyntax);
    }
    match &tokens[0] {
        Token::Ident(kind) => {
            if text_is(kind, "slider") {
                if tokens.len() >= 2 {
                    if let Token::Group(range) = &tokens[1] {
                        return Ok(Some(ControlAnnotation::Slider { range: range.clone() }));
                    }
                }
                Err(GenError::MissingRequiredParameter)
            } else if text_is(kind, "textbox") {
                Ok(Some(ControlAnnotation::Textbox))
            } else if text_is(kind, "bool") {
                Ok(Some(ControlAnnotation::Checkbox))
            } else {
                Ok(None)
            }
        },
        _ => Err(GenError::MalformedAnnotationSyntax),
    }
}

/// The control that one attribute asks for.
pub fn resolve_attribute(a: &Attribute) -> (r: Result<Option<ControlAnnotation>, GenError>)
    ensures
        r == attr_control(*a),
{
    match a {
        Attribute::List { path, tokens } => {
            if text_is(path, "control") {
                parse_control(tokens)
            } else {
                Ok(None)
            }
        },
        _ => Ok(None),
    }
}

/// Appends to `out` the widgets that `field`'s annotations ask for, in order,
/// or returns the first error.
pub fn resolve_field(field: &FieldDescriptor, out: &mut Vec<Widget>) -> (r: Result<(), GenError>)
    ensures
        match field_widgets(field.ident, field.attrs@) {
            Ok(ws) => r is Ok && final(out)@ == old(out)@ + ws,
            Err(e) => r == Err::<(), GenError>(e),
        },
{
    let ghost start = out@;
    let mut i: usize = 0;
    assert(start + Seq::<Widget>::empty() =~= start);
    while i < field.attrs.len()
        invariant
            i <= field.attrs.len(),
            field_widgets(field.ident, field.attrs@.take(i as int)) is Ok,
            out@ == start + field_widgets(field.ident, field.attrs@.take(i as int))->Ok_0,
        decreases field.attrs.len() - i,
    {
        assert(field.attrs@.take(i + 1).drop_last() =~= field.attrs@.take(i as int));
        match resolve_attribute(&field.attrs[i]) {
            Err(e) => {
                proof {
                    lemma_field_error_persists(field.ident, field.attrs@, i + 1, e);
                }
                return Err(e);
            },
            Ok(None) => {},
            Ok(Some(c)) => {
                out.push(Widget { field: field.ident.clone(), control: c });
                assert(out@ =~= start + field_widgets(field.ident, field.attrs@.take(i + 1))->Ok_0);
            },
        }
        i = i + 1;
    }
    assert(field.attrs@.take(i as int) =~= field.attrs@);
    Ok(())
}

/// An error in a prefix of a field's attributes is the field's error.
pub(crate) proof fn lemma_field_error_persists(ident: String, attrs: Seq<Attribute>, n: int, e: GenError)
    requires
        0 <= n <= attrs.len(),
        field_widgets(ident, attrs.take(n)) == Err::<Seq<Widget>, GenError>(e),
    ensures
        field_widgets(ident, attrs) == Err::<Seq<Widget>, GenError>(e),
    decreases attrs.len() - n,
{
    if n < attrs.len() {
        assert(attrs.take(n + 1).drop_last() =~= attrs.take(n));
        lemma_field_error_persists(ident, attrs, n + 1, e);
    } else {
        assert(attrs.take(n) =~= attrs);
    }
}

/// An error in a prefix of the fields is the record's error.
pub(crate) proof fn lemma_record_error_persists(fields: Seq<FieldDescriptor>, n: int, e: GenError)
    requires
        0 <= n <= fields.len(),
        record_widgets(fields.take(n)) == Err::<Seq<Widget>, GenError>(e),
    ensures
        record_widgets(fields) == Err::<Seq<Widget>, GenError>(e),
    decreases fields.len() - n,
{
    if n < fields.len() {
        assert(fields.take(n + 1).drop_last() =~= fields.take(n));
        lemma_record_error_persists(fields, n + 1, e);
    } else {
        assert(fields.take(n) =~= fields);
    }
}

/// The widgets of all fields, concatenated in declaration order, or the first
/// error.
pub fn parse_widgets_from_fields(fields: &Vec<FieldDescriptor>) -> (r: Result<Vec<Widget>, GenError>)
    ensures
        match r {
            Ok(v) => record_widgets(fields@) == Ok::<Seq<Widget>, GenError>(v@),
            Err(e) => record_widgets(fields@) == Err::<Seq<Widget>, GenError>(e),
        },
{
    let mut out: Vec<Widget> = Vec::new();
    let mut i: usize = 0;
    assert(record_widgets(fields@.take(0)) == Ok::<Seq<Widget>, GenError>(Seq::empty()));
    while i < fields.len()
        invariant
            i <= fields.len(),
            record_widgets(fields@.take(i as int)) == Ok::<Seq<Widget>, GenError>(out@),
        decreases fields.len() - i,
    {
        assert(fields@.take(i + 1).drop_last() =~= fields@.take(i as int));
        match resolve_field(&fields[i], &mut out) {
            Err(e) => {
                proof {
                    lemma_record_error_persists(fields@, i + 1, e);
                }
                return Err(e);
            },
            Ok(()) => {},
        }
        i = i + 1;
    }
    assert(fields@.take(i as int) =~= fields@);
    Ok(out)
}

} // verus!
