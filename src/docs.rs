//! Documentation extraction: one display string per field.
use vstd::prelude::*;
use crate::descriptor::{Attribute, FieldDescriptor};

verus! {

/// What `str::trim` makes of a sequence of characters.
pub uninterp spec fn trimmed(s: Seq<char>) -> Seq<char>;

/// Relies on `str::trim`: leading and trailing whitespace removed, the result
/// depending on the characters alone.
#[verifier::external_body]
fn trim_text(s: &str) -> (r: String)
    ensures
        r@ == trimmed(s@),
{
    s.trim().to_string()
}

/// The text shown for a field without documentation.
pub open spec fn fallback_text() -> Seq<char> {
    "No doc comment found"@
}

/// `s` without one leading and then one trailing double quote, where present.
pub open spec fn unquoted(s: Seq<char>) -> Seq<char> {
    let a = if s.len() > 0 && s[0] == '"' {
        s.drop_first()
    } else {
        s
    };
    if a.len() > 0 && a.last() == '"' {
        a.drop_last()
    } else {
        a
    }
}

/// A raw documentation fragment as displayed: unquoted, then trimmed.
pub open spec fn cleaned(raw: Seq<char>) -> Seq<char> {
    trimmed(unquoted(raw))
}

/// The parts joined in order, one space between neighbours.
pub open spec fn joined(parts: Seq<Seq<char>>) -> Seq<char>
    decreases parts.len(),
{
    if parts.len() == 0 {
        Seq::empty()
    } else if parts.len() == 1 {
        parts[0]
    } else {
        joined(parts.drop_last()) + seq![' '] + parts.last()
    }
}

/// The documentation fragment an attribute carries, if any: the literal of a
/// `doc = "..."` attribute.
pub open spec fn fragment_of(a: Attribute) -> Option<Seq<char>> {
    match a {
        Attribute::NameValue { path, literal } => {
            if path@ == "doc"@ && literal is Some {
                Some(literal->Some_0@)
            } else {
                None
            }
        },
        _ => None,
    }
}

/// The raw documentation fragments among `attrs`, in order.
pub open spec fn doc_fragments(attrs: Seq<Attribute>) -> Seq<Seq<char>>
    decreases attrs.len(),
{
    if attrs.len() == 0 {
        Seq::empty()
    } else {
        let rest = doc_fragments(attrs.drop_last());
        match fragment_of(attrs.last()) {
            Some(f) => rest.push(f),
            None => rest,
        }
    }
}

/// The description of a field with attributes `attrs`.
pub open spec fn description(attrs: Seq<Attribute>) -> Seq<char> {
    let frags = doc_fragments(attrs);
    if frags.len() == 0 {
        fallback_text()
    } else {
        joined(frags.map_values(|f: Seq<char>| cleaned(f)))
    }
}

/// The views of a sequence of strings.
pub open spec fn views(v: Seq<String>) -> Seq<Seq<char>> {
    v.map_values(|s: String| s@)
}

/// Removes one leading and then one trailing double quote, where present.
pub fn unquote(raw: &str) -> (r: &str)
    ensures
        r@ == unquoted(raw@),
{
    let n = raw.unicode_len();
    let from: usize = if n > 0 && raw.get_char(0) == '"' {
        1
    } else {
        0
    };
    let to: usize = if n > from && raw.get_char(n - 1) == '"' {
        n - 1
    } else {
        n
    };
    let r = raw.substring_char(from, to);
    assert(r@ =~= unquoted(raw@));
    r
}

/// A raw documentation fragment as displayed: unquoted, then trimmed.
pub fn clean_fragment(raw: &str) -> (r: String)
    ensures
        r@ == cleaned(raw@),
{
    trim_text(unquote(raw))
}

/// Joins `parts` in order with a single space between neighbours.
pub fn join_with_spaces(parts: &Vec<String>) -> (r: String)
    ensures
        r@ == joined(views(parts@)),
{
    let mut out = String::new();
    let mut i: usize = 0;
    proof {
        reveal_strlit(" ");
        assert(views(parts@.take(0)) =~= Seq::<Seq<char>>::empty());
    }
    while i < parts.len()
        invariant
            i <= parts.len(),
            out@ == joined(views(parts@.take(i as int))),
        decreases parts.len() - i,
    {
        let ghost before = views(parts@.take(i as int));
        let ghost after = views(parts@.take(i + 1));
        proof {
            reveal_strlit(" ");
        }
        if i > 0 {
            out.append(" ");
        }
        out.append(parts[i].as_str());
        proof {
            assert(after.drop_last() =~= before);
            assert(after.last() == parts@[i as int]@);
            if i == 0 {
                assert(out@ =~= joined(after));
            } else {
                assert(out@ =~= joined(after));
            }
        }
        i = i + 1;
    }
    assert(parts@.take(i as int) =~= parts@);
    out
}

/// The raw documentation fragments among `attrs`, in order.
pub fn collect_doc_fragments(attrs: &Vec<Attribute>) -> (r: Vec<String>)
    ensures
        views(r@) == doc_fragments(attrs@),
{
    let mut out: Vec<String> = Vec::new();
    let mut i: usize = 0;
    let doc = String::from_str("doc");
    assert(views(out@) =~= doc_fragments(attrs@.take(0)));
    while i < attrs.len()
        invariant
            i <= attrs.len(),
            doc@ == "doc"@,
            views(out@) == doc_fragments(attrs@.take(i as int)),
        decreases attrs.len() - i,
    {
        let ghost prev = out@;
        assert(attrs@.take(i + 1).drop_last() =~= attrs@.take(i as int));
        match &attrs[i] {
            Attribute::NameValue { path, literal: Some(lit) } => {
                if *path == doc {
                    out.push(lit.clone());
                    assert(views(out@) =~= views(prev).push(lit@));
                }
            },
            _ => {},
        }
        i = i + 1;
    }
    assert(attrs@.take(i as int) =~= attrs@);
    out
}

/// The description of a field: its documentation fragments, each unquoted
/// and trimmed, joined with single spaces; `"No doc comment found"` when it
/// has none.
pub fn describe_field(field: &FieldDescriptor) -> (r: String)
    ensures
        r@ == description(field.attrs@),
        doc_fragments(field.attrs@).len() == 0 ==> r@ == "No doc comment found"@,
{
    let raw = collect_doc_fragments(&field.attrs);
    if raw.len() == 0 {
        return String::from_str("No doc comment found");
    }
    let mut parts: Vec<String> = Vec::new();
    let mut i: usize = 0;
    while i < raw.len()
        invariant
            i <= raw.len(),
            views(raw@) == doc_fragments(field.attrs@),
            views(parts@) == views(raw@).take(i as int).map_values(|f: Seq<char>| cleaned(f)),
        decreases raw.len() - i,
    {
        let ghost prev = parts@;
        let p = clean_fragment(raw[i].as_str());
        parts.push(p);
        proof {
            assert(views(parts@) =~= views(prev).push(p@));
            assert(views(raw@)[i as int] == raw@[i as int]@);
            assert(views(raw@).take(i + 1).map_values(|f: Seq<char>| cleaned(f)) =~= views(
                raw@,
            ).take(i as int).map_values(|f: Seq<char>| cleaned(f)).push(cleaned(raw@[i as int]@)));
        }
        i = i + 1;
    }
    assert(views(raw@).take(i as int) =~= views(raw@));
    join_with_spaces(&parts)
}

} // verus!
