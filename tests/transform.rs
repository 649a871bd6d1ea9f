use form_derive::control::{parse_control, parse_widgets_from_fields};
use form_derive::docs::{clean_fragment, describe_field, join_with_spaces, unquote};
use form_derive::plan::{assemble_rows, parse_doc_comments_from_fields};
use form_derive::{
    expand, Attribute, ControlAnnotation, FieldDescriptor, GenError, GenerationPlan, Token,
    TypeBody, TypeDescriptor, Widget,
};

fn doc(line: &str) -> Attribute {
    Attribute::NameValue { path: "doc".to_string(), literal: Some(format!("\"{}\"", line)) }
}

fn control(tokens: Vec<Token>) -> Attribute {
    Attribute::List { path: "control".to_string(), tokens }
}

fn ident(s: &str) -> Token {
    Token::Ident(s.to_string())
}

fn group(s: &str) -> Token {
    Token::Group(s.to_string())
}

fn field(name: &str, attrs: Vec<Attribute>) -> FieldDescriptor {
    FieldDescriptor { ident: name.to_string(), attrs }
}

fn record(name: &str, fields: Vec<FieldDescriptor>) -> TypeDescriptor {
    TypeDescriptor { name: name.to_string(), body: TypeBody::Record(fields) }
}

fn rows_of(plan: Result<GenerationPlan, GenError>) -> (String, Vec<(String, String, String)>) {
    match plan {
        Ok(GenerationPlan::Form { record_name, rows }) => {
            let rows = rows
                .into_iter()
                .map(|r| {
                    let kind = match r.widget.control {
                        ControlAnnotation::Slider { range } => format!("slider {}", range),
                        ControlAnnotation::Textbox => "textbox".to_string(),
                        ControlAnnotation::Checkbox => "checkbox".to_string(),
                    };
                    (r.widget.field, kind, r.description)
                })
                .collect();
            (record_name, rows)
        }
        other => panic!("expected a form, got {:?}", other),
    }
}

#[test]
fn record_without_controls_has_no_rows() {
    let input = record(
        "Settings",
        vec![field("a", vec![doc("First.")]), field("b", vec![]), field("c", vec![doc("Third.")])],
    );
    let (name, rows) = rows_of(expand(input));
    assert_eq!(name, "Settings");
    assert!(rows.is_empty());
}

#[test]
fn empty_record_has_no_rows() {
    let (_, rows) = rows_of(expand(record("Empty", vec![])));
    assert!(rows.is_empty());
}

#[test]
fn missing_docs_give_fallback() {
    let f = field("a", vec![control(vec![ident("bool")])]);
    assert_eq!(describe_field(&f), "No doc comment found");
}

#[test]
fn non_doc_name_value_is_not_documentation() {
    let f = field(
        "a",
        vec![Attribute::NameValue { path: "serde".to_string(), literal: Some("\"x\"".to_string()) }],
    );
    assert_eq!(describe_field(&f), "No doc comment found");
}

#[test]
fn doc_fragments_join_with_single_spaces() {
    let f = field("a", vec![doc("Enables X."), doc("Default: off.")]);
    assert_eq!(describe_field(&f), "Enables X. Default: off.");
}

#[test]
fn doc_fragments_are_unquoted_and_trimmed() {
    let f = field("a", vec![doc("  Enables X.  "), Attribute::Other, doc(" Default: off.")]);
    assert_eq!(describe_field(&f), "Enables X. Default: off.");
}

#[test]
fn three_doc_lines_in_order() {
    let f = field("a", vec![doc("One."), doc("Two."), doc("Three.")]);
    assert_eq!(describe_field(&f), "One. Two. Three.");
}

#[test]
fn clean_fragment_strips_quotes_and_whitespace() {
    assert_eq!(clean_fragment("\"  hi there \t\""), "hi there");
    assert_eq!(clean_fragment("no quotes "), "no quotes");
    assert_eq!(clean_fragment("\""), "");
    assert_eq!(clean_fragment("\"\"\""), "\"");
}

#[test]
fn unquote_strips_one_quote_each_side() {
    assert_eq!(unquote("\"a\""), "a");
    assert_eq!(unquote("\"\"a\"\""), "\"a\"");
    assert_eq!(unquote("a\""), "a");
    assert_eq!(unquote("\"a"), "a");
    assert_eq!(unquote(""), "");
}

#[test]
fn join_with_spaces_cases() {
    assert_eq!(join_with_spaces(&vec![]), "");
    assert_eq!(join_with_spaces(&vec!["x".to_string()]), "x");
    assert_eq!(join_with_spaces(&vec!["x".to_string(), "".to_string(), "y".to_string()]), "x  y");
}

#[test]
fn checkbox_row_uses_own_description() {
    let input = record("S", vec![field("enabled", vec![doc("Turns it on."), control(vec![ident("bool")])])]);
    let (_, rows) = rows_of(expand(input));
    assert_eq!(
        rows,
        vec![("enabled".to_string(), "checkbox".to_string(), "Turns it on.".to_string())]
    );
}

#[test]
fn slider_row_keeps_range_verbatim() {
    let input = record(
        "S",
        vec![field("level", vec![doc("Level."), control(vec![ident("slider"), group("1..=10")])])],
    );
    let (_, rows) = rows_of(expand(input));
    assert_eq!(rows, vec![("level".to_string(), "slider 1..=10".to_string(), "Level.".to_string())]);
}

#[test]
fn textbox_row() {
    let input = record("S", vec![field("title", vec![control(vec![ident("textbox")])])]);
    let (_, rows) = rows_of(expand(input));
    assert_eq!(
        rows,
        vec![("title".to_string(), "textbox".to_string(), "No doc comment found".to_string())]
    );
}

#[test]
fn slider_without_range_aborts() {
    let input = record(
        "S",
        vec![
            field("a", vec![control(vec![ident("bool")])]),
            field("level", vec![control(vec![ident("slider")])]),
        ],
    );
    assert_eq!(expand(input).err(), Some(GenError::MissingRequiredParameter));
}

#[test]
fn slider_followed_by_non_group_aborts() {
    let tokens = vec![ident("slider"), Token::Other(",".to_string())];
    assert_eq!(parse_control(&tokens).err(), Some(GenError::MissingRequiredParameter));
}

#[test]
fn control_not_starting_with_identifier_is_malformed() {
    let input = record("S", vec![field("a", vec![control(vec![Token::Other("1".to_string())])])]);
    assert_eq!(expand(input).err(), Some(GenError::MalformedAnnotationSyntax));
    assert_eq!(parse_control(&vec![]).err(), Some(GenError::MalformedAnnotationSyntax));
}

#[test]
fn first_error_in_order_wins() {
    let input = record(
        "S",
        vec![
            field("a", vec![control(vec![group("x")])]),
            field("b", vec![control(vec![ident("slider")])]),
        ],
    );
    assert_eq!(expand(input).err(), Some(GenError::MalformedAnnotationSyntax));
}

#[test]
fn unrecognised_kind_gives_no_widget() {
    assert!(matches!(parse_control(&vec![ident("dial")]), Ok(None)));
    let other_path = Attribute::List { path: "serde".to_string(), tokens: vec![ident("bool")] };
    let widgets = parse_widgets_from_fields(&vec![field("a", vec![other_path])]).unwrap();
    assert!(widgets.is_empty());
}

#[test]
fn positional_pairing_after_unannotated_field() {
    let input = record(
        "S",
        vec![
            field("a", vec![doc("About a.")]),
            field("b", vec![doc("About b."), control(vec![ident("bool")])]),
        ],
    );
    let (_, rows) = rows_of(expand(input));
    assert_eq!(rows, vec![("b".to_string(), "checkbox".to_string(), "About a.".to_string())]);
}

#[test]
fn two_controls_on_one_field_give_two_widgets() {
    let input = record(
        "S",
        vec![
            field("a", vec![doc("A."), control(vec![ident("bool")]), control(vec![ident("textbox")])]),
            field("b", vec![doc("B.")]),
        ],
    );
    let (_, rows) = rows_of(expand(input));
    assert_eq!(
        rows,
        vec![
            ("a".to_string(), "checkbox".to_string(), "A.".to_string()),
            ("a".to_string(), "textbox".to_string(), "B.".to_string()),
        ]
    );
}

#[test]
fn docs_and_widgets_per_field() {
    let fields = vec![
        field("a", vec![doc("A.")]),
        field("b", vec![control(vec![ident("textbox")])]),
    ];
    assert_eq!(parse_doc_comments_from_fields(&fields), vec!["A.".to_string(), "No doc comment found".to_string()]);
    let widgets = parse_widgets_from_fields(&fields).unwrap();
    assert_eq!(widgets.len(), 1);
    assert_eq!(widgets[0].field, "b");
}

#[test]
fn assemble_rows_stops_at_shorter() {
    let widgets = vec![
        Widget { field: "x".to_string(), control: ControlAnnotation::Checkbox },
        Widget { field: "y".to_string(), control: ControlAnnotation::Textbox },
    ];
    let rows = assemble_rows(widgets, vec!["only".to_string()]);
    assert_eq!(rows.len(), 1);
    assert_eq!(rows[0].widget.field, "x");
    assert_eq!(rows[0].description, "only");
}

#[test]
fn enumeration_gives_selector() {
    let input = TypeDescriptor { name: "Level".to_string(), body: TypeBody::Enumeration };
    match expand(input) {
        Ok(GenerationPlan::Selector { enum_name }) => assert_eq!(enum_name, "Level"),
        other => panic!("expected a selector, got {:?}", other),
    }
}

#[test]
fn tuple_like_is_unsupported() {
    let input = TypeDescriptor { name: "Pair".to_string(), body: TypeBody::TupleLike };
    assert_eq!(expand(input).err(), Some(GenError::UnsupportedShape));
}

#[test]
fn unit_and_union_are_unsupported() {
    let unit = TypeDescriptor { name: "U".to_string(), body: TypeBody::UnitLike };
    assert_eq!(expand(unit).err(), Some(GenError::UnsupportedShape));
    let union = TypeDescriptor { name: "V".to_string(), body: TypeBody::Union };
    assert_eq!(expand(union).err(), Some(GenError::UnsupportedShape));
}
