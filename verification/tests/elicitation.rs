use dsh_tui::elicitation::{
    form_from_request, ArrayPropertySchema, BooleanPropertySchema, CreateElicitationRequest, ElicitationFieldKind,
    ElicitationFormState, ElicitationMode, ElicitationPropertySchema, ElicitationReply, ElicitationValue,
    IntegerPropertySchema, MultiSelectItems, NumberPropertySchema, NumberVerdict, RequestedSchema, StringPropertySchema,
    TitledOption,
};
use dsh_tui::input::keys::{KeyCode, KeyEvent, KeyModifiers};
use dsh_tui::locale::Locale;

fn key(code: KeyCode) -> KeyEvent {
    KeyEvent { code, modifiers: KeyModifiers::none() }
}

fn text(default: Option<&str>) -> ElicitationPropertySchema {
    ElicitationPropertySchema::String(StringPropertySchema {
        title: None,
        description: None,
        one_of: None,
        enum_values: None,
        default: default.map(str::to_string),
    })
}

fn choice(values: &[&str]) -> ElicitationPropertySchema {
    ElicitationPropertySchema::String(StringPropertySchema {
        title: Some("Pick".into()),
        description: Some("one".into()),
        one_of: Some(
            values
                .iter()
                .map(|v| TitledOption { value: v.to_string(), title: if *v == "other" { "Other".into() } else { v.to_uppercase() }, description: None })
                .collect(),
        ),
        enum_values: None,
        default: None,
    })
}

fn request(props: Vec<(&str, ElicitationPropertySchema)>, required: &[&str]) -> CreateElicitationRequest {
    CreateElicitationRequest {
        message: "Please answer".into(),
        mode: ElicitationMode::Form(RequestedSchema {
            properties: props.into_iter().map(|(n, p)| (n.to_string(), p)).collect(),
            required: Some(required.iter().map(|s| s.to_string()).collect()),
        }),
    }
}

fn answers(reply: ElicitationReply) -> Vec<(String, ElicitationValue)> {
    match reply {
        ElicitationReply::Accepted(v) => v,
        ElicitationReply::Cancelled => panic!("cancelled"),
    }
}

fn type_text(state: &mut ElicitationFormState, s: &str) {
    for ch in s.chars() {
        assert!(state.handle_key(key(KeyCode::Char(ch)), NumberVerdict::Fine).is_none());
    }
}

#[test]
fn only_form_requests_become_forms() {
    let req = CreateElicitationRequest { message: "m".into(), mode: ElicitationMode::Other };
    assert_eq!(form_from_request(&req).err().as_deref(), Some("only form elicitation is supported"));
    let empty = request(vec![], &[]);
    assert_eq!(form_from_request(&empty).err().as_deref(), Some("elicitation form has no supported fields"));
    let other = request(vec![("a", text(None)), ("b", ElicitationPropertySchema::Other)], &[]);
    assert_eq!(form_from_request(&other).err().as_deref(), Some("unsupported elicitation property: b"));
    let bad_items = request(
        vec![(
            "z",
            ElicitationPropertySchema::Array(ArrayPropertySchema {
                title: None,
                description: None,
                items: MultiSelectItems::Other,
                default: None,
                min_items: None,
                max_items: None,
            }),
        ), ("a", ElicitationPropertySchema::Other)],
        &[],
    );
    assert_eq!(form_from_request(&bad_items).err().as_deref(), Some("unsupported elicitation multi-select item type"));
}

#[test]
fn other_choice_folds_its_plain_sibling() {
    let req = request(vec![("color", choice(&["red", "other"])), ("color_custom", text(None))], &["color"]);
    let form = form_from_request(&req).unwrap();
    assert_eq!(form.fields.len(), 1);
    let f = &form.fields[0];
    assert_eq!(f.name, "color");
    assert_eq!(f.custom_name.as_deref(), Some("color_custom"));
    assert!(f.required);
    assert_eq!(f.title, "Pick");
    match &f.kind {
        ElicitationFieldKind::Single { options, .. } => {
            assert!(!options[0].custom);
            assert!(options[1].custom);
            assert_eq!(options[0].label, "RED");
        }
        _ => panic!("single select expected"),
    }
}

#[test]
fn typed_text_answers_and_submits() {
    let req = request(vec![("name", text(Some("Ann")))], &["name"]);
    let mut state = ElicitationFormState::new(form_from_request(&req).unwrap());
    assert!(state.current_is_text());
    assert_eq!(state.fields[0].input.buf, "Ann");
    type_text(&mut state, "e");
    state.handle_key(key(KeyCode::Left), NumberVerdict::Fine);
    state.handle_key(key(KeyCode::Backspace), NumberVerdict::Fine);
    assert_eq!(state.fields[0].input.buf, "Ane");
    let reply = state.handle_key(key(KeyCode::Enter), NumberVerdict::Fine).expect("submitted");
    let a = answers(reply);
    assert_eq!(a.len(), 1);
    assert_eq!(a[0].0, "name");
    assert!(matches!(&a[0].1, ElicitationValue::String(s) if s == "Ane"));
}

#[test]
fn required_text_cannot_be_empty_or_skipped() {
    let req = request(vec![("name", text(None)), ("age", ElicitationPropertySchema::Integer(IntegerPropertySchema {
        title: None, description: None, default: None, minimum: Some(0), maximum: Some(150) }))], &["name"]);
    let mut state = ElicitationFormState::new(form_from_request(&req).unwrap());
    assert!(state.handle_key(key(KeyCode::Enter), NumberVerdict::Fine).is_none());
    assert_eq!(state.error.as_deref(), Some("Enter a value or use Tab to skip an optional field."));
    assert!(state.handle_key(key(KeyCode::Tab), NumberVerdict::Fine).is_none());
    assert_eq!(state.error.as_deref(), Some("This field is required."));
    assert_eq!(state.index, 1 - 1);
    state.locale = Locale::Zh;
    state.handle_key(key(KeyCode::Tab), NumberVerdict::Fine);
    assert_eq!(state.error.as_deref(), Some("此字段为必填项。"));
}

#[test]
fn integer_answers_are_parsed_and_bounded() {
    let req = request(
        vec![
            ("age", ElicitationPropertySchema::Integer(IntegerPropertySchema {
                title: None, description: None, default: Some(-5), minimum: Some(0), maximum: Some(150) })),
        ],
        &[],
    );
    let mut state = ElicitationFormState::new(form_from_request(&req).unwrap());
    assert_eq!(state.fields[0].input.buf, "-5");
    assert!(state.handle_key(key(KeyCode::Enter), NumberVerdict::Fine).is_none());
    assert_eq!(state.error.as_deref(), Some("The number is outside the allowed range."));
    state.handle_key(key(KeyCode::Home), NumberVerdict::Fine);
    state.handle_key(key(KeyCode::Delete), NumberVerdict::Fine);
    type_text(&mut state, "x");
    assert!(state.handle_key(key(KeyCode::Enter), NumberVerdict::Fine).is_none());
    assert_eq!(state.error.as_deref(), Some("Enter a whole number."));
    state.handle_key(key(KeyCode::Home), NumberVerdict::Fine);
    state.handle_key(key(KeyCode::Delete), NumberVerdict::Fine);
    let a = answers(state.handle_key(key(KeyCode::Enter), NumberVerdict::Fine).expect("submitted"));
    assert!(matches!(a[0].1, ElicitationValue::Integer(5)));
}

#[test]
fn number_fields_follow_the_callers_verdict() {
    let req = request(
        vec![("ratio", ElicitationPropertySchema::Number(NumberPropertySchema {
            title: None, description: None, default: Some("0.5".into()) }))],
        &["ratio"],
    );
    let mut state = ElicitationFormState::new(form_from_request(&req).unwrap());
    assert!(state.handle_key(key(KeyCode::Enter), NumberVerdict::OutOfRange).is_none());
    assert_eq!(state.error.as_deref(), Some("The number is outside the allowed range."));
    assert!(state.handle_key(key(KeyCode::Enter), NumberVerdict::NotANumber).is_none());
    assert_eq!(state.error.as_deref(), Some("Enter a number."));
    let a = answers(state.handle_key(key(KeyCode::Enter), NumberVerdict::Fine).unwrap());
    assert!(matches!(&a[0].1, ElicitationValue::Number(t) if t == "0.5"));
}

#[test]
fn single_select_other_answer_is_typed() {
    let req = request(vec![("color", choice(&["red", "other"])), ("color_custom", text(None))], &[]);
    let mut state = ElicitationFormState::new(form_from_request(&req).unwrap());
    state.handle_key(key(KeyCode::Down), NumberVerdict::Fine);
    assert_eq!(state.fields[0].cursor, 1);
    // Enter on an empty Other opens its editor instead of submitting.
    assert!(state.handle_key(key(KeyCode::Enter), NumberVerdict::Fine).is_none());
    assert!(state.fields[0].editing_custom);
    type_text(&mut state, "teal");
    let a = answers(state.handle_key(key(KeyCode::Enter), NumberVerdict::Fine).unwrap());
    assert_eq!(a.len(), 2);
    assert!(matches!(&a[0].1, ElicitationValue::String(v) if v == "other"));
    assert_eq!(a[1].0, "color_custom");
    assert!(matches!(&a[1].1, ElicitationValue::String(v) if v == "teal"));
}

#[test]
fn multi_select_toggles_and_counts() {
    let req = request(
        vec![(
            "tags",
            ElicitationPropertySchema::Array(ArrayPropertySchema {
                title: None,
                description: None,
                items: MultiSelectItems::String(vec!["a".into(), "b".into(), "c".into()]),
                default: Some(vec!["b".into()]),
                min_items: Some(2),
                max_items: Some(2),
            }),
        )],
        &[],
    );
    let mut state = ElicitationFormState::new(form_from_request(&req).unwrap());
    assert_eq!(state.fields[0].selected, vec![false, true, false]);
    assert!(state.handle_key(key(KeyCode::Enter), NumberVerdict::Fine).is_none());
    assert_eq!(state.error.as_deref(), Some("Select at least 2 option(s)."));
    state.handle_key(key(KeyCode::Char(' ')), NumberVerdict::Fine);
    state.handle_key(key(KeyCode::Up), NumberVerdict::Fine);
    assert_eq!(state.fields[0].cursor, 2);
    state.handle_key(key(KeyCode::Char(' ')), NumberVerdict::Fine);
    assert!(state.handle_key(key(KeyCode::Enter), NumberVerdict::Fine).is_none());
    assert_eq!(state.error.as_deref(), Some("Select at most 2 option(s)."));
    state.handle_key(key(KeyCode::Down), NumberVerdict::Fine);
    state.handle_key(key(KeyCode::Down), NumberVerdict::Fine);
    state.handle_key(key(KeyCode::Char(' ')), NumberVerdict::Fine);
    let a = answers(state.handle_key(key(KeyCode::Enter), NumberVerdict::Fine).unwrap());
    assert!(matches!(&a[0].1, ElicitationValue::StringArray(v) if v == &vec!["a".to_string(), "c".to_string()]));
}

#[test]
fn boolean_defaults_and_skips() {
    let req = request(
        vec![
            ("ok", ElicitationPropertySchema::Boolean(BooleanPropertySchema { title: None, description: None, default: Some(false) })),
            ("note", text(None)),
        ],
        &[],
    );
    let mut state = ElicitationFormState::new(form_from_request(&req).unwrap());
    assert_eq!(state.fields[0].cursor, 1);
    assert_eq!(state.fields[0].selected, vec![false, true]);
    state.handle_key(key(KeyCode::Up), NumberVerdict::Fine);
    assert!(state.handle_key(key(KeyCode::Enter), NumberVerdict::Fine).is_none());
    assert_eq!(state.index, 1);
    state.paste("line one\nline two");
    assert_eq!(state.fields[1].input.buf, "line one line two");
    let a = answers(state.handle_key(key(KeyCode::Tab), NumberVerdict::Fine).unwrap());
    assert_eq!(a.len(), 1);
    assert!(matches!(a[0].1, ElicitationValue::Boolean(true)));
}

#[test]
fn escape_and_plain_ctrl_c_cancel_but_chorded_copy_does_not() {
    let req = request(vec![("name", text(None))], &[]);
    let mut state = ElicitationFormState::new(form_from_request(&req).unwrap());
    let copy = KeyEvent { code: KeyCode::Char('c'), modifiers: KeyModifiers { control: true, shift: true, ..KeyModifiers::none() } };
    assert!(state.handle_key(copy, NumberVerdict::Fine).is_none());
    let ctrl_c = KeyEvent { code: KeyCode::Char('c'), modifiers: KeyModifiers::control() };
    assert!(matches!(state.handle_key(ctrl_c, NumberVerdict::Fine), Some(ElicitationReply::Cancelled)));
    assert!(matches!(state.handle_key(key(KeyCode::Esc), NumberVerdict::Fine), Some(ElicitationReply::Cancelled)));
    state.handle_key(key(KeyCode::BackTab), NumberVerdict::Fine);
    assert_eq!(state.index, 0);
}
