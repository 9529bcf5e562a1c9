//! Standard ACP form elicitation as a terminal form: one field at a time,
//! typed answers, single and multiple choice with an inline "Other" answer,
//! validation, and the reply the agent receives.
//!
//! Number fields are read as floating point, which this library does not
//! hold: their answers travel as text, and whether a typed number parses
//! and lies in the field's range is decided by the caller and handed in as
//! a [`NumberVerdict`].

use vstd::prelude::*;
use vstd::string::*;
use crate::editor::{clamp_pos, Input};
use crate::input::keys::{KeyCode, KeyEvent, KeyModifiers, all_digits, digits_value};
use crate::locale::Locale;
use crate::text::{chars_of, decimal, push_decimal, splice_spec, string_of, trim_seq, trimmed};

verus! {

/// One choice of a single- or multi-select field. `custom` marks the
/// "Other" choice whose answer is typed.
pub struct ElicitationOption {
    pub value: String,
    pub label: String,
    pub description: Option<String>,
    pub custom: bool,
}

/// What a field asks for.
pub enum ElicitationFieldKind {
    Text { default: Option<String> },
    Integer { default: Option<i64>, min: Option<i64>, max: Option<i64> },
    /// A number; `default` is its text as the field first shows it.
    Number { default: Option<String> },
    Boolean { default: Option<bool> },
    Single { options: Vec<ElicitationOption>, default: Option<String> },
    Multi { options: Vec<ElicitationOption>, default: Vec<String>, min: usize, max: Option<usize> },
}

/// One form field. `custom_name` is the sibling property that receives the
/// typed "Other" answer.
pub struct ElicitationField {
    pub name: String,
    pub custom_name: Option<String>,
    pub title: String,
    pub description: Option<String>,
    pub required: bool,
    pub kind: ElicitationFieldKind,
}

/// A form: the agent's message and its fields, in order.
pub struct ElicitationForm {
    pub message: String,
    pub fields: Vec<ElicitationField>,
}

/// One answer. A number answer is its trimmed text; the caller reads it
/// as a number.
pub enum ElicitationValue {
    String(String),
    Integer(i64),
    Number(String),
    Boolean(bool),
    StringArray(Vec<String>),
}

/// The reply to the agent: the answers by property name, or cancelled.
pub enum ElicitationReply {
    Accepted(Vec<(String, ElicitationValue)>),
    Cancelled,
}

/// The caller's reading of the focused number field's typed text: not a
/// number, a number outside the field's range, or an acceptable number.
#[derive(Clone, Copy, PartialEq, Eq, Structural)]
pub enum NumberVerdict {
    NotANumber,
    OutOfRange,
    Fine,
}

/// One field being answered: the choice cursor, the checked choices, the
/// text editor, and whether it was answered or skipped.
pub struct ElicitationFieldState {
    pub field: ElicitationField,
    pub cursor: usize,
    pub selected: Vec<bool>,
    pub input: Input,
    pub editing_custom: bool,
    pub answered: bool,
    pub skipped: bool,
}

/// A form being answered: the focused field, the fields, the validation
/// error shown, and the language of the errors.
pub struct ElicitationFormState {
    pub message: String,
    pub index: usize,
    pub fields: Vec<ElicitationFieldState>,
    pub error: Option<String>,
    pub locale: Locale,
}

// ----- views -----

pub struct OptionV {
    pub value: Seq<char>,
    pub label: Seq<char>,
    pub description: Option<Seq<char>>,
    pub custom: bool,
}

pub enum KindV {
    Text { default: Option<Seq<char>> },
    Integer { default: Option<i64>, min: Option<i64>, max: Option<i64> },
    Number { default: Option<Seq<char>> },
    Boolean { default: Option<bool> },
    Single { options: Seq<OptionV>, default: Option<Seq<char>> },
    Multi { options: Seq<OptionV>, default: Seq<Seq<char>>, min: nat, max: Option<nat> },
}

pub struct FieldV {
    pub name: Seq<char>,
    pub custom_name: Option<Seq<char>>,
    pub title: Seq<char>,
    pub description: Option<Seq<char>>,
    pub required: bool,
    pub kind: KindV,
}

pub struct InputV {
    pub buf: Seq<char>,
    pub cursor: int,
}

pub struct FieldStateV {
    pub field: FieldV,
    pub cursor: int,
    pub selected: Seq<bool>,
    pub input: InputV,
    pub editing_custom: bool,
    pub answered: bool,
    pub skipped: bool,
}

pub struct FormV {
    pub message: Seq<char>,
    pub index: int,
    pub fields: Seq<FieldStateV>,
    pub error: Option<Seq<char>>,
    pub locale: Locale,
}

pub enum ValueV {
    String(Seq<char>),
    Integer(i64),
    Number(Seq<char>),
    Boolean(bool),
    StringArray(Seq<Seq<char>>),
}

pub enum ReplyV {
    Accepted(Map<Seq<char>, ValueV>),
    Cancelled,
}

pub open spec fn opt_str_view(o: Option<String>) -> Option<Seq<char>> {
    match o {
        Some(s) => Some(s@),
        None => None,
    }
}

pub open spec fn option_view(o: ElicitationOption) -> OptionV {
    OptionV { value: o.value@, label: o.label@, description: opt_str_view(o.description), custom: o.custom }
}

pub open spec fn options_view(v: Seq<ElicitationOption>) -> Seq<OptionV> {
    v.map_values(|o: ElicitationOption| option_view(o))
}

pub open spec fn kind_view(k: ElicitationFieldKind) -> KindV {
    match k {
        ElicitationFieldKind::Text { default } => KindV::Text { default: opt_str_view(default) },
        ElicitationFieldKind::Integer { default, min, max } => KindV::Integer { default, min, max },
        ElicitationFieldKind::Number { default } => KindV::Number { default: opt_str_view(default) },
        ElicitationFieldKind::Boolean { default } => KindV::Boolean { default },
        ElicitationFieldKind::Single { options, default } => KindV::Single {
            options: options_view(options@),
            default: opt_str_view(default),
        },
        ElicitationFieldKind::Multi { options, default, min, max } => KindV::Multi {
            options: options_view(options@),
            default: default@.map_values(|s: String| s@),
            min: min as nat,
            max: match max {
                Some(m) => Some(m as nat),
                None => None,
            },
        },
    }
}

pub open spec fn field_view(f: ElicitationField) -> FieldV {
    FieldV {
        name: f.name@,
        custom_name: opt_str_view(f.custom_name),
        title: f.title@,
        description: opt_str_view(f.description),
        required: f.required,
        kind: kind_view(f.kind),
    }
}

pub open spec fn input_view(i: Input) -> InputV {
    InputV { buf: i.buf@, cursor: i.cursor as int }
}

pub open spec fn field_state_view(s: ElicitationFieldState) -> FieldStateV {
    FieldStateV {
        field: field_view(s.field),
        cursor: s.cursor as int,
        selected: s.selected@,
        input: input_view(s.input),
        editing_custom: s.editing_custom,
        answered: s.answered,
        skipped: s.skipped,
    }
}

pub open spec fn form_view(f: ElicitationFormState) -> FormV {
    FormV {
        message: f.message@,
        index: f.index as int,
        fields: f.fields@.map_values(|s: ElicitationFieldState| field_state_view(s)),
        error: opt_str_view(f.error),
        locale: f.locale,
    }
}

pub open spec fn value_view(v: ElicitationValue) -> ValueV {
    match v {
        ElicitationValue::String(s) => ValueV::String(s@),
        ElicitationValue::Integer(i) => ValueV::Integer(i),
        ElicitationValue::Number(s) => ValueV::Number(s@),
        ElicitationValue::Boolean(b) => ValueV::Boolean(b),
        ElicitationValue::StringArray(a) => ValueV::StringArray(a@.map_values(|s: String| s@)),
    }
}

/// The answers of a list of (name, value) pairs with distinct names.
pub open spec fn answers_view(v: Seq<(String, ElicitationValue)>) -> Map<Seq<char>, ValueV>
    decreases v.len(),
{
    if v.len() == 0 {
        Map::empty()
    } else {
        answers_view(v.drop_last()).insert(v.last().0@, value_view(v.last().1))
    }
}

pub open spec fn reply_view(r: ElicitationReply) -> ReplyV {
    match r {
        ElicitationReply::Accepted(v) => ReplyV::Accepted(answers_view(v@)),
        ElicitationReply::Cancelled => ReplyV::Cancelled,
    }
}

pub open spec fn opt_reply_view(r: Option<ElicitationReply>) -> Option<ReplyV> {
    match r {
        Some(x) => Some(reply_view(x)),
        None => None,
    }
}

// ----- integers -----

/// The decimal text of an integer (`i64::to_string`).
pub open spec fn int_text(v: i64) -> Seq<char> {
    if v < 0 { seq!['-'] + decimal((-v) as nat) } else { decimal(v as nat) }
}

/// `str::parse::<i64>`: an optional sign and one or more decimal digits
/// spelling a number within `i64`.
pub open spec fn parse_i64_spec(s: Seq<char>) -> Option<i64> {
    let neg = s.len() > 0 && s[0] == '-';
    let d = if s.len() > 0 && (s[0] == '+' || s[0] == '-') { s.drop_first() } else { s };
    let v: int = if neg { -(digits_value(d) as int) } else { digits_value(d) as int };
    if d.len() > 0 && all_digits(d) && i64::MIN <= v && v <= i64::MAX {
        Some(v as i64)
    } else {
        None
    }
}

proof fn lemma_digits_prefix(s: Seq<char>, k: int)
    requires
        0 <= k <= s.len(),
        all_digits(s),
    ensures
        digits_value(s.subrange(0, k)) <= digits_value(s),
    decreases s.len() - k,
{
    if k < s.len() {
        lemma_digits_prefix(s, k + 1);
        assert(s.subrange(0, k + 1).drop_last() =~= s.subrange(0, k));
    } else {
        assert(s.subrange(0, k) =~= s);
    }
}

/// Parses a decimal `i64` the way `str::parse::<i64>` does.
pub fn parse_i64(s: &[char]) -> (r: Option<i64>)
    ensures
        r == parse_i64_spec(s@),
{
    let neg = s.len() > 0 && s[0] == '-';
    let start: usize = if s.len() > 0 && (s[0] == '+' || s[0] == '-') { 1 } else { 0 };
    let ghost d = if s@.len() > 0 && (s@[0] == '+' || s@[0] == '-') { s@.drop_first() } else { s@ };
    assert(d =~= s@.subrange(start as int, s@.len() as int));
    if start >= s.len() {
        return None;
    }
    let mut mag: u64 = 0;
    let mut i: usize = start;
    while i < s.len()
        invariant
            start <= i <= s@.len(),
            start < s@.len(),
            d == (if s@.len() > 0 && (s@[0] == '+' || s@[0] == '-') { s@.drop_first() } else { s@ }),
            d =~= s@.subrange(start as int, s@.len() as int),
            neg == (s@.len() > 0 && s@[0] == '-'),
            forall|j: int| 0 <= j < i - start ==> crate::input::keys::is_digit(#[trigger] d[j]),
            mag == digits_value(d.subrange(0, i - start)),
            mag <= 9223372036854775808u64,
        decreases s@.len() - i,
    {
        let c = s[i];
        assert(d[i - start] == c);
        if !('0' <= c && c <= '9') {
            assert(!crate::input::keys::is_digit(d[i - start]));
            assert(!all_digits(d));
            return None;
        }
        let v: u64 = (c as u64) - ('0' as u64);
        assert(d.subrange(0, i + 1 - start).drop_last() =~= d.subrange(0, i - start));
        assert(d.subrange(0, i + 1 - start).last() == c);
        if mag > 922337203685477580u64 || (mag == 922337203685477580u64 && v > 8) {
            proof {
                assert(digits_value(d.subrange(0, i + 1 - start)) == mag * 10 + v);
                if all_digits(d) {
                    lemma_digits_prefix(d, i + 1 - start);
                }
                assert(parse_i64_spec(s@) is None);
            }
            return None;
        }
        mag = mag * 10 + v;
        assert(digits_value(d.subrange(0, i + 1 - start)) == mag);
        i += 1;
    }
    assert(d.subrange(0, d.len() as int) =~= d);
    assert(all_digits(d));
    if neg {
        if mag == 9223372036854775808u64 {
            Some(i64::MIN)
        } else {
            Some(-(mag as i64))
        }
    } else {
        if mag > 9223372036854775807u64 {
            None
        } else {
            Some(mag as i64)
        }
    }
}

/// The decimal text of an integer.
pub(crate) fn int_string(v: i64) -> (r: String)
    ensures
        r@ == int_text(v),
{
    let mut out: Vec<char> = Vec::new();
    if v < 0 {
        out.push('-');
        let m: u64 = if v == i64::MIN { 9223372036854775808u64 } else { (-v) as u64 };
        push_decimal(&mut out, m);
    } else {
        push_decimal(&mut out, v as u64);
    }
    string_of(out.as_slice())
}

// ----- a fresh form -----

/// How many choices a field's cursor moves over: the options of a select,
/// yes/no for a boolean, none for typed fields.
pub open spec fn option_count(k: KindV) -> int {
    match k {
        KindV::Single { options, .. } => options.len() as int,
        KindV::Multi { options, .. } => options.len() as int,
        KindV::Boolean { .. } => 2,
        _ => 0,
    }
}

/// The values of choices.
pub open spec fn option_values(o: Seq<OptionV>) -> Seq<Seq<char>> {
    o.map_values(|x: OptionV| x.value)
}

/// The text a field starts with: its default for typed fields.
pub open spec fn init_text(k: KindV) -> Seq<char> {
    match k {
        KindV::Text { default: Some(v) } => v,
        KindV::Integer { default: Some(v), .. } => int_text(v),
        KindV::Number { default: Some(v) } => v,
        _ => Seq::empty(),
    }
}

/// Where a field's choice cursor starts: on a single select's default
/// (else the first choice), on "no" for a boolean defaulting to false.
pub open spec fn init_cursor(k: KindV) -> int {
    match k {
        KindV::Single { options, default: Some(v) } => match crate::app::position_of(option_values(options), v) {
            Some(i) => i,
            None => 0,
        },
        KindV::Boolean { default: Some(false) } => 1,
        _ => 0,
    }
}

/// Which choices a field starts checked: a multi select's defaults, a
/// boolean's default (yes first, then no).
pub open spec fn init_selected(k: KindV) -> Seq<bool> {
    match k {
        KindV::Multi { options, default, .. } => Seq::new(options.len(), |i: int| default.contains(options[i].value)),
        KindV::Boolean { default } => match default {
            Some(true) => seq![true, false],
            Some(false) => seq![false, true],
            None => seq![false, false],
        },
        KindV::Single { options, .. } => Seq::new(options.len(), |i: int| false),
        _ => Seq::empty(),
    }
}

/// A field as it starts being answered.
pub open spec fn init_field(f: FieldV) -> FieldStateV {
    FieldStateV {
        field: f,
        cursor: init_cursor(f.kind),
        selected: init_selected(f.kind),
        input: InputV { buf: init_text(f.kind), cursor: init_text(f.kind).len() as int },
        editing_custom: false,
        answered: false,
        skipped: false,
    }
}

/// Whether `x` is one of `v`.
fn contains_string(v: &Vec<String>, x: &str) -> (r: bool)
    ensures
        r == v@.map_values(|s: String| s@).contains(x@),
{
    let ghost w = v@.map_values(|s: String| s@);
    let mut i: usize = 0;
    while i < v.len()
        invariant
            i <= v@.len(),
            w == v@.map_values(|s: String| s@),
            forall|j: int| 0 <= j < i ==> w[j] != x@,
        decreases v@.len() - i,
    {
        if crate::text::str_eq(v[i].as_str(), x) {
            assert(w[i as int] == x@);
            return true;
        }
        i += 1;
    }
    false
}

/// The state a field starts in.
fn init_field_state(field: ElicitationField) -> (r: ElicitationFieldState)
    ensures
        field_state_view(r) == init_field(field_view(field)),
        r.input.history@.len() == 0,
        r.input.hist_pos is None,
{
    let ghost fv = field_view(field);
    let mut input = Input::new();
    let mut cursor: usize = 0;
    let mut selected: Vec<bool> = Vec::new();
    match &field.kind {
        ElicitationFieldKind::Text { default } => {
            if let Some(v) = default {
                input.set(v.clone());
            }
        },
        ElicitationFieldKind::Integer { default, .. } => {
            if let Some(v) = default {
                input.set(int_string(*v));
            }
        },
        ElicitationFieldKind::Number { default } => {
            if let Some(v) = default {
                input.set(v.clone());
            }
        },
        ElicitationFieldKind::Boolean { default } => {
            match default {
                Some(true) => {
                    selected.push(true);
                    selected.push(false);
                },
                Some(false) => {
                    cursor = 1;
                    selected.push(false);
                    selected.push(true);
                },
                None => {
                    selected.push(false);
                    selected.push(false);
                },
            }
            assert(selected@ =~= init_selected(fv.kind));
        },
        ElicitationFieldKind::Single { options, default } => {
            let ghost vals = option_values(options_view(options@));
            if let Some(v) = default {
                let mut i: usize = 0;
                let mut found = false;
                while i < options.len() && !found
                    invariant
                        i <= options@.len(),
                        vals == option_values(options_view(options@)),
                        !found ==> cursor == 0 && forall|j: int| 0 <= j < i ==> vals[j] != v@,
                        found ==> 0 < i <= options@.len() && cursor == i - 1 && vals[i - 1] == v@
                            && forall|j: int| 0 <= j < i - 1 ==> vals[j] != v@,
                    decreases options@.len() - i,
                {
                    if crate::text::str_eq(options[i].value.as_str(), v.as_str()) {
                        found = true;
                        cursor = i;
                    }
                    i += 1;
                }
                proof {
                    if found {
                        crate::app::lemma_position_of(vals, v@, cursor as int);
                    } else {
                        crate::app::lemma_position_of(vals, v@, i as int);
                    }
                }
            }
            let mut k: usize = 0;
            while k < options.len()
                invariant
                    k <= options@.len(),
                    selected@ == Seq::new(k as nat, |i: int| false),
                decreases options@.len() - k,
            {
                selected.push(false);
                k += 1;
                assert(selected@ =~= Seq::new(k as nat, |i: int| false));
            }
            assert(selected@ =~= init_selected(fv.kind));
        },
        ElicitationFieldKind::Multi { options, default, .. } => {
            let ghost ov = options_view(options@);
            let ghost dv = default@.map_values(|s: String| s@);
            let mut k: usize = 0;
            while k < options.len()
                invariant
                    k <= options@.len(),
                    ov == options_view(options@),
                    dv == default@.map_values(|s: String| s@),
                    selected@ == Seq::new(k as nat, |i: int| dv.contains(ov[i].value)),
                decreases options@.len() - k,
            {
                let b = contains_string(default, options[k].value.as_str());
                selected.push(b);
                k += 1;
                assert(selected@ =~= Seq::new(k as nat, |i: int| dv.contains(ov[i].value)));
            }
            assert(selected@ =~= init_selected(fv.kind));
        },
    }
    let r = ElicitationFieldState {
        field,
        cursor,
        selected,
        input,
        editing_custom: false,
        answered: false,
        skipped: false,
    };
    assert(field_state_view(r).input =~= init_field(fv).input);
    assert(r.cursor == init_cursor(fv.kind));
    assert(r.selected@ =~= init_selected(fv.kind));
    assert(field_state_view(r).field == fv);
    r
}

impl ElicitationFormState {
    /// A form ready to answer: the first field focused, every field at its
    /// defaults, no error, English errors until the caller sets the locale.
    pub fn new(form: ElicitationForm) -> (r: Self)
        ensures
            form_view(r) == (FormV {
                message: form.message@,
                index: 0,
                fields: form.fields@.map_values(|f: ElicitationField| init_field(field_view(f))),
                error: None,
                locale: Locale::En,
            }),
            forall|i: int| 0 <= i < r.fields@.len() ==> (#[trigger] r.fields@[i]).input.hist_pos is None,
    {
        let ElicitationForm { message, fields } = form;
        let ghost src = fields@;
        let mut rest = fields;
        let mut out: Vec<ElicitationFieldState> = Vec::new();
        while rest.len() > 0
            invariant
                out@.len() + rest@.len() == src.len(),
                rest@ == src.subrange(out@.len() as int, src.len() as int),
                out@.map_values(|s: ElicitationFieldState| field_state_view(s))
                    == src.subrange(0, out@.len() as int).map_values(|f: ElicitationField| init_field(field_view(f))),
                forall|i: int| 0 <= i < out@.len() ==> (#[trigger] out@[i]).input.hist_pos is None,
            decreases rest@.len(),
        {
            let f = rest.remove(0);
            let ghost n: int = out@.len() as int;
            let st = init_field_state(f);
            let ghost before = out@;
            out.push(st);
            assert(out@.map_values(|s: ElicitationFieldState| field_state_view(s))
                =~= before.map_values(|s: ElicitationFieldState| field_state_view(s)).push(field_state_view(st)));
            assert(src.subrange(0, n + 1) =~= src.subrange(0, n).push(src[n]));
            assert(src.subrange(0, n + 1).map_values(|f: ElicitationField| init_field(field_view(f)))
                =~= src.subrange(0, n).map_values(|f: ElicitationField| init_field(field_view(f))).push(init_field(field_view(src[n]))));
            assert(rest@ =~= src.subrange(n + 1, src.len() as int));
        }
        assert(src.subrange(0, src.len() as int) =~= src);
        ElicitationFormState { message, index: 0, fields: out, error: None, locale: Locale::En }
    }
}

// ----- the focused field -----

/// Whether a field's answer is typed.
pub open spec fn is_text_kind(k: KindV) -> bool {
    k is Text || k is Integer || k is Number
}

/// Whether the focused field owns the text editor: a typed field, or a
/// choice whose "Other" answer is being typed.
pub open spec fn current_is_text_spec(f: FormV) -> bool {
    0 <= f.index < f.fields.len() && (is_text_kind(f.fields[f.index].field.kind) || f.fields[f.index].editing_custom)
}

/// The choices of a select field.
pub open spec fn kind_options(k: KindV) -> Seq<OptionV> {
    match k {
        KindV::Single { options, .. } => options,
        KindV::Multi { options, .. } => options,
        _ => Seq::empty(),
    }
}

/// Whether the focused field's cursor is on an "Other" choice.
pub open spec fn current_custom_spec(f: FormV) -> bool {
    &&& 0 <= f.index < f.fields.len()
    &&& (f.fields[f.index].field.kind is Single || f.fields[f.index].field.kind is Multi)
    &&& 0 <= f.fields[f.index].cursor < kind_options(f.fields[f.index].field.kind).len()
    &&& kind_options(f.fields[f.index].field.kind)[f.fields[f.index].cursor].custom
}

/// The text for `locale`.
pub open spec fn tr_spec(locale: Locale, en: Seq<char>, zh: Seq<char>) -> Seq<char> {
    if locale == Locale::En { en } else { zh }
}

/// How many choices are checked.
pub open spec fn count_true(s: Seq<bool>) -> nat
    decreases s.len(),
{
    if s.len() == 0 { 0 } else { count_true(s.drop_last()) + if s.last() { 1nat } else { 0nat } }
}

/// Whether a checked choice is an "Other" choice.
pub open spec fn custom_checked(options: Seq<OptionV>, selected: Seq<bool>) -> bool {
    exists|i: int| 0 <= i < options.len() && (#[trigger] options[i]).custom && selected[i]
}

pub open spec fn msg_other(locale: Locale) -> Seq<char> {
    tr_spec(locale, "Type the Other answer, then press Enter."@, "输入「其他」答案后按 Enter。"@)
}

pub open spec fn msg_range(locale: Locale) -> Seq<char> {
    tr_spec(locale, "The number is outside the allowed range."@, "数字超出允许范围。"@)
}

pub open spec fn msg_at_least(locale: Locale, n: nat) -> Seq<char> {
    if locale == Locale::En {
        "Select at least "@ + decimal(n) + " option(s)."@
    } else {
        "至少选择 "@ + decimal(n) + " 个选项。"@
    }
}

pub open spec fn msg_at_most(locale: Locale, n: nat) -> Seq<char> {
    if locale == Locale::En {
        "Select at most "@ + decimal(n) + " option(s)."@
    } else {
        "最多选择 "@ + decimal(n) + " 个选项。"@
    }
}

/// The error the focused field's answer earns, none when it is
/// acceptable. `number` is the caller's reading of a number field's text.
pub open spec fn validate_spec(f: FormV, number: NumberVerdict) -> Option<Seq<char>> {
    if !(0 <= f.index < f.fields.len()) {
        Some(tr_spec(f.locale, "form has no current field"@, "表单没有当前字段"@))
    } else {
        let st = f.fields[f.index];
        let t = trim_seq(st.input.buf);
        match st.field.kind {
            KindV::Text { .. } => if st.field.required && t.len() == 0 {
                Some(tr_spec(f.locale, "Enter a value or use Tab to skip an optional field."@, "输入内容，可选字段可用 Tab 跳过。"@))
            } else {
                None
            },
            KindV::Integer { min, max, .. } => if t.len() == 0 && !st.field.required {
                None
            } else {
                match parse_i64_spec(t) {
                    None => Some(tr_spec(f.locale, "Enter a whole number."@, "请输入整数。"@)),
                    Some(v) => if (min matches Some(lo) && v < lo) || (max matches Some(hi) && v > hi) {
                        Some(msg_range(f.locale))
                    } else {
                        None
                    },
                }
            },
            KindV::Number { .. } => if t.len() == 0 && !st.field.required {
                None
            } else {
                match number {
                    NumberVerdict::NotANumber => Some(tr_spec(f.locale, "Enter a number."@, "请输入数字。"@)),
                    NumberVerdict::OutOfRange => Some(msg_range(f.locale)),
                    NumberVerdict::Fine => None,
                }
            },
            KindV::Single { options, .. } => if !(0 <= st.cursor < options.len()) {
                Some(tr_spec(f.locale, "Choose an option."@, "请选择一个选项。"@))
            } else if options[st.cursor].custom && t.len() == 0 {
                Some(msg_other(f.locale))
            } else {
                None
            },
            KindV::Multi { options, min, max, .. } => {
                let count = count_true(st.selected);
                let minimum: nat = if min >= (if st.field.required { 1nat } else { 0nat }) { min } else { 1nat };
                if count < minimum {
                    Some(msg_at_least(f.locale, minimum))
                } else if max matches Some(hi) && count > hi {
                    Some(msg_at_most(f.locale, max.unwrap()))
                } else if custom_checked(options, st.selected) && t.len() == 0 {
                    Some(msg_other(f.locale))
                } else {
                    None
                }
            },
            KindV::Boolean { .. } => None,
        }
    }
}

/// The values of the checked choices, in order.
pub open spec fn checked_values(options: Seq<OptionV>, selected: Seq<bool>) -> Seq<Seq<char>>
    decreases options.len(),
{
    if options.len() == 0 {
        Seq::empty()
    } else {
        let rest = checked_values(options.drop_last(), selected);
        if selected[options.len() - 1] { rest.push(options.last().value) } else { rest }
    }
}

/// The answers one field adds: nothing unless it was answered and not
/// skipped; a typed text or integer that reads; a number's non-empty text;
/// a boolean's yes; a single select's value (and its typed "Other"
/// answer); a multi select's checked values (and the typed "Other" answer
/// when "Other" is checked).
pub open spec fn field_answers(m: Map<Seq<char>, ValueV>, st: FieldStateV) -> Map<Seq<char>, ValueV> {
    if !st.answered || st.skipped {
        m
    } else {
        let t = trim_seq(st.input.buf);
        let name = st.field.name;
        match st.field.kind {
            KindV::Text { .. } => if t.len() > 0 { m.insert(name, ValueV::String(t)) } else { m },
            KindV::Integer { .. } => match parse_i64_spec(t) {
                Some(v) => m.insert(name, ValueV::Integer(v)),
                None => m,
            },
            KindV::Number { .. } => if t.len() > 0 { m.insert(name, ValueV::Number(t)) } else { m },
            KindV::Boolean { .. } => m.insert(name, ValueV::Boolean(st.selected[0])),
            KindV::Single { options, .. } => if 0 <= st.cursor < options.len() {
                let m1 = m.insert(name, ValueV::String(options[st.cursor].value));
                if options[st.cursor].custom && st.field.custom_name is Some {
                    m1.insert(st.field.custom_name.unwrap(), ValueV::String(t))
                } else {
                    m1
                }
            } else {
                m
            },
            KindV::Multi { options, .. } => {
                let m1 = m.insert(name, ValueV::StringArray(checked_values(options, st.selected)));
                if st.field.custom_name is Some && custom_checked(options, st.selected) {
                    m1.insert(st.field.custom_name.unwrap(), ValueV::String(t))
                } else {
                    m1
                }
            },
        }
    }
}

/// The answers of the fields, later ones winning a shared name.
pub open spec fn collect_fold(fields: Seq<FieldStateV>) -> Map<Seq<char>, ValueV>
    decreases fields.len(),
{
    if fields.len() == 0 {
        Map::empty()
    } else {
        field_answers(collect_fold(fields.drop_last()), fields.last())
    }
}

/// The per-field shape the form keeps: one checkmark per choice, a choice
/// cursor on a choice when there are any, and the editor's cursor inside
/// its text.
pub open spec fn field_wf(st: FieldStateV) -> bool {
    &&& st.selected.len() == option_count(st.field.kind)
    &&& 0 <= st.cursor
    &&& (option_count(st.field.kind) > 0 ==> st.cursor < option_count(st.field.kind))
    &&& 0 <= st.input.cursor <= st.input.buf.len()
}

/// The shape a form being answered keeps: a focused field that exists,
/// and well-shaped fields.
pub open spec fn form_wf(f: FormV) -> bool {
    &&& 0 <= f.index < f.fields.len()
    &&& forall|i: int| 0 <= i < f.fields.len() ==> field_wf(#[trigger] f.fields[i])
}

/// `e`, then the decimal text of `n`, then `t`.
fn text_num_text(e: &str, n: usize, t: &str) -> (r: String)
    ensures
        r@ == e@ + decimal(n as nat) + t@,
{
    let mut v: Vec<char> = chars_of(e);
    push_decimal(&mut v, n as u64);
    let mut s = string_of(v.as_slice());
    s.append(t);
    s
}

impl ElicitationFormState {
    /// Whether the focused field owns the text editor.
    pub fn current_is_text(&self) -> (r: bool)
        ensures
            r == current_is_text_spec(form_view(*self)),
    {
        if self.index >= self.fields.len() {
            return false;
        }
        let st = &self.fields[self.index];
        let typed = match &st.field.kind {
            ElicitationFieldKind::Text { .. } | ElicitationFieldKind::Integer { .. } | ElicitationFieldKind::Number { .. } => true,
            _ => false,
        };
        typed || st.editing_custom
    }

    /// Whether the focused field's cursor is on an "Other" choice.
    fn current_custom(&self) -> (r: bool)
        ensures
            r == current_custom_spec(form_view(*self)),
    {
        if self.index >= self.fields.len() {
            return false;
        }
        let st = &self.fields[self.index];
        match &st.field.kind {
            ElicitationFieldKind::Single { options, .. } | ElicitationFieldKind::Multi { options, .. } => {
                if st.cursor < options.len() {
                    options[st.cursor].custom
                } else {
                    false
                }
            },
            _ => false,
        }
    }

    /// The error the focused field's answer earns.
    fn validate_current(&self, number: NumberVerdict) -> (r: Result<(), String>)
        requires
            0 <= self.index < self.fields@.len() ==> field_wf(field_state_view(self.fields@[self.index as int])),
        ensures
            match r {
                Ok(()) => validate_spec(form_view(*self), number) is None,
                Err(e) => validate_spec(form_view(*self), number) == Some(e@),
            },
    {
        let loc = self.locale;
        if self.index >= self.fields.len() {
            return Err(String::from_str(loc.tr("form has no current field", "表单没有当前字段")));
        }
        let st = &self.fields[self.index];
        let ghost sv = field_state_view(*st);
        assert(form_view(*self).fields[self.index as int] == sv);
        let t = trimmed(chars_of(st.input.buf.as_str()).as_slice());
        let empty = t.len() == 0;
        match &st.field.kind {
            ElicitationFieldKind::Text { .. } => {
                if st.field.required && empty {
                    return Err(String::from_str(loc.tr(
                        "Enter a value or use Tab to skip an optional field.",
                        "输入内容，可选字段可用 Tab 跳过。",
                    )));
                }
            },
            ElicitationFieldKind::Integer { min, max, .. } => {
                if empty && !st.field.required {
                    return Ok(());
                }
                let value = match parse_i64(t.as_slice()) {
                    Some(v) => v,
                    None => return Err(String::from_str(loc.tr("Enter a whole number.", "请输入整数。"))),
                };
                let below = match min {
                    Some(lo) => value < *lo,
                    None => false,
                };
                let above = match max {
                    Some(hi) => value > *hi,
                    None => false,
                };
                if below || above {
                    return Err(String::from_str(loc.tr("The number is outside the allowed range.", "数字超出允许范围。")));
                }
            },
            ElicitationFieldKind::Number { .. } => {
                if empty && !st.field.required {
                    return Ok(());
                }
                match number {
                    NumberVerdict::NotANumber => return Err(String::from_str(loc.tr("Enter a number.", "请输入数字。"))),
                    NumberVerdict::OutOfRange => {
                        return Err(String::from_str(loc.tr("The number is outside the allowed range.", "数字超出允许范围。")))
                    },
                    NumberVerdict::Fine => {},
                }
            },
            ElicitationFieldKind::Single { options, .. } => {
                if st.cursor >= options.len() {
                    return Err(String::from_str(loc.tr("Choose an option.", "请选择一个选项。")));
                }
                if options[st.cursor].custom && empty {
                    return Err(String::from_str(loc.tr("Type the Other answer, then press Enter.", "输入「其他」答案后按 Enter。")));
                }
            },
            ElicitationFieldKind::Multi { options, min, max, .. } => {
                let mut count: usize = 0;
                let mut custom = false;
                let mut i: usize = 0;
                while i < st.selected.len()
                    invariant
                        i <= st.selected@.len(),
                        st.selected@.len() == options@.len(),
                        count == count_true(st.selected@.subrange(0, i as int)),
                        count <= i,
                        custom == exists|j: int| 0 <= j < i && (#[trigger] options_view(options@)[j]).custom && st.selected@[j],
                    decreases st.selected@.len() - i,
                {
                    assert(st.selected@.subrange(0, i + 1).drop_last() =~= st.selected@.subrange(0, i as int));
                    assert(options_view(options@)[i as int].custom == options@[i as int].custom);
                    if st.selected[i] {
                        count += 1;
                        if options[i].custom {
                            custom = true;
                        }
                    }
                    i += 1;
                }
                assert(st.selected@.subrange(0, st.selected@.len() as int) =~= st.selected@);
                let minimum: usize = if *min >= (if st.field.required { 1 } else { 0 }) { *min } else { 1 };
                if count < minimum {
                    if loc == Locale::En {
                        return Err(text_num_text("Select at least ", minimum, " option(s)."));
                    } else {
                        return Err(text_num_text("至少选择 ", minimum, " 个选项。"));
                    }
                }
                if let Some(hi) = max {
                    if count > *hi {
                        if loc == Locale::En {
                            return Err(text_num_text("Select at most ", *hi, " option(s)."));
                        } else {
                            return Err(text_num_text("最多选择 ", *hi, " 个选项。"));
                        }
                    }
                }
                if custom && empty {
                    return Err(String::from_str(loc.tr("Type the Other answer, then press Enter.", "输入「其他」答案后按 Enter。")));
                }
            },
            ElicitationFieldKind::Boolean { .. } => {},
        }
        Ok(())
    }
}

/// Adds an answer; a later answer for the same name wins.
fn put(content: &mut Vec<(String, ElicitationValue)>, name: String, v: ElicitationValue)
    ensures
        answers_view(final(content)@) == answers_view(old(content)@).insert(name@, value_view(v)),
{
    let ghost before = content@;
    content.push((name, v));
    assert(content@.drop_last() =~= before);
}

/// The values of the checked choices, and whether an "Other" choice is
/// checked.
fn checked_of(options: &Vec<ElicitationOption>, selected: &Vec<bool>) -> (r: (Vec<String>, bool))
    requires
        selected@.len() == options@.len(),
    ensures
        r.0@.map_values(|s: String| s@) == checked_values(options_view(options@), selected@),
        r.1 == custom_checked(options_view(options@), selected@),
{
    let ghost ov = options_view(options@);
    let mut vals: Vec<String> = Vec::new();
    let mut custom = false;
    let mut i: usize = 0;
    while i < options.len()
        invariant
            i <= options@.len(),
            selected@.len() == options@.len(),
            ov == options_view(options@),
            vals@.map_values(|s: String| s@) == checked_values(ov.subrange(0, i as int), selected@),
            custom == exists|j: int| 0 <= j < i && (#[trigger] ov[j]).custom && selected@[j],
        decreases options@.len() - i,
    {
        assert(ov.subrange(0, i + 1).drop_last() =~= ov.subrange(0, i as int));
        assert(ov.subrange(0, i + 1).last() == ov[i as int]);
        assert(ov[i as int].custom == options@[i as int].custom);
        if selected[i] {
            let ghost before = vals@;
            vals.push(options[i].value.clone());
            assert(vals@.map_values(|s: String| s@) =~= before.map_values(|s: String| s@).push(ov[i as int].value));
            if options[i].custom {
                custom = true;
            }
        }
        i += 1;
    }
    assert(ov.subrange(0, options@.len() as int) =~= ov);
    (vals, custom)
}

impl ElicitationFormState {
    /// The answers of the answered, unskipped fields.
    fn collect(&self) -> (r: ElicitationReply)
        requires
            forall|i: int| 0 <= i < self.fields@.len() ==> field_wf(#[trigger] field_state_view(self.fields@[i])),
        ensures
            reply_view(r) == ReplyV::Accepted(collect_fold(form_view(*self).fields)),
    {
        let ghost fv = form_view(*self).fields;
        let mut content: Vec<(String, ElicitationValue)> = Vec::new();
        let mut i: usize = 0;
        while i < self.fields.len()
            invariant
                i <= self.fields@.len(),
                fv == form_view(*self).fields,
                forall|k: int| 0 <= k < self.fields@.len() ==> field_wf(#[trigger] field_state_view(self.fields@[k])),
                answers_view(content@) == collect_fold(fv.subrange(0, i as int)),
            decreases self.fields@.len() - i,
        {
            let st = &self.fields[i];
            let ghost sv = field_state_view(*st);
            let ghost m0 = answers_view(content@);
            assert(fv[i as int] == sv);
            assert(fv.subrange(0, i + 1).drop_last() =~= fv.subrange(0, i as int));
            assert(fv.subrange(0, i + 1).last() == sv);
            assert(field_wf(sv));
            if st.answered && !st.skipped {
                let t = trimmed(chars_of(st.input.buf.as_str()).as_slice());
                match &st.field.kind {
                    ElicitationFieldKind::Text { .. } => {
                        if t.len() > 0 {
                            put(&mut content, st.field.name.clone(), ElicitationValue::String(string_of(t.as_slice())));
                        }
                    },
                    ElicitationFieldKind::Integer { .. } => {
                        if let Some(v) = parse_i64(t.as_slice()) {
                            put(&mut content, st.field.name.clone(), ElicitationValue::Integer(v));
                        }
                    },
                    ElicitationFieldKind::Number { .. } => {
                        if t.len() > 0 {
                            put(&mut content, st.field.name.clone(), ElicitationValue::Number(string_of(t.as_slice())));
                        }
                    },
                    ElicitationFieldKind::Boolean { .. } => {
                        put(&mut content, st.field.name.clone(), ElicitationValue::Boolean(st.selected[0]));
                    },
                    ElicitationFieldKind::Single { options, .. } => {
                        if st.cursor < options.len() {
                            put(&mut content, st.field.name.clone(), ElicitationValue::String(options[st.cursor].value.clone()));
                            if options[st.cursor].custom {
                                if let Some(cn) = &st.field.custom_name {
                                    put(&mut content, cn.clone(), ElicitationValue::String(string_of(t.as_slice())));
                                }
                            }
                        }
                    },
                    ElicitationFieldKind::Multi { options, .. } => {
                        let (vals, custom) = checked_of(options, &st.selected);
                        put(&mut content, st.field.name.clone(), ElicitationValue::StringArray(vals));
                        if let Some(cn) = &st.field.custom_name {
                            if custom {
                                put(&mut content, cn.clone(), ElicitationValue::String(string_of(t.as_slice())));
                            }
                        }
                    },
                }
            }
            assert(answers_view(content@) =~= field_answers(m0, sv));
            i += 1;
        }
        assert(fv.subrange(0, self.fields@.len() as int) =~= fv);
        ElicitationReply::Accepted(content)
    }
}

// ----- answering -----

/// The cursor clamped to the text.
pub open spec fn clampi(c: int, n: int) -> int {
    if c < n { c } else { n }
}

/// The editor after typing `ch` (an editor whose cursor already sits at
/// the largest index takes no more).
pub open spec fn typed(i: InputV, ch: char) -> InputV {
    if i.cursor < usize::MAX {
        InputV {
            buf: splice_spec(i.buf, clampi(i.cursor, i.buf.len() as int), clampi(i.cursor, i.buf.len() as int), seq![ch]),
            cursor: i.cursor + 1,
        }
    } else {
        i
    }
}

/// The editor after pasting `t` (newlines become spaces).
pub open spec fn pasted(i: InputV, t: Seq<char>) -> InputV {
    let t1 = t.map_values(|c: char| if c == '\n' { ' ' } else { c });
    if i.cursor + t1.len() <= usize::MAX {
        InputV {
            buf: splice_spec(i.buf, clampi(i.cursor, i.buf.len() as int), clampi(i.cursor, i.buf.len() as int), t1),
            cursor: i.cursor + t1.len(),
        }
    } else {
        i
    }
}

/// What an editing key does to a typed answer: characters (without
/// control or command) are typed, Backspace and Delete remove one, the
/// arrows, Home and End move the cursor; other keys do nothing.
pub open spec fn text_key(i: InputV, key: KeyEvent) -> InputV {
    let n = i.buf.len() as int;
    match key.code {
        KeyCode::Char(ch) => if !(key.modifiers.control || key.modifiers.super_key) { typed(i, ch) } else { i },
        KeyCode::Backspace => if i.cursor == 0 {
            i
        } else {
            InputV { buf: splice_spec(i.buf, clampi(i.cursor - 1, n), clampi(i.cursor, n), Seq::empty()), cursor: i.cursor - 1 }
        },
        KeyCode::Delete => if i.cursor >= n {
            i
        } else {
            InputV { buf: splice_spec(i.buf, i.cursor, i.cursor + 1, Seq::empty()), cursor: i.cursor }
        },
        KeyCode::Left => InputV { cursor: if i.cursor > 0 { i.cursor - 1 } else { 0 }, ..i },
        KeyCode::Right => InputV { cursor: if i.cursor < n { i.cursor + 1 } else { n }, ..i },
        KeyCode::Home => InputV { cursor: 0, ..i },
        KeyCode::End => InputV { cursor: n, ..i },
        _ => i,
    }
}

/// The form with its focused field replaced.
pub open spec fn with_field(f: FormV, st: FieldStateV) -> FormV {
    FormV { fields: f.fields.update(f.index, st), ..f }
}

/// The form with its error cleared.
pub open spec fn no_error(f: FormV) -> FormV {
    FormV { error: None, ..f }
}

/// A field marked answered (or skipped), its "Other" editing closed.
pub open spec fn mark_done(st: FieldStateV, skipped: bool) -> FieldStateV {
    FieldStateV { answered: true, skipped, editing_custom: false, ..st }
}

/// Moves on to the next field, or replies with the answers after the last.
pub open spec fn advance(f: FormV) -> (FormV, Option<ReplyV>) {
    if f.index + 1 < f.fields.len() {
        (FormV { index: f.index + 1, ..f }, None)
    } else {
        (f, Some(ReplyV::Accepted(collect_fold(f.fields))))
    }
}

/// Enter on a field: an invalid answer shows its error; a valid one marks
/// the field answered and moves on (or replies after the last field).
pub open spec fn complete_spec(f: FormV, number: NumberVerdict) -> (FormV, Option<ReplyV>) {
    match validate_spec(f, number) {
        Some(e) => (FormV { error: Some(e), ..f }, None),
        None => advance(no_error(with_field(f, mark_done(f.fields[f.index], false)))),
    }
}

/// Tab on a field: a required field refuses; an optional one is skipped
/// and the form moves on (or replies after the last field).
pub open spec fn skip_spec(f: FormV) -> (FormV, Option<ReplyV>) {
    if f.fields[f.index].field.required {
        (FormV { error: Some(tr_spec(f.locale, "This field is required."@, "此字段为必填项。"@)), ..f }, None)
    } else {
        advance(no_error(with_field(f, mark_done(f.fields[f.index], true))))
    }
}

/// Only the cursor's choice checked.
pub open spec fn only_cursor(st: FieldStateV) -> FieldStateV {
    FieldStateV { selected: Seq::new(st.selected.len(), |i: int| i == st.cursor), ..st }
}

/// What a key does to a choice field (the focused field owns no editor).
pub open spec fn choice_key(f: FormV, key: KeyEvent, number: NumberVerdict) -> (FormV, Option<ReplyV>) {
    let st = f.fields[f.index];
    let oc = option_count(st.field.kind);
    let plain = !(key.modifiers.control || key.modifiers.super_key);
    match key.code {
        KeyCode::Up => if oc > 0 {
            (no_error(with_field(f, FieldStateV { cursor: if st.cursor == 0 { oc - 1 } else { st.cursor - 1 }, ..st })), None)
        } else {
            (no_error(f), None)
        },
        KeyCode::Down => if oc > 0 {
            (no_error(with_field(f, FieldStateV { cursor: (st.cursor + 1) % oc, ..st })), None)
        } else {
            (no_error(f), None)
        },
        KeyCode::Char(ch) => if ch == ' ' {
            if st.field.kind is Multi {
                if st.cursor < st.selected.len() {
                    (no_error(with_field(f, FieldStateV { selected: st.selected.update(st.cursor, !st.selected[st.cursor]), ..st })), None)
                } else {
                    (no_error(f), None)
                }
            } else if st.field.kind is Boolean {
                (no_error(with_field(f, only_cursor(st))), None)
            } else {
                (no_error(f), None)
            }
        } else if current_custom_spec(f) && plain {
            let sel = if st.field.kind is Multi { st.selected.update(st.cursor, true) } else { st.selected };
            (no_error(with_field(f, FieldStateV { selected: sel, editing_custom: true, input: typed(st.input, ch), ..st })), None)
        } else {
            (no_error(f), None)
        },
        KeyCode::Enter => {
            let custom = current_custom_spec(f);
            let st1 = if custom && st.field.kind is Multi { FieldStateV { selected: st.selected.update(st.cursor, true), ..st } } else { st };
            if custom && trim_seq(st.input.buf).len() == 0 {
                (no_error(with_field(f, FieldStateV { editing_custom: true, ..st1 })), None)
            } else {
                let st2 = if st.field.kind is Boolean { only_cursor(st1) } else { st1 };
                complete_spec(with_field(f, st2), number)
            }
        },
        _ => (no_error(f), None),
    }
}

/// What a key does to the form and the reply it produces: Esc or a plain
/// ctrl+c cancels; Shift+Tab steps back a field; Tab skips; a typed answer
/// takes editing keys and Enter; a choice field moves, toggles, types its
/// "Other" answer and takes Enter. `number` is the caller's reading of the
/// focused number field's text.
pub open spec fn handle_key_spec(f: FormV, key: KeyEvent, number: NumberVerdict) -> (FormV, Option<ReplyV>) {
    let ctrl_c = key.code == KeyCode::Char('c') && key.modifiers.control && !(key.modifiers.shift || key.modifiers.alt);
    if key.code == KeyCode::Esc || ctrl_c {
        (f, Some(ReplyV::Cancelled))
    } else if key.code == KeyCode::BackTab {
        (FormV { index: if f.index > 0 { f.index - 1 } else { 0 }, error: None, ..f }, None)
    } else if key.code == KeyCode::Tab {
        skip_spec(f)
    } else if current_is_text_spec(f) {
        if key.code == KeyCode::Enter {
            complete_spec(f, number)
        } else {
            let st = f.fields[f.index];
            (no_error(with_field(f, FieldStateV { input: text_key(st.input, key), ..st })), None)
        }
    } else {
        choice_key(f, key, number)
    }
}

/// What pasting `text` does: a typed answer or an "Other" choice takes the
/// text (newlines as spaces; an "Other" choice of a multi select gets
/// checked); other fields ignore it.
pub open spec fn paste_spec(f: FormV, text: Seq<char>) -> FormV {
    let custom = current_custom_spec(f);
    if current_is_text_spec(f) || custom {
        let st = f.fields[f.index];
        let sel = if custom && st.field.kind is Multi { st.selected.update(st.cursor, true) } else { st.selected };
        no_error(with_field(f, FieldStateV {
            selected: sel,
            editing_custom: st.editing_custom || custom,
            input: pasted(st.input, text),
            ..st
        }))
    } else {
        f
    }
}

impl ElicitationFormState {
    /// Marks the focused field answered (or skipped) and moves on, or
    /// replies with the answers after the last field.
    fn finish_field(&mut self, skipped: bool) -> (r: Option<ElicitationReply>)
        requires
            form_wf(form_view(*old(self))),
            old(self).error is None,
        ensures
            (form_view(*final(self)), opt_reply_view(r))
                == advance(no_error(with_field(form_view(*old(self)), mark_done(form_view(*old(self)).fields[old(self).index as int], skipped)))),
            form_wf(form_view(*final(self))),
    {
        let ghost f0 = form_view(*self);
        let i = self.index;
        self.fields[i].answered = true;
        self.fields[i].skipped = skipped;
        self.fields[i].editing_custom = false;
        assert(form_view(*self).fields =~= f0.fields.update(i as int, mark_done(f0.fields[i as int], skipped)));
        assert(form_view(*self) =~= no_error(with_field(f0, mark_done(f0.fields[i as int], skipped))));
        assert forall|k: int| 0 <= k < self.fields@.len() implies field_wf(#[trigger] form_view(*self).fields[k]) by {
            assert(field_wf(f0.fields[k]));
        }
        if self.index < self.fields.len() - 1 {
            self.index = self.index + 1;
            None
        } else {
            assert forall|k: int| 0 <= k < self.fields@.len() implies field_wf(#[trigger] field_state_view(self.fields@[k])) by {
                assert(form_view(*self).fields[k] == field_state_view(self.fields@[k]));
            }
            Some(self.collect())
        }
    }

    /// Enter on the focused field.
    fn complete_current(&mut self, number: NumberVerdict) -> (r: Option<ElicitationReply>)
        requires
            form_wf(form_view(*old(self))),
        ensures
            (form_view(*final(self)), opt_reply_view(r)) == complete_spec(form_view(*old(self)), number),
            form_wf(form_view(*final(self))),
    {
        let ghost f0 = form_view(*self);
        assert(f0.fields[self.index as int] == field_state_view(self.fields@[self.index as int]));
        match self.validate_current(number) {
            Err(e) => {
                self.error = Some(e);
                assert(form_view(*self) =~= FormV { error: validate_spec(f0, number), ..f0 });
                return None;
            },
            Ok(()) => {},
        }
        self.error = None;
        assert(form_view(*self) =~= no_error(f0));
        self.finish_field(false)
    }

    /// Tab on the focused field.
    fn skip_current(&mut self) -> (r: Option<ElicitationReply>)
        requires
            form_wf(form_view(*old(self))),
        ensures
            (form_view(*final(self)), opt_reply_view(r)) == skip_spec(form_view(*old(self))),
            form_wf(form_view(*final(self))),
    {
        let ghost f0 = form_view(*self);
        assert(f0.fields[self.index as int] == field_state_view(self.fields@[self.index as int]));
        if self.fields[self.index].field.required {
            self.error = Some(String::from_str(self.locale.tr("This field is required.", "此字段为必填项。")));
            assert(form_view(*self) =~= FormV { error: Some(tr_spec(f0.locale, "This field is required."@, "此字段为必填项。"@)), ..f0 });
            return None;
        }
        self.error = None;
        assert(form_view(*self) =~= no_error(f0));
        self.finish_field(true)
    }
}

/// Changing only the focused field's state changes the form view only
/// there.
proof fn lemma_field_update(a: ElicitationFormState, b: ElicitationFormState)
    requires
        a.index < a.fields@.len(),
        b.fields@.len() == a.fields@.len(),
        forall|k: int| 0 <= k < a.fields@.len() && k != a.index ==> b.fields@[k] == a.fields@[k],
        b.message == a.message,
        b.index == a.index,
        b.locale == a.locale,
        b.error == a.error,
    ensures
        form_view(b) == with_field(form_view(a), field_state_view(b.fields@[a.index as int])),
{
    assert(form_view(b).fields =~= form_view(a).fields.update(a.index as int, field_state_view(b.fields@[a.index as int])));
}

/// A field update that keeps the field's shape keeps the form's shape.
proof fn lemma_with_field_wf(f: FormV, st: FieldStateV)
    requires
        form_wf(f),
        field_wf(st),
    ensures
        form_wf(with_field(f, st)),
        form_wf(no_error(with_field(f, st))),
{
    assert forall|k: int| 0 <= k < with_field(f, st).fields.len() implies field_wf(#[trigger] with_field(f, st).fields[k]) by {
        if k != f.index {
            assert(with_field(f, st).fields[k] == f.fields[k]);
        }
    }
}

impl ElicitationFieldState {
    /// An editing key on a typed answer.
    fn edit(&mut self, key: KeyEvent)
        requires
            field_wf(field_state_view(*old(self))),
        ensures
            field_state_view(*final(self)) == (FieldStateV { input: text_key(field_state_view(*old(self)).input, key), ..field_state_view(*old(self)) }),
            field_wf(field_state_view(*final(self))),
    {
        let m = key.modifiers;
        match key.code {
            KeyCode::Char(ch) => {
                if !(m.control || m.super_key) && self.input.cursor < usize::MAX {
                    self.input.insert(ch);
                }
            },
            KeyCode::Backspace => self.input.backspace(),
            KeyCode::Delete => self.input.delete_forward(),
            KeyCode::Left => {
                let c = self.input.cursor;
                self.input.cursor = if c > 0 { c - 1 } else { 0 };
            },
            KeyCode::Right => {
                let n = self.input.len_chars();
                let c = self.input.cursor;
                self.input.cursor = if c < n { c + 1 } else { n };
            },
            KeyCode::Home => {
                self.input.cursor = 0;
            },
            KeyCode::End => {
                let n = self.input.len_chars();
                self.input.cursor = n;
            },
            _ => {},
        }
    }

    /// Moves the choice cursor up (wrapping) among `oc` choices.
    fn cursor_up(&mut self, oc: usize)
        requires
            oc == option_count(field_state_view(*old(self)).field.kind),
            oc > 0,
            field_wf(field_state_view(*old(self))),
        ensures
            field_state_view(*final(self)) == (FieldStateV { cursor: if old(self).cursor == 0 { oc - 1 } else { old(self).cursor - 1 }, ..field_state_view(*old(self)) }),
            field_wf(field_state_view(*final(self))),
    {
        let c = self.cursor;
        self.cursor = if c == 0 { oc - 1 } else { c - 1 };
    }

    /// Moves the choice cursor down (wrapping) among `oc` choices.
    fn cursor_down(&mut self, oc: usize)
        requires
            oc == option_count(field_state_view(*old(self)).field.kind),
            oc > 0,
            field_wf(field_state_view(*old(self))),
        ensures
            field_state_view(*final(self)) == (FieldStateV { cursor: (old(self).cursor + 1) % (oc as int), ..field_state_view(*old(self)) }),
            field_wf(field_state_view(*final(self))),
    {
        let c = self.cursor;
        self.cursor = (c + 1) % oc;
    }

    /// Flips the cursor's checkmark.
    fn toggle(&mut self)
        requires
            field_wf(field_state_view(*old(self))),
            old(self).cursor < old(self).selected@.len(),
        ensures
            field_state_view(*final(self)) == (FieldStateV {
                selected: old(self).selected@.update(old(self).cursor as int, !old(self).selected@[old(self).cursor as int]),
                ..field_state_view(*old(self))
            }),
            field_wf(field_state_view(*final(self))),
    {
        let c = self.cursor;
        let v = self.selected[c];
        self.selected.set(c, !v);
    }

    /// Checks the cursor's choice.
    fn check_cursor(&mut self)
        requires
            field_wf(field_state_view(*old(self))),
            old(self).cursor < old(self).selected@.len(),
        ensures
            field_state_view(*final(self)) == (FieldStateV { selected: old(self).selected@.update(old(self).cursor as int, true), ..field_state_view(*old(self)) }),
            field_wf(field_state_view(*final(self))),
    {
        let c = self.cursor;
        self.selected.set(c, true);
    }

    /// Leaves only the cursor's choice checked.
    fn only_cursor(&mut self)
        requires
            field_wf(field_state_view(*old(self))),
        ensures
            field_state_view(*final(self)) == only_cursor(field_state_view(*old(self))),
            field_wf(field_state_view(*final(self))),
    {
        let ghost s0 = field_state_view(*self);
        let c = self.cursor;
        let n = self.selected.len();
        let mut j: usize = 0;
        while j < n
            invariant
                n == self.selected@.len(),
                c == self.cursor,
                j <= n,
                forall|k: int| 0 <= k < j ==> self.selected@[k] == (k == c),
                field_state_view(*self) == (FieldStateV { selected: self.selected@, ..s0 }),
            decreases n - j,
        {
            self.selected.set(j, j == c);
            j += 1;
        }
        assert(self.selected@ =~= Seq::new(n as nat, |k: int| k == c));
    }

    /// Types `ch` into the "Other" answer under the cursor.
    fn type_custom(&mut self, ch: char, multi: bool)
        requires
            field_wf(field_state_view(*old(self))),
            old(self).cursor < old(self).selected@.len(),
        ensures
            field_state_view(*final(self)) == (FieldStateV {
                selected: if multi { old(self).selected@.update(old(self).cursor as int, true) } else { old(self).selected@ },
                editing_custom: true,
                input: typed(field_state_view(*old(self)).input, ch),
                ..field_state_view(*old(self))
            }),
            field_wf(field_state_view(*final(self))),
    {
        if multi {
            let c = self.cursor;
            self.selected.set(c, true);
        }
        self.editing_custom = true;
        if self.input.cursor < usize::MAX {
            self.input.insert(ch);
        }
    }

    /// Pastes the (already newline-free) text `t`; an "Other" choice of a
    /// multi select under the cursor gets checked.
    fn paste_text(&mut self, t: &str, custom: bool, multi: bool)
        requires
            field_wf(field_state_view(*old(self))),
            custom && multi ==> old(self).cursor < old(self).selected@.len(),
        ensures
            field_state_view(*final(self)) == (FieldStateV {
                selected: if custom && multi { old(self).selected@.update(old(self).cursor as int, true) } else { old(self).selected@ },
                editing_custom: old(self).editing_custom || custom,
                input: if old(self).input.cursor + t@.len() <= usize::MAX {
                    InputV {
                        buf: splice_spec(old(self).input.buf@, clampi(old(self).input.cursor as int, old(self).input.buf@.len() as int),
                            clampi(old(self).input.cursor as int, old(self).input.buf@.len() as int), t@),
                        cursor: old(self).input.cursor + t@.len(),
                    }
                } else {
                    field_state_view(*old(self)).input
                },
                ..field_state_view(*old(self))
            }),
            field_wf(field_state_view(*final(self))),
    {
        if custom && multi {
            let c = self.cursor;
            self.selected.set(c, true);
        }
        self.editing_custom = self.editing_custom || custom;
        let n = t.unicode_len();
        if self.input.cursor <= usize::MAX - n {
            self.input.insert_str(t);
        }
    }
}

impl ElicitationFormState {
    /// Whether the focused field is a multi select.
    fn focused_is_multi(&self) -> (r: bool)
        requires
            self.index < self.fields@.len(),
        ensures
            r == (form_view(*self).fields[self.index as int].field.kind is Multi),
    {
        match &self.fields[self.index].field.kind {
            ElicitationFieldKind::Multi { .. } => true,
            _ => false,
        }
    }

    /// Whether the focused field is a boolean.
    fn focused_is_boolean(&self) -> (r: bool)
        requires
            self.index < self.fields@.len(),
        ensures
            r == (form_view(*self).fields[self.index as int].field.kind is Boolean),
    {
        match &self.fields[self.index].field.kind {
            ElicitationFieldKind::Boolean { .. } => true,
            _ => false,
        }
    }
}

impl ElicitationFormState {
    /// A key on a choice field.
    fn choice_key(&mut self, key: KeyEvent, number: NumberVerdict) -> (r: Option<ElicitationReply>)
        requires
            form_wf(form_view(*old(self))),
        ensures
            (form_view(*final(self)), opt_reply_view(r)) == choice_key(form_view(*old(self)), key, number),
            form_wf(form_view(*final(self))),
    {
        let ghost a = *self;
        let ghost f0 = form_view(*self);
        let i = self.index;
        let ghost st0 = f0.fields[i as int];
        assert(st0 == field_state_view(self.fields@[i as int]));
        assert(field_wf(st0));
        let oc: usize = match &self.fields[i].field.kind {
            ElicitationFieldKind::Single { options, .. } | ElicitationFieldKind::Multi { options, .. } => options.len(),
            ElicitationFieldKind::Boolean { .. } => 2,
            _ => 0,
        };
        assert(oc == option_count(st0.field.kind));
        let m = key.modifiers;
        let plain = !(m.control || m.super_key);
        match key.code {
            KeyCode::Up => {
                if oc > 0 {
                    self.fields[i].cursor_up(oc);
                }
            },
            KeyCode::Down => {
                if oc > 0 {
                    self.fields[i].cursor_down(oc);
                }
            },
            KeyCode::Char(ch) => {
                if ch == ' ' {
                    if self.focused_is_multi() {
                        if self.fields[i].cursor < self.fields[i].selected.len() {
                            self.fields[i].toggle();
                        }
                    } else if self.focused_is_boolean() {
                        self.fields[i].only_cursor();
                    }
                } else if self.current_custom() && plain {
                    let multi = self.focused_is_multi();
                    self.fields[i].type_custom(ch, multi);
                }
            },
            KeyCode::Enter => {
                let custom = self.current_custom();
                if custom && self.focused_is_multi() {
                    self.fields[i].check_cursor();
                }
                proof {
                    lemma_field_update(a, *self);
                    lemma_with_field_wf(f0, field_state_view(self.fields@[i as int]));
                }
                if custom {
                    let t = trimmed(chars_of(self.fields[i].input.buf.as_str()).as_slice());
                    if t.len() == 0 {
                        let ghost b = *self;
                        self.fields[i].editing_custom = true;
                        proof {
                            lemma_field_update(a, *self);
                        }
                        self.error = None;
                        assert(form_view(*self) =~= no_error(with_field(f0, field_state_view(self.fields@[i as int]))));
                        proof {
                            lemma_with_field_wf(f0, field_state_view(self.fields@[i as int]));
                        }
                        return None;
                    }
                }
                if self.focused_is_boolean() {
                    self.fields[i].only_cursor();
                    proof {
                        lemma_field_update(a, *self);
                        lemma_with_field_wf(f0, field_state_view(self.fields@[i as int]));
                    }
                }
                return self.complete_current(number);
            },
            _ => {},
        }
        proof {
            lemma_field_update(a, *self);
            lemma_with_field_wf(f0, field_state_view(self.fields@[i as int]));
        }
        self.error = None;
        assert(form_view(*self) =~= no_error(with_field(f0, field_state_view(self.fields@[i as int]))));
        None
    }

    /// A key on the form; see `handle_key_spec`. `number` is the caller's
    /// reading of the focused number field's text (any value for other
    /// fields).
    pub fn handle_key(&mut self, key: KeyEvent, number: NumberVerdict) -> (r: Option<ElicitationReply>)
        requires
            form_wf(form_view(*old(self))),
        ensures
            (form_view(*final(self)), opt_reply_view(r)) == handle_key_spec(form_view(*old(self)), key, number),
            form_wf(form_view(*final(self))),
    {
        let ghost a = *self;
        let ghost f0 = form_view(*self);
        let m = key.modifiers;
        if key.code == KeyCode::Esc || (key.code == KeyCode::Char('c') && m.control && !(m.shift || m.alt)) {
            return Some(ElicitationReply::Cancelled);
        }
        if key.code == KeyCode::BackTab {
            if self.index > 0 {
                self.index = self.index - 1;
            }
            self.error = None;
            assert(form_view(*self) =~= FormV { index: if f0.index > 0 { f0.index - 1 } else { 0 }, error: None, ..f0 });
            return None;
        }
        if key.code == KeyCode::Tab {
            return self.skip_current();
        }
        if self.current_is_text() {
            if key.code == KeyCode::Enter {
                return self.complete_current(number);
            }
            let i = self.index;
            assert(f0.fields[i as int] == field_state_view(self.fields@[i as int]));
            self.fields[i].edit(key);
            proof {
                lemma_field_update(a, *self);
                lemma_with_field_wf(f0, field_state_view(self.fields@[i as int]));
            }
            self.error = None;
            assert(form_view(*self) =~= no_error(with_field(f0, field_state_view(self.fields@[i as int]))));
            return None;
        }
        self.choice_key(key, number)
    }

    /// Pastes `text` into the focused field; see `paste_spec`.
    pub fn paste(&mut self, text: &str)
        requires
            form_wf(form_view(*old(self))),
        ensures
            form_view(*final(self)) == paste_spec(form_view(*old(self)), text@),
            form_wf(form_view(*final(self))),
    {
        let ghost a = *self;
        let ghost f0 = form_view(*self);
        let custom = self.current_custom();
        if self.current_is_text() || custom {
            let i = self.index;
            assert(f0.fields[i as int] == field_state_view(self.fields@[i as int]));
            let multi = self.focused_is_multi();
            let cs = chars_of(text);
            let mut t: Vec<char> = Vec::new();
            let mut k: usize = 0;
            while k < cs.len()
                invariant
                    k <= cs@.len(),
                    t@ == cs@.subrange(0, k as int).map_values(|c: char| if c == '\n' { ' ' } else { c }),
                decreases cs@.len() - k,
            {
                t.push(if cs[k] == '\n' { ' ' } else { cs[k] });
                k += 1;
                assert(t@ =~= cs@.subrange(0, k as int).map_values(|c: char| if c == '\n' { ' ' } else { c }));
            }
            assert(cs@.subrange(0, cs@.len() as int) =~= cs@);
            let ts = string_of(t.as_slice());
            self.fields[i].paste_text(ts.as_str(), custom, multi);
            proof {
                lemma_field_update(a, *self);
                lemma_with_field_wf(f0, field_state_view(self.fields@[i as int]));
            }
            self.error = None;
            assert(form_view(*self) =~= no_error(with_field(f0, field_state_view(self.fields@[i as int]))));
        }
    }
}

// ----- the request -----

/// A titled choice of a string or multi-select schema.
pub struct TitledOption {
    pub value: String,
    pub title: String,
    pub description: Option<String>,
}

/// A string property: free text, or a choice among `one_of` (titled) or
/// `enum_values` (bare).
pub struct StringPropertySchema {
    pub title: Option<String>,
    pub description: Option<String>,
    pub one_of: Option<Vec<TitledOption>>,
    pub enum_values: Option<Vec<String>>,
    pub default: Option<String>,
}

/// The items of a multi-select property.
pub enum MultiSelectItems {
    String(Vec<String>),
    Titled(Vec<TitledOption>),
    Other,
}

/// A multi-select property.
pub struct ArrayPropertySchema {
    pub title: Option<String>,
    pub description: Option<String>,
    pub items: MultiSelectItems,
    pub default: Option<Vec<String>>,
    pub min_items: Option<u64>,
    pub max_items: Option<u64>,
}

/// An integer property.
pub struct IntegerPropertySchema {
    pub title: Option<String>,
    pub description: Option<String>,
    pub default: Option<i64>,
    pub minimum: Option<i64>,
    pub maximum: Option<i64>,
}

/// A number property; its default is the text the field first shows (its
/// range is the caller's to check).
pub struct NumberPropertySchema {
    pub title: Option<String>,
    pub description: Option<String>,
    pub default: Option<String>,
}

/// A yes/no property.
pub struct BooleanPropertySchema {
    pub title: Option<String>,
    pub description: Option<String>,
    pub default: Option<bool>,
}

/// One property of a requested form.
pub enum ElicitationPropertySchema {
    String(StringPropertySchema),
    Array(ArrayPropertySchema),
    Integer(IntegerPropertySchema),
    Number(NumberPropertySchema),
    Boolean(BooleanPropertySchema),
    Other,
}

/// The schema of a requested form: its properties in name order and the
/// required names.
pub struct RequestedSchema {
    pub properties: Vec<(String, ElicitationPropertySchema)>,
    pub required: Option<Vec<String>>,
}

/// How the agent asks: a form, or something else (a URL).
pub enum ElicitationMode {
    Form(RequestedSchema),
    Other,
}

/// An ACP elicitation request.
pub struct CreateElicitationRequest {
    pub message: String,
    pub mode: ElicitationMode,
}

pub open spec fn titled_view(o: TitledOption) -> OptionV {
    OptionV { value: o.value@, label: o.title@, description: opt_str_view(o.description), custom: false }
}

/// The choices of a string property: its titled choices, else its bare
/// values, else none.
pub open spec fn string_options_spec(s: StringPropertySchema) -> Seq<OptionV> {
    match s.one_of {
        Some(o) => o@.map_values(|x: TitledOption| titled_view(x)),
        None => match s.enum_values {
            Some(v) => v@.map_values(|x: String| OptionV { value: x@, label: x@, description: None, custom: false }),
            None => Seq::empty(),
        },
    }
}

/// The choices of a multi-select property; none for an unsupported item type.
pub open spec fn multi_options_spec(items: MultiSelectItems) -> Option<Seq<OptionV>> {
    match items {
        MultiSelectItems::String(v) => Some(v@.map_values(|x: String| OptionV { value: x@, label: x@, description: None, custom: false })),
        MultiSelectItems::Titled(o) => Some(o@.map_values(|x: TitledOption| titled_view(x))),
        MultiSelectItems::Other => None,
    }
}

/// The choices a property offers; none when its item type is unsupported.
pub open spec fn property_options(p: ElicitationPropertySchema) -> Option<Seq<OptionV>> {
    match p {
        ElicitationPropertySchema::String(s) => Some(string_options_spec(s)),
        ElicitationPropertySchema::Array(a) => multi_options_spec(a.items),
        _ => Some(Seq::empty()),
    }
}

/// Whether every multi-select property has a supported item type.
pub open spec fn items_supported(props: Seq<(String, ElicitationPropertySchema)>) -> bool {
    forall|i: int| 0 <= i < props.len() ==> (#[trigger] property_options(props[i].1)) is Some
}

/// The first choice labelled "Other".
pub open spec fn first_other(o: Seq<OptionV>) -> Option<OptionV>
    decreases o.len(),
{
    if o.len() == 0 {
        None
    } else if o[0].label == "Other"@ {
        Some(o[0])
    } else {
        first_other(o.drop_first())
    }
}

/// The first property named `name`.
pub open spec fn property_named(props: Seq<(String, ElicitationPropertySchema)>, name: Seq<char>) -> Option<ElicitationPropertySchema>
    decreases props.len(),
{
    if props.len() == 0 {
        None
    } else if props[0].0@ == name {
        Some(props[0].1)
    } else {
        property_named(props.drop_first(), name)
    }
}

/// The property that receives the typed "Other" answer of property `name`.
pub open spec fn custom_name_of(name: Seq<char>) -> Seq<char> {
    name + "_custom"@
}

/// Whether `name` is a plain free-text string property.
pub open spec fn plain_text_property(props: Seq<(String, ElicitationPropertySchema)>, name: Seq<char>) -> bool {
    match property_named(props, name) {
        Some(ElicitationPropertySchema::String(s)) => s.one_of is None && s.enum_values is None,
        _ => false,
    }
}

/// The pairing of a property with an "Other" choice and a plain sibling
/// `<name>_custom`: that sibling's name and the "Other" value.
pub open spec fn pairing(props: Seq<(String, ElicitationPropertySchema)>, name: Seq<char>, p: ElicitationPropertySchema) -> Option<(Seq<char>, Seq<char>)> {
    match property_options(p) {
        Some(o) => match first_other(o) {
            Some(other) => if plain_text_property(props, custom_name_of(name)) {
                Some((custom_name_of(name), other.value))
            } else {
                None
            },
            None => None,
        },
        None => None,
    }
}

/// The pairing recorded for `name` among the first `n` properties: that of
/// the last property so named that has one.
pub open spec fn paired_upto(props: Seq<(String, ElicitationPropertySchema)>, n: int, name: Seq<char>) -> Option<(Seq<char>, Seq<char>)>
    decreases n,
{
    if n <= 0 {
        None
    } else if props[n - 1].0@ == name && pairing(props, name, props[n - 1].1) is Some {
        pairing(props, name, props[n - 1].1)
    } else {
        paired_upto(props, n - 1, name)
    }
}

/// The pairing recorded for `name`.
pub open spec fn paired_for(props: Seq<(String, ElicitationPropertySchema)>, name: Seq<char>) -> Option<(Seq<char>, Seq<char>)> {
    paired_upto(props, props.len() as int, name)
}

/// Whether `name` is the sibling that a pairing folds into its select.
pub open spec fn is_hidden(props: Seq<(String, ElicitationPropertySchema)>, name: Seq<char>) -> bool {
    exists|i: int| 0 <= i < props.len() && hides(#[trigger] paired_for(props, props[i].0@), name)
}

/// Whether a pairing folds the sibling `name`.
pub open spec fn hides(p: Option<(Seq<char>, Seq<char>)>, name: Seq<char>) -> bool {
    match p {
        Some((cn, _)) => cn == name,
        None => false,
    }
}

/// Choices with `custom` set on the one whose value is the "Other" value.
pub open spec fn mark_custom(o: Seq<OptionV>, value: Seq<char>) -> Seq<OptionV> {
    o.map_values(|x: OptionV| OptionV { custom: x.value == value, ..x })
}

/// The title, description and kind of a supported property.
pub open spec fn field_of(name: Seq<char>, p: ElicitationPropertySchema, paired: Option<(Seq<char>, Seq<char>)>) -> Option<(Seq<char>, Option<Seq<char>>, KindV)> {
    match p {
        ElicitationPropertySchema::String(s) => {
            let title = match s.title { Some(t) => t@, None => name };
            let options = string_options_spec(s);
            if options.len() == 0 {
                Some((title, opt_str_view(s.description), KindV::Text { default: opt_str_view(s.default) }))
            } else {
                let opts = match paired { Some((_, v)) => mark_custom(options, v), None => options };
                Some((title, opt_str_view(s.description), KindV::Single { options: opts, default: opt_str_view(s.default) }))
            }
        },
        ElicitationPropertySchema::Array(a) => match multi_options_spec(a.items) {
            Some(options) => {
                let opts = match paired { Some((_, v)) => mark_custom(options, v), None => options };
                Some((
                    match a.title { Some(t) => t@, None => name },
                    opt_str_view(a.description),
                    KindV::Multi {
                        options: opts,
                        default: match a.default { Some(d) => d@.map_values(|x: String| x@), None => Seq::empty() },
                        min: match a.min_items { Some(m) => (m as usize) as nat, None => 0 },
                        max: match a.max_items { Some(m) => Some((m as usize) as nat), None => None },
                    },
                ))
            },
            None => None,
        },
        ElicitationPropertySchema::Integer(s) => Some((
            match s.title { Some(t) => t@, None => name },
            opt_str_view(s.description),
            KindV::Integer { default: s.default, min: s.minimum, max: s.maximum },
        )),
        ElicitationPropertySchema::Number(s) => Some((
            match s.title { Some(t) => t@, None => name },
            opt_str_view(s.description),
            KindV::Number { default: opt_str_view(s.default) },
        )),
        ElicitationPropertySchema::Boolean(s) => Some((
            match s.title { Some(t) => t@, None => name },
            opt_str_view(s.description),
            KindV::Boolean { default: s.default },
        )),
        ElicitationPropertySchema::Other => None,
    }
}

/// The fields of the first `n` properties, or the first unsupported
/// property's name.
pub open spec fn fields_upto(props: Seq<(String, ElicitationPropertySchema)>, required: Seq<Seq<char>>, n: int) -> Result<Seq<FieldV>, Seq<char>>
    decreases n,
{
    if n <= 0 {
        Ok(Seq::empty())
    } else {
        match fields_upto(props, required, n - 1) {
            Err(e) => Err(e),
            Ok(fs) => {
                let name = props[n - 1].0@;
                if is_hidden(props, name) {
                    Ok(fs)
                } else {
                    let paired = paired_for(props, name);
                    match field_of(name, props[n - 1].1, paired) {
                        None => Err(name),
                        Some((title, description, kind)) => Ok(fs.push(FieldV {
                            name,
                            custom_name: match paired { Some((cn, _)) => Some(cn), None => None },
                            title,
                            description,
                            required: required.contains(name),
                            kind,
                        })),
                    }
                }
            },
        }
    }
}

/// The names a schema requires.
pub open spec fn required_names(s: RequestedSchema) -> Seq<Seq<char>> {
    match s.required {
        Some(r) => r@.map_values(|x: String| x@),
        None => Seq::empty(),
    }
}

/// The form a request asks for: only forms are supported; every
/// multi-select needs a supported item type; every property that is not
/// a folded "Other" sibling needs a supported type; and at least one field
/// must result.
pub open spec fn form_spec(req: CreateElicitationRequest) -> Result<Seq<FieldV>, Seq<char>> {
    match req.mode {
        ElicitationMode::Other => Err("only form elicitation is supported"@),
        ElicitationMode::Form(schema) => {
            let props = schema.properties@;
            let required = required_names(schema);
            if !items_supported(props) {
                Err("unsupported elicitation multi-select item type"@)
            } else {
                match fields_upto(props, required, props.len() as int) {
                    Err(name) => Err("unsupported elicitation property: "@ + name),
                    Ok(fs) => if fs.len() == 0 { Err("elicitation form has no supported fields"@) } else { Ok(fs) },
                }
            }
        },
    }
}

fn titled_options(o: &Vec<TitledOption>) -> (r: Vec<ElicitationOption>)
    ensures
        options_view(r@) == o@.map_values(|x: TitledOption| titled_view(x)),
{
    let mut out: Vec<ElicitationOption> = Vec::new();
    let mut i: usize = 0;
    while i < o.len()
        invariant
            i <= o@.len(),
            options_view(out@) == o@.subrange(0, i as int).map_values(|x: TitledOption| titled_view(x)),
        decreases o@.len() - i,
    {
        let x = &o[i];
        let ghost before = out@;
        out.push(ElicitationOption {
            value: x.value.clone(),
            label: x.title.clone(),
            description: match &x.description {
                Some(d) => Some(d.clone()),
                None => None,
            },
            custom: false,
        });
        assert(options_view(out@) =~= options_view(before).push(titled_view(o@[i as int])));
        assert(o@.subrange(0, i + 1).map_values(|x: TitledOption| titled_view(x))
            =~= o@.subrange(0, i as int).map_values(|x: TitledOption| titled_view(x)).push(titled_view(o@[i as int])));
        i += 1;
    }
    assert(o@.subrange(0, o@.len() as int) =~= o@);
    out
}

fn bare_options(v: &Vec<String>) -> (r: Vec<ElicitationOption>)
    ensures
        options_view(r@) == v@.map_values(|x: String| OptionV { value: x@, label: x@, description: None, custom: false }),
{
    let ghost f = |x: String| OptionV { value: x@, label: x@, description: None, custom: false };
    let mut out: Vec<ElicitationOption> = Vec::new();
    let mut i: usize = 0;
    while i < v.len()
        invariant
            i <= v@.len(),
            f == (|x: String| OptionV { value: x@, label: x@, description: None, custom: false }),
            options_view(out@) == v@.subrange(0, i as int).map_values(f),
        decreases v@.len() - i,
    {
        let ghost before = out@;
        out.push(ElicitationOption { value: v[i].clone(), label: v[i].clone(), description: None, custom: false });
        assert(options_view(out@) =~= options_view(before).push(f(v@[i as int])));
        assert(v@.subrange(0, i + 1).map_values(f) =~= v@.subrange(0, i as int).map_values(f).push(f(v@[i as int])));
        i += 1;
    }
    assert(v@.subrange(0, v@.len() as int) =~= v@);
    out
}

/// The choices of a string property.
fn string_options(s: &StringPropertySchema) -> (r: Vec<ElicitationOption>)
    ensures
        options_view(r@) == string_options_spec(*s),
{
    match &s.one_of {
        Some(o) => titled_options(o),
        None => match &s.enum_values {
            Some(v) => bare_options(v),
            None => Vec::new(),
        },
    }
}

/// The choices of a multi-select property.
fn multi_options(items: &MultiSelectItems) -> (r: Result<Vec<ElicitationOption>, String>)
    ensures
        match r {
            Ok(v) => multi_options_spec(*items) == Some(options_view(v@)),
            Err(e) => multi_options_spec(*items) is None && e@ == "unsupported elicitation multi-select item type"@,
        },
{
    match items {
        MultiSelectItems::String(v) => Ok(bare_options(v)),
        MultiSelectItems::Titled(o) => Ok(titled_options(o)),
        MultiSelectItems::Other => Err(String::from_str("unsupported elicitation multi-select item type")),
    }
}

/// The choices a property offers.
fn property_options_of(p: &ElicitationPropertySchema) -> (r: Result<Vec<ElicitationOption>, String>)
    ensures
        match r {
            Ok(v) => property_options(*p) == Some(options_view(v@)),
            Err(e) => property_options(*p) is None && e@ == "unsupported elicitation multi-select item type"@,
        },
{
    match p {
        ElicitationPropertySchema::String(s) => Ok(string_options(s)),
        ElicitationPropertySchema::Array(a) => multi_options(&a.items),
        _ => Ok(Vec::new()),
    }
}

proof fn lemma_first_other_skip(o: Seq<OptionV>, i: int)
    requires
        0 <= i <= o.len(),
        forall|j: int| 0 <= j < i ==> o[j].label != "Other"@,
    ensures
        first_other(o) == first_other(o.subrange(i, o.len() as int)),
    decreases i,
{
    if i == 0 {
        assert(o.subrange(0, o.len() as int) =~= o);
    } else {
        lemma_first_other_skip(o.drop_first(), i - 1);
        assert(o.drop_first().subrange(i - 1, o.len() - 1) =~= o.subrange(i, o.len() as int));
    }
}

/// The value of the first choice labelled "Other".
fn other_value(o: &Vec<ElicitationOption>) -> (r: Option<String>)
    ensures
        match first_other(options_view(o@)) {
            Some(x) => r matches Some(v) && v@ == x.value,
            None => r is None,
        },
{
    proof {
        reveal_strlit("Other");
    }
    let ghost ov = options_view(o@);
    let mut i: usize = 0;
    while i < o.len()
        invariant
            i <= o@.len(),
            ov == options_view(o@),
            forall|j: int| 0 <= j < i ==> ov[j].label != "Other"@,
        decreases o@.len() - i,
    {
        assert(ov[i as int] == option_view(o@[i as int]));
        if crate::text::str_eq(o[i].label.as_str(), "Other") {
            proof {
                lemma_first_other_skip(ov, i as int);
            }
            return Some(o[i].value.clone());
        }
        i += 1;
    }
    proof {
        lemma_first_other_skip(ov, i as int);
    }
    None
}

proof fn lemma_property_named_skip(props: Seq<(String, ElicitationPropertySchema)>, name: Seq<char>, i: int)
    requires
        0 <= i <= props.len(),
        forall|j: int| 0 <= j < i ==> props[j].0@ != name,
    ensures
        property_named(props, name) == property_named(props.subrange(i, props.len() as int), name),
    decreases i,
{
    if i == 0 {
        assert(props.subrange(0, props.len() as int) =~= props);
    } else {
        lemma_property_named_skip(props.drop_first(), name, i - 1);
        assert(props.drop_first().subrange(i - 1, props.len() - 1) =~= props.subrange(i, props.len() as int));
    }
}

/// Whether `name` is a plain free-text string property.
fn is_plain_text_property(props: &Vec<(String, ElicitationPropertySchema)>, name: &str) -> (r: bool)
    ensures
        r == plain_text_property(props@, name@),
{
    let mut i: usize = 0;
    while i < props.len()
        invariant
            i <= props@.len(),
            forall|j: int| 0 <= j < i ==> props@[j].0@ != name@,
        decreases props@.len() - i,
    {
        if crate::text::str_eq(props[i].0.as_str(), name) {
            proof {
                lemma_property_named_skip(props@, name@, i as int);
            }
            return match &props[i].1 {
                ElicitationPropertySchema::String(s) => s.one_of.is_none() && s.enum_values.is_none(),
                _ => false,
            };
        }
        i += 1;
    }
    proof {
        lemma_property_named_skip(props@, name@, i as int);
    }
    false
}

/// `<name>_custom`.
fn custom_name(name: &str) -> (r: String)
    ensures
        r@ == custom_name_of(name@),
{
    let mut s = String::from_str(name);
    s.append("_custom");
    s
}

/// The pairing of property `name` (schema `p`).
fn pairing_of(props: &Vec<(String, ElicitationPropertySchema)>, name: &str, p: &ElicitationPropertySchema) -> (r: Option<(String, String)>)
    ensures
        match r {
            Some((cn, v)) => pairing(props@, name@, *p) == Some((cn@, v@)),
            None => pairing(props@, name@, *p) is None,
        },
{
    let opts = match property_options_of(p) {
        Ok(o) => o,
        Err(_) => return None,
    };
    let other = match other_value(&opts) {
        Some(v) => v,
        None => return None,
    };
    let cn = custom_name(name);
    if is_plain_text_property(props, cn.as_str()) {
        Some((cn, other))
    } else {
        None
    }
}

/// The pairing recorded for `name`.
fn paired_lookup(props: &Vec<(String, ElicitationPropertySchema)>, name: &str) -> (r: Option<(String, String)>)
    ensures
        match r {
            Some((cn, v)) => paired_for(props@, name@) == Some((cn@, v@)),
            None => paired_for(props@, name@) is None,
        },
{
    let mut k: usize = props.len();
    while k > 0
        invariant
            k <= props@.len(),
            paired_for(props@, name@) == paired_upto(props@, k as int, name@),
        decreases k,
    {
        if crate::text::str_eq(props[k - 1].0.as_str(), name) {
            if let Some(pr) = pairing_of(props, name, &props[k - 1].1) {
                return Some(pr);
            }
        }
        k -= 1;
    }
    None
}

/// Whether `name` is folded into a select as its "Other" answer.
fn hidden(props: &Vec<(String, ElicitationPropertySchema)>, name: &str) -> (r: bool)
    ensures
        r == is_hidden(props@, name@),
{
    let mut i: usize = 0;
    while i < props.len()
        invariant
            i <= props@.len(),
            forall|j: int| 0 <= j < i ==> !hides(#[trigger] paired_for(props@, props@[j].0@), name@),
        decreases props@.len() - i,
    {
        match paired_lookup(props, props[i].0.as_str()) {
            Some((cn, _)) => {
                if crate::text::str_eq(cn.as_str(), name) {
                    assert(hides(paired_for(props@, props@[i as int].0@), name@));
                    return true;
                }
            },
            None => {},
        }
        i += 1;
    }
    false
}

/// The choices with `custom` set on the "Other" value.
fn marked(o: Vec<ElicitationOption>, value: &str) -> (r: Vec<ElicitationOption>)
    ensures
        options_view(r@) == mark_custom(options_view(o@), value@),
{
    let ghost src = options_view(o@);
    let mut o = o;
    let mut i: usize = 0;
    while i < o.len()
        invariant
            i <= o@.len(),
            o@.len() == src.len(),
            forall|j: int| i <= j < o@.len() ==> option_view(#[trigger] o@[j]) == src[j],
            forall|j: int| 0 <= j < i ==> option_view(#[trigger] o@[j]) == (OptionV { custom: src[j].value == value@, ..src[j] }),
        decreases o@.len() - i,
    {
        let c = crate::text::str_eq(o[i].value.as_str(), value);
        o[i].custom = c;
        i += 1;
    }
    assert(options_view(o@) =~= mark_custom(src, value@));
    o
}

fn clone_opt(o: &Option<String>) -> (r: Option<String>)
    ensures
        opt_str_view(r) == opt_str_view(*o),
{
    match o {
        Some(s) => Some(s.clone()),
        None => None,
    }
}

fn clone_strings(v: &Vec<String>) -> (r: Vec<String>)
    ensures
        r@.map_values(|x: String| x@) == v@.map_values(|x: String| x@),
{
    let mut out: Vec<String> = Vec::new();
    let mut i: usize = 0;
    while i < v.len()
        invariant
            i <= v@.len(),
            out@.map_values(|x: String| x@) == v@.subrange(0, i as int).map_values(|x: String| x@),
        decreases v@.len() - i,
    {
        let ghost before = out@;
        out.push(v[i].clone());
        assert(out@.map_values(|x: String| x@) =~= before.map_values(|x: String| x@).push(v@[i as int]@));
        assert(v@.subrange(0, i + 1).map_values(|x: String| x@) =~= v@.subrange(0, i as int).map_values(|x: String| x@).push(v@[i as int]@));
        i += 1;
    }
    assert(v@.subrange(0, v@.len() as int) =~= v@);
    out
}

/// The title (or the name).
fn title_or(t: &Option<String>, name: &str) -> (r: String)
    ensures
        r@ == (match *t { Some(x) => x@, None => name@ }),
{
    match t {
        Some(x) => x.clone(),
        None => String::from_str(name),
    }
}

/// The view of a recorded pairing.
pub open spec fn pair_view(p: Option<(String, String)>) -> Option<(Seq<char>, Seq<char>)> {
    match p {
        Some((cn, v)) => Some((cn@, v@)),
        None => None,
    }
}

/// The field a supported property becomes.
fn field_from(name: &str, p: &ElicitationPropertySchema, paired: &Option<(String, String)>, required: bool) -> (r: Option<ElicitationField>)
    ensures
        match field_of(name@, *p, pair_view(*paired)) {
            Some((title, description, kind)) => r matches Some(f) && field_view(f) == (FieldV {
                name: name@,
                custom_name: match *paired { Some((cn, _)) => Some(cn@), None => None },
                title,
                description,
                required,
                kind,
            }),
            None => r is None,
        },
{
    let custom_name = match paired {
        Some((cn, _)) => Some(cn.clone()),
        None => None,
    };
    let (title, description, kind) = match p {
        ElicitationPropertySchema::String(s) => {
            let options = string_options(s);
            let title = title_or(&s.title, name);
            if options.len() == 0 {
                (title, clone_opt(&s.description), ElicitationFieldKind::Text { default: clone_opt(&s.default) })
            } else {
                let opts = match paired {
                    Some((_, v)) => marked(options, v.as_str()),
                    None => options,
                };
                (title, clone_opt(&s.description), ElicitationFieldKind::Single { options: opts, default: clone_opt(&s.default) })
            }
        },
        ElicitationPropertySchema::Array(a) => {
            let options = match multi_options(&a.items) {
                Ok(o) => o,
                Err(_) => return None,
            };
            let opts = match paired {
                Some((_, v)) => marked(options, v.as_str()),
                None => options,
            };
            let default = match &a.default {
                Some(d) => clone_strings(d),
                None => Vec::new(),
            };
            assert(default@.map_values(|x: String| x@) =~= match a.default {
                Some(d) => d@.map_values(|x: String| x@),
                None => Seq::<Seq<char>>::empty(),
            });
            let min: usize = match a.min_items {
                Some(m) => m as usize,
                None => 0,
            };
            let max: Option<usize> = match a.max_items {
                Some(m) => Some(m as usize),
                None => None,
            };
            (title_or(&a.title, name), clone_opt(&a.description), ElicitationFieldKind::Multi { options: opts, default, min, max })
        },
        ElicitationPropertySchema::Integer(s) => (
            title_or(&s.title, name),
            clone_opt(&s.description),
            ElicitationFieldKind::Integer { default: s.default, min: s.minimum, max: s.maximum },
        ),
        ElicitationPropertySchema::Number(s) => (
            title_or(&s.title, name),
            clone_opt(&s.description),
            ElicitationFieldKind::Number { default: clone_opt(&s.default) },
        ),
        ElicitationPropertySchema::Boolean(s) => (
            title_or(&s.title, name),
            clone_opt(&s.description),
            ElicitationFieldKind::Boolean { default: s.default },
        ),
        ElicitationPropertySchema::Other => return None,
    };
    let f = ElicitationField { name: String::from_str(name), custom_name, title, description, required, kind };
    proof {
        let pv = pair_view(*paired);
        let fo = field_of(name@, *p, pv);
        assert(fo is Some);
        assert(field_view(f).title == fo.unwrap().0);
        assert(field_view(f).description == fo.unwrap().1);
        match *p {
            ElicitationPropertySchema::String(_) => { assert(field_view(f).kind == fo.unwrap().2); },
            ElicitationPropertySchema::Array(_) => { assert(field_view(f).kind == fo.unwrap().2); },
            ElicitationPropertySchema::Integer(_) => { assert(field_view(f).kind == fo.unwrap().2); },
            ElicitationPropertySchema::Number(_) => { assert(field_view(f).kind == fo.unwrap().2); },
            ElicitationPropertySchema::Boolean(_) => { assert(field_view(f).kind == fo.unwrap().2); },
            ElicitationPropertySchema::Other => {},
        }
    }
    Some(f)
}

/// The form an ACP elicitation request asks for; see `form_spec`.
pub fn form_from_request(request: &CreateElicitationRequest) -> (r: Result<ElicitationForm, String>)
    ensures
        match r {
            Ok(f) => f.message@ == request.message@ && form_spec(*request) == Ok::<Seq<FieldV>, Seq<char>>(f.fields@.map_values(|x: ElicitationField| field_view(x))),
            Err(e) => form_spec(*request) == Err::<Seq<FieldV>, Seq<char>>(e@),
        },
{
    let schema = match &request.mode {
        ElicitationMode::Form(s) => s,
        ElicitationMode::Other => return Err(String::from_str("only form elicitation is supported")),
    };
    let props = &schema.properties;
    let ghost req = required_names(*schema);
    let mut i: usize = 0;
    while i < props.len()
        invariant
            i <= props@.len(),
            request.mode == ElicitationMode::Form(*schema),
            props@ == schema.properties@,
            forall|j: int| 0 <= j < i ==> (#[trigger] property_options(props@[j].1)) is Some,
        decreases props@.len() - i,
    {
        match property_options_of(&props[i].1) {
            Ok(_) => {},
            Err(e) => {
                assert(!items_supported(props@));
                assert(request.mode == ElicitationMode::Form(*schema));
                assert(form_spec(*request) == Err::<Seq<FieldV>, Seq<char>>("unsupported elicitation multi-select item type"@));
                return Err(e);
            },
        }
        i += 1;
    }
    assert(items_supported(props@));
    let mut fields: Vec<ElicitationField> = Vec::new();
    assert(fields@.map_values(|x: ElicitationField| field_view(x)) =~= Seq::<FieldV>::empty());
    let mut k: usize = 0;
    while k < props.len()
        invariant
            k <= props@.len(),
            request.mode == ElicitationMode::Form(*schema),
            props@ == schema.properties@,
            items_supported(props@),
            req == required_names(*schema),
            fields_upto(props@, req, k as int) == Ok::<Seq<FieldV>, Seq<char>>(fields@.map_values(|x: ElicitationField| field_view(x))),
        decreases props@.len() - k,
    {
        let name = props[k].0.as_str();
        if !hidden(props, name) {
            let paired = paired_lookup(props, name);
            let required = match &schema.required {
                Some(r) => contains_string(r, name),
                None => false,
            };
            match field_from(name, &props[k].1, &paired, required) {
                Some(f) => {
                    let ghost before = fields@;
                    fields.push(f);
                    assert(fields@.map_values(|x: ElicitationField| field_view(x))
                        =~= before.map_values(|x: ElicitationField| field_view(x)).push(field_view(f)));
                },
                None => {
                    let mut msg = String::from_str("unsupported elicitation property: ");
                    msg.append(name);
                    proof {
                        lemma_fields_upto_err(props@, req, k as int + 1, props@.len() as int);
                    }
                    return Err(msg);
                },
            }
        }
        k += 1;
    }
    if fields.len() == 0 {
        return Err(String::from_str("elicitation form has no supported fields"));
    }
    Ok(ElicitationForm { message: request.message.clone(), fields })
}

/// Once the fields fail, they stay failed with the same name.
proof fn lemma_fields_upto_err(props: Seq<(String, ElicitationPropertySchema)>, required: Seq<Seq<char>>, a: int, b: int)
    requires
        0 <= a <= b,
        fields_upto(props, required, a) is Err,
    ensures
        fields_upto(props, required, b) == fields_upto(props, required, a),
    decreases b - a,
{
    if a < b {
        lemma_fields_upto_err(props, required, a, b - 1);
    }
}

/// Esc cancels the form from any state and changes nothing.
pub proof fn law_escape_cancels(f: FormV, number: NumberVerdict, mods: KeyModifiers)
    ensures
        handle_key_spec(f, KeyEvent { code: KeyCode::Esc, modifiers: mods }, number) == (f, Some(ReplyV::Cancelled)),
{
}

/// Only a plain ctrl+c cancels: with shift or alt also held (copying a
/// selection) the form gives no reply and the key is no cancellation.
pub proof fn law_chorded_ctrl_c_does_not_cancel(f: FormV, number: NumberVerdict, mods: KeyModifiers)
    requires
        form_wf(f),
        mods.control,
        mods.shift || mods.alt,
    ensures
        handle_key_spec(f, KeyEvent { code: KeyCode::Char('c'), modifiers: mods }, number).1 is None,
{
}

/// A required field cannot be skipped: Tab keeps the form on it with the
/// same answers and shows an error.
pub proof fn law_required_field_cannot_be_skipped(f: FormV, number: NumberVerdict, mods: KeyModifiers)
    requires
        form_wf(f),
        f.fields[f.index].field.required,
    ensures
        ({
            let (g, r) = handle_key_spec(f, KeyEvent { code: KeyCode::Tab, modifiers: mods }, number);
            &&& r is None
            &&& g.index == f.index
            &&& g.fields == f.fields
            &&& g.error is Some
        }),
{
}

/// Nothing is toggled on a multi select without choices (an agent may
/// legally send one): space leaves its checkmarks alone.
pub proof fn law_space_on_empty_multi_select_changes_nothing(f: FormV, number: NumberVerdict, mods: KeyModifiers)
    requires
        form_wf(f),
        f.fields[f.index].field.kind is Multi,
        kind_options(f.fields[f.index].field.kind).len() == 0,
        !f.fields[f.index].editing_custom,
    ensures
        handle_key_spec(f, KeyEvent { code: KeyCode::Char(' '), modifiers: mods }, number) == (no_error(f), None::<ReplyV>),
{
    assert(field_wf(f.fields[f.index]));
    assert(option_count(f.fields[f.index].field.kind) == 0);
    assert(!current_is_text_spec(f));
}

/// Whether `v` lies within the optional bounds `min` and `max`.
pub open spec fn within_bounds(v: i64, min: Option<i64>, max: Option<i64>) -> bool {
    (min matches Some(lo) ==> lo <= v) && (max matches Some(hi) ==> v <= hi)
}

/// An integer answer is accepted exactly when it lies within the field's
/// bounds: for a focused integer field whose text reads as `v`, the answer
/// validates when `min <= v <= max` (each bound where set), and otherwise
/// earns the out-of-range message.
pub proof fn law_integer_answer_respects_bounds(f: FormV, number: NumberVerdict, v: i64, min: Option<i64>, max: Option<i64>, default: Option<i64>)
    requires
        0 <= f.index < f.fields.len(),
        f.fields[f.index].field.kind == (KindV::Integer { default, min, max }),
        parse_i64_spec(trim_seq(f.fields[f.index].input.buf)) == Some(v),
    ensures
        validate_spec(f, number) is None <==> within_bounds(v, min, max),
        !within_bounds(v, min, max) ==> validate_spec(f, number) == Some(msg_range(f.locale)),
{
    lemma_parsed_text_nonempty(trim_seq(f.fields[f.index].input.buf));
}

/// A text that reads as an integer is not empty.
proof fn lemma_parsed_text_nonempty(t: Seq<char>)
    requires
        parse_i64_spec(t) is Some,
    ensures
        t.len() > 0,
{
}

/// A typed integer answer that does not read as a whole number is never
/// accepted, unless the field is optional and left empty.
pub proof fn law_unreadable_integer_is_refused(f: FormV, number: NumberVerdict)
    requires
        0 <= f.index < f.fields.len(),
        f.fields[f.index].field.kind is Integer,
        parse_i64_spec(trim_seq(f.fields[f.index].input.buf)) is None,
        trim_seq(f.fields[f.index].input.buf).len() > 0 || f.fields[f.index].field.required,
    ensures
        validate_spec(f, number) is Some,
{
}

/// An accepted answer meets its field: a required text field is not left
/// blank; a single select has a row chosen, with its "Other" text typed
/// when that row is "Other"; a multi select has at least its minimum
/// checked (at least one when required), at most its maximum, and the
/// "Other" text typed when "Other" is checked.
pub proof fn law_accepted_answer_meets_its_field(f: FormV, number: NumberVerdict)
    requires
        validate_spec(f, number) is None,
    ensures
        0 <= f.index < f.fields.len(),
        ({
            let st = f.fields[f.index];
            let t = trim_seq(st.input.buf);
            match st.field.kind {
                KindV::Text { .. } => st.field.required ==> t.len() > 0,
                KindV::Single { options, .. } => 0 <= st.cursor < options.len() && (options[st.cursor].custom ==> t.len() > 0),
                KindV::Multi { options, min, max, .. } => {
                    &&& count_true(st.selected) >= min
                    &&& (st.field.required ==> count_true(st.selected) >= 1)
                    &&& (max matches Some(hi) ==> count_true(st.selected) <= hi)
                    &&& (custom_checked(options, st.selected) ==> t.len() > 0)
                },
                _ => true,
            }
        }),
{
}

} // verus!
