//! Plain-value key events: the key code, the modifier set and the held
//! modifiers the OS probe reports. The terminal layer converts its own
//! events into these before classification.

use vstd::prelude::*;
use crate::text::{chars_of, eq_char, split_on, split_spec, char_vec_views};

verus! {

/// A key, as the terminal reports it. Keys the client never binds
/// (media keys, lone modifier keys, lock keys) arrive as `Other`.
#[derive(Clone, Copy, Debug, PartialEq, Eq, Structural)]
pub enum KeyCode {
    Backspace,
    Enter,
    Left,
    Right,
    Up,
    Down,
    Home,
    End,
    PageUp,
    PageDown,
    Tab,
    BackTab,
    Delete,
    Insert,
    F(u8),
    Char(char),
    Null,
    Esc,
    Other,
}

/// The modifier keys reported with a key event.
#[derive(Clone, Copy, Debug, Default, PartialEq, Eq, Structural)]
pub struct KeyModifiers {
    pub shift: bool,
    pub control: bool,
    pub alt: bool,
    pub super_key: bool,
    pub hyper: bool,
    pub meta: bool,
}

impl KeyModifiers {
    /// No modifier.
    pub fn none() -> (r: Self)
        ensures
            r == no_mods(),
    {
        KeyModifiers { shift: false, control: false, alt: false, super_key: false, hyper: false, meta: false }
    }

    /// Shift alone.
    pub fn shift() -> (r: Self)
        ensures
            r == (KeyModifiers { shift: true, ..no_mods() }),
    {
        KeyModifiers { shift: true, ..KeyModifiers::none() }
    }

    /// Control alone.
    pub fn control() -> (r: Self)
        ensures
            r == (KeyModifiers { control: true, ..no_mods() }),
    {
        KeyModifiers { control: true, ..KeyModifiers::none() }
    }

    /// Alt (option) alone.
    pub fn alt() -> (r: Self)
        ensures
            r == (KeyModifiers { alt: true, ..no_mods() }),
    {
        KeyModifiers { alt: true, ..KeyModifiers::none() }
    }

    /// Super (command) alone.
    pub fn super_key() -> (r: Self)
        ensures
            r == (KeyModifiers { super_key: true, ..no_mods() }),
    {
        KeyModifiers { super_key: true, ..KeyModifiers::none() }
    }

    /// Meta alone.
    pub fn meta() -> (r: Self)
        ensures
            r == (KeyModifiers { meta: true, ..no_mods() }),
    {
        KeyModifiers { meta: true, ..KeyModifiers::none() }
    }

    /// The union of two modifier sets.
    pub fn with(self, other: Self) -> (r: Self)
        ensures
            r == union_mods(self, other),
    {
        KeyModifiers {
            shift: self.shift || other.shift,
            control: self.control || other.control,
            alt: self.alt || other.alt,
            super_key: self.super_key || other.super_key,
            hyper: self.hyper || other.hyper,
            meta: self.meta || other.meta,
        }
    }

    /// Whether no modifier is held.
    pub fn is_empty(&self) -> (b: bool)
        ensures
            b == (*self == no_mods()),
    {
        !self.shift && !self.control && !self.alt && !self.super_key && !self.hyper && !self.meta
    }
}

/// The empty modifier set.
pub open spec fn no_mods() -> KeyModifiers {
    KeyModifiers { shift: false, control: false, alt: false, super_key: false, hyper: false, meta: false }
}

/// The union of two modifier sets.
pub open spec fn union_mods(a: KeyModifiers, b: KeyModifiers) -> KeyModifiers {
    KeyModifiers {
        shift: a.shift || b.shift,
        control: a.control || b.control,
        alt: a.alt || b.alt,
        super_key: a.super_key || b.super_key,
        hyper: a.hyper || b.hyper,
        meta: a.meta || b.meta,
    }
}

/// One key press: the key and the modifiers reported with it.
#[derive(Clone, Copy, Debug, PartialEq, Eq, Structural)]
pub struct KeyEvent {
    pub code: KeyCode,
    pub modifiers: KeyModifiers,
}

impl KeyEvent {
    pub fn new(code: KeyCode, modifiers: KeyModifiers) -> (r: Self)
        ensures
            r == (KeyEvent { code, modifiers }),
    {
        KeyEvent { code, modifiers }
    }
}

/// Physically held modifier keys at one instant. All false where the OS
/// offers no probe, so rescue never fires there.
#[derive(Debug, Clone, Copy, Default, PartialEq, Eq, Structural)]
pub struct ModifierState {
    pub command: bool,
    pub option: bool,
}

/// The keys whose dropped modifiers are worth rescuing: navigation and
/// deletion.
pub open spec fn rescuable(code: KeyCode) -> bool {
    code == KeyCode::Left || code == KeyCode::Right || code == KeyCode::Up || code == KeyCode::Down
        || code == KeyCode::Home || code == KeyCode::End || code == KeyCode::Backspace
        || code == KeyCode::Delete
}

/// Upgrades `key` with the physically held modifiers when the terminal
/// sent none: a held command key adds super, else a held option key adds
/// alt. Text, Enter, Esc and keys that already carry modifiers are left
/// untouched.
pub fn rescue_with(key: KeyEvent, held: ModifierState) -> (r: KeyEvent)
    ensures
        r.code == key.code,
        (key.modifiers != no_mods() || !rescuable(key.code)) ==> r == key,
        (key.modifiers == no_mods() && rescuable(key.code)) ==> r.modifiers == (if held.command {
            KeyModifiers { super_key: true, ..no_mods() }
        } else if held.option {
            KeyModifiers { alt: true, ..no_mods() }
        } else {
            no_mods()
        }),
{
    if !key.modifiers.is_empty() {
        return key;
    }
    let rescuable = match key.code {
        KeyCode::Left | KeyCode::Right | KeyCode::Up | KeyCode::Down | KeyCode::Home
        | KeyCode::End | KeyCode::Backspace | KeyCode::Delete => true,
        _ => false,
    };
    if !rescuable {
        return key;
    }
    let mut out = key;
    if held.command {
        out.modifiers = out.modifiers.with(KeyModifiers::super_key());
    } else if held.option {
        out.modifiers = out.modifiers.with(KeyModifiers::alt());
    }
    out
}

/// Whether a key report is a press, an auto-repeat or a release.
#[derive(Clone, Copy, Debug, PartialEq, Eq, Structural)]
pub enum KeyEventKind {
    Press,
    Repeat,
    Release,
}

/// Whether `c` is an ASCII decimal digit.
pub open spec fn is_digit(c: char) -> bool {
    '0' <= c && c <= '9'
}

/// The number a string of decimal digits spells.
pub open spec fn digits_value(s: Seq<char>) -> nat
    decreases s.len(),
{
    if s.len() == 0 {
        0
    } else {
        digits_value(s.drop_last()) * 10 + (s.last() as nat - '0' as nat) as nat
    }
}

/// The digits of an unsigned number: its text without a leading `+`.
pub open spec fn unsigned_digits(s: Seq<char>) -> Seq<char> {
    if s.len() > 0 && s[0] == '+' { s.drop_first() } else { s }
}

/// Whether every character is a decimal digit.
pub open spec fn all_digits(d: Seq<char>) -> bool {
    forall|i: int| 0 <= i < d.len() ==> is_digit(#[trigger] d[i])
}

/// `str::parse::<u32>`: an optional `+` and one or more decimal digits
/// spelling a number no larger than `u32::MAX`.
pub open spec fn parse_u32_spec(s: Seq<char>) -> Option<u32> {
    let d = unsigned_digits(s);
    if d.len() > 0 && all_digits(d) && digits_value(d) <= u32::MAX {
        Some(digits_value(d) as u32)
    } else {
        None
    }
}

proof fn lemma_digits_value_grows(s: Seq<char>, k: int)
    requires
        0 <= k <= s.len(),
        all_digits(s),
    ensures
        digits_value(s.subrange(0, k)) <= digits_value(s),
    decreases s.len() - k,
{
    if k < s.len() {
        lemma_digits_value_grows(s, k + 1);
        assert(s.subrange(0, k + 1).drop_last() =~= s.subrange(0, k));
    } else {
        assert(s.subrange(0, k) =~= s);
    }
}

/// Parses a decimal `u32` the way `str::parse::<u32>` does.
pub fn parse_u32(s: &[char]) -> (r: Option<u32>)
    ensures
        r == parse_u32_spec(s@),
{
    let start: usize = if s.len() > 0 && s[0] == '+' { 1 } else { 0 };
    let ghost d = unsigned_digits(s@);
    assert(d =~= s@.subrange(start as int, s@.len() as int));
    if start >= s.len() {
        return None;
    }
    let mut acc: u64 = 0;
    let mut i: usize = start;
    while i < s.len()
        invariant
            start <= i <= s@.len(),
            d == unsigned_digits(s@),
            d.len() > 0,
            d =~= s@.subrange(start as int, s@.len() as int),
            forall|j: int| 0 <= j < i - start ==> is_digit(#[trigger] d[j]),
            acc == digits_value(d.subrange(0, i - start)),
            acc <= u32::MAX,
        decreases s@.len() - i,
    {
        let c = s[i];
        assert(d[i - start] == c);
        if !('0' <= c && c <= '9') {
            assert(!is_digit(d[i - start]));
            assert(!all_digits(d));
            return None;
        }
        let v: u64 = (c as u64) - ('0' as u64);
        let next: u64 = acc * 10 + v;
        assert(d.subrange(0, i + 1 - start).drop_last() =~= d.subrange(0, i - start));
        assert(d.subrange(0, i + 1 - start).last() == c);
        assert(digits_value(d.subrange(0, i + 1 - start)) == next);
        if next > 4294967295 {
            proof {
                if all_digits(d) {
                    lemma_digits_value_grows(d, i + 1 - start);
                    assert(digits_value(d) > u32::MAX);
                }
                assert(parse_u32_spec(s@) is None);
            }
            return None;
        }
        acc = next;
        i += 1;
    }
    assert(d.subrange(0, d.len() as int) =~= d);
    Some(acc as u32)
}

/// `char::from_u32`: the character with scalar value `i`, none for
/// surrogates and values past the Unicode range.
#[verifier::external_body]
fn char_from_u32(i: u32) -> (r: Option<char>)
    ensures
        r == (if is_scalar(i) { Some(i as char) } else { None::<char> }),
{
    char::from_u32(i)
}

/// The kind field of a CSI-u key report: absent or `1` is a press, `2` a
/// repeat, `3` a release; anything else is refused.
pub open spec fn csi_kind_spec(kind: Option<Seq<char>>) -> Option<KeyEventKind> {
    match kind {
        None => Some(KeyEventKind::Press),
        Some(k) => if k == seq!['1'] {
            Some(KeyEventKind::Press)
        } else if k == seq!['2'] {
            Some(KeyEventKind::Repeat)
        } else if k == seq!['3'] {
            Some(KeyEventKind::Release)
        } else {
            None
        },
    }
}

/// The modifier mask and kind of a CSI-u report's second field: the mask
/// is sent plus one, so a zero mask is refused.
pub open spec fn csi_modifier_field_spec(field: Seq<char>) -> Option<(u32, KeyEventKind)> {
    let parts = split_spec(field, eq_char(':'));
    match parse_u32_spec(parts[0]) {
        None => None,
        Some(mask) => {
            let kind = csi_kind_spec(if parts.len() > 1 { Some(parts[1]) } else { None });
            if mask == 0 || kind is None || parts.len() > 2 {
                None
            } else {
                Some(((mask - 1) as u32, kind.unwrap()))
            }
        },
    }
}

/// The modifiers a CSI-u mask (already less one) names, one bit each.
pub open spec fn csi_mods(mask: u32) -> KeyModifiers {
    KeyModifiers {
        shift: mask & 1 != 0,
        alt: mask & 2 != 0,
        control: mask & 4 != 0,
        super_key: mask & 8 != 0,
        hyper: mask & 16 != 0,
        meta: mask & 32 != 0,
    }
}

/// The key a code point names: escape, carriage return, tab (back-tab
/// with shift) and delete get their keys, anything else is a character.
pub open spec fn csi_code(cp: u32, mods: KeyModifiers) -> KeyCode {
    if cp == 0x1b {
        KeyCode::Esc
    } else if cp == 13 {
        KeyCode::Enter
    } else if cp == 9 {
        if mods.shift { KeyCode::BackTab } else { KeyCode::Tab }
    } else if cp == 0x7f {
        KeyCode::Backspace
    } else {
        KeyCode::Char(cp as char)
    }
}

/// Whether `cp` is a Unicode scalar value.
pub open spec fn is_scalar(cp: u32) -> bool {
    cp < 0xD800 || (0xE000 <= cp && cp <= 0x10FFFF)
}

/// The key a CSI-u report's parameters (between `ESC [` and `u`) encode:
/// the code point (alternates after `:` ignored), then optionally the
/// modifier mask plus one with an optional event kind. A third field (text
/// as code points) or anything malformed is refused.
pub open spec fn csi_key_spec(params: Seq<char>) -> Option<(KeyEvent, KeyEventKind)> {
    let fields = split_spec(params, eq_char(';'));
    match parse_u32_spec(split_spec(fields[0], eq_char(':'))[0]) {
        None => None,
        Some(cp) => {
            if fields.len() > 2 {
                None
            } else {
                let mk = if fields.len() > 1 { csi_modifier_field_spec(fields[1]) } else { Some((0u32, KeyEventKind::Press)) };
                match mk {
                    None => None,
                    Some((mask, kind)) => if is_scalar(cp) {
                        Some((KeyEvent { code: csi_code(cp, csi_mods(mask)), modifiers: csi_mods(mask) }, kind))
                    } else {
                        None
                    },
                }
            }
        },
    }
}

fn csi_modifier_field(field: &[char]) -> (r: Option<(u32, KeyEventKind)>)
    ensures
        r == csi_modifier_field_spec(field@),
{
    let parts = split_on(field, ':');
    proof {
        crate::text::lemma_split_nonempty(field@, eq_char(':'));
    }
    assert(char_vec_views(parts@)[0] == parts@[0]@);
    let mask = match parse_u32(parts[0].as_slice()) {
        Some(m) => m,
        None => return None,
    };
    if mask == 0 {
        return None;
    }
    let kind = if parts.len() < 2 {
        KeyEventKind::Press
    } else {
        assert(char_vec_views(parts@)[1] == parts@[1]@);
        let k = &parts[1];
        if k.len() == 1 && k[0] == '1' {
            assert(k@ =~= seq!['1']);
            KeyEventKind::Press
        } else if k.len() == 1 && k[0] == '2' {
            assert(k@ =~= seq!['2']);
            KeyEventKind::Repeat
        } else if k.len() == 1 && k[0] == '3' {
            assert(k@ =~= seq!['3']);
            KeyEventKind::Release
        } else {
            assert(k@ != seq!['1'] && k@ != seq!['2'] && k@ != seq!['3']) by {
                if k@.len() == 1 {
                    assert(k@ == seq![k@[0]]);
                }
            }
            return None;
        }
    };
    if parts.len() > 2 {
        return None;
    }
    Some((mask - 1, kind))
}

fn csi_key_of(params: &[char]) -> (r: Option<(KeyEvent, KeyEventKind)>)
    ensures
        r == csi_key_spec(params@),
{
    let fields = split_on(params, ';');
    proof {
        crate::text::lemma_split_nonempty(params@, eq_char(';'));
    }
    assert(char_vec_views(fields@)[0] == fields@[0]@);
    let first = split_on(fields[0].as_slice(), ':');
    proof {
        crate::text::lemma_split_nonempty(fields@[0]@, eq_char(':'));
    }
    assert(char_vec_views(first@)[0] == first@[0]@);
    let cp = match parse_u32(first[0].as_slice()) {
        Some(c) => c,
        None => return None,
    };
    if fields.len() > 2 {
        return None;
    }
    let (mask, kind) = if fields.len() > 1 {
        assert(char_vec_views(fields@)[1] == fields@[1]@);
        match csi_modifier_field(fields[1].as_slice()) {
            Some(mk) => mk,
            None => return None,
        }
    } else {
        (0u32, KeyEventKind::Press)
    };
    let modifiers = KeyModifiers {
        shift: mask & 1 != 0,
        alt: mask & 2 != 0,
        control: mask & 4 != 0,
        super_key: mask & 8 != 0,
        hyper: mask & 16 != 0,
        meta: mask & 32 != 0,
    };
    let ch = match char_from_u32(cp) {
        Some(c) => c,
        None => return None,
    };
    let code = if cp == 0x1b {
        KeyCode::Esc
    } else if cp == 13 {
        KeyCode::Enter
    } else if cp == 9 {
        if modifiers.shift { KeyCode::BackTab } else { KeyCode::Tab }
    } else if cp == 0x7f {
        KeyCode::Backspace
    } else {
        KeyCode::Char(ch)
    };
    Some((KeyEvent { code, modifiers }, kind))
}

/// Decodes the parameters of one CSI-u key report (the text between
/// `ESC [` and the final `u`).
pub fn decode_csi_u_key(params: &str) -> (r: Option<(KeyEvent, KeyEventKind)>)
    ensures
        r == csi_key_spec(params@),
{
    let cs = chars_of(params);
    csi_key_of(cs.as_slice())
}

/// The index of the first `c` in `s`.
pub open spec fn first_index_of(s: Seq<char>, c: char) -> Option<int>
    decreases s.len(),
{
    if s.len() == 0 {
        None
    } else if s[0] == c {
        Some(0)
    } else {
        match first_index_of(s.drop_first(), c) {
            Some(i) => Some(i + 1),
            None => None,
        }
    }
}

pub proof fn lemma_first_index_of(s: Seq<char>, c: char, i: int)
    requires
        0 <= i <= s.len(),
        forall|j: int| 0 <= j < i ==> s[j] != c,
    ensures
        i < s.len() && s[i] == c ==> first_index_of(s, c) == Some(i),
        i == s.len() ==> first_index_of(s, c) is None,
    decreases i,
{
    if i > 0 {
        lemma_first_index_of(s.drop_first(), c, i - 1);
    }
}

/// The keys of a run of whole CSI-u reports (`ESC [ params u`, back to
/// back), none when anything else is in the way.
pub open spec fn csi_run_spec(s: Seq<char>) -> Option<Seq<(KeyEvent, KeyEventKind)>>
    decreases s.len(),
{
    if s.len() == 0 {
        Some(Seq::empty())
    } else if s.len() < 2 || s[0] != '\u{1b}' || s[1] != '[' {
        None
    } else {
        let enc = s.subrange(2, s.len() as int);
        proof {
            lemma_first_index_bound(enc, 'u');
        }
        match first_index_of(enc, 'u') {
            None => None,
            Some(end) => match csi_key_spec(enc.subrange(0, end)) {
                None => None,
                Some(k) => match csi_run_spec(enc.subrange(end + 1, enc.len() as int)) {
                    None => None,
                    Some(ks) => Some(seq![k] + ks),
                },
            },
        }
    }
}

pub proof fn lemma_first_index_bound(s: Seq<char>, c: char)
    ensures
        first_index_of(s, c) matches Some(i) ==> 0 <= i < s.len() && s[i] == c,
    decreases s.len(),
{
    if s.len() > 0 {
        lemma_first_index_bound(s.drop_first(), c);
    }
}

/// Keys a terminal layer leaked as a bracketed paste: when the entire
/// (non-empty) text is a run of CSI-u key reports, their keys; otherwise
/// none, and the text stays an ordinary paste.
pub fn decode_leaked_csi_u_keys(text: &str) -> (r: Option<Vec<(KeyEvent, KeyEventKind)>>)
    ensures
        match r {
            Some(keys) => text@.len() > 0 && csi_run_spec(text@) == Some(keys@),
            None => text@.len() == 0 || csi_run_spec(text@) is None,
        },
{
    let cs = chars_of(text);
    if cs.len() == 0 {
        return None;
    }
    let mut keys: Vec<(KeyEvent, KeyEventKind)> = Vec::new();
    let mut pos: usize = 0;
    proof {
        assert(cs@.subrange(0, cs@.len() as int) =~= cs@);
        if let Some(ks) = csi_run_spec(cs@) {
            assert(keys@ + ks =~= ks);
        }
    }
    while pos < cs.len()
        invariant
            pos <= cs@.len(),
            cs@ == text@,
            csi_run_spec(cs@) == (match csi_run_spec(cs@.subrange(pos as int, cs@.len() as int)) {
                Some(ks) => Some(keys@ + ks),
                None => None,
            }),
        decreases cs@.len() - pos,
    {
        let ghost rest = cs@.subrange(pos as int, cs@.len() as int);
        if cs.len() - pos < 2 || cs[pos] != '\u{1b}' || cs[pos + 1] != '[' {
            return None;
        }
        let start = pos + 2;
        let ghost enc = rest.subrange(2, rest.len() as int);
        assert(enc =~= cs@.subrange(start as int, cs@.len() as int));
        let mut end = start;
        while end < cs.len() && cs[end] != 'u'
            invariant
                start <= end <= cs@.len(),
                forall|j: int| start <= j < end ==> cs@[j] != 'u',
            decreases cs@.len() - end,
        {
            end += 1;
        }
        proof {
            assert forall|j: int| 0 <= j < end - start implies enc[j] != 'u' by {
                assert(enc[j] == cs@[start + j]);
            }
            lemma_first_index_of(enc, 'u', end - start);
        }
        if end == cs.len() {
            return None;
        }
        let key = match csi_key_of(&cs[start..end]) {
            Some(k) => k,
            None => {
                assert(cs@.subrange(start as int, end as int) =~= enc.subrange(0, end - start));
                return None;
            },
        };
        assert(cs@.subrange(start as int, end as int) =~= enc.subrange(0, end - start));
        assert(enc.subrange(end - start + 1, enc.len() as int) =~= cs@.subrange(end + 1, cs@.len() as int));
        let ghost before = keys@;
        keys.push(key);
        proof {
            match csi_run_spec(cs@.subrange(end + 1, cs@.len() as int)) {
                Some(ks) => {
                    assert(before + (seq![key] + ks) =~= keys@ + ks);
                },
                None => {},
            }
        }
        pos = end + 1;
    }
    assert(cs@.subrange(pos as int, cs@.len() as int) =~= Seq::<char>::empty());
    assert(keys@ + Seq::<(KeyEvent, KeyEventKind)>::empty() =~= keys@);
    Some(keys)
}

} // verus!
