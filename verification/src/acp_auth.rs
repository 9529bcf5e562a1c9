//! ACP authentication. Supported method types are `agent`, `terminal` and
//! `env_var`; the type comes from `type` or `_meta.type`, else `agent`.
//! In-app forms submit through `authenticate` `_meta` (`api-key` /
//! `gateway`). Terminal auth is an out-of-band child process
//! (`_meta["terminal-auth"]` or `type: "terminal"`). The agent's own
//! `/login` stays the agent's slash command.

use vstd::prelude::*;
use crate::strmap::StringMap;
use crate::json::{Json, JsonNumber, as_array, as_bool, as_str, deref_opt, get, get_in, get_opt, is_object, nonempty_str, str_or_empty};
use crate::text::{opt_view, 
    chars_of, chars_slice_eq, clone_opt, contains_seq, contains_str, is_ws, join_seq, lower_seq,
    lowered, push_chars, push_joined_chars, push_str_chars, split_spec, lemma_split_nonempty,
    str_eq, string_of, token_of, trim_seq, trimmed,
};

verus! {

/// The JSON-RPC error code agents use for "authentication required".
pub const ACP_AUTH_REQUIRED_CODE: i32 = -32000;

#[derive(Debug, Clone, Copy, PartialEq, Eq, Structural)]
pub enum AuthStatus {
    Configured,
    NeedsAuth,
    NotRequired,
    Unknown,
}

/// Severity of a transcript notice raised by the auth state.
#[derive(Debug, Clone, Copy, PartialEq, Eq, Structural)]
pub enum NoticeLevel {
    Warn,
}

/// One credential a method asks for.
#[derive(Debug, Clone, PartialEq, Eq)]
pub struct AuthVar {
    pub name: String,
    pub label: Option<String>,
    pub secret: Option<bool>,
    pub optional: Option<bool>,
}

/// How to run a method's terminal login.
#[derive(Debug, Clone, PartialEq, Eq)]
pub struct TerminalAuthLaunch {
    pub label: String,
    pub command: String,
    pub args: Vec<String>,
    pub env: StringMap,
    pub cwd: Option<String>,
    pub method_id: String,
}

/// One advertised authentication method, as the client presents it.
#[derive(Debug, Clone, PartialEq, Eq)]
pub struct AuthMethodInfo {
    pub id: String,
    pub name: Option<String>,
    pub description: Option<String>,
    pub auth_type: String,
    pub form: bool,
    pub vars: Vec<AuthVar>,
    pub link: Option<String>,
    pub terminal_launch: Option<TerminalAuthLaunch>,
}

/// The client's view of the agent's authentication state.
#[derive(Debug, Clone, PartialEq, Eq)]
pub struct AuthSnapshot {
    pub status: AuthStatus,
    pub method_id: Option<String>,
    pub method_name: Option<String>,
    pub methods: Vec<AuthMethodInfo>,
    pub message: Option<String>,
}

/// Whether a required credential variable is absent from `env`.
pub open spec fn var_missing(env: Map<Seq<char>, Seq<char>>) -> spec_fn(AuthVar) -> bool {
    |v: AuthVar| v.optional != Some(true) && !env.contains_key(v.name@)
}

/// The names of a method's required variables that `env` lacks, in order.
pub open spec fn missing_env_spec(vars: Seq<AuthVar>, env: Map<Seq<char>, Seq<char>>) -> Seq<Seq<char>> {
    vars.filter(var_missing(env)).map_values(|v: AuthVar| v.name@)
}

/// The views of a list of strings.
pub open spec fn views(v: Seq<String>) -> Seq<Seq<char>> {
    v.map_values(|s: String| s@)
}

impl AuthMethodInfo {
    /// Whether the method asks for environment credentials.
    pub fn is_env_prompt(&self) -> (b: bool)
        ensures
            b == (self.auth_type@ == "env_var"@),
    {
        str_eq(self.auth_type.as_str(), "env_var")
    }

    /// The names of the required variables that `env` does not define.
    pub fn missing_env(&self, env: &StringMap) -> (r: Vec<String>)
        ensures
            views(r@) == missing_env_spec(self.vars@, env@),
    {
        let ghost pred = var_missing(env@);
        let mut out: Vec<String> = Vec::new();
        let mut i: usize = 0;
        proof {
            reveal_with_fuel(Seq::filter, 1);
            assert(self.vars@.subrange(0, 0).filter(pred) =~= Seq::<AuthVar>::empty());
            assert(views(out@) =~= Seq::<AuthVar>::empty().map_values(|v: AuthVar| v.name@));
        }
        while i < self.vars.len()
            invariant
                i <= self.vars@.len(),
                pred == var_missing(env@),
                views(out@) == self.vars@.subrange(0, i as int).filter(pred).map_values(|v: AuthVar| v.name@),
            decreases self.vars@.len() - i,
        {
            let v = &self.vars[i];
            let required = match v.optional {
                Some(b) => !b,
                None => true,
            };
            let keep = required && !env.contains_key(v.name.as_str());
            let ghost before = self.vars@.subrange(0, i as int).filter(pred);
            proof {
                reveal_with_fuel(Seq::filter, 1);
                assert(self.vars@.subrange(0, i + 1).drop_last() =~= self.vars@.subrange(0, i as int));
                assert(pred(*v) == keep);
            }
            if keep {
                let ghost old_out = out@;
                out.push(v.name.clone());
                proof {
                    assert(out@ == old_out.push(v.name));
                    assert(views(out@) =~= views(old_out).push(v.name@));
                    reveal_with_fuel(Seq::filter, 1);
                    assert(self.vars@.subrange(0, i + 1).last() == *v);
                    assert(self.vars@.subrange(0, i + 1).drop_last() =~= self.vars@.subrange(0, i as int));
                    assert(self.vars@.subrange(0, i + 1).filter(pred) == before.push(*v));
                    assert(views(out@) =~= before.push(*v).map_values(|v: AuthVar| v.name@));
                }
            } else {
                assert(self.vars@.subrange(0, i + 1).filter(pred) == before);
            }
            i += 1;
        }
        assert(self.vars@.subrange(0, self.vars@.len() as int) =~= self.vars@);
        out
    }
}

/// The first method with the given id.
pub open spec fn first_with_id(ms: Seq<AuthMethodInfo>, id: Seq<char>) -> Option<AuthMethodInfo>
    decreases ms.len(),
{
    if ms.len() == 0 {
        None
    } else if ms[0].id@ == id {
        Some(ms[0])
    } else {
        first_with_id(ms.drop_first(), id)
    }
}

/// The lines of the notice shown while sign-in is needed.
pub open spec fn notice_lines(s: AuthSnapshot) -> Seq<Seq<char>> {
    let name = match s.method_name {
        Some(n) => n@,
        None => match s.method_id {
            Some(i) => i@,
            None => "agent"@,
        },
    };
    let l0 = seq!["sign-in needed · "@ + name];
    let l1 = match s.message {
        Some(m) => if m@.len() > 0 { l0.push(m@) } else { l0 },
        None => l0,
    };
    let method = match s.method_id {
        Some(id) => first_with_id(s.methods@, id@),
        None => None,
    };
    match method {
        None => l1,
        Some(m) => {
            let l2 = match m.description {
                Some(d) => if s.message is None { l1.push(d@) } else { l1 },
                None => l1,
            };
            let l3 = l2.push(
                if m.form {
                    "  /auth <api-key>  submits through ACP authenticate (dsh-tui does not keep it)"@
                } else if m.terminal_launch is Some {
                    "  /auth  runs the agent's terminal login, then ACP authenticate"@
                } else {
                    "  /auth  retries ACP authenticate after out-of-band login"@
                },
            );
            match m.link {
                Some(link) => l3.push("  credential source · "@ + link@),
                None => l3,
            }
        },
    }
}

/// The message shown when the agent reports no supported method.
pub open spec fn no_method_message() -> Seq<char> {
    "no supported ACP auth method is available"@
}

/// The text of the warning an unknown or needs-sign-in state raises: an
/// unknown state's message (or that no method is available), else the
/// sign-in notice's lines.
pub open spec fn auth_notice_text(s: AuthSnapshot) -> Seq<char> {
    if s.status == AuthStatus::Unknown {
        match s.message {
            Some(m) => m@,
            None => no_method_message(),
        }
    } else {
        join_seq(notice_lines(s), "\n"@)
    }
}

impl AuthSnapshot {
    /// The state before any method was advertised.
    pub fn none() -> (r: Self)
        ensures
            r.status == AuthStatus::NotRequired,
            r.method_id is None,
            r.method_name is None,
            r.methods@.len() == 0,
            r.message is None,
    {
        AuthSnapshot {
            status: AuthStatus::NotRequired,
            method_id: None,
            method_name: None,
            methods: Vec::new(),
            message: None,
        }
    }

    /// The notice this state raises in the transcript: nothing when
    /// configured or when there is nothing to do, a warning otherwise.
    pub fn notice(&self) -> (r: Option<(NoticeLevel, String)>)
        ensures
            (self.status == AuthStatus::Configured || self.status == AuthStatus::NotRequired) ==> r is None,
            self.status == AuthStatus::Unknown ==> (r matches Some((l, t)) && l == NoticeLevel::Warn
                && t@ == (match self.message {
                    Some(m) => m@,
                    None => no_method_message(),
                })),
            self.status == AuthStatus::NeedsAuth ==> (r matches Some((l, t)) && l == NoticeLevel::Warn
                && t@ == join_seq(notice_lines(*self), "\n"@)),
    {
        match self.status {
            AuthStatus::Configured | AuthStatus::NotRequired => None,
            AuthStatus::Unknown => {
                let text = match &self.message {
                    Some(m) => m.clone(),
                    None => string_of(chars_of("no supported ACP auth method is available").as_slice()),
                };
                Some((NoticeLevel::Warn, text))
            },
            AuthStatus::NeedsAuth => Some((NoticeLevel::Warn, needs_auth_notice(self))),
        }
    }
}

fn find_method<'a>(methods: &'a [AuthMethodInfo], id: &str) -> (r: Option<&'a AuthMethodInfo>)
    ensures
        match r {
            Some(m) => first_with_id(methods@, id@) == Some(*m),
            None => first_with_id(methods@, id@) is None,
        },
{
    let mut i: usize = 0;
    assert(methods@.subrange(0, methods@.len() as int) =~= methods@);
    while i < methods.len()
        invariant
            i <= methods@.len(),
            first_with_id(methods@, id@) == first_with_id(methods@.subrange(i as int, methods@.len() as int), id@),
        decreases methods@.len() - i,
    {
        if str_eq(methods[i].id.as_str(), id) {
            return Some(&methods[i]);
        }
        assert(methods@.subrange(i + 1, methods@.len() as int)
            =~= methods@.subrange(i as int, methods@.len() as int).drop_first());
        i += 1;
    }
    None
}

/// The notice text while sign-in is needed: who to sign in to, the
/// agent's message or the method's description, and how `/auth` proceeds.
fn needs_auth_notice(snapshot: &AuthSnapshot) -> (r: String)
    ensures
        r@ == join_seq(notice_lines(*snapshot), "\n"@),
{
    let mut lines: Vec<Vec<char>> = Vec::new();
    let mut first = chars_of("sign-in needed · ");
    match &snapshot.method_name {
        Some(n) => push_str_chars(&mut first, n.as_str()),
        None => match &snapshot.method_id {
            Some(i) => push_str_chars(&mut first, i.as_str()),
            None => push_str_chars(&mut first, "agent"),
        },
    }
    lines.push(first);
    if let Some(message) = &snapshot.message {
        if message.as_str().unicode_len() > 0 {
            lines.push(chars_of(message.as_str()));
        }
    }
    let method = match &snapshot.method_id {
        Some(id) => find_method(snapshot.methods.as_slice(), id.as_str()),
        None => None,
    };
    if let Some(method) = method {
        if let Some(desc) = &method.description {
            if snapshot.message.is_none() {
                lines.push(chars_of(desc.as_str()));
            }
        }
        if method.form {
            lines.push(chars_of("  /auth <api-key>  submits through ACP authenticate (dsh-tui does not keep it)"));
        } else if method.terminal_launch.is_some() {
            lines.push(chars_of("  /auth  runs the agent's terminal login, then ACP authenticate"));
        } else {
            lines.push(chars_of("  /auth  retries ACP authenticate after out-of-band login"));
        }
        if let Some(link) = &method.link {
            let mut l = chars_of("  credential source · ");
            push_str_chars(&mut l, link.as_str());
            lines.push(l);
        }
    }
    proof {
        assert(lines@.map_values(|p: Vec<char>| p@) =~= notice_lines(*snapshot));
    }
    let mut out: Vec<char> = Vec::new();
    push_joined_chars(&mut out, &lines, "\n");
    assert(out@ =~= join_seq(notice_lines(*snapshot), "\n"@));
    string_of(out.as_slice())
}

/// Picks the method an id names, or the first method when no id is given.
pub fn select_auth_method<'a>(methods: &'a [AuthMethodInfo], method_id: Option<&str>) -> (r: Option<&'a AuthMethodInfo>)
    ensures
        match method_id {
            Some(id) if id@.len() > 0 => match r {
                Some(m) => first_with_id(methods@, id@) == Some(*m),
                None => first_with_id(methods@, id@) is None,
            },
            _ => match r {
                Some(m) => methods@.len() > 0 && *m == methods@[0],
                None => methods@.len() == 0,
            },
        },
{
    match method_id {
        Some(id) => {
            if id.unicode_len() > 0 {
                return find_method(methods, id);
            }
        },
        None => {},
    }
    if methods.len() > 0 {
        Some(&methods[0])
    } else {
        None
    }
}

/// A snapshot that asks the user to sign in with `method`.
pub fn needs_auth_snapshot(methods: Vec<AuthMethodInfo>, method: Option<&AuthMethodInfo>, message: Option<String>) -> (r: AuthSnapshot)
    ensures
        r.status == AuthStatus::NeedsAuth,
        r.methods == methods,
        r.message == message,
        match method {
            Some(m) => r.method_id == Some(m.id) && r.method_name == m.name,
            None => r.method_id is None && r.method_name is None,
        },
{
    let (method_id, method_name) = match method {
        Some(m) => (Some(m.id.clone()), clone_opt(&m.name)),
        None => (None, None),
    };
    AuthSnapshot { status: AuthStatus::NeedsAuth, method_id, method_name, methods, message }
}

/// A snapshot recording that `method` is configured.
pub fn configured_snapshot(methods: Vec<AuthMethodInfo>, method: Option<&AuthMethodInfo>) -> (r: AuthSnapshot)
    ensures
        r.status == AuthStatus::Configured,
        r.methods == methods,
        r.message is None,
        match method {
            Some(m) => r.method_id == Some(m.id) && r.method_name == m.name,
            None => r.method_id is None && r.method_name is None,
        },
{
    let (method_id, method_name) = match method {
        Some(m) => (Some(m.id.clone()), clone_opt(&m.name)),
        None => (None, None),
    };
    AuthSnapshot { status: AuthStatus::Configured, method_id, method_name, methods, message: None }
}

/// Whether the method declares a variable named `name`.
pub open spec fn has_var(vars: Seq<AuthVar>, name: Seq<char>) -> bool {
    exists|i: int| 0 <= i < vars.len() && #[trigger] vars[i].name@ == name
}

/// Index of the first whitespace character of `s` (its length if none).
pub open spec fn first_ws(s: Seq<char>) -> int
    decreases s.len(),
{
    if s.len() == 0 {
        0
    } else if is_ws(s[0]) {
        0
    } else {
        1 + first_ws(s.drop_first())
    }
}

/// The credential values a `/auth <arg>` line supplies: for a gateway
/// form (which declares `baseUrl`) the first word is the base URL and the
/// rest the API key; otherwise the whole argument is the API key.
pub open spec fn auth_arg_values(vars: Seq<AuthVar>, arg: Seq<char>) -> Map<Seq<char>, Seq<char>> {
    let t = trim_seq(arg);
    if t.len() == 0 {
        Map::empty()
    } else if has_var(vars, "baseUrl"@) {
        let k = first_ws(t);
        let m = Map::<Seq<char>, Seq<char>>::empty().insert("baseUrl"@, t.subrange(0, k));
        if k < t.len() {
            let key = trim_seq(t.subrange(k + 1, t.len() as int));
            if key.len() > 0 { m.insert("api-key"@, key) } else { m }
        } else {
            m
        }
    } else {
        Map::<Seq<char>, Seq<char>>::empty().insert("api-key"@, t)
    }
}

fn declares_var(vars: &Vec<AuthVar>, name: &str) -> (r: bool)
    ensures
        r == has_var(vars@, name@),
{
    let mut i: usize = 0;
    while i < vars.len()
        invariant
            i <= vars@.len(),
            forall|j: int| 0 <= j < i ==> vars@[j].name@ != name@,
        decreases vars@.len() - i,
    {
        if str_eq(vars[i].name.as_str(), name) {
            return true;
        }
        i += 1;
    }
    false
}

/// The credential values that `/auth <arg>` submits for `method`.
pub fn values_from_auth_arg(method: &AuthMethodInfo, arg: &str) -> (r: StringMap)
    ensures
        r@ == auth_arg_values(method.vars@, arg@),
{
    let mut values = StringMap::new();
    let cs = chars_of(arg);
    let t = trimmed(cs.as_slice());
    if t.len() == 0 {
        return values;
    }
    if declares_var(&method.vars, "baseUrl") {
        let mut k: usize = 0;
        assert(t@.subrange(0, t@.len() as int) =~= t@);
        while k < t.len() && !crate::text::is_whitespace(t[k])
            invariant
                k <= t@.len(),
                first_ws(t@) == k + first_ws(t@.subrange(k as int, t@.len() as int)),
            decreases t@.len() - k,
        {
            assert(t@.subrange(k + 1, t@.len() as int) =~= t@.subrange(k as int, t@.len() as int).drop_first());
            k += 1;
        }
        proof {
            if k < t@.len() {
                assert(t@.subrange(k as int, t@.len() as int)[0] == t@[k as int]);
            }
        }
        let url = crate::text::splice(&t, k, t.len(), &[]);
        assert(url@ =~= t@.subrange(0, k as int));
        values.insert(string_of(chars_of("baseUrl").as_slice()), string_of(url.as_slice()));
        if k < t.len() {
            let rest = crate::text::splice(&t, 0, k + 1, &[]);
            assert(rest@ =~= t@.subrange(k + 1, t@.len() as int));
            let key = trimmed(rest.as_slice());
            if key.len() > 0 {
                values.insert(string_of(chars_of("api-key").as_slice()), string_of(key.as_slice()));
            }
        }
        return values;
    }
    values.insert(string_of(chars_of("api-key").as_slice()), string_of(t.as_slice()));
    values
}

/// Whether an agent error message means the credentials are missing or
/// wrong.
pub open spec fn auth_failure_spec(message: Seq<char>) -> bool {
    let l = lower_seq(message);
    contains_seq(l, "authentication required"@) || contains_seq(l, "authentication fails"@)
        || contains_seq(l, "invalid api key"@)
        || (contains_seq(l, "api key"@) && contains_seq(l, "invalid"@))
}

/// Whether an agent error message means the credentials are missing or
/// wrong (matched ASCII-case-insensitively).
pub fn is_auth_failure_message(message: &str) -> (b: bool)
    ensures
        b == auth_failure_spec(message@),
{
    let cs = chars_of(message);
    let lower = lowered(cs.as_slice());
    let l = lower.as_slice();
    contains_str(l, "authentication required") || contains_str(l, "authentication fails")
        || contains_str(l, "invalid api key") || (contains_str(l, "api key") && contains_str(l, "invalid"))
}

/// The method types the client can drive.
pub open spec fn supported_type(ty: Seq<char>) -> bool {
    ty == "agent"@ || ty == "terminal"@ || ty == "env_var"@
}

fn is_supported_type(ty: &str) -> (b: bool)
    ensures
        b == supported_type(ty@),
{
    str_eq(ty, "agent") || str_eq(ty, "terminal") || str_eq(ty, "env_var")
}

/// Characters that can appear in an environment variable name.
pub open spec fn is_name_char(c: char) -> bool {
    ('a' <= c && c <= 'z') || ('A' <= c && c <= 'Z') || ('0' <= c && c <= '9') || c == '_'
}

/// Separators between candidate variable names in free text.
pub open spec fn name_separator() -> spec_fn(char) -> bool {
    |c: char| !is_name_char(c)
}

/// Whether a word looks like an environment variable name: at least three
/// characters, an underscore, only upper-case letters, digits and
/// underscores, starting with a letter.
pub open spec fn is_shouty(w: Seq<char>) -> bool {
    &&& w.len() >= 3
    &&& w.contains('_')
    &&& forall|i: int| 0 <= i < w.len() ==> (('A' <= #[trigger] w[i] && w[i] <= 'Z') || ('0' <= w[i] && w[i] <= '9') || w[i] == '_')
    &&& 'A' <= w[0] && w[0] <= 'Z'
}

/// The shouty words in order of first appearance, each once.
pub open spec fn shouty_fold(ws: Seq<Seq<char>>) -> Seq<Seq<char>>
    decreases ws.len(),
{
    if ws.len() == 0 {
        Seq::empty()
    } else {
        let prev = shouty_fold(ws.drop_last());
        let w = ws.last();
        if is_shouty(w) && !prev.contains(w) { prev.push(w) } else { prev }
    }
}

fn check_shouty(w: &Vec<char>) -> (b: bool)
    ensures
        b == is_shouty(w@),
{
    if w.len() < 3 {
        return false;
    }
    let mut has_underscore = false;
    let mut i: usize = 0;
    while i < w.len()
        invariant
            i <= w@.len(),
            has_underscore == exists|j: int| 0 <= j < i && w@[j] == '_',
            forall|j: int| 0 <= j < i ==> (('A' <= #[trigger] w@[j] && w@[j] <= 'Z') || ('0' <= w@[j] && w@[j] <= '9') || w@[j] == '_'),
        decreases w@.len() - i,
    {
        let c = w[i];
        if !(('A' <= c && c <= 'Z') || ('0' <= c && c <= '9') || c == '_') {
            return false;
        }
        if c == '_' {
            has_underscore = true;
        }
        i += 1;
    }
    proof {
        if has_underscore {
            let j = choose|j: int| 0 <= j < i && w@[j] == '_';
            assert(w@.contains('_'));
        } else {
            assert(!w@.contains('_'));
        }
    }
    has_underscore && 'A' <= w[0] && w[0] <= 'Z'
}

fn contains_word(names: &Vec<Vec<char>>, w: &Vec<char>) -> (b: bool)
    ensures
        b == names@.map_values(|n: Vec<char>| n@).contains(w@),
{
    let ghost nv = names@.map_values(|n: Vec<char>| n@);
    let mut i: usize = 0;
    while i < names.len()
        invariant
            i <= names@.len(),
            nv == names@.map_values(|n: Vec<char>| n@),
            forall|j: int| 0 <= j < i ==> nv[j] != w@,
        decreases names@.len() - i,
    {
        if chars_slice_eq(names[i].as_slice(), w.as_slice()) {
            assert(nv[i as int] == w@);
            return true;
        }
        i += 1;
    }
    false
}

/// Candidate environment variable names mentioned in a description.
fn shouty_env_names(text: &str) -> (r: Vec<String>)
    ensures
        views(r@) == shouty_fold(split_spec(text@, name_separator())),
{
    let cs = chars_of(text);
    let ghost sep = name_separator();
    let mut names: Vec<Vec<char>> = Vec::new();
    let mut cur: Vec<char> = Vec::new();
    let mut i: usize = 0;
    proof {
        assert(cs@.subrange(0, 0) =~= Seq::<char>::empty());
        assert(split_spec(Seq::<char>::empty(), sep) =~= seq![Seq::<char>::empty()]);
        assert(seq![Seq::<char>::empty()].drop_last() =~= Seq::<Seq<char>>::empty());
        assert(names@.map_values(|n: Vec<char>| n@) =~= Seq::<Seq<char>>::empty());
    }
    while i < cs.len()
        invariant
            i <= cs@.len(),
            cs@ == text@,
            sep == name_separator(),
            split_spec(cs@.subrange(0, i as int), sep).len() >= 1,
            split_spec(cs@.subrange(0, i as int), sep).last() == cur@,
            names@.map_values(|n: Vec<char>| n@) == shouty_fold(split_spec(cs@.subrange(0, i as int), sep).drop_last()),
        decreases cs@.len() - i,
    {
        let c = cs[i];
        let ghost ws = split_spec(cs@.subrange(0, i as int), sep);
        proof {
            assert(cs@.subrange(0, i + 1).drop_last() =~= cs@.subrange(0, i as int));
            assert(cs@.subrange(0, i + 1).last() == c);
        }
        let word = ('a' <= c && c <= 'z') || ('A' <= c && c <= 'Z') || ('0' <= c && c <= '9') || c == '_';
        if !word {
            let take = check_shouty(&cur) && !contains_word(&names, &cur);
            let ghost nv0 = names@.map_values(|n: Vec<char>| n@);
            if take {
                names.push(cur);
                assert(names@.map_values(|n: Vec<char>| n@) =~= nv0.push(ws.last()));
            }
            cur = Vec::new();
            proof {
                let ws2 = split_spec(cs@.subrange(0, i + 1), sep);
                assert(ws2 == ws.push(Seq::empty()));
                assert(ws2.drop_last() == ws);
                assert(ws.drop_last().push(ws.last()) =~= ws);
            }
        } else {
            cur.push(c);
            proof {
                let ws2 = split_spec(cs@.subrange(0, i + 1), sep);
                assert(ws2 == ws.update(ws.len() - 1, ws.last().push(c)));
                assert(ws2.drop_last() =~= ws.drop_last());
            }
        }
        i += 1;
    }
    let ghost ws = split_spec(cs@.subrange(0, i as int), sep);
    assert(cs@.subrange(0, i as int) =~= cs@);
    let take = check_shouty(&cur) && !contains_word(&names, &cur);
    let ghost nv0 = names@.map_values(|n: Vec<char>| n@);
    if take {
        names.push(cur);
        assert(names@.map_values(|n: Vec<char>| n@) =~= nv0.push(ws.last()));
    }
    proof {
        assert(ws.drop_last().push(ws.last()) =~= ws);
    }
    let mut out: Vec<String> = Vec::new();
    let mut k: usize = 0;
    assert(views(out@) =~= names@.map_values(|n: Vec<char>| n@).subrange(0, 0));
    while k < names.len()
        invariant
            k <= names@.len(),
            views(out@) == names@.map_values(|n: Vec<char>| n@).subrange(0, k as int),
        decreases names@.len() - k,
    {
        let ghost o = out@;
        let s = string_of(names[k].as_slice());
        out.push(s);
        assert(views(out@) =~= views(o).push(names@[k as int]@));
        k += 1;
        assert(views(out@) =~= names@.map_values(|n: Vec<char>| n@).subrange(0, k as int));
    }
    assert(names@.map_values(|n: Vec<char>| n@).subrange(0, k as int) =~= names@.map_values(|n: Vec<char>| n@));
    out
}

/// Name parts that mark a variable as a secret.
pub open spec fn is_secret_part(p: Seq<char>) -> bool {
    p == "KEY"@ || p == "TOKEN"@ || p == "SECRET"@ || p == "PASSWORD"@ || p == "CREDENTIAL"@
}

/// Underscore separators.
pub open spec fn underscore() -> spec_fn(char) -> bool {
    |c: char| c == '_'
}

/// Whether a variable name holds a secret: one of its underscore-separated
/// parts is KEY, TOKEN, SECRET, PASSWORD or CREDENTIAL.
pub open spec fn secret_name_spec(name: Seq<char>) -> bool {
    exists|i: int| 0 <= i < split_spec(name, underscore()).len() && is_secret_part(#[trigger] split_spec(name, underscore())[i])
}

fn check_secret_part(p: &Vec<char>) -> (b: bool)
    ensures
        b == is_secret_part(p@),
{
    let s = p.as_slice();
    crate::text::chars_eq(s, "KEY") || crate::text::chars_eq(s, "TOKEN") || crate::text::chars_eq(s, "SECRET")
        || crate::text::chars_eq(s, "PASSWORD") || crate::text::chars_eq(s, "CREDENTIAL")
}

fn secret_env_name(name: &str) -> (b: bool)
    ensures
        b == secret_name_spec(name@),
{
    let cs = chars_of(name);
    let ghost sep = underscore();
    let mut cur: Vec<char> = Vec::new();
    let mut found = false;
    let mut i: usize = 0;
    proof {
        assert(cs@.subrange(0, 0) =~= Seq::<char>::empty());
        assert(split_spec(Seq::<char>::empty(), sep) =~= seq![Seq::<char>::empty()]);
    }
    while i < cs.len()
        invariant
            i <= cs@.len(),
            cs@ == name@,
            sep == underscore(),
            split_spec(cs@.subrange(0, i as int), sep).len() >= 1,
            split_spec(cs@.subrange(0, i as int), sep).last() == cur@,
            found == exists|j: int| 0 <= j < split_spec(cs@.subrange(0, i as int), sep).len() - 1
                && is_secret_part(#[trigger] split_spec(cs@.subrange(0, i as int), sep)[j]),
        decreases cs@.len() - i,
    {
        let c = cs[i];
        let ghost ws = split_spec(cs@.subrange(0, i as int), sep);
        proof {
            assert(cs@.subrange(0, i + 1).drop_last() =~= cs@.subrange(0, i as int));
            assert(cs@.subrange(0, i + 1).last() == c);
        }
        if c == '_' {
            let hit = check_secret_part(&cur);
            let ghost f0 = found;
            found = found || hit;
            cur = Vec::new();
            proof {
                let ws2 = split_spec(cs@.subrange(0, i + 1), sep);
                assert(ws2 == ws.push(Seq::empty()));
                assert forall|j: int| 0 <= j < ws2.len() - 1 implies #[trigger] ws2[j] == ws[j] by {}
                if hit {
                    assert(is_secret_part(ws2[ws.len() - 1]));
                }
                if found {
                    if !hit {
                        let j = choose|j: int| 0 <= j < ws.len() - 1 && is_secret_part(#[trigger] ws[j]);
                        assert(ws2[j] == ws[j]);
                    }
                } else {
                    assert forall|j: int| 0 <= j < ws2.len() - 1 implies !is_secret_part(#[trigger] ws2[j]) by {
                        assert(ws2[j] == ws[j]);
                    }
                }
            }
        } else {
            cur.push(c);
            proof {
                let ws2 = split_spec(cs@.subrange(0, i + 1), sep);
                assert(ws2 == ws.update(ws.len() - 1, ws.last().push(c)));
                assert forall|j: int| 0 <= j < ws2.len() - 1 implies #[trigger] ws2[j] == ws[j] by {}
                if found {
                    let j = choose|j: int| 0 <= j < ws.len() - 1 && is_secret_part(#[trigger] ws[j]);
                    assert(ws2[j] == ws[j]);
                }
            }
        }
        i += 1;
    }
    let ghost ws = split_spec(cs@.subrange(0, i as int), sep);
    assert(cs@.subrange(0, i as int) =~= cs@);
    let hit = check_secret_part(&cur);
    proof {
        if hit {
            assert(is_secret_part(ws[ws.len() - 1]));
        }
        if found {
            let j = choose|j: int| 0 <= j < ws.len() - 1 && is_secret_part(#[trigger] ws[j]);
            assert(is_secret_part(ws[j]));
        }
        if !found && !hit {
            assert forall|j: int| 0 <= j < ws.len() implies !is_secret_part(#[trigger] ws[j]) by {
                if j < ws.len() - 1 {
                } else {
                    assert(ws[j] == cur@);
                }
            }
        }
    }
    found || hit
}

#[verifier::ext_equal]
pub struct AuthVarView {
    pub name: Seq<char>,
    pub label: Option<Seq<char>>,
    pub secret: Option<bool>,
    pub optional: Option<bool>,
}

impl View for AuthVar {
    type V = AuthVarView;

    open spec fn view(&self) -> AuthVarView {
        AuthVarView { name: self.name@, label: opt_view(self.label), secret: self.secret, optional: self.optional }
    }
}

#[verifier::ext_equal]
pub struct LaunchView {
    pub label: Seq<char>,
    pub command: Seq<char>,
    pub args: Seq<Seq<char>>,
    pub env: Map<Seq<char>, Seq<char>>,
    pub cwd: Option<Seq<char>>,
    pub method_id: Seq<char>,
}

impl View for TerminalAuthLaunch {
    type V = LaunchView;

    open spec fn view(&self) -> LaunchView {
        LaunchView {
            label: self.label@,
            command: self.command@,
            args: views(self.args@),
            env: self.env@,
            cwd: opt_view(self.cwd),
            method_id: self.method_id@,
        }
    }
}

#[verifier::ext_equal]
pub struct MethodView {
    pub id: Seq<char>,
    pub name: Option<Seq<char>>,
    pub description: Option<Seq<char>>,
    pub auth_type: Seq<char>,
    pub form: bool,
    pub vars: Seq<AuthVarView>,
    pub link: Option<Seq<char>>,
    pub terminal_launch: Option<LaunchView>,
}

impl View for AuthMethodInfo {
    type V = MethodView;

    open spec fn view(&self) -> MethodView {
        MethodView {
            id: self.id@,
            name: opt_view(self.name),
            description: opt_view(self.description),
            auth_type: self.auth_type@,
            form: self.form,
            vars: self.vars@.map_values(|v: AuthVar| v@),
            link: opt_view(self.link),
            terminal_launch: match self.terminal_launch {
                Some(l) => Some(l@),
                None => None,
            },
        }
    }
}

/// A method's `_meta` object (or legacy `meta`).
pub open spec fn meta_of(m: Json) -> Option<Json> {
    let a = get(m, "_meta"@);
    let b = if a is Some { a } else { get(m, "meta"@) };
    if is_object(b) { b } else { None }
}

/// A method's type: `type`, else `_meta.type`, else `agent`.
pub open spec fn type_of(m: Json) -> Seq<char> {
    match nonempty_str(get(m, "type"@)) {
        Some(t) => t,
        None => match nonempty_str(get_opt(meta_of(m), "type"@)) {
            Some(t) => t,
            None => "agent"@,
        },
    }
}

/// The strings of an array, skipping other elements.
pub open spec fn strings_in(a: Seq<Json>) -> Seq<Seq<char>>
    decreases a.len(),
{
    if a.len() == 0 {
        Seq::empty()
    } else {
        let p = strings_in(a.drop_last());
        match a.last() {
            Json::String(s) => p.push(s@),
            _ => p,
        }
    }
}

/// The strings of an optional array value.
pub open spec fn string_array_spec(v: Option<Json>) -> Seq<Seq<char>> {
    match as_array(v) {
        Some(a) => strings_in(a),
        None => Seq::empty(),
    }
}

/// `m` with the string members of `es` stored over it, in order.
pub open spec fn record_over(m: Map<Seq<char>, Seq<char>>, es: Seq<(String, Json)>) -> Map<Seq<char>, Seq<char>>
    decreases es.len(),
{
    if es.len() == 0 {
        m
    } else {
        let p = record_over(m, es.drop_last());
        match es.last().1 {
            Json::String(s) => p.insert(es.last().0@, s@),
            _ => p,
        }
    }
}

/// `m` with the string members of an optional object stored over it.
pub open spec fn record_onto(m: Map<Seq<char>, Seq<char>>, v: Option<Json>) -> Map<Seq<char>, Seq<char>> {
    match v {
        Some(Json::Object(es)) => record_over(m, es@),
        _ => m,
    }
}

/// The `_meta["terminal-auth"]` object.
pub open spec fn terminal_block(m: Json) -> Option<Json> {
    let b = get_opt(meta_of(m), "terminal-auth"@);
    if is_object(b) { b } else { None }
}

/// The variables an `env_var` method declares under `vars`.
pub open spec fn parsed_vars(items: Seq<Json>) -> Seq<AuthVarView>
    decreases items.len(),
{
    if items.len() == 0 {
        Seq::empty()
    } else {
        let p = parsed_vars(items.drop_last());
        let item = items.last();
        match nonempty_str(get(item, "name"@)) {
            Some(name) => p.push(AuthVarView {
                name,
                label: nonempty_str(get(item, "label"@)),
                secret: as_bool(get(item, "secret"@)),
                optional: as_bool(get(item, "optional"@)),
            }),
            None => p,
        }
    }
}

/// Variables inferred from a description that mentions environment
/// variables: each shouty name, secret when its name says so.
pub open spec fn inferred_vars(m: Json) -> Seq<AuthVarView> {
    match nonempty_str(get(m, "description"@)) {
        None => Seq::empty(),
        Some(d) => {
            let l = lower_seq(d);
            if contains_seq(l, "environment variable"@) || contains_seq(l, "env var"@) || contains_seq(l, "environment var"@) {
                shouty_fold(split_spec(d, name_separator())).map_values(|n: Seq<char>|
                    AuthVarView { name: n, label: None, secret: Some(secret_name_spec(n)), optional: None })
            } else {
                Seq::empty()
            }
        },
    }
}

/// The credential variables a method asks for.
pub open spec fn credential_vars_spec(m: Json) -> Seq<AuthVarView> {
    if type_of(m) == "env_var"@ && as_array(get(m, "vars"@)) is Some
        && parsed_vars(as_array(get(m, "vars"@)).unwrap()).len() > 0 {
        parsed_vars(as_array(get(m, "vars"@)).unwrap())
    } else {
        inferred_vars(m)
    }
}

/// Whether the method is really an environment-credential prompt.
pub open spec fn is_credential_prompt_spec(m: Json) -> bool {
    type_of(m) == "env_var"@ || (type_of(m) == "terminal"@ && inferred_vars(m).len() > 0)
}

/// The terminal login a method describes, before its method id is set.
pub open spec fn terminal_from_spec(m: Json, argv: Seq<Seq<char>>, cwd: Seq<char>, env: Map<Seq<char>, Seq<char>>) -> Option<LaunchView> {
    let label = match nonempty_str(get(m, "name"@)) { Some(n) => n, None => "Login"@ };
    let agent_command = if argv.len() > 0 { argv[0] } else { "dsh-acp"@ };
    match terminal_block(m) {
        Some(block) => {
            let cmd = nonempty_str(get(block, "command"@));
            let args0 = string_array_spec(get(block, "args"@));
            Some(LaunchView {
                label: match nonempty_str(get(block, "label"@)) { Some(l) => l, None => label },
                command: match cmd { Some(c) => c, None => agent_command },
                args: if cmd is None && argv.len() > 1 { argv.subrange(1, argv.len() as int) + args0 } else { args0 },
                env: record_onto(env, get(block, "env"@)),
                cwd: Some(cwd),
                method_id: Seq::empty(),
            })
        },
        None => if type_of(m) != "terminal"@ {
            None
        } else {
            let meta = meta_of(m);
            let meta_args = string_array_spec(get_opt(meta, "args"@));
            Some(LaunchView {
                label,
                command: match nonempty_str(get_opt(meta, "command"@)) { Some(c) => c, None => agent_command },
                args: if meta_args.len() > 0 { meta_args } else { string_array_spec(get(m, "args"@)) },
                env: record_onto(record_onto(env, get(m, "env"@)), get_opt(meta, "env"@)),
                cwd: Some(cwd),
                method_id: Seq::empty(),
            })
        },
    }
}

pub open spec fn var_view(name: Seq<char>, label: Seq<char>, secret: Option<bool>, optional: Option<bool>) -> AuthVarView {
    AuthVarView { name, label: Some(label), secret, optional }
}

/// How the client presents one advertised method.
pub open spec fn public_method_spec(m: Json, argv: Seq<Seq<char>>, cwd: Seq<char>, env: Map<Seq<char>, Seq<char>>) -> MethodView {
    let id = str_or_empty(get(m, "id"@));
    let meta = meta_of(m);
    let api_key = is_object(get_opt(meta, "api-key"@));
    let gateway = is_object(get_opt(meta, "gateway"@));
    let vars0 = if gateway {
        seq![
            var_view("baseUrl"@, "Base URL"@, None, None),
            var_view("api-key"@, "API key"@, Some(true), None),
            var_view("providerName"@, "Provider"@, None, Some(true)),
        ]
    } else if api_key {
        seq![var_view("api-key"@, "API key"@, Some(true), None)]
    } else {
        credential_vars_spec(m)
    };
    let prompt = is_credential_prompt_spec(m);
    let auth_type = if prompt { "env_var"@ } else { type_of(m) };
    let vars = if prompt && vars0.len() == 0 { credential_vars_spec(m) } else { vars0 };
    let launch = if auth_type == "terminal"@ || terminal_block(m) is Some {
        terminal_from_spec(m, argv, cwd, env)
    } else {
        None
    };
    MethodView {
        id,
        name: nonempty_str(get(m, "name"@)),
        description: nonempty_str(get(m, "description"@)),
        auth_type,
        form: api_key || gateway,
        vars,
        link: nonempty_str(get(m, "link"@)),
        terminal_launch: match launch {
            Some(l) => Some(LaunchView { method_id: id, ..l }),
            None => None,
        },
    }
}

fn nonempty_text(v: Option<&Json>) -> (r: Option<String>)
    ensures
        opt_view(r) == nonempty_str(deref_opt(v)),
{
    match v {
        Some(Json::String(s)) => {
            if s.as_str().unicode_len() > 0 {
                Some(s.clone())
            } else {
                None
            }
        },
        _ => None,
    }
}

fn auth_method_meta(method: &Json) -> (r: Option<&Json>)
    ensures
        deref_opt(r) == meta_of(*method),
{
    let a = method.get("_meta");
    let b = if a.is_some() { a } else { method.get("meta") };
    match b {
        Some(j) => if j.is_object() { Some(j) } else { None },
        None => None,
    }
}

fn auth_method_type(method: &Json) -> (r: String)
    ensures
        r@ == type_of(*method),
{
    if let Some(t) = nonempty_text(method.get("type")) {
        return t;
    }
    if let Some(t) = nonempty_text(get_in(auth_method_meta(method), "type")) {
        return t;
    }
    string_of(chars_of("agent").as_slice())
}

fn string_array(value: Option<&Json>) -> (r: Vec<String>)
    ensures
        views(r@) == string_array_spec(deref_opt(value)),
{
    let mut out: Vec<String> = Vec::new();
    if let Some(Json::Array(a)) = value {
        let mut i: usize = 0;
        while i < a.len()
            invariant
                i <= a@.len(),
                views(out@) == strings_in(a@.subrange(0, i as int)),
            decreases a@.len() - i,
        {
            let ghost o = out@;
            assert(a@.subrange(0, i + 1).drop_last() =~= a@.subrange(0, i as int));
            if let Json::String(s) = &a[i] {
                out.push(s.clone());
                assert(views(out@) =~= views(o).push(s@));
            }
            i += 1;
        }
        assert(a@.subrange(0, a@.len() as int) =~= a@);
    } else {
        assert(views(out@) =~= Seq::<Seq<char>>::empty());
    }
    out
}

fn record_into(m: &mut StringMap, value: Option<&Json>)
    ensures
        final(m)@ == record_onto(old(m)@, deref_opt(value)),
{
    if let Some(Json::Object(es)) = value {
        let mut i: usize = 0;
        while i < es.len()
            invariant
                i <= es@.len(),
                m@ == record_over(old(m)@, es@.subrange(0, i as int)),
            decreases es@.len() - i,
        {
            assert(es@.subrange(0, i + 1).drop_last() =~= es@.subrange(0, i as int));
            if let Json::String(v) = &es[i].1 {
                m.insert(es[i].0.clone(), v.clone());
            }
            i += 1;
        }
        assert(es@.subrange(0, es@.len() as int) =~= es@);
    }
}

fn terminal_auth_block(method: &Json) -> (r: Option<&Json>)
    ensures
        deref_opt(r) == terminal_block(*method),
{
    match get_in(auth_method_meta(method), "terminal-auth") {
        Some(b) => if b.is_object() { Some(b) } else { None },
        None => None,
    }
}

fn parse_vars(items: &Vec<Json>) -> (r: Vec<AuthVar>)
    ensures
        r@.map_values(|v: AuthVar| v@) == parsed_vars(items@),
{
    let mut out: Vec<AuthVar> = Vec::new();
    let mut i: usize = 0;
    while i < items.len()
        invariant
            i <= items@.len(),
            out@.map_values(|v: AuthVar| v@) == parsed_vars(items@.subrange(0, i as int)),
        decreases items@.len() - i,
    {
        let item = &items[i];
        let ghost o = out@;
        assert(items@.subrange(0, i + 1).drop_last() =~= items@.subrange(0, i as int));
        assert(items@.subrange(0, i + 1).last() == *item);
        if let Some(name) = nonempty_text(item.get("name")) {
            let var = AuthVar {
                name,
                label: nonempty_text(item.get("label")),
                secret: match item.get("secret") { Some(b) => b.as_bool(), None => None },
                optional: match item.get("optional") { Some(b) => b.as_bool(), None => None },
            };
            out.push(var);
            assert(out@.map_values(|v: AuthVar| v@) =~= o.map_values(|v: AuthVar| v@).push(var@));
        }
        i += 1;
    }
    assert(items@.subrange(0, items@.len() as int) =~= items@);
    out
}

fn inferred_credential_vars(method: &Json) -> (r: Vec<AuthVar>)
    ensures
        r@.map_values(|v: AuthVar| v@) == inferred_vars(*method),
{
    let description = match nonempty_text(method.get("description")) {
        Some(d) => d,
        None => return Vec::new(),
    };
    let cs = chars_of(description.as_str());
    let lower = lowered(cs.as_slice());
    let l = lower.as_slice();
    if !(contains_str(l, "environment variable") || contains_str(l, "env var") || contains_str(l, "environment var")) {
        return Vec::new();
    }
    let names = shouty_env_names(description.as_str());
    let ghost target = shouty_fold(split_spec(description@, name_separator())).map_values(|n: Seq<char>|
        AuthVarView { name: n, label: None, secret: Some(secret_name_spec(n)), optional: None });
    let mut out: Vec<AuthVar> = Vec::new();
    let mut i: usize = 0;
    while i < names.len()
        invariant
            i <= names@.len(),
            views(names@) == shouty_fold(split_spec(description@, name_separator())),
            target == shouty_fold(split_spec(description@, name_separator())).map_values(|n: Seq<char>|
                AuthVarView { name: n, label: None, secret: Some(secret_name_spec(n)), optional: None }),
            out@.map_values(|v: AuthVar| v@) == target.subrange(0, i as int),
        decreases names@.len() - i,
    {
        let ghost o = out@;
        let secret = secret_env_name(names[i].as_str());
        let var = AuthVar { name: names[i].clone(), label: None, secret: Some(secret), optional: None };
        out.push(var);
        assert(views(names@)[i as int] == names@[i as int]@);
        assert(out@.map_values(|v: AuthVar| v@) =~= o.map_values(|v: AuthVar| v@).push(var@));
        i += 1;
        assert(target.subrange(0, i as int) =~= target.subrange(0, i - 1 as int).push(target[i - 1]));
    }
    assert(target.subrange(0, i as int) =~= target);
    out
}

fn credential_vars(method: &Json) -> (r: Vec<AuthVar>)
    ensures
        r@.map_values(|v: AuthVar| v@) == credential_vars_spec(*method),
{
    let ty = auth_method_type(method);
    if str_eq(ty.as_str(), "env_var") {
        if let Some(vars) = method.get("vars") {
            if let Json::Array(items) = vars {
                let parsed = parse_vars(items);
                if parsed.len() > 0 {
                    return parsed;
                }
            }
        }
    }
    inferred_credential_vars(method)
}

fn is_credential_prompt(method: &Json) -> (b: bool)
    ensures
        b == is_credential_prompt_spec(*method),
{
    let ty = auth_method_type(method);
    str_eq(ty.as_str(), "env_var") || (str_eq(ty.as_str(), "terminal") && inferred_credential_vars(method).len() > 0)
}

fn clone_strings(v: &[String]) -> (r: Vec<String>)
    ensures
        views(r@) == views(v@),
{
    let mut out: Vec<String> = Vec::new();
    let mut i: usize = 0;
    while i < v.len()
        invariant
            i <= v@.len(),
            views(out@) == views(v@.subrange(0, i as int)),
        decreases v@.len() - i,
    {
        let ghost o = out@;
        out.push(v[i].clone());
        assert(views(out@) =~= views(o).push(v@[i as int]@));
        i += 1;
        assert(views(v@.subrange(0, i as int)) =~= views(v@.subrange(0, i - 1 as int)).push(v@[i - 1]@));
    }
    assert(v@.subrange(0, v@.len() as int) =~= v@);
    out
}

fn terminal_auth_from_method(method: &Json, agent_argv: &[String], cwd: &str, env: &StringMap) -> (r: Option<TerminalAuthLaunch>)
    ensures
        match r {
            Some(l) => terminal_from_spec(*method, views(agent_argv@), cwd@, env@) == Some(l@),
            None => terminal_from_spec(*method, views(agent_argv@), cwd@, env@) is None,
        },
{
    let label = match nonempty_text(method.get("name")) {
        Some(n) => n,
        None => string_of(chars_of("Login").as_slice()),
    };
    let agent_command = if agent_argv.len() > 0 {
        agent_argv[0].clone()
    } else {
        string_of(chars_of("dsh-acp").as_slice())
    };
    if let Some(block) = terminal_auth_block(method) {
        let cmd = nonempty_text(block.get("command"));
        let args0 = string_array(block.get("args"));
        let args = if cmd.is_none() && agent_argv.len() > 1 {
            let mut prefixed = clone_strings(agent_argv);
            prefixed.remove(0);
            let ghost p0 = prefixed@;
            let mut k: usize = 0;
            let ghost base = views(prefixed@);
            assert(base =~= views(agent_argv@).subrange(1, agent_argv@.len() as int));
            while k < args0.len()
                invariant
                    k <= args0@.len(),
                    views(prefixed@) == base + views(args0@).subrange(0, k as int),
                decreases args0@.len() - k,
            {
                let ghost o = prefixed@;
                prefixed.push(args0[k].clone());
                assert(views(prefixed@) =~= views(o).push(args0@[k as int]@));
                k += 1;
                assert(views(args0@).subrange(0, k as int) =~= views(args0@).subrange(0, k - 1 as int).push(args0@[k - 1]@));
            }
            assert(views(args0@).subrange(0, k as int) =~= views(args0@));
            prefixed
        } else {
            args0
        };
        let mut merged = env.copy();
        record_into(&mut merged, block.get("env"));
        let label = match nonempty_text(block.get("label")) {
            Some(l) => l,
            None => label,
        };
        let command = match cmd {
            Some(c) => c,
            None => agent_command,
        };
        let launch = TerminalAuthLaunch {
            label,
            command,
            args,
            env: merged,
            cwd: Some(string_of(chars_of(cwd).as_slice())),
            method_id: String::new(),
        };
        proof {
            assert(launch@ =~= terminal_from_spec(*method, views(agent_argv@), cwd@, env@).unwrap());
        }
        return Some(launch);
    }
    let ty = auth_method_type(method);
    if !str_eq(ty.as_str(), "terminal") {
        return None;
    }
    let meta = auth_method_meta(method);
    let command = match nonempty_text(get_in(meta, "command")) {
        Some(c) => c,
        None => agent_command,
    };
    let meta_args = string_array(get_in(meta, "args"));
    let args = if meta_args.len() > 0 { meta_args } else { string_array(method.get("args")) };
    let mut merged = env.copy();
    record_into(&mut merged, method.get("env"));
    record_into(&mut merged, get_in(meta, "env"));
    let launch = TerminalAuthLaunch {
        label,
        command,
        args,
        env: merged,
        cwd: Some(string_of(chars_of(cwd).as_slice())),
        method_id: String::new(),
    };
    proof {
        assert(launch@ =~= terminal_from_spec(*method, views(agent_argv@), cwd@, env@).unwrap());
    }
    Some(launch)
}

fn auth_var(name: &str, label: &str, secret: Option<bool>, optional: Option<bool>) -> (r: AuthVar)
    ensures
        r@ == var_view(name@, label@, secret, optional),
{
    AuthVar {
        name: string_of(chars_of(name).as_slice()),
        label: Some(string_of(chars_of(label).as_slice())),
        secret,
        optional,
    }
}

fn public_auth_method(method: &Json, agent_argv: &[String], cwd: &str, env: &StringMap) -> (r: AuthMethodInfo)
    ensures
        r@ == public_method_spec(*method, views(agent_argv@), cwd@, env@),
{
    let id = match method.get("id") {
        Some(Json::String(s)) => s.clone(),
        _ => String::new(),
    };
    let meta = auth_method_meta(method);
    let api_key = match get_in(meta, "api-key") {
        Some(j) => j.is_object(),
        None => false,
    };
    let gateway = match get_in(meta, "gateway") {
        Some(j) => j.is_object(),
        None => false,
    };
    let mut vars = if gateway {
        let v = vec![
            auth_var("baseUrl", "Base URL", None, None),
            auth_var("api-key", "API key", Some(true), None),
            auth_var("providerName", "Provider", None, Some(true)),
        ];
        v
    } else if api_key {
        vec![auth_var("api-key", "API key", Some(true), None)]
    } else {
        credential_vars(method)
    };
    let prompt = is_credential_prompt(method);
    let mut auth_type = auth_method_type(method);
    if prompt {
        auth_type = string_of(chars_of("env_var").as_slice());
        if vars.len() == 0 {
            vars = credential_vars(method);
        }
    }
    let form = api_key || gateway;
    let terminal_launch = if str_eq(auth_type.as_str(), "terminal") || terminal_auth_block(method).is_some() {
        terminal_auth_from_method(method, agent_argv, cwd, env)
    } else {
        None
    };
    let terminal_launch = match terminal_launch {
        Some(mut launch) => {
            launch.method_id = id.clone();
            Some(launch)
        },
        None => None,
    };
    let info = AuthMethodInfo {
        id,
        name: nonempty_text(method.get("name")),
        description: nonempty_text(method.get("description")),
        auth_type,
        form,
        vars,
        link: nonempty_text(method.get("link")),
        terminal_launch,
    };
    proof {
        assert(info@ =~= public_method_spec(*method, views(agent_argv@), cwd@, env@));
    }
    info
}

/// Whether an item of `authMethods` declares a non-empty id.
pub open spec fn has_id(item: Json) -> bool {
    nonempty_str(get(item, "id"@)) is Some
}

pub open spec fn has_id_pred() -> spec_fn(Json) -> bool {
    |item: Json| has_id(item)
}

pub open spec fn supported_pred() -> spec_fn(Json) -> bool {
    |item: Json| supported_type(type_of(item))
}

/// The declared methods of an `authMethods` value (items with an id).
pub open spec fn declared_spec(auth_methods: Json) -> Seq<Json> {
    match auth_methods {
        Json::Array(a) => a@.filter(has_id_pred()),
        _ => Seq::empty(),
    }
}

/// The declared methods whose type the client supports.
pub open spec fn supported_spec(auth_methods: Json) -> Seq<Json> {
    declared_spec(auth_methods).filter(supported_pred())
}

/// The references' targets.
pub open spec fn derefs(v: Seq<&Json>) -> Seq<Json> {
    v.map_values(|j: &Json| *j)
}

/// The methods an `authMethods` value declares: items with a non-empty id.
pub fn declared_auth_methods(auth_methods: &Json) -> (r: Vec<&Json>)
    ensures
        derefs(r@) == declared_spec(*auth_methods),
{
    let mut out: Vec<&Json> = Vec::new();
    if let Json::Array(a) = auth_methods {
        let ghost pred = has_id_pred();
        let mut i: usize = 0;
        assert(a@.subrange(0, 0).filter(pred) =~= Seq::<Json>::empty());
        assert(derefs(out@) =~= Seq::<Json>::empty());
        while i < a.len()
            invariant
                i <= a@.len(),
                pred == has_id_pred(),
                derefs(out@) == a@.subrange(0, i as int).filter(pred),
            decreases a@.len() - i,
        {
            let item = &a[i];
            let ghost o = out@;
            let ghost before = a@.subrange(0, i as int).filter(pred);
            assert(a@.subrange(0, i + 1).drop_last() =~= a@.subrange(0, i as int));
            assert(a@.subrange(0, i + 1).last() == *item);
            let idv = nonempty_text(item.get("id"));
            let ok = idv.is_some();
            assert(ok == has_id(*item));
            assert(pred(*item) == ok);
            if ok {
                out.push(item);
                assert(derefs(out@) =~= derefs(o).push(*item));
                reveal_with_fuel(Seq::filter, 1);
                assert(a@.subrange(0, i + 1).drop_last() =~= a@.subrange(0, i as int));
                assert(a@.subrange(0, i + 1).last() == *item);
            assert(a@.subrange(0, i + 1).filter(pred) == before.push(*item));
            } else {
                reveal_with_fuel(Seq::filter, 1);
                assert(a@.subrange(0, i + 1).drop_last() =~= a@.subrange(0, i as int));
                assert(a@.subrange(0, i + 1).last() == *item);
            assert(a@.subrange(0, i + 1).filter(pred) == before);
            }
            i += 1;
        }
        assert(a@.subrange(0, a@.len() as int) =~= a@);
    } else {
        assert(derefs(out@) =~= Seq::<Json>::empty());
    }
    out
}

/// The declared methods whose type is `agent`, `terminal` or `env_var`.
pub fn supported_auth_methods(auth_methods: &Json) -> (r: Vec<&Json>)
    ensures
        derefs(r@) == supported_spec(*auth_methods),
{
    let declared = declared_auth_methods(auth_methods);
    let ghost d = derefs(declared@);
    let ghost pred = supported_pred();
    let mut out: Vec<&Json> = Vec::new();
    let mut i: usize = 0;
    assert(d.subrange(0, 0).filter(pred) =~= Seq::<Json>::empty());
    assert(derefs(out@) =~= Seq::<Json>::empty());
    while i < declared.len()
        invariant
            i <= declared@.len(),
            d == derefs(declared@),
            pred == supported_pred(),
            derefs(out@) == d.subrange(0, i as int).filter(pred),
        decreases declared@.len() - i,
    {
        let item = declared[i];
        let ghost o = out@;
        let ghost before = d.subrange(0, i as int).filter(pred);
        assert(d.subrange(0, i + 1).drop_last() =~= d.subrange(0, i as int));
        assert(d.subrange(0, i + 1).last() == *item);
        let ty = auth_method_type(item);
        let ok = is_supported_type(ty.as_str());
        assert(pred(*item) == ok);
        if ok {
            out.push(item);
            assert(derefs(out@) =~= derefs(o).push(*item));
            reveal_with_fuel(Seq::filter, 1);
            assert(d.subrange(0, i + 1).drop_last() =~= d.subrange(0, i as int));
            assert(d.subrange(0, i + 1).last() == *item);
            assert(d.subrange(0, i + 1).filter(pred) == before.push(*item));
        } else {
            reveal_with_fuel(Seq::filter, 1);
            assert(d.subrange(0, i + 1).drop_last() =~= d.subrange(0, i as int));
            assert(d.subrange(0, i + 1).last() == *item);
            assert(d.subrange(0, i + 1).filter(pred) == before);
        }
        i += 1;
    }
    assert(d.subrange(0, d.len() as int) =~= d);
    out
}

/// The unsupported types among declared methods, each once, in order.
pub open spec fn unsupported_fold(items: Seq<Json>) -> Seq<Seq<char>>
    decreases items.len(),
{
    if items.len() == 0 {
        Seq::empty()
    } else {
        let prev = unsupported_fold(items.drop_last());
        let ty = type_of(items.last());
        if !supported_type(ty) && !prev.contains(ty) { prev.push(ty) } else { prev }
    }
}

fn contains_string(v: &Vec<String>, s: &str) -> (b: bool)
    ensures
        b == views(v@).contains(s@),
{
    let mut i: usize = 0;
    while i < v.len()
        invariant
            i <= v@.len(),
            forall|j: int| 0 <= j < i ==> views(v@)[j] != s@,
        decreases v@.len() - i,
    {
        if str_eq(v[i].as_str(), s) {
            assert(views(v@)[i as int] == s@);
            return true;
        }
        i += 1;
    }
    false
}

fn unsupported_types_of(items: &Vec<&Json>) -> (r: Vec<String>)
    ensures
        views(r@) == unsupported_fold(derefs(items@)),
{
    let ghost d = derefs(items@);
    let mut out: Vec<String> = Vec::new();
    let mut i: usize = 0;
    assert(d.subrange(0, 0) =~= Seq::<Json>::empty());
    assert(views(out@) =~= Seq::<Seq<char>>::empty());
    while i < items.len()
        invariant
            i <= items@.len(),
            d == derefs(items@),
            views(out@) == unsupported_fold(d.subrange(0, i as int)),
        decreases items@.len() - i,
    {
        let ghost o = out@;
        assert(d.subrange(0, i + 1).drop_last() =~= d.subrange(0, i as int));
        assert(d.subrange(0, i + 1).last() == *items[i as int]);
        let ty = auth_method_type(items[i]);
        if !is_supported_type(ty.as_str()) && !contains_string(&out, ty.as_str()) {
            let ghost tv = ty@;
            out.push(ty);
            assert(views(out@) =~= views(o).push(tv));
        }
        i += 1;
    }
    assert(d.subrange(0, d.len() as int) =~= d);
    out
}

/// The unsupported method types an `authMethods` value declares, each once.
pub fn unsupported_auth_method_types(auth_methods: &Json) -> (r: Vec<String>)
    ensures
        views(r@) == unsupported_fold(declared_spec(*auth_methods)),
{
    let declared = declared_auth_methods(auth_methods);
    unsupported_types_of(&declared)
}

/// How the client presents the advertised methods it supports.
pub fn parse_auth_methods(auth_methods: &Json, agent_argv: &[String], cwd: &str, env: &StringMap) -> (r: Vec<AuthMethodInfo>)
    ensures
        r@.len() == supported_spec(*auth_methods).len(),
        forall|i: int| 0 <= i < r@.len() ==> #[trigger] r@[i]@
            == public_method_spec(supported_spec(*auth_methods)[i], views(agent_argv@), cwd@, env@),
{
    let items = supported_auth_methods(auth_methods);
    let mut out: Vec<AuthMethodInfo> = Vec::new();
    let mut i: usize = 0;
    while i < items.len()
        invariant
            i <= items@.len(),
            derefs(items@) == supported_spec(*auth_methods),
            out@.len() == i,
            forall|j: int| 0 <= j < i ==> #[trigger] out@[j]@
                == public_method_spec(supported_spec(*auth_methods)[j], views(agent_argv@), cwd@, env@),
        decreases items@.len() - i,
    {
        assert(derefs(items@)[i as int] == *items[i as int]);
        out.push(public_auth_method(items[i], agent_argv, cwd, env));
        i += 1;
    }
    out
}

/// The message shown when no advertised method is usable.
pub open spec fn unknown_message(unsupported: Seq<Seq<char>>) -> Seq<char> {
    if unsupported.len() == 0 {
        no_method_message()
    } else {
        no_method_message() + ". unsupported methods: "@ + join_seq(unsupported, ", "@) + "."@
    }
}

/// The message naming missing credential variables.
pub open spec fn missing_message(missing: Seq<Seq<char>>) -> Seq<char> {
    if missing.len() == 1 {
        "missing credential variable: "@ + missing[0] + "."@
    } else {
        "missing credential variables: "@ + join_seq(missing, ", "@) + "."@
    }
}

/// The initial authentication state for the supported methods, the items
/// the agent declared, and the environment.
pub open spec fn snapshot_status(methods: Seq<AuthMethodInfo>, declared: Seq<Json>, env: Map<Seq<char>, Seq<char>>) -> (AuthStatus, Option<Seq<char>>) {
    if methods.len() == 0 {
        if declared.len() == 0 {
            (AuthStatus::NotRequired, None)
        } else {
            (AuthStatus::Unknown, Some(unknown_message(unsupported_fold(
                declared.filter(has_id_pred())))))
        }
    } else {
        let m = methods[0];
        let missing = missing_env_spec(m.vars@, env);
        if m.auth_type@ == "env_var"@ && missing.len() > 0 {
            (AuthStatus::NeedsAuth, Some(missing_message(missing)))
        } else if m.form {
            (AuthStatus::NeedsAuth, None)
        } else {
            (AuthStatus::Configured, None)
        }
    }
}

fn joined(parts: &Vec<String>, sep: &str, out: &mut Vec<char>)
    ensures
        final(out)@ == old(out)@ + join_seq(views(parts@), sep@),
{
    let mut cs: Vec<Vec<char>> = Vec::new();
    let mut i: usize = 0;
    while i < parts.len()
        invariant
            i <= parts@.len(),
            cs@.map_values(|p: Vec<char>| p@) == views(parts@).subrange(0, i as int),
        decreases parts@.len() - i,
    {
        let ghost o = cs@;
        cs.push(chars_of(parts[i].as_str()));
        assert(cs@.map_values(|p: Vec<char>| p@) =~= o.map_values(|p: Vec<char>| p@).push(parts@[i as int]@));
        i += 1;
        assert(views(parts@).subrange(0, i as int) =~= views(parts@).subrange(0, i - 1 as int).push(parts@[i - 1]@));
    }
    assert(views(parts@).subrange(0, parts@.len() as int) =~= views(parts@));
    push_joined_chars(out, &cs, sep);
}

/// The authentication state to start from: no methods declared means
/// nothing to do; declared but unsupported methods are reported; the first
/// supported method needs sign-in when it is an environment prompt with
/// missing variables or an in-app form, and is configured otherwise.
pub fn snapshot_from_methods(methods: Vec<AuthMethodInfo>, declared: &[&Json], env: &StringMap) -> (r: AuthSnapshot)
    ensures
        (r.status, opt_view(r.message)) == snapshot_status(methods@, derefs(declared@), env@),
        r.methods == methods,
        methods@.len() == 0 ==> r.method_id is None && r.method_name is None,
        methods@.len() > 0 && r.status != AuthStatus::Unknown ==> r.method_id == Some(methods@[0].id)
            && r.method_name == methods@[0].name,
{
    if methods.len() == 0 {
        if declared.len() == 0 {
            let mut snap = AuthSnapshot::none();
            snap.methods = methods;
            assert(snap.methods@ =~= methods@);
            return snap;
        }
        let mut refs: Vec<&Json> = Vec::new();
        let mut i: usize = 0;
        let ghost pred = has_id_pred();
        let ghost d = derefs(declared@);
        assert(d.subrange(0, 0).filter(pred) =~= Seq::<Json>::empty());
        assert(derefs(refs@) =~= Seq::<Json>::empty());
        while i < declared.len()
            invariant
                i <= declared@.len(),
                d == derefs(declared@),
                pred == has_id_pred(),
                derefs(refs@) == d.subrange(0, i as int).filter(pred),
            decreases declared@.len() - i,
        {
            let item = declared[i];
            let ghost o = refs@;
            let ghost before = d.subrange(0, i as int).filter(pred);
            assert(d.subrange(0, i + 1).drop_last() =~= d.subrange(0, i as int));
            assert(d.subrange(0, i + 1).last() == *item);
            let idv = nonempty_text(item.get("id"));
            let ok = idv.is_some();
            assert(ok == has_id(*item));
            assert(pred(*item) == ok);
            if ok {
                refs.push(item);
                assert(derefs(refs@) =~= derefs(o).push(*item));
                reveal_with_fuel(Seq::filter, 1);
                assert(d.subrange(0, i + 1).drop_last() =~= d.subrange(0, i as int));
                assert(d.subrange(0, i + 1).last() == *item);
            assert(d.subrange(0, i + 1).filter(pred) == before.push(*item));
            } else {
                reveal_with_fuel(Seq::filter, 1);
                assert(d.subrange(0, i + 1).drop_last() =~= d.subrange(0, i as int));
                assert(d.subrange(0, i + 1).last() == *item);
            assert(d.subrange(0, i + 1).filter(pred) == before);
            }
            i += 1;
        }
        assert(d.subrange(0, d.len() as int) =~= d);
        let unsupported = unsupported_types_of(&refs);
        let mut msg = chars_of("no supported ACP auth method is available");
        if unsupported.len() > 0 {
            push_str_chars(&mut msg, ". unsupported methods: ");
            joined(&unsupported, ", ", &mut msg);
            push_str_chars(&mut msg, ".");
        }
        proof {
            assert(msg@ =~= unknown_message(views(unsupported@)));
        }
        return AuthSnapshot {
            status: AuthStatus::Unknown,
            method_id: None,
            method_name: None,
            methods,
            message: Some(string_of(msg.as_slice())),
        };
    }
    let m = &methods[0];
    let id = m.id.clone();
    let name = clone_opt(&m.name);
    let form = m.form;
    let mut message: Option<String> = None;
    let mut needs = false;
    if m.is_env_prompt() {
        let missing = m.missing_env(env);
        if missing.len() > 0 {
            let mut msg: Vec<char>;
            if missing.len() == 1 {
                msg = chars_of("missing credential variable: ");
                push_str_chars(&mut msg, missing[0].as_str());
                push_str_chars(&mut msg, ".");
            } else {
                msg = chars_of("missing credential variables: ");
                joined(&missing, ", ", &mut msg);
                push_str_chars(&mut msg, ".");
            }
            proof {
                assert(msg@ =~= missing_message(views(missing@)));
            }
            message = Some(string_of(msg.as_slice()));
            needs = true;
        }
    }
    if !needs && form {
        needs = true;
    }
    AuthSnapshot {
        status: if needs { AuthStatus::NeedsAuth } else { AuthStatus::Configured },
        method_id: Some(id),
        method_name: name,
        methods,
        message,
    }
}

/// The `authenticate` `_meta` a form submission carries.
pub enum AuthMetaPlan {
    NoMeta,
    Gateway { base_url: Seq<char>, key: Seq<char>, provider: Option<Seq<char>> },
    ApiKey(Seq<char>),
}

/// A submitted value, or the empty string.
pub open spec fn value_or_empty(values: Map<Seq<char>, Seq<char>>, k: Seq<char>) -> Seq<char> {
    if values.contains_key(k) { values[k] } else { Seq::empty() }
}

/// What a form submission sends: nothing for non-form methods or when the
/// required value is blank; a gateway object for methods declaring both
/// `baseUrl` and `api-key`; otherwise the API key.
pub open spec fn auth_meta_plan(m: AuthMethodInfo, values: Map<Seq<char>, Seq<char>>) -> AuthMetaPlan {
    if !m.form {
        AuthMetaPlan::NoMeta
    } else if has_var(m.vars@, "baseUrl"@) && has_var(m.vars@, "api-key"@) {
        let base = trim_seq(value_or_empty(values, "baseUrl"@));
        if base.len() == 0 {
            AuthMetaPlan::NoMeta
        } else {
            let provider = if values.contains_key("providerName"@) {
                let p = trim_seq(values["providerName"@]);
                if p.len() > 0 { Some(p) } else { None }
            } else {
                None
            };
            AuthMetaPlan::Gateway { base_url: base, key: trim_seq(value_or_empty(values, "api-key"@)), provider }
        }
    } else {
        let secret = trim_seq(value_or_empty(values, "api-key"@));
        if secret.len() == 0 { AuthMetaPlan::NoMeta } else { AuthMetaPlan::ApiKey(secret) }
    }
}

/// Whether `j` is the string `s`.
pub open spec fn is_str(j: Json, s: Seq<char>) -> bool {
    j matches Json::String(t) && t@ == s
}

/// Whether `j` is an object with exactly the one member `key: value-string`.
pub open spec fn is_single_str_object(j: Json, key: Seq<char>, s: Seq<char>) -> bool {
    j matches Json::Object(es) && es@.len() == 1 && es@[0].0@ == key && is_str(es@[0].1, s)
}

/// Whether `r` is the `_meta` the plan describes.
pub open spec fn meta_shape(r: Option<Vec<(String, Json)>>, plan: AuthMetaPlan) -> bool {
    match plan {
        AuthMetaPlan::NoMeta => r is None,
        AuthMetaPlan::ApiKey(secret) => r matches Some(es) && es@.len() == 1 && es@[0].0@ == "api-key"@
            && is_single_str_object(es@[0].1, "apiKey"@, secret),
        AuthMetaPlan::Gateway { base_url, key, provider } => r matches Some(es) && es@.len() == 1
            && es@[0].0@ == "gateway"@ && (es@[0].1 matches Json::Object(g) && {
                &&& g@.len() == if provider is Some { 3int } else { 2int }
                &&& g@[0].0@ == "baseUrl"@ && is_str(g@[0].1, base_url)
                &&& g@[1].0@ == "headers"@
                &&& if key.len() == 0 {
                    g@[1].1 matches Json::Object(h) && h@.len() == 0
                } else {
                    is_single_str_object(g@[1].1, "Authorization"@, "Bearer "@ + key)
                }
                &&& provider matches Some(p) ==> g@[2].0@ == "providerName"@ && is_str(g@[2].1, p)
            }),
    }
}

fn json_str(s: &[char]) -> (j: Json)
    ensures
        is_str(j, s@),
{
    Json::String(string_of(s))
}

fn key(s: &str) -> (r: String)
    ensures
        r@ == s@,
{
    string_of(chars_of(s).as_slice())
}

fn trimmed_value(values: &StringMap, k: &str) -> (r: Vec<char>)
    ensures
        r@ == trim_seq(value_or_empty(values@, k@)),
{
    match values.get(k) {
        Some(v) => {
            let cs = chars_of(v.as_str());
            trimmed(cs.as_slice())
        },
        None => {
            let e: Vec<char> = Vec::new();
            assert(trim_seq(Seq::<char>::empty()) == Seq::<char>::empty());
            e
        },
    }
}

/// The `authenticate` `_meta` an in-app form submits for `values`.
pub fn authenticate_meta_from_method(method: &AuthMethodInfo, values: &StringMap) -> (r: Option<Vec<(String, Json)>>)
    ensures
        meta_shape(r, auth_meta_plan(*method, values@)),
{
    if !method.form {
        return None;
    }
    let has_gateway = declares_var(&method.vars, "baseUrl") && declares_var(&method.vars, "api-key");
    if has_gateway {
        let base_url = trimmed_value(values, "baseUrl");
        if base_url.len() == 0 {
            return None;
        }
        let k = trimmed_value(values, "api-key");
        let provider = match values.get("providerName") {
            Some(p) => {
                let cs = chars_of(p.as_str());
                let t = trimmed(cs.as_slice());
                if t.len() > 0 { Some(t) } else { None }
            },
            None => None,
        };
        let mut gateway: Vec<(String, Json)> = Vec::new();
        gateway.push((key("baseUrl"), json_str(base_url.as_slice())));
        let headers = if k.len() == 0 {
            Json::Object(Vec::new())
        } else {
            let mut bearer = chars_of("Bearer ");
            push_chars(&mut bearer, k.as_slice());
            let mut h: Vec<(String, Json)> = Vec::new();
            h.push((key("Authorization"), json_str(bearer.as_slice())));
            Json::Object(h)
        };
        gateway.push((key("headers"), headers));
        if let Some(name) = provider {
            gateway.push((key("providerName"), json_str(name.as_slice())));
        }
        let mut meta: Vec<(String, Json)> = Vec::new();
        meta.push((key("gateway"), Json::Object(gateway)));
        return Some(meta);
    }
    let secret = trimmed_value(values, "api-key");
    if secret.len() == 0 {
        return None;
    }
    let mut inner: Vec<(String, Json)> = Vec::new();
    inner.push((key("apiKey"), json_str(secret.as_slice())));
    let mut meta: Vec<(String, Json)> = Vec::new();
    meta.push((key("api-key"), Json::Object(inner)));
    Some(meta)
}

/// Whether `j` is the boolean `b`.
pub open spec fn is_bool(j: Json, b: bool) -> bool {
    j matches Json::Bool(x) && x == b
}

/// Whether `r` is the client-capability `_meta`: terminal auth, terminal
/// output and subagent transcripts supported, plus the dsh block naming
/// the Cordis protocol and the interaction mode (members in key order).
pub open spec fn capability_shape(r: Seq<(String, Json)>, mode: Seq<char>) -> bool {
    &&& r.len() == 4
    &&& r[0].0@ == "dsh"@ && (r[0].1 matches Json::Object(d) && {
        &&& d@.len() == 2
        &&& d@[0].0@ == "cordis"@ && (d@[0].1 matches Json::Object(c) && c@.len() == 1 && c@[0].0@ == "protocol"@
            && (c@[0].1 matches Json::Number(n) && n.as_u64 == Some(crate::cordis::PROTOCOL) && n.text@ == "0"@))
        &&& d@[1].0@ == "interaction"@ && is_single_str_object(d@[1].1, "mode"@, mode)
    })
    &&& r[1].0@ == "subagent-transcript"@ && is_bool(r[1].1, true)
    &&& r[2].0@ == "terminal-auth"@ && is_bool(r[2].1, true)
    &&& r[3].0@ == "terminal_output"@ && is_bool(r[3].1, true)
}

/// The `_meta` advertising this client's capabilities at initialize.
pub fn client_capability_meta(interaction_mode: &str) -> (r: Vec<(String, Json)>)
    ensures
        capability_shape(r@, interaction_mode@),
{
    let protocol = Json::Number(JsonNumber { as_u64: Some(0), as_i64: Some(0), text: key("0") });
    let mut cordis: Vec<(String, Json)> = Vec::new();
    cordis.push((key("protocol"), protocol));
    let mut interaction: Vec<(String, Json)> = Vec::new();
    interaction.push((key("mode"), Json::String(key(interaction_mode))));
    let mut dsh: Vec<(String, Json)> = Vec::new();
    dsh.push((key("cordis"), Json::Object(cordis)));
    dsh.push((key("interaction"), Json::Object(interaction)));
    let mut meta: Vec<(String, Json)> = Vec::new();
    meta.push((key("dsh"), Json::Object(dsh)));
    meta.push((key("subagent-transcript"), Json::Bool(true)));
    meta.push((key("terminal-auth"), Json::Bool(true)));
    meta.push((key("terminal_output"), Json::Bool(true)));
    meta
}

/// The `_meta` advertising gateway authentication support.
pub fn auth_capability_meta() -> (r: Vec<(String, Json)>)
    ensures
        r@.len() == 1 && r@[0].0@ == "gateway"@ && is_bool(r@[0].1, true),
{
    let mut meta: Vec<(String, Json)> = Vec::new();
    meta.push((key("gateway"), Json::Bool(true)));
    meta
}

/// What the client reads of an ACP error: its numeric code, whether the
/// code is the protocol's auth-required code, its message and its data.
pub struct AcpErrorInfo {
    pub code: i32,
    pub auth_required_code: bool,
    pub message: String,
    pub data: Option<Json>,
}

/// The most specific text of an ACP error: `data.details`, else
/// `data.message`, else the error message.
pub open spec fn error_message_spec(err: AcpErrorInfo) -> Seq<char> {
    let data = err.data;
    match nonempty_str(get_opt(data, "details"@)) {
        Some(d) => d,
        None => match nonempty_str(get_opt(data, "message"@)) {
            Some(m) => m,
            None => err.message@,
        },
    }
}

/// The most specific text of an ACP error.
pub fn acp_error_message(err: &AcpErrorInfo) -> (r: String)
    ensures
        r@ == error_message_spec(*err),
{
    let data = match &err.data {
        Some(d) => Some(d),
        None => None,
    };
    if let Some(d) = nonempty_text(get_in(data, "details")) {
        return d;
    }
    if let Some(m) = nonempty_text(get_in(data, "message")) {
        return m;
    }
    err.message.clone()
}

/// Whether an ACP error means the agent needs authentication: the
/// auth-required code, or a message that says the credentials are missing
/// or invalid.
pub fn is_auth_required_error(err: &AcpErrorInfo) -> (b: bool)
    ensures
        b == (err.auth_required_code || err.code == ACP_AUTH_REQUIRED_CODE || auth_failure_spec(error_message_spec(*err))),
{
    if err.auth_required_code || err.code == ACP_AUTH_REQUIRED_CODE {
        return true;
    }
    let m = acp_error_message(err);
    is_auth_failure_message(m.as_str())
}

/// Every method the client presents has a supported type, and a method's
/// terminal login always carries that method's id.
pub proof fn law_parsed_methods_are_supported(auth_methods: Json, argv: Seq<Seq<char>>, cwd: Seq<char>, env: Map<Seq<char>, Seq<char>>)
    ensures
        forall|i: int| 0 <= i < supported_spec(auth_methods).len() ==> {
            let m = #[trigger] public_method_spec(supported_spec(auth_methods)[i], argv, cwd, env);
            &&& supported_type(m.auth_type)
            &&& m.terminal_launch matches Some(l) ==> l.method_id == m.id
        },
{
    assert forall|i: int| 0 <= i < supported_spec(auth_methods).len() implies {
        let m = #[trigger] public_method_spec(supported_spec(auth_methods)[i], argv, cwd, env);
        &&& supported_type(m.auth_type)
        &&& m.terminal_launch matches Some(l) ==> l.method_id == m.id
    } by {
        declared_spec(auth_methods).lemma_filter_pred(supported_pred(), i);
    }
}

/// Whether a method's required credential variables are all in `env`.
pub open spec fn vars_present(vars: Seq<AuthVar>, env: Map<Seq<char>, Seq<char>>) -> bool {
    forall|i: int| 0 <= i < vars.len() ==> (#[trigger] vars[i]).optional == Some(true) || env.contains_key(vars[i].name@)
}

/// The first supported method decides whether sign-in is needed: an
/// in-app form method always needs it (the user enters the key with
/// `/auth`), and so does an environment prompt missing a required
/// variable; only a method that is neither counts as configured. With a
/// supported method the state is never unknown nor "not required".
pub proof fn law_first_method_decides_sign_in(methods: Seq<AuthMethodInfo>, declared: Seq<Json>, env: Map<Seq<char>, Seq<char>>)
    requires
        methods.len() > 0,
    ensures
        methods[0].form ==> snapshot_status(methods, declared, env).0 == AuthStatus::NeedsAuth,
        methods[0].auth_type@ == "env_var"@ && !vars_present(methods[0].vars@, env)
            ==> snapshot_status(methods, declared, env).0 == AuthStatus::NeedsAuth,
        snapshot_status(methods, declared, env).0 == AuthStatus::Configured <==> !methods[0].form
            && (methods[0].auth_type@ == "env_var"@ ==> vars_present(methods[0].vars@, env)),
        snapshot_status(methods, declared, env).0 == AuthStatus::Configured
            || snapshot_status(methods, declared, env).0 == AuthStatus::NeedsAuth,
{
    let vars = methods[0].vars@;
    let p = var_missing(env);
    if vars_present(vars, env) {
        assert(vars.all(|x: AuthVar| !p(x))) by {
            assert forall|i: int| 0 <= i < vars.len() implies !p(#[trigger] vars[i]) by {}
        }
        vars.lemma_all_neg_filter_empty(p);
    } else {
        let i = choose|i: int| 0 <= i < vars.len() && !((#[trigger] vars[i]).optional == Some(true) || env.contains_key(vars[i].name@));
        assert(p(vars[i]));
        vars.filter_lemma(p);
        assert(vars.filter(p).contains(vars[i]));
    }
}

} // verus!
