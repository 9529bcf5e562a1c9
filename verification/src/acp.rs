//! The pure part of the ACP client: what the agent's `initialize` result
//! advertises, how staged images are addressed as `file://` URIs, and the
//! plugin inventories that the dsh extension methods return.

use std::collections::VecDeque;
use vstd::prelude::*;
use vstd::string::*;
use crate::bus::{CatalogModel, CatalogModelView, CatalogPreset, CatalogPresetView, Cmd, CordisPluginItem, PromptBlock, SkillInfo, StaticPluginItem};
use crate::events::{
    catalog_from_config_options, catalog_spec, choices_view, current_value, find_first, flatten_select_options, flatten_spec,
    id_is, models_view, or_null, presets_view, config_option_events, config_events_spec, events_view, UiEvent,
};
use crate::json::{Json, as_bool, as_str, deref_opt, get, get_in, get_opt, is_object};
use crate::text::{
    char_vec_views, chars_eq, chars_of, decimal, eq_char, join_seq, push_char, push_chars, push_decimal, push_joined_chars, split_on, split_spec,
    str_eq, string_of,
};

verus! {

/// `a.or_else(|| b)` on optional members.
pub open spec fn either(a: Option<Json>, b: Option<Json>) -> Option<Json> {
    if a is Some { a } else { b }
}

/// The `agentCapabilities` (or `agent_capabilities`) of an `initialize` result.
pub open spec fn agent_caps(init: Json) -> Option<Json> {
    either(get(init, "agentCapabilities"@), get(init, "agent_capabilities"@))
}

/// The `sessionCapabilities` (or `session_capabilities`) the agent advertises.
pub open spec fn session_caps(init: Json) -> Option<Json> {
    let caps = agent_caps(init);
    either(get_opt(caps, "sessionCapabilities"@), get_opt(caps, "session_capabilities"@))
}

/// Whether a capability member is present as an object or `true`.
pub open spec fn offered(v: Option<Json>) -> bool {
    v matches Some(Json::Object(_)) || v == Some(Json::Bool(true))
}

fn or_member<'a>(v: Option<&'a Json>, a: &str, b: &str) -> (r: Option<&'a Json>)
    ensures
        deref_opt(r) == either(get_opt(deref_opt(v), a@), get_opt(deref_opt(v), b@)),
{
    let x = get_in(v, a);
    if x.is_some() { x } else { get_in(v, b) }
}

fn offered_member(v: Option<&Json>) -> (b: bool)
    ensures
        b == offered(deref_opt(v)),
{
    match v {
        Some(Json::Object(_)) => true,
        Some(Json::Bool(true)) => true,
        _ => false,
    }
}

/// Whether the agent advertised `loadSession`.
pub fn load_session_supported(init: &Json) -> (b: bool)
    ensures
        b == (as_bool(either(get_opt(agent_caps(*init), "loadSession"@), get_opt(agent_caps(*init), "load_session"@)))
            == Some(true)),
{
    let caps = or_member(Some(init), "agentCapabilities", "agent_capabilities");
    match or_member(caps, "loadSession", "load_session") {
        Some(Json::Bool(true)) => true,
        _ => false,
    }
}

/// Whether the agent advertised `sessionCapabilities.resume`.
pub fn resume_session_supported(init: &Json) -> (b: bool)
    ensures
        b == offered(get_opt(session_caps(*init), "resume"@)),
{
    let caps = or_member(Some(init), "agentCapabilities", "agent_capabilities");
    let session = or_member(caps, "sessionCapabilities", "session_capabilities");
    offered_member(get_in(session, "resume"))
}

/// Whether the agent advertised `sessionCapabilities.list`.
pub fn list_session_supported(init: &Json) -> (b: bool)
    ensures
        b == offered(get_opt(session_caps(*init), "list"@)),
{
    let caps = or_member(Some(init), "agentCapabilities", "agent_capabilities");
    let session = or_member(caps, "sessionCapabilities", "session_capabilities");
    offered_member(get_in(session, "list"))
}

/// The prompt capabilities the agent advertises.
pub open spec fn prompt_caps(init: Json) -> Option<Json> {
    let caps = agent_caps(init);
    either(either(get_opt(caps, "promptCapabilities"@), get_opt(caps, "prompt_capabilities"@)), get_opt(caps, "prompt"@))
}

/// Whether the agent accepts image blocks in prompts.
pub fn prompt_image_supported(init: &Json) -> (b: bool)
    ensures
        b == offered(get_opt(prompt_caps(*init), "image"@)),
{
    let caps = or_member(Some(init), "agentCapabilities", "agent_capabilities");
    let a = or_member(caps, "promptCapabilities", "prompt_capabilities");
    let prompt = if a.is_some() { a } else { get_in(caps, "prompt") };
    offered_member(get_in(prompt, "image"))
}

/// Whether a staged image's path names the clipboard rather than a file.
pub fn is_clipboard_path(path: &str) -> (b: bool)
    ensures
        b == (path@.len() == 0 || path@ == "clipboard"@),
{
    path.unicode_len() == 0 || str_eq(path, "clipboard")
}

/// A byte that a `file://` URI carries as is: unreserved and sub-delimiter
/// characters, `:`, `@` and `/`.
pub open spec fn uri_safe(b: u8) -> bool {
    (0x41 <= b <= 0x5a) || (0x61 <= b <= 0x7a) || (0x30 <= b <= 0x39) || b == 0x2d || b == 0x2e || b == 0x5f
        || b == 0x7e || b == 0x21 || b == 0x24 || b == 0x26 || b == 0x27 || b == 0x28 || b == 0x29 || b == 0x2a
        || b == 0x2b || b == 0x2c || b == 0x3b || b == 0x3d || b == 0x40 || b == 0x3a || b == 0x2f
}

/// The upper-case hexadecimal digit for `d < 16`.
pub open spec fn hex_upper(d: u8) -> char {
    if d < 10 { ((d as u32) + 0x30) as char } else { ((d as u32) + 0x37) as char }
}

/// One byte of a `file://` URI path: itself when safe, else `%XX`.
pub open spec fn uri_byte(b: u8) -> Seq<char> {
    if uri_safe(b) { seq![(b as u32) as char] } else { seq!['%', hex_upper(b / 16), hex_upper(b % 16)] }
}

/// The percent-encoded form of a path's bytes.
pub open spec fn uri_bytes(bs: Seq<u8>) -> Seq<char>
    decreases bs.len(),
{
    if bs.len() == 0 { Seq::empty() } else { uri_bytes(bs.drop_last()) + uri_byte(bs.last()) }
}

fn hex_digit_upper(d: u8) -> (c: char)
    requires
        d < 16,
    ensures
        c == hex_upper(d),
{
    if d < 10 { ((d + 0x30) as u8) as char } else { ((d + 0x37) as u8) as char }
}

/// A Unix `file://` URI for an absolute path, percent-encoding every byte
/// but the unreserved and sub-delimiter characters, `:`, `@` and `/`, so
/// that agents parsing the URI recover the original path (`#` is no
/// fragment, `?` no query).
pub fn unix_file_uri(path: &str) -> (r: String)
    ensures
        r@ == "file://"@ + uri_bytes(path.spec_bytes()),
{
    let bytes = path.as_bytes();
    let mut out = String::from_str("file://");
    let mut i: usize = 0;
    while i < bytes.len()
        invariant
            i <= bytes@.len(),
            bytes@ == path.spec_bytes(),
            out@ == "file://"@ + uri_bytes(bytes@.subrange(0, i as int)),
        decreases bytes@.len() - i,
    {
        let b = bytes[i];
        let safe = (0x41 <= b && b <= 0x5a) || (0x61 <= b && b <= 0x7a) || (0x30 <= b && b <= 0x39) || b == 0x2d
            || b == 0x2e || b == 0x5f || b == 0x7e || b == 0x21 || b == 0x24 || b == 0x26 || b == 0x27 || b == 0x28
            || b == 0x29 || b == 0x2a || b == 0x2b || b == 0x2c || b == 0x3b || b == 0x3d || b == 0x40 || b == 0x3a
            || b == 0x2f;
        if safe {
            push_char(&mut out, b as char);
        } else {
            push_char(&mut out, '%');
            push_char(&mut out, hex_digit_upper(b / 16));
            push_char(&mut out, hex_digit_upper(b % 16));
        }
        assert(bytes@.subrange(0, i + 1).drop_last() =~= bytes@.subrange(0, i as int));
        assert(bytes@.subrange(0, i + 1).last() == b);
        i += 1;
        assert(out@ =~= "file://"@ + uri_bytes(bytes@.subrange(0, i as int)));
    }
    assert(bytes@.subrange(0, bytes@.len() as int) =~= bytes@);
    out
}

/// Whether a path is absolute (starts at the root).
pub open spec fn is_abs_path(p: Seq<char>) -> bool {
    p.len() > 0 && p[0] == '/'
}

/// One step of resolving a path's components: empty and `.` components
/// vanish, `..` drops the component before it (none above the top), and
/// any other is appended.
pub open spec fn norm_step(stack: Seq<Seq<char>>, seg: Seq<char>) -> Seq<Seq<char>> {
    if seg.len() == 0 || seg == "."@ {
        stack
    } else if seg == ".."@ {
        if stack.len() > 0 { stack.drop_last() } else { stack }
    } else {
        stack.push(seg)
    }
}

/// The components left after resolving `segs` in order.
pub open spec fn norm_stack(segs: Seq<Seq<char>>) -> Seq<Seq<char>>
    decreases segs.len(),
{
    if segs.len() == 0 { Seq::empty() } else { norm_step(norm_stack(segs.drop_last()), segs.last()) }
}

/// A `/`-separated path with its `.` and `..` components resolved: the
/// root (if the path has one), then the remaining components joined by `/`.
pub open spec fn normalize_path_spec(path: Seq<char>) -> Seq<char> {
    let body = join_seq(norm_stack(split_spec(path, eq_char('/'))), "/"@);
    if is_abs_path(path) { seq!['/'] + body } else { body }
}

/// `base` joined with `p` as a filesystem path: `p` itself when absolute,
/// else `p` after `base` with one `/` between them (none after an empty
/// `base` or one that already ends in `/`).
pub open spec fn join_path_spec(base: Seq<char>, p: Seq<char>) -> Seq<char> {
    if is_abs_path(p) {
        p
    } else if base.len() == 0 || base.last() == '/' {
        base + p
    } else {
        base + seq!['/'] + p
    }
}

/// The absolute filesystem path of a staged raster: none for the clipboard;
/// else the path taken against `workspace`, and where that is still
/// relative, against the process's working directory `cwd` (none where
/// that is unknown), with `.` and `..` resolved.
pub open spec fn abs_fs_path_spec(path: Seq<char>, workspace: Seq<char>, cwd: Option<Seq<char>>) -> Option<Seq<char>> {
    if path.len() == 0 || path == "clipboard"@ {
        None
    } else {
        let joined = join_path_spec(workspace, path);
        if is_abs_path(joined) {
            Some(normalize_path_spec(joined))
        } else {
            match cwd {
                Some(c) => Some(normalize_path_spec(join_path_spec(c, joined))),
                None => None,
            }
        }
    }
}

/// The `file://` URI of a path.
pub open spec fn file_uri_spec(path: Seq<char>) -> Seq<char> {
    "file://"@ + uri_bytes(vstd::utf8::encode_utf8(path))
}

/// Resolves the `.` and `..` components of a `/`-separated path.
pub fn normalize_abs(path: &str) -> (r: String)
    ensures
        r@ == normalize_path_spec(path@),
{
    let cs = chars_of(path);
    let segs = split_on(cs.as_slice(), '/');
    let ghost sv = char_vec_views(segs@);
    let mut stack: Vec<Vec<char>> = Vec::new();
    let mut i: usize = 0;
    proof {
        assert(sv.subrange(0, 0) =~= Seq::<Seq<char>>::empty());
        assert(char_vec_views(stack@) =~= Seq::<Seq<char>>::empty());
    }
    while i < segs.len()
        invariant
            i <= segs@.len(),
            sv == char_vec_views(segs@),
            sv == split_spec(path@, eq_char('/')),
            char_vec_views(stack@) == norm_stack(sv.subrange(0, i as int)),
        decreases segs@.len() - i,
    {
        let seg = &segs[i];
        let ghost before = char_vec_views(stack@);
        proof {
            assert(sv.subrange(0, i + 1).drop_last() =~= sv.subrange(0, i as int));
            assert(sv.subrange(0, i + 1).last() == seg@);
        }
        if seg.len() == 0 || chars_eq(seg.as_slice(), ".") {
        } else if chars_eq(seg.as_slice(), "..") {
            if stack.len() > 0 {
                stack.pop();
                assert(char_vec_views(stack@) =~= before.drop_last());
            }
        } else {
            stack.push(seg.clone());
            assert(char_vec_views(stack@) =~= before.push(seg@));
        }
        i += 1;
    }
    proof {
        assert(sv.subrange(0, segs@.len() as int) =~= sv);
        reveal_strlit("/");
    }
    let mut out: Vec<char> = Vec::new();
    if cs.len() > 0 && cs[0] == '/' {
        out.push('/');
    }
    let ghost head = out@;
    push_joined_chars(&mut out, &stack, "/");
    proof {
        assert(stack@.map_values(|p: Vec<char>| p@) =~= char_vec_views(stack@));
    }
    string_of(out.as_slice())
}

/// `base` joined with `p` as a filesystem path (`Path::join`).
pub fn join_path(base: &str, p: &str) -> (r: String)
    ensures
        r@ == join_path_spec(base@, p@),
{
    let pc = chars_of(p);
    if pc.len() > 0 && pc[0] == '/' {
        return string_of(pc.as_slice());
    }
    let bc = chars_of(base);
    let mut out = bc.clone();
    if !(bc.len() == 0 || bc[bc.len() - 1] == '/') {
        out.push('/');
    }
    let ghost mid = out@;
    push_chars(&mut out, pc.as_slice());
    string_of(out.as_slice())
}

/// The absolute filesystem path of a staged raster (see
/// `abs_fs_path_spec`); `cwd` is the process's working directory, where
/// it could be read.
pub fn abs_fs_path(path: &str, workspace: &str, cwd: Option<&str>) -> (r: Option<String>)
    ensures
        crate::text::opt_view(r) == abs_fs_path_spec(path@, workspace@, match cwd { Some(c) => Some(c@), None => None }),
{
    if is_clipboard_path(path) {
        return None;
    }
    let joined = join_path(workspace, path);
    let jc = chars_of(joined.as_str());
    if jc.len() > 0 && jc[0] == '/' {
        return Some(normalize_abs(joined.as_str()));
    }
    match cwd {
        Some(c) => {
            let full = join_path(c, joined.as_str());
            Some(normalize_abs(full.as_str()))
        },
        None => None,
    }
}

/// The `file://` URI of a staged raster's file, where it has one.
pub fn resolve_image_uri(path: &str, workspace: &str, cwd: Option<&str>) -> (r: Option<String>)
    ensures
        crate::text::opt_view(r) == (match abs_fs_path_spec(path@, workspace@, match cwd { Some(c) => Some(c@), None => None }) {
            Some(a) => Some(file_uri_spec(a)),
            None => None,
        }),
{
    match abs_fs_path(path, workspace, cwd) {
        Some(a) => Some(unix_file_uri(a.as_str())),
        None => None,
    }
}

/// One content block of a prompt as the agent receives it: text, an
/// inline image (with the `file://` URI of its file where it has one), or
/// a link to the image's file.
pub enum PromptContent {
    Text(String),
    Image { data: String, media_type: String, uri: Option<String> },
    ResourceLink { name: String, uri: String, mime_type: String },
}

/// A prompt content block with its strings as character sequences.
pub enum PromptContentView {
    Text(Seq<char>),
    Image { data: Seq<char>, media_type: Seq<char>, uri: Option<Seq<char>> },
    ResourceLink { name: Seq<char>, uri: Seq<char>, mime_type: Seq<char> },
}

impl View for PromptContent {
    type V = PromptContentView;

    open spec fn view(&self) -> PromptContentView {
        match self {
            PromptContent::Text(t) => PromptContentView::Text(t@),
            PromptContent::Image { data, media_type, uri } => PromptContentView::Image {
                data: data@,
                media_type: media_type@,
                uri: crate::text::opt_view(*uri),
            },
            PromptContent::ResourceLink { name, uri, mime_type } => PromptContentView::ResourceLink {
                name: name@,
                uri: uri@,
                mime_type: mime_type@,
            },
        }
    }
}

/// The views of prompt content blocks.
pub open spec fn contents_view(v: Seq<PromptContent>) -> Seq<PromptContentView> {
    v.map_values(|c: PromptContent| c@)
}

/// An optional string slice as an optional character sequence.
pub open spec fn opt_str_view(o: Option<&str>) -> Option<Seq<char>> {
    match o {
        Some(c) => Some(c@),
        None => None,
    }
}

/// The error for an image whose file has no absolute path.
pub open spec fn no_uri_message(name: Seq<char>) -> Seq<char> {
    "cannot form file uri for "@ + name
}

/// The result of writing block `i`'s raster to a temporary file, where the
/// caller wrote it.
pub open spec fn spill_at(spilled: Seq<Option<Result<String, String>>>, i: int) -> Option<Result<String, String>> {
    if 0 <= i < spilled.len() { spilled[i] } else { None }
}

/// Whether block `b` has to be written to a temporary file before it can
/// be sent: an image the agent cannot take inline whose own file has no
/// absolute path (a clipboard image, or a relative path with no working
/// directory known).
pub open spec fn needs_spill_spec(b: PromptBlock, prompt_image: bool, workspace: Seq<char>, cwd: Option<Seq<char>>) -> bool {
    b matches PromptBlock::Image(img) && !prompt_image && abs_fs_path_spec(img.path@, workspace, cwd) is None
}

/// The content block for prompt block `b` (the `i`-th): none for empty
/// text; an image inline where the agent takes images, with the URI of its
/// file where it has one; else a link to its file — its own, or the
/// temporary one `spilled` holds for it — which must be absolute. An
/// error of the spill, or a missing or relative file, fails the prompt.
pub open spec fn block_content_spec(
    b: PromptBlock,
    i: int,
    prompt_image: bool,
    workspace: Seq<char>,
    cwd: Option<Seq<char>>,
    spilled: Seq<Option<Result<String, String>>>,
) -> Result<Option<PromptContentView>, Seq<char>> {
    match b {
        PromptBlock::Text(t) => Ok(if t@.len() == 0 { None } else { Some(PromptContentView::Text(t@)) }),
        PromptBlock::Image(img) => {
            let abs = abs_fs_path_spec(img.path@, workspace, cwd);
            if prompt_image {
                Ok(Some(PromptContentView::Image {
                    data: img.data@,
                    media_type: img.media_type@,
                    uri: match abs { Some(a) => Some(file_uri_spec(a)), None => None },
                }))
            } else {
                let file: Result<Seq<char>, Seq<char>> = match abs {
                    Some(a) => Ok(a),
                    None => match spill_at(spilled, i) {
                        Some(Ok(p)) => Ok(p@),
                        Some(Err(e)) => Err(e@),
                        None => Err(no_uri_message(img.name@)),
                    },
                };
                match file {
                    Err(e) => Err(e),
                    Ok(a) => if is_abs_path(a) {
                        Ok(Some(PromptContentView::ResourceLink {
                            name: img.name@,
                            uri: file_uri_spec(a),
                            mime_type: img.media_type@,
                        }))
                    } else {
                        Err(no_uri_message(img.name@))
                    },
                }
            }
        },
    }
}

/// The content blocks of a whole prompt, in order; the first failing
/// block's error fails it.
pub open spec fn contents_spec(
    blocks: Seq<PromptBlock>,
    prompt_image: bool,
    workspace: Seq<char>,
    cwd: Option<Seq<char>>,
    spilled: Seq<Option<Result<String, String>>>,
) -> Result<Seq<PromptContentView>, Seq<char>>
    decreases blocks.len(),
{
    if blocks.len() == 0 {
        Ok(Seq::empty())
    } else {
        match contents_spec(blocks.drop_last(), prompt_image, workspace, cwd, spilled) {
            Err(e) => Err(e),
            Ok(done) => match block_content_spec(blocks.last(), blocks.len() - 1, prompt_image, workspace, cwd, spilled) {
                Err(e) => Err(e),
                Ok(None) => Ok(done),
                Ok(Some(c)) => Ok(done.push(c)),
            },
        }
    }
}

/// Whether a prompt block has to be written to a temporary file before it
/// can be sent (see `needs_spill_spec`).
pub fn needs_spill(block: &PromptBlock, prompt_image: bool, workspace: &str, cwd: Option<&str>) -> (b: bool)
    ensures
        b == needs_spill_spec(*block, prompt_image, workspace@, opt_str_view(cwd)),
{
    match block {
        PromptBlock::Text(_) => false,
        PromptBlock::Image(img) => !prompt_image && abs_fs_path(img.path.as_str(), workspace, cwd).is_none(),
    }
}

/// The error for an image whose file has no absolute path.
fn no_uri_error(name: &str) -> (r: String)
    ensures
        r@ == no_uri_message(name@),
{
    let mut s = String::from_str("cannot form file uri for ");
    proof {
        reveal_strlit("cannot form file uri for ");
    }
    s.append(name);
    s
}

/// The content block for one prompt block (see `block_content_spec`).
fn block_content(
    b: &PromptBlock,
    i: usize,
    prompt_image: bool,
    workspace: &str,
    cwd: Option<&str>,
    spilled: &Vec<Option<Result<String, String>>>,
) -> (r: Result<Option<PromptContent>, String>)
    ensures
        (match r {
            Ok(Some(c)) => Ok(Some(c@)),
            Ok(None) => Ok(None),
            Err(e) => Err(e@),
        }) == block_content_spec(*b, i as int, prompt_image, workspace@, opt_str_view(cwd), spilled@),
{
    match b {
        PromptBlock::Text(t) => {
            if t.unicode_len() == 0 {
                Ok(None)
            } else {
                Ok(Some(PromptContent::Text(t.clone())))
            }
        },
        PromptBlock::Image(img) => {
            let abs = abs_fs_path(img.path.as_str(), workspace, cwd);
            if prompt_image {
                let uri = match &abs {
                    Some(a) => Some(unix_file_uri(a.as_str())),
                    None => None,
                };
                return Ok(Some(PromptContent::Image { data: img.data.clone(), media_type: img.media_type.clone(), uri }));
            }
            let file: String = match abs {
                Some(a) => a,
                None => {
                    let spill: Option<&Option<Result<String, String>>> = spilled.get(i);
                    match spill {
                        Some(Some(Ok(p))) => p.clone(),
                        Some(Some(Err(e))) => {
                            return Err(e.clone());
                        },
                        _ => {
                            return Err(no_uri_error(img.name.as_str()));
                        },
                    }
                },
            };
            let fc = chars_of(file.as_str());
            if !(fc.len() > 0 && fc[0] == '/') {
                return Err(no_uri_error(img.name.as_str()));
            }
            Ok(Some(PromptContent::ResourceLink {
                name: img.name.clone(),
                uri: unix_file_uri(file.as_str()),
                mime_type: img.media_type.clone(),
            }))
        },
    }
}

/// The content blocks of a prompt: each text block that is not empty, and
/// each image inline where the agent takes images (`prompt_image`), else
/// as a link to its file. `spilled` holds, for each block that
/// `needs_spill` names, the result of writing its raster to a temporary
/// file; a spill error, or an image with no absolute file, fails the whole
/// prompt with that error.
pub fn prompt_content_blocks(
    blocks: &Vec<PromptBlock>,
    prompt_image: bool,
    workspace: &str,
    cwd: Option<&str>,
    spilled: &Vec<Option<Result<String, String>>>,
) -> (r: Result<Vec<PromptContent>, String>)
    ensures
        (match r {
            Ok(v) => Ok(contents_view(v@)),
            Err(e) => Err(e@),
        }) == contents_spec(blocks@, prompt_image, workspace@, opt_str_view(cwd), spilled@),
{
    let mut out: Vec<PromptContent> = Vec::new();
    let mut i: usize = 0;
    proof {
        assert(blocks@.subrange(0, 0) =~= Seq::<PromptBlock>::empty());
        assert(contents_view(out@) =~= Seq::<PromptContentView>::empty());
    }
    while i < blocks.len()
        invariant
            i <= blocks@.len(),
            contents_spec(blocks@.subrange(0, i as int), prompt_image, workspace@, opt_str_view(cwd), spilled@) == Ok::<Seq<PromptContentView>, Seq<char>>(contents_view(out@)),
        decreases blocks@.len() - i,
    {
        let ghost pre = blocks@.subrange(0, i as int);
        let ghost cur = blocks@.subrange(0, i + 1);
        proof {
            assert(cur.drop_last() =~= pre);
            assert(cur.last() == blocks@[i as int]);
        }
        match block_content(&blocks[i], i, prompt_image, workspace, cwd, spilled) {
            Err(e) => {
                proof {
                    lemma_contents_error_sticks(blocks@, prompt_image, workspace@, opt_str_view(cwd), spilled@, i as int + 1, e@);
                    assert(blocks@.subrange(0, blocks@.len() as int) =~= blocks@);
                }
                return Err(e);
            },
            Ok(None) => {},
            Ok(Some(c)) => {
                let ghost before = contents_view(out@);
                out.push(c);
                assert(contents_view(out@) =~= before.push(c@));
            },
        }
        i += 1;
    }
    assert(blocks@.subrange(0, blocks@.len() as int) =~= blocks@);
    Ok(out)
}

/// Once a prefix of the prompt fails, every longer prefix fails with the
/// same error.
proof fn lemma_contents_error_sticks(
    blocks: Seq<PromptBlock>,
    prompt_image: bool,
    workspace: Seq<char>,
    cwd: Option<Seq<char>>,
    spilled: Seq<Option<Result<String, String>>>,
    k: int,
    e: Seq<char>,
)
    requires
        0 <= k <= blocks.len(),
        contents_spec(blocks.subrange(0, k), prompt_image, workspace, cwd, spilled) == Err::<Seq<PromptContentView>, Seq<char>>(e),
    ensures
        contents_spec(blocks.subrange(0, blocks.len() as int), prompt_image, workspace, cwd, spilled) == Err::<Seq<PromptContentView>, Seq<char>>(e),
    decreases blocks.len() - k,
{
    if k < blocks.len() {
        let next = blocks.subrange(0, k + 1);
        assert(next.drop_last() =~= blocks.subrange(0, k));
        lemma_contents_error_sticks(blocks, prompt_image, workspace, cwd, spilled, k + 1, e);
    }
}


/// A dynamic plugin row with its strings as character sequences.
#[verifier::ext_equal]
pub struct CordisPluginView {
    pub id: Seq<char>,
    pub name: Seq<char>,
    pub package_id: Seq<char>,
    pub status: Seq<char>,
    pub approval_request_id: Option<Seq<char>>,
}

/// The view of a dynamic plugin row.
pub open spec fn cordis_view(p: CordisPluginItem) -> CordisPluginView {
    CordisPluginView {
        id: p.id@,
        name: p.name@,
        package_id: p.package_id@,
        status: p.status@,
        approval_request_id: crate::text::opt_view(p.approval_request_id),
    }
}

/// `prefix[index]suffix`: where in a plugin list a member is missing.
pub open spec fn row_error(prefix: Seq<char>, index: int, suffix: Seq<char>) -> Seq<char> {
    prefix + "["@ + decimal(index as nat) + "]"@ + suffix
}

/// A string member's text, else the fallback.
pub open spec fn str_or(v: Option<Seq<char>>, d: Seq<char>) -> Seq<char> {
    match v {
        Some(s) => s,
        None => d,
    }
}

/// The package a row runs: its `currentPackageId`, else its active run's
/// `packageId`, else its last package's `packageId`.
pub open spec fn row_package_id(row: Json, packages: Seq<Json>) -> Option<Seq<char>> {
    match as_str(get(row, "currentPackageId"@)) {
        Some(p) => Some(p),
        None => match as_str(get_opt(get(row, "activeRun"@), "packageId"@)) {
            Some(p) => Some(p),
            None => if packages.len() > 0 { as_str(get(packages.last(), "packageId"@)) } else { None },
        },
    }
}

/// A package whose `packageId` is `id`.
pub open spec fn package_is(id: Seq<char>) -> spec_fn(Json) -> bool {
    |p: Json| as_str(get(p, "packageId"@)) == Some(id)
}

/// The latest run of a row, when it is an object.
pub open spec fn latest_run(row: Json) -> Option<Json> {
    let l = get(row, "latestRun"@);
    if is_object(l) { l } else { None }
}

/// One row of the dynamic plugin inventory, or why it is malformed.
pub open spec fn cordis_row_spec(row: Json, index: int) -> Result<CordisPluginView, Seq<char>> {
    match as_str(get(row, "pluginId"@)) {
        None => Err(row_error("plugins"@, index, ".pluginId is missing"@)),
        Some(plugin_id) => match get(row, "packages"@) {
            Some(Json::Array(pk)) => match row_package_id(row, pk@) {
                None => Err(row_error("plugins"@, index, " has no package"@)),
                Some(package_id) => {
                    let package = crate::events::find_first(pk@, package_is(package_id));
                    let latest = latest_run(row);
                    let idle = if is_object(get(row, "activeRun"@)) { "running"@ } else { "stopped"@ };
                    Ok(CordisPluginView {
                        id: plugin_id,
                        name: str_or(as_str(get_opt(package, "name"@)), plugin_id),
                        package_id,
                        status: str_or(as_str(get_opt(latest, "status"@)), idle),
                        approval_request_id: if as_bool(get_opt(latest, "requiresApproval"@)) == Some(true) {
                            as_str(get_opt(latest, "approvalRequestId"@))
                        } else {
                            None
                        },
                    })
                },
            },
            _ => Err(row_error("plugins"@, index, ".packages is missing"@)),
        },
    }
}

/// The first `n` rows of the inventory, or the first malformed row's error.
pub open spec fn cordis_rows_spec(rows: Seq<Json>, n: int) -> Result<Seq<CordisPluginView>, Seq<char>>
    decreases n,
{
    if n <= 0 {
        Ok(Seq::empty())
    } else {
        match cordis_rows_spec(rows, n - 1) {
            Err(e) => Err(e),
            Ok(p) => match cordis_row_spec(rows[n - 1], n - 1) {
                Err(e) => Err(e),
                Ok(item) => Ok(p.push(item)),
            },
        }
    }
}

/// The dynamic plugin inventory of a Cordis `plugins/list` result.
pub open spec fn cordis_plugins_spec(value: Json) -> Result<Seq<CordisPluginView>, Seq<char>> {
    match value {
        Json::Array(rows) => cordis_rows_spec(rows@, rows@.len() as int),
        _ => Err("Cordis plugins/list returned a non-array result"@),
    }
}

fn row_error_text(prefix: &str, index: usize, suffix: &str) -> (s: String)
    ensures
        s@ == row_error(prefix@, index as int, suffix@),
{
    let mut digits: Vec<char> = Vec::new();
    push_decimal(&mut digits, index as u64);
    let mut s = String::from_str(prefix);
    s.append("[");
    s.append(string_of(digits.as_slice()).as_str());
    s.append("]");
    s.append(suffix);
    assert(digits@ =~= decimal(index as nat));
    s
}

fn text_of(v: Option<&Json>) -> (r: Option<String>)
    ensures
        crate::text::opt_view(r) == as_str(deref_opt(v)),
{
    match v {
        Some(Json::String(s)) => Some(s.clone()),
        _ => None,
    }
}

fn find_package<'a>(packages: &'a Vec<Json>, id: &str) -> (r: Option<&'a Json>)
    ensures
        deref_opt(r) == crate::events::find_first(packages@, package_is(id@)),
{
    let mut i: usize = 0;
    assert(packages@.subrange(0, packages@.len() as int) =~= packages@);
    while i < packages.len()
        invariant
            i <= packages@.len(),
            crate::events::find_first(packages@.subrange(i as int, packages@.len() as int), package_is(id@))
                == crate::events::find_first(packages@, package_is(id@)),
        decreases packages@.len() - i,
    {
        let ghost rest = packages@.subrange(i as int, packages@.len() as int);
        assert(rest[0] == packages@[i as int]);
        let hit = match packages[i].get("packageId") {
            Some(Json::String(p)) => str_eq(p.as_str(), id),
            _ => false,
        };
        if hit {
            return Some(&packages[i]);
        }
        assert(packages@.subrange(i + 1, packages@.len() as int) =~= rest.drop_first());
        i += 1;
    }
    assert(packages@.subrange(i as int, packages@.len() as int) =~= Seq::<Json>::empty());
    None
}

fn cordis_row(row: &Json, index: usize) -> (r: Result<CordisPluginItem, String>)
    ensures
        match r {
            Ok(item) => cordis_row_spec(*row, index as int) == Ok::<CordisPluginView, Seq<char>>(cordis_view(item)),
            Err(e) => cordis_row_spec(*row, index as int) == Err::<CordisPluginView, Seq<char>>(e@),
        },
{
    let plugin_id = match text_of(row.get("pluginId")) {
        Some(p) => p,
        None => return Err(row_error_text("plugins", index, ".pluginId is missing")),
    };
    let packages = match row.get("packages") {
        Some(Json::Array(pk)) => pk,
        _ => return Err(row_error_text("plugins", index, ".packages is missing")),
    };
    let package_id = match text_of(row.get("currentPackageId")) {
        Some(p) => p,
        None => match text_of(get_in(row.get("activeRun"), "packageId")) {
            Some(p) => p,
            None => {
                let last = if packages.len() > 0 { text_of(packages[packages.len() - 1].get("packageId")) } else { None };
                match last {
                    Some(p) => p,
                    None => return Err(row_error_text("plugins", index, " has no package")),
                }
            },
        },
    };
    let package = find_package(packages, package_id.as_str());
    let name = match text_of(get_in(package, "name")) {
        Some(n) => n,
        None => plugin_id.clone(),
    };
    let latest = match row.get("latestRun") {
        Some(l) => if l.is_object() { Some(l) } else { None },
        None => None,
    };
    let status = match text_of(get_in(latest, "status")) {
        Some(s) => s,
        None => {
            let active = match row.get("activeRun") {
                Some(a) => a.is_object(),
                None => false,
            };
            if active { String::from_str("running") } else { String::from_str("stopped") }
        },
    };
    let needs_approval = match get_in(latest, "requiresApproval") {
        Some(Json::Bool(true)) => true,
        _ => false,
    };
    let approval_request_id = if needs_approval { text_of(get_in(latest, "approvalRequestId")) } else { None };
    let item = CordisPluginItem { id: plugin_id, name, package_id, status, approval_request_id };
    assert(cordis_row_spec(*row, index as int) == Ok::<CordisPluginView, Seq<char>>(cordis_view(item)));
    Ok(item)
}

/// The views of dynamic plugin rows.
pub open spec fn cordis_views(v: Seq<CordisPluginItem>) -> Seq<CordisPluginView> {
    v.map_values(|p: CordisPluginItem| cordis_view(p))
}

/// The dynamic plugins a Cordis `plugins/list` result lists: per row its
/// id, the running package and its name, the latest run's status, and an
/// approval request when the run awaits one. A non-array result or a row
/// missing its id, packages or package is an error naming it.
pub fn dynamic_plugins_from_value(value: &Json) -> (r: Result<Vec<CordisPluginItem>, String>)
    ensures
        match r {
            Ok(v) => cordis_plugins_spec(*value) == Ok::<Seq<CordisPluginView>, Seq<char>>(cordis_views(v@)),
            Err(e) => cordis_plugins_spec(*value) == Err::<Seq<CordisPluginView>, Seq<char>>(e@),
        },
{
    let rows = match value {
        Json::Array(rows) => rows,
        _ => return Err(String::from_str("Cordis plugins/list returned a non-array result")),
    };
    let mut out: Vec<CordisPluginItem> = Vec::new();
    let mut i: usize = 0;
    assert(cordis_views(out@) =~= Seq::<CordisPluginView>::empty());
    while i < rows.len()
        invariant
            i <= rows@.len(),
            *value == Json::Array(*rows),
            cordis_rows_spec(rows@, i as int) == Ok::<Seq<CordisPluginView>, Seq<char>>(cordis_views(out@)),
        decreases rows@.len() - i,
    {
        match cordis_row(&rows[i], i) {
            Ok(item) => {
                let ghost o = cordis_views(out@);
                out.push(item);
                assert(cordis_views(out@) =~= o.push(cordis_view(item)));
            },
            Err(e) => {
                proof {
                    assert(cordis_rows_spec(rows@, i + 1) == Err::<Seq<CordisPluginView>, Seq<char>>(e@));
                    lemma_rows_error_sticks(rows@, i + 1, rows@.len() as int, e@);
                }
                return Err(e);
            },
        }
        i += 1;
    }
    Ok(out)
}

/// Once a row is malformed, every longer prefix reports that row's error.
proof fn lemma_rows_error_sticks(rows: Seq<Json>, k: int, n: int, e: Seq<char>)
    requires
        k <= n,
        cordis_rows_spec(rows, k) == Err::<Seq<CordisPluginView>, Seq<char>>(e),
    ensures
        cordis_rows_spec(rows, n) == Err::<Seq<CordisPluginView>, Seq<char>>(e),
    decreases n - k,
{
    if k < n {
        assert(k + 1 > 0);
        lemma_rows_error_sticks(rows, k + 1, n, e);
    }
}

/// A static plugin entry with its strings as character sequences.
#[verifier::ext_equal]
pub struct StaticPluginView {
    pub entry_id: Seq<char>,
    pub module_name: Seq<char>,
    pub enabled: bool,
    pub fiber_phase: Option<Seq<char>>,
}

/// The view of a static plugin entry.
pub open spec fn static_view(p: StaticPluginItem) -> StaticPluginView {
    StaticPluginView {
        entry_id: p.entry_id@,
        module_name: p.module_name@,
        enabled: p.enabled,
        fiber_phase: crate::text::opt_view(p.fiber_phase),
    }
}

/// One entry of the static plugin inventory, or the first missing member.
pub open spec fn static_row_spec(row: Json, index: int) -> Result<StaticPluginView, Seq<char>> {
    match as_str(get(row, "entryId"@)) {
        None => Err(row_error("entries"@, index, ".entryId is missing"@)),
        Some(entry_id) => match as_str(get(row, "moduleName"@)) {
            None => Err(row_error("entries"@, index, ".moduleName is missing"@)),
            Some(module_name) => match as_bool(get(row, "enabled"@)) {
                None => Err(row_error("entries"@, index, ".enabled is missing"@)),
                Some(enabled) => Ok(StaticPluginView {
                    entry_id,
                    module_name,
                    enabled,
                    fiber_phase: as_str(get(row, "fiberPhase"@)),
                }),
            },
        },
    }
}

/// The first `n` static entries, or the first malformed entry's error.
pub open spec fn static_rows_spec(rows: Seq<Json>, n: int) -> Result<Seq<StaticPluginView>, Seq<char>>
    decreases n,
{
    if n <= 0 {
        Ok(Seq::empty())
    } else {
        match static_rows_spec(rows, n - 1) {
            Err(e) => Err(e),
            Ok(p) => match static_row_spec(rows[n - 1], n - 1) {
                Err(e) => Err(e),
                Ok(item) => Ok(p.push(item)),
            },
        }
    }
}

/// The static plugin inventory of a `plugins/list` result's `entries`.
pub open spec fn static_plugins_spec(value: Json) -> Result<Seq<StaticPluginView>, Seq<char>> {
    match get(value, "entries"@) {
        Some(Json::Array(rows)) => static_rows_spec(rows@, rows@.len() as int),
        _ => Err("plugins/list returned no entries array"@),
    }
}

proof fn lemma_static_error_sticks(rows: Seq<Json>, k: int, n: int, e: Seq<char>)
    requires
        k <= n,
        static_rows_spec(rows, k) == Err::<Seq<StaticPluginView>, Seq<char>>(e),
    ensures
        static_rows_spec(rows, n) == Err::<Seq<StaticPluginView>, Seq<char>>(e),
    decreases n - k,
{
    if k < n {
        lemma_static_error_sticks(rows, k + 1, n, e);
    }
}

fn static_row(row: &Json, index: usize) -> (r: Result<StaticPluginItem, String>)
    ensures
        match r {
            Ok(item) => static_row_spec(*row, index as int) == Ok::<StaticPluginView, Seq<char>>(static_view(item)),
            Err(e) => static_row_spec(*row, index as int) == Err::<StaticPluginView, Seq<char>>(e@),
        },
{
    let entry_id = match text_of(row.get("entryId")) {
        Some(t) => t,
        None => return Err(row_error_text("entries", index, ".entryId is missing")),
    };
    let module_name = match text_of(row.get("moduleName")) {
        Some(t) => t,
        None => return Err(row_error_text("entries", index, ".moduleName is missing")),
    };
    let enabled = match row.get("enabled") {
        Some(Json::Bool(b)) => *b,
        _ => return Err(row_error_text("entries", index, ".enabled is missing")),
    };
    let fiber_phase = text_of(row.get("fiberPhase"));
    Ok(StaticPluginItem { entry_id, module_name, enabled, fiber_phase })
}

/// The views of static plugin entries.
pub open spec fn static_views(v: Seq<StaticPluginItem>) -> Seq<StaticPluginView> {
    v.map_values(|p: StaticPluginItem| static_view(p))
}

/// The static Host plugins a `plugins/list` result lists under `entries`:
/// each entry's id, module, enabled flag and fiber phase. A missing
/// entries array or a member missing from an entry is an error naming it.
pub fn static_plugins_from_value(value: &Json) -> (r: Result<Vec<StaticPluginItem>, String>)
    ensures
        match r {
            Ok(v) => static_plugins_spec(*value) == Ok::<Seq<StaticPluginView>, Seq<char>>(static_views(v@)),
            Err(e) => static_plugins_spec(*value) == Err::<Seq<StaticPluginView>, Seq<char>>(e@),
        },
{
    let rows = match value.get("entries") {
        Some(Json::Array(rows)) => rows,
        _ => return Err(String::from_str("plugins/list returned no entries array")),
    };
    let mut out: Vec<StaticPluginItem> = Vec::new();
    let mut i: usize = 0;
    assert(static_views(out@) =~= Seq::<StaticPluginView>::empty());
    while i < rows.len()
        invariant
            i <= rows@.len(),
            get(*value, "entries"@) == Some(Json::Array(*rows)),
            static_rows_spec(rows@, i as int) == Ok::<Seq<StaticPluginView>, Seq<char>>(static_views(out@)),
        decreases rows@.len() - i,
    {
        match static_row(&rows[i], i) {
            Ok(item) => {
                let ghost o = static_views(out@);
                out.push(item);
                assert(static_views(out@) =~= o.push(static_view(item)));
            },
            Err(e) => {
                proof {
                    assert(static_rows_spec(rows@, i + 1) == Err::<Seq<StaticPluginView>, Seq<char>>(e@));
                    lemma_static_error_sticks(rows@, i + 1, rows@.len() as int, e@);
                }
                return Err(e);
            },
        }
        i += 1;
    }
    Ok(out)
}

/// What the client knows of one ACP session's advertised surface.
pub struct SessionSurface {
    pub composition_id: Option<String>,
    pub models: Vec<CatalogModel>,
    pub presets: Vec<CatalogPreset>,
    pub skills: Vec<SkillInfo>,
    pub efforts: Vec<String>,
    pub modes: Vec<CatalogPreset>,
}

/// Whether a session surface knows nothing yet.
pub open spec fn blank_surface(s: SessionSurface) -> bool {
    &&& s.composition_id is None
    &&& s.models@.len() == 0
    &&& s.presets@.len() == 0
    &&& s.skills@.len() == 0
    &&& s.efforts@.len() == 0
    &&& s.modes@.len() == 0
}

impl SessionSurface {
    /// A surface that knows nothing yet.
    pub fn new() -> (r: Self)
        ensures
            blank_surface(r),
    {
        SessionSurface {
            composition_id: None,
            models: Vec::new(),
            presets: Vec::new(),
            skills: Vec::new(),
            efforts: Vec::new(),
            modes: Vec::new(),
        }
    }
}

/// The position of the first entry keyed `key`.
pub open spec fn key_index<V>(es: Seq<(String, V)>, key: Seq<char>) -> Option<int>
    decreases es.len(),
{
    if es.len() == 0 {
        None
    } else if es.last().0@ == key {
        match key_index(es.drop_last(), key) {
            Some(i) => Some(i),
            None => Some(es.len() - 1),
        }
    } else {
        key_index(es.drop_last(), key)
    }
}

/// The agent surface the ACP client keeps: per-session surfaces keyed by
/// session id (each id once), a fallback for requests without a session,
/// and the capabilities the agent negotiated.
pub struct Surface {
    /// The per-session surfaces, keyed by session id.
    pub sessions: Vec<(String, SessionSurface)>,
    pub fallback: SessionSurface,
    /// The agent accepts image blocks in prompts.
    pub prompt_image: bool,
    /// The agent negotiated the dsh Cordis extension family.
    pub cordis: bool,
}

impl Surface {
    /// Whether each session id is kept once.
    pub open spec fn wf(self) -> bool {
        forall|i: int, j: int| 0 <= i < j < self.sessions@.len() ==> (#[trigger] self.sessions@[i]).0@ != (#[trigger] self.sessions@[j]).0@
    }

    /// The surface kept for session `key`.
    pub open spec fn entry(self, key: Seq<char>) -> Option<SessionSurface> {
        match key_index(self.sessions@, key) {
            Some(i) => Some(self.sessions@[i].1),
            None => None,
        }
    }

    /// An empty surface.
    pub fn new() -> (r: Self)
        ensures
            r.wf(),
            forall|k: Seq<char>| r.entry(k) is None,
            blank_surface(r.fallback),
            !r.prompt_image && !r.cordis,
    {
        let r = Surface { sessions: Vec::new(), fallback: SessionSurface::new(), prompt_image: false, cordis: false };
        assert forall|k: Seq<char>| r.entry(k) is None by {
            assert(key_index(r.sessions@, k) is None);
        }
        r
    }

    fn find(&self, key: &str) -> (r: Option<usize>)
        ensures
            match r {
                Some(i) => i < self.sessions@.len() && key_index(self.sessions@, key@) == Some(i as int),
                None => key_index(self.sessions@, key@) is None
                    && forall|t: int| 0 <= t < self.sessions@.len() ==> (#[trigger] self.sessions@[t]).0@ != key@,
            },
    {
        let mut j: usize = 0;
        while j < self.sessions.len()
            invariant
                j <= self.sessions@.len(),
                forall|t: int| 0 <= t < j ==> (#[trigger] self.sessions@[t]).0@ != key@,
            decreases self.sessions@.len() - j,
        {
            if str_eq(self.sessions[j].0.as_str(), key) {
                proof {
                    lemma_key_index_first(self.sessions@, key@, j as int);
                }
                return Some(j);
            }
            j += 1;
        }
        proof {
            lemma_key_index_none(self.sessions@, key@);
        }
        None
    }

    /// The surface of session `session_id` (created blank on first use), or
    /// the fallback surface when there is no session.
    pub fn session_mut(&mut self, session_id: Option<&str>) -> (r: &mut SessionSurface)
        requires
            old(self).wf(),
        ensures
            final(self).wf(),
            final(self).prompt_image == old(self).prompt_image,
            final(self).cordis == old(self).cordis,
            match session_id {
                None => {
                    &&& *r == old(self).fallback
                    &&& final(self).fallback == *final(r)
                    &&& forall|k: Seq<char>| final(self).entry(k) == old(self).entry(k)
                },
                Some(id) => {
                    &&& (match old(self).entry(id@) {
                        Some(s) => *r == s,
                        None => blank_surface(*r),
                    })
                    &&& final(self).entry(id@) == Some(*final(r))
                    &&& final(self).fallback == old(self).fallback
                    &&& forall|k: Seq<char>| k != id@ ==> final(self).entry(k) == old(self).entry(k)
                },
            },
    {
        match session_id {
            None => &mut self.fallback,
            Some(id) => {
                let i = match self.find(id) {
                    Some(i) => i,
                    None => {
                        let ghost before = self.sessions@;
                        self.sessions.push((String::from_str(id), SessionSurface::new()));
                        proof {
                            assert(self.sessions@.drop_last() =~= before);
                            assert forall|k: Seq<char>| k != id@ implies key_index(self.sessions@, k) == key_index(before, k) by {}
                        }
                        self.sessions.len() - 1
                    },
                };
                proof {
                    lemma_key_index_update(self.sessions@, i as int);
                    lemma_key_index_sound(self.sessions@);
                }
                &mut self.sessions[i].1
            },
        }
    }
}

/// An entry keyed `key` at `i`, with none after it, is the first one keyed so
/// if none before it is either.
pub proof fn lemma_key_index_first<V>(es: Seq<(String, V)>, key: Seq<char>, j: int)
    requires
        0 <= j < es.len(),
        es[j].0@ == key,
        forall|t: int| 0 <= t < j ==> (#[trigger] es[t]).0@ != key,
    ensures
        key_index(es, key) == Some(j),
    decreases es.len(),
{
    if j < es.len() - 1 {
        lemma_key_index_first(es.drop_last(), key, j);
    } else {
        assert forall|t: int| 0 <= t < es.drop_last().len() implies (#[trigger] es.drop_last()[t]).0@ != key by {
            assert(es.drop_last()[t] == es[t]);
        }
        lemma_key_index_none(es.drop_last(), key);
    }
}

/// Replacing an entry's value keeps every key's index.
pub proof fn lemma_key_index_update<V>(es: Seq<(String, V)>, i: int)
    requires
        0 <= i < es.len(),
    ensures
        forall|v: V, k: Seq<char>| #[trigger] key_index(es.update(i, (es[i].0, v)), k) == key_index(es, k),
    decreases es.len(),
{
    assert forall|v: V, k: Seq<char>| #[trigger] key_index(es.update(i, (es[i].0, v)), k) == key_index(es, k) by {
        let u = es.update(i, (es[i].0, v));
        assert(u.last().0 == es.last().0);
        if i < es.len() - 1 {
            lemma_key_index_update(es.drop_last(), i);
            assert(es.drop_last()[i] == es[i]);
            assert(u.drop_last() =~= es.drop_last().update(i, (es.drop_last()[i].0, v)));
            assert(key_index(u.drop_last(), k) == key_index(es.drop_last(), k));
        } else {
            assert(u.drop_last() =~= es.drop_last());
        }
    }
}

/// The index found for a key holds that key.
pub proof fn lemma_key_index_sound<V>(es: Seq<(String, V)>)
    ensures
        forall|k: Seq<char>| #[trigger] key_index(es, k) is Some ==> 0 <= key_index(es, k).unwrap() < es.len()
            && es[key_index(es, k).unwrap()].0@ == k,
    decreases es.len(),
{
    if es.len() > 0 {
        lemma_key_index_sound(es.drop_last());
        assert forall|k: Seq<char>| #[trigger] key_index(es, k) is Some implies 0 <= key_index(es, k).unwrap() < es.len()
            && es[key_index(es, k).unwrap()].0@ == k by {
            if let Some(j) = key_index(es.drop_last(), k) {
                assert(es.drop_last()[j] == es[j]);
            }
        }
    }
}

/// No entry keyed `key` means no index.
pub proof fn lemma_key_index_none<V>(es: Seq<(String, V)>, key: Seq<char>)
    requires
        forall|t: int| 0 <= t < es.len() ==> (#[trigger] es[t]).0@ != key,
    ensures
        key_index(es, key) is None,
    decreases es.len(),
{
    if es.len() > 0 {
        assert forall|t: int| 0 <= t < es.drop_last().len() implies (#[trigger] es.drop_last()[t]).0@ != key by {
            assert(es.drop_last()[t] == es[t]);
        }
        lemma_key_index_none(es.drop_last(), key);
    }
}


impl Surface {
    /// The surface of session `session_id`, or the fallback when none is kept.
    pub fn session(&self, session_id: &str) -> (r: &SessionSurface)
        ensures
            match self.entry(session_id@) {
                Some(s) => *r == s,
                None => *r == self.fallback,
            },
    {
        match self.find(session_id) {
            Some(i) => &self.sessions[i].1,
            None => &self.fallback,
        }
    }
}

/// What a `configOptions` snapshot tells the UI: the session modes (when a
/// `mode` select is advertised and modes are known) and the catalog.
pub struct ConfigUpdate {
    pub session_modes: Option<(Vec<CatalogPreset>, Option<String>)>,
    pub models: Vec<CatalogModel>,
    pub presets: Vec<CatalogPreset>,
}

/// The value ids of the choices.
pub open spec fn choice_ids(cs: Seq<(Seq<char>, Seq<char>, Seq<char>)>) -> Seq<Seq<char>> {
    cs.map_values(|c: (Seq<char>, Seq<char>, Seq<char>)| c.0)
}

/// The choices as (never broken) presets.
pub open spec fn choice_presets(cs: Seq<(Seq<char>, Seq<char>, Seq<char>)>) -> Seq<CatalogPresetView> {
    cs.map_values(|c: (Seq<char>, Seq<char>, Seq<char>)| CatalogPresetView { id: c.0, name: c.1, description: c.2, broken: false })
}

/// The select named `id` among `configOptions`.
pub open spec fn select_named(options: Json, id: Seq<char>) -> Option<Json> {
    match options {
        Json::Array(a) => find_first(a@, id_is(id)),
        _ => None,
    }
}

/// The reasoning efforts an `effort` select advertises.
pub open spec fn efforts_spec(options: Json) -> Option<Seq<Seq<char>>> {
    match select_named(options, "effort"@) {
        Some(e) => Some(choice_ids(flatten_spec(or_null(get(e, "options"@))))),
        None => None,
    }
}

/// The session modes a `mode` select advertises.
pub open spec fn modes_spec(options: Json) -> Option<Seq<CatalogPresetView>> {
    match select_named(options, "mode"@) {
        Some(m) => Some(choice_presets(flatten_spec(or_null(get(m, "options"@))))),
        None => None,
    }
}

/// The views of strings.
pub open spec fn strings_view(v: Seq<String>) -> Seq<Seq<char>> {
    v.map_values(|s: String| s@)
}

fn clone_models(v: &Vec<CatalogModel>) -> (r: Vec<CatalogModel>)
    ensures
        models_view(r@) == models_view(v@),
{
    let mut out: Vec<CatalogModel> = Vec::new();
    let mut i: usize = 0;
    while i < v.len()
        invariant
            i <= v@.len(),
            models_view(out@) == models_view(v@).subrange(0, i as int),
        decreases v@.len() - i,
    {
        let m = &v[i];
        let c = CatalogModel { provider: m.provider.clone(), id: m.id.clone(), name: m.name.clone(), vision: m.vision };
        let ghost before = out@;
        out.push(c);
        assert(models_view(out@) =~= models_view(before).push(out@.last()@));
        assert(models_view(v@).subrange(0, i + 1) =~= models_view(v@).subrange(0, i as int).push(v@[i as int]@));
        i += 1;
    }
    assert(models_view(v@).subrange(0, v@.len() as int) =~= models_view(v@));
    out
}

fn clone_presets(v: &Vec<CatalogPreset>) -> (r: Vec<CatalogPreset>)
    ensures
        presets_view(r@) == presets_view(v@),
{
    let mut out: Vec<CatalogPreset> = Vec::new();
    let mut i: usize = 0;
    while i < v.len()
        invariant
            i <= v@.len(),
            presets_view(out@) == presets_view(v@).subrange(0, i as int),
        decreases v@.len() - i,
    {
        let p = &v[i];
        let c = CatalogPreset { id: p.id.clone(), name: p.name.clone(), description: p.description.clone(), broken: p.broken };
        let ghost before = out@;
        out.push(c);
        assert(presets_view(out@) =~= presets_view(before).push(out@.last()@));
        assert(presets_view(v@).subrange(0, i + 1) =~= presets_view(v@).subrange(0, i as int).push(v@[i as int]@));
        i += 1;
    }
    assert(presets_view(v@).subrange(0, v@.len() as int) =~= presets_view(v@));
    out
}

fn find_select<'a>(options: &'a Json, id: &str) -> (r: Option<&'a Json>)
    ensures
        deref_opt(r) == select_named(*options, id@),
{
    match options {
        Json::Array(a) => {
            let mut i: usize = 0;
            assert(a@.subrange(0, a@.len() as int) =~= a@);
            while i < a.len()
                invariant
                    i <= a@.len(),
                    *options == Json::Array(*a),
                    find_first(a@.subrange(i as int, a@.len() as int), id_is(id@)) == find_first(a@, id_is(id@)),
                decreases a@.len() - i,
            {
                let ghost rest = a@.subrange(i as int, a@.len() as int);
                assert(rest[0] == a@[i as int]);
                let hit = match a[i].get("id") {
                    Some(Json::String(s)) => str_eq(s.as_str(), id),
                    _ => false,
                };
                if hit {
                    assert(id_is(id@)(rest[0]));
                    return Some(&a[i]);
                }
                assert(!id_is(id@)(rest[0]));
                assert(a@.subrange(i + 1, a@.len() as int) =~= rest.drop_first());
                i += 1;
            }
            assert(a@.subrange(i as int, a@.len() as int) =~= Seq::<Json>::empty());
            None
        },
        _ => None,
    }
}

/// What folding a `configOptions` snapshot does to a session surface and
/// what the UI is told: the catalog's models and presets replace the known
/// ones, the composition select's id is kept when named, an `effort`
/// select's values replace the efforts, a non-empty `mode` select replaces
/// the modes, and the modes are announced with the `mode` select's current
/// value when a `mode` select is advertised and modes are known.
pub open spec fn config_applied(before: SessionSurface, after: SessionSurface, options: Json, r: ConfigUpdate) -> bool {
    &&& models_view(after.models@) == catalog_spec(options).0
    &&& presets_view(after.presets@) == catalog_spec(options).1
    &&& crate::text::opt_view(after.composition_id) == (match catalog_spec(options).2 {
        Some(c) => Some(c),
        None => crate::text::opt_view(before.composition_id),
    })
    &&& strings_view(after.efforts@) == (match efforts_spec(options) {
        Some(e) => e,
        None => strings_view(before.efforts@),
    })
    &&& presets_view(after.modes@) == (match modes_spec(options) {
        Some(m) => if m.len() > 0 { m } else { presets_view(before.modes@) },
        None => presets_view(before.modes@),
    })
    &&& after.skills == before.skills
    &&& models_view(r.models@) == catalog_spec(options).0
    &&& presets_view(r.presets@) == catalog_spec(options).1
    &&& match r.session_modes {
        Some((modes, current)) => select_named(options, "mode"@) is Some && presets_view(after.modes@).len() > 0
            && presets_view(modes@) == presets_view(after.modes@)
            && crate::text::opt_view(current) == current_value(select_named(options, "mode"@).unwrap()),
        None => select_named(options, "mode"@) is None || presets_view(after.modes@).len() == 0,
    }
}

/// What folding an ACP `modes` value does to a session surface: advertised
/// modes replace the known ones, nothing else changes; the modes and the
/// current mode are announced unless the value names neither.
pub open spec fn modes_applied(before: SessionSurface, after: SessionSurface, modes: Json, r: Option<(Vec<CatalogPreset>, Option<String>)>) -> bool {
    let (list, current) = crate::events::session_modes_spec(modes);
    &&& presets_view(after.modes@) == (if list.len() > 0 { list } else { presets_view(before.modes@) })
    &&& after.models == before.models
    &&& after.presets == before.presets
    &&& after.efforts == before.efforts
    &&& after.skills == before.skills
    &&& after.composition_id == before.composition_id
    &&& match r {
        Some((l, c)) => (presets_view(l@), crate::text::opt_view(c)) == (list, current) && (list.len() > 0 || current is Some),
        None => list.len() == 0 && current is None,
    }
}

impl SessionSurface {
    /// Folds a `configOptions` snapshot into the surface: the catalog's
    /// models and presets replace the known ones, the composition select's
    /// id is kept when named, an `effort` select's values replace the
    /// efforts, and a non-empty `mode` select replaces the modes. Returns
    /// what the UI is told: the modes with the `mode` select's current
    /// value (when a `mode` select is advertised and modes are known), and
    /// the catalog.
    pub fn apply_config_options(&mut self, options: &Json) -> (r: ConfigUpdate)
        ensures
            config_applied(*old(self), *final(self), *options, r),
    {
        let (models, presets, composition_id) = catalog_from_config_options(options);
        self.models = clone_models(&models);
        self.presets = clone_presets(&presets);
        if composition_id.is_some() {
            self.composition_id = composition_id;
        }
        if let Some(effort) = find_select(options, "effort") {
            let null = Json::Null;
            let choices = flatten_select_options(match effort.get("options") {
                Some(o) => o,
                None => &null,
            });
            let ghost cv = choices_view(choices@);
            let mut efforts: Vec<String> = Vec::new();
            let mut i: usize = 0;
            while i < choices.len()
                invariant
                    i <= choices@.len(),
                    cv == choices_view(choices@),
                    strings_view(efforts@) == choice_ids(cv).subrange(0, i as int),
                decreases choices@.len() - i,
            {
                let ghost before = efforts@;
                efforts.push(choices[i].0.clone());
                assert(strings_view(efforts@) =~= strings_view(before).push(efforts@.last()@));
                assert(choice_ids(cv).subrange(0, i + 1) =~= choice_ids(cv).subrange(0, i as int).push(cv[i as int].0));
                i += 1;
            }
            assert(choice_ids(cv).subrange(0, choices@.len() as int) =~= choice_ids(cv));
            self.efforts = efforts;
        }
        let mut session_modes: Option<(Vec<CatalogPreset>, Option<String>)> = None;
        if let Some(mode) = find_select(options, "mode") {
            let null = Json::Null;
            let choices = flatten_select_options(match mode.get("options") {
                Some(o) => o,
                None => &null,
            });
            let ghost cv = choices_view(choices@);
            let mut list: Vec<CatalogPreset> = Vec::new();
            let mut i: usize = 0;
            while i < choices.len()
                invariant
                    i <= choices@.len(),
                    cv == choices_view(choices@),
                    presets_view(list@) == choice_presets(cv).subrange(0, i as int),
                decreases choices@.len() - i,
            {
                let c = &choices[i];
                let ghost before = list@;
                list.push(CatalogPreset { id: c.0.clone(), name: c.1.clone(), description: c.2.clone(), broken: false });
                assert(presets_view(list@) =~= presets_view(before).push(list@.last()@));
                assert(choice_presets(cv).subrange(0, i + 1) =~= choice_presets(cv).subrange(0, i as int).push(choice_presets(cv)[i as int]));
                i += 1;
            }
            assert(choice_presets(cv).subrange(0, choices@.len() as int) =~= choice_presets(cv));
            if list.len() > 0 {
                self.modes = list;
            }
            if self.modes.len() > 0 {
                let current = match mode.get("currentValue") {
                    Some(v) => Some(v),
                    None => mode.get("current_value"),
                };
                let current = match current {
                    Some(Json::String(s)) => Some(s.clone()),
                    _ => None,
                };
                session_modes = Some((clone_presets(&self.modes), current));
            }
        }
        ConfigUpdate { session_modes, models, presets }
    }
}

impl Surface {
    /// Folds a `configOptions` snapshot into the surface of session
    /// `session_id` (created blank on first use), or into the fallback
    /// surface when there is no session; see `config_applied`.
    pub fn apply_config_options(&mut self, options: &Json, session_id: Option<&str>) -> (r: ConfigUpdate)
        requires
            old(self).wf(),
        ensures
            final(self).wf(),
            final(self).prompt_image == old(self).prompt_image,
            final(self).cordis == old(self).cordis,
            match session_id {
                None => {
                    &&& config_applied(old(self).fallback, final(self).fallback, *options, r)
                    &&& forall|k: Seq<char>| final(self).entry(k) == old(self).entry(k)
                },
                Some(id) => {
                    &&& final(self).entry(id@) is Some
                    &&& (match old(self).entry(id@) {
                        Some(s) => config_applied(s, final(self).entry(id@).unwrap(), *options, r),
                        None => exists|b: SessionSurface| blank_surface(b) && config_applied(b, final(self).entry(id@).unwrap(), *options, r),
                    })
                    &&& final(self).fallback == old(self).fallback
                    &&& forall|k: Seq<char>| k != id@ ==> final(self).entry(k) == old(self).entry(k)
                },
            },
    {
        let target = self.session_mut(session_id);
        let ghost b = *target;
        let r = target.apply_config_options(options);
        assert(config_applied(b, *target, *options, r));
        r
    }

    /// Folds an ACP `modes` value into the surface of session `session_id`
    /// (created blank on first use when modes are advertised), or into the
    /// fallback surface when there is no session; see `modes_applied`.
    pub fn apply_session_modes(&mut self, modes: &Json, session_id: Option<&str>) -> (r: Option<(Vec<CatalogPreset>, Option<String>)>)
        requires
            old(self).wf(),
        ensures
            final(self).wf(),
            final(self).prompt_image == old(self).prompt_image,
            final(self).cordis == old(self).cordis,
            match session_id {
                None => {
                    &&& modes_applied(old(self).fallback, final(self).fallback, *modes, r)
                    &&& forall|k: Seq<char>| final(self).entry(k) == old(self).entry(k)
                },
                Some(id) => {
                    &&& (match old(self).entry(id@) {
                        Some(s) => final(self).entry(id@) is Some && modes_applied(s, final(self).entry(id@).unwrap(), *modes, r),
                        None => if crate::events::session_modes_spec(*modes).0.len() > 0 {
                            final(self).entry(id@) is Some && exists|b: SessionSurface| blank_surface(b)
                                && modes_applied(b, final(self).entry(id@).unwrap(), *modes, r)
                        } else {
                            final(self).entry(id@) is None && modes_applied(final(self).fallback, final(self).fallback, *modes, r)
                        },
                    })
                    &&& final(self).fallback == old(self).fallback
                    &&& forall|k: Seq<char>| k != id@ ==> final(self).entry(k) == old(self).entry(k)
                },
            },
    {
        let (list, current) = crate::events::session_modes_from_value(modes);
        if list.len() == 0 && current.is_none() {
            return None;
        }
        if list.len() > 0 {
            let target = self.session_mut(session_id);
            target.modes = clone_presets(&list);
        }
        Some((list, current))
    }
}

/// The `configOptions` (or `config_options`) member of a setup or config
/// response.
pub open spec fn options_member(value: Json) -> Option<Json> {
    match get(value, "configOptions"@) {
        Some(o) => Some(o),
        None => get(value, "config_options"@),
    }
}

/// The session a setup response names (`sessionId` or `session_id`), else
/// the hint.
pub open spec fn setup_session(value: Json, hint: Option<Seq<char>>) -> Option<Seq<char>> {
    match as_str(get(value, "sessionId"@)) {
        Some(s) => Some(s),
        None => match as_str(get(value, "session_id"@)) {
            Some(s) => Some(s),
            None => hint,
        },
    }
}

/// What a session setup tells the UI, in order: the catalog update of the
/// advertised config options, the composer facts they carry, and the
/// session modes of an ACP `modes` value.
pub struct SetupUpdate {
    pub config: Option<ConfigUpdate>,
    pub ui_events: Vec<UiEvent>,
    pub modes: Option<Option<(Vec<CatalogPreset>, Option<String>)>>,
}

/// Two surfaces that differ at most in their modes, the second knowing none.
pub open spec fn modes_cleared(before: SessionSurface, after: SessionSurface) -> bool {
    &&& after.modes@.len() == 0
    &&& after.models == before.models
    &&& after.presets == before.presets
    &&& after.skills == before.skills
    &&& after.efforts == before.efforts
    &&& after.composition_id == before.composition_id
}

/// What a setup response does to the session's surface: its modes are
/// forgotten, then its config options and its `modes` value are folded in.
pub open spec fn setup_applied(before: SessionSurface, after: SessionSurface, value: Json, r: SetupUpdate) -> bool {
    exists|c: SessionSurface, m: SessionSurface| #[trigger] modes_cleared(before, c) && #[trigger] setup_steps(c, m, after, value, r)
}

/// The two folds of a setup response, from the surface with its modes
/// forgotten (`c`) through the config options (to `m`) and the `modes`
/// value (to `after`); a fold the response does not call for changes
/// nothing.
pub open spec fn setup_steps(c: SessionSurface, m: SessionSurface, after: SessionSurface, value: Json, r: SetupUpdate) -> bool {
    &&& match (options_member(value), r.config) {
        (Some(o), Some(u)) => config_applied(c, m, o, u),
        (None, None) => m == c,
        _ => false,
    }
    &&& match (get(value, "modes"@), r.modes) {
        (Some(md), Some(mr)) => modes_applied(m, after, md, mr),
        (None, None) => after == m,
        _ => false,
    }
}

impl SessionSurface {
    /// Folds an ACP `modes` value into this surface; see `modes_applied`.
    fn fold_session_modes(&mut self, modes: &Json) -> (r: Option<(Vec<CatalogPreset>, Option<String>)>)
        ensures
            modes_applied(*old(self), *final(self), *modes, r),
    {
        let (list, current) = crate::events::session_modes_from_value(modes);
        if list.len() == 0 && current.is_none() {
            return None;
        }
        if list.len() > 0 {
            self.modes = clone_presets(&list);
        }
        Some((list, current))
    }
}

impl Surface {
    /// Folds a session setup response (`session/new`, `session/load`) into
    /// the surface of the session it names (or of `session_hint`, or the
    /// fallback surface): forgets the known modes, then folds the config
    /// options and the `modes` value; see `setup_applied`. The composer
    /// facts are only told for a known session.
    pub fn apply_setup(&mut self, value: &Json, session_hint: Option<&str>) -> (r: SetupUpdate)
        requires
            old(self).wf(),
        ensures
            final(self).wf(),
            final(self).prompt_image == old(self).prompt_image,
            final(self).cordis == old(self).cordis,
            events_view(r.ui_events@) == (match (setup_session(*value, crate::app::str_opt_view(session_hint)), options_member(*value)) {
                (Some(s), Some(o)) => config_events_spec(s, o),
                _ => Seq::empty(),
            }),
            match setup_session(*value, crate::app::str_opt_view(session_hint)) {
                None => {
                    &&& setup_applied(old(self).fallback, final(self).fallback, *value, r)
                    &&& forall|k: Seq<char>| final(self).entry(k) == old(self).entry(k)
                },
                Some(id) => {
                    &&& final(self).entry(id) is Some
                    &&& (match old(self).entry(id) {
                        Some(s) => setup_applied(s, final(self).entry(id).unwrap(), *value, r),
                        None => exists|b: SessionSurface| blank_surface(b) && setup_applied(b, final(self).entry(id).unwrap(), *value, r),
                    })
                    &&& final(self).fallback == old(self).fallback
                    &&& forall|k: Seq<char>| k != id ==> final(self).entry(k) == old(self).entry(k)
                },
            },
    {
        proof {
            reveal_strlit("sessionId");
            reveal_strlit("session_id");
            reveal_strlit("configOptions");
            reveal_strlit("config_options");
            reveal_strlit("modes");
        }
        let first = match value.get("sessionId") {
            Some(v) => v.as_str(),
            None => None,
        };
        let named = match first {
            Some(s) => Some(s),
            None => match value.get("session_id") {
                Some(v) => v.as_str(),
                None => None,
            },
        };
        assert(crate::app::str_opt_view(named) == match as_str(get(*value, "sessionId"@)) {
            Some(s) => Some(s),
            None => as_str(get(*value, "session_id"@)),
        });
        let session = match named {
            Some(s) => Some(s),
            None => session_hint,
        };
        let target = self.session_mut(session);
        let ghost b = *target;
        target.modes = Vec::new();
        let ghost c = *target;
        let options = match value.get("configOptions") {
            Some(o) => Some(o),
            None => value.get("config_options"),
        };
        let config = match options {
            Some(o) => Some(target.apply_config_options(o)),
            None => None,
        };
        let ghost m = *target;
        let modes = match value.get("modes") {
            Some(md) => Some(target.fold_session_modes(md)),
            None => None,
        };
        let ui_events = match (session, options) {
            (Some(s), Some(o)) => config_option_events(String::from_str(s), o),
            _ => Vec::new(),
        };
        let r = SetupUpdate { config, ui_events, modes };
        assert(modes_cleared(b, c));
        assert(setup_steps(c, m, *target, *value, r));
        assert(setup_applied(b, *target, *value, r));
        r
    }

    /// Folds the config options a `session/set_config_option` response
    /// carries into session `session`'s surface; returns them with what the
    /// UI is told, none when the response carries none.
    pub fn apply_config_response<'a>(&mut self, value: &'a Json, session: &str) -> (r: Option<(&'a Json, ConfigUpdate, Vec<UiEvent>)>)
        requires
            old(self).wf(),
        ensures
            final(self).wf(),
            match options_member(*value) {
                None => r is None && *final(self) == *old(self),
                Some(o) => r matches Some((opts, update, events)) && *opts == o
                    && events_view(events@) == config_events_spec(session@, o)
                    && final(self).entry(session@) is Some
                    && (match old(self).entry(session@) {
                        Some(s) => config_applied(s, final(self).entry(session@).unwrap(), o, update),
                        None => exists|b: SessionSurface| blank_surface(b) && config_applied(b, final(self).entry(session@).unwrap(), o, update),
                    })
                    && final(self).fallback == old(self).fallback
                    && forall|k: Seq<char>| k != session@ ==> final(self).entry(k) == old(self).entry(k),
            },
    {
        proof {
            reveal_strlit("configOptions");
            reveal_strlit("config_options");
        }
        let options = match value.get("configOptions") {
            Some(o) => o,
            None => match value.get("config_options") {
                Some(o) => o,
                None => return None,
            },
        };
        let update = self.apply_config_options(options, Some(session));
        let events = config_option_events(String::from_str(session), options);
        Some((options, update, events))
    }
}

// ----- prompt routing -----

/// Where the entry keyed `key` stands.
pub fn find_key<V>(es: &Vec<(String, V)>, key: &str) -> (r: Option<usize>)
    ensures
        match r {
            Some(i) => i < es@.len() && key_index(es@, key@) == Some(i as int),
            None => key_index(es@, key@) is None && forall|t: int| 0 <= t < es@.len() ==> (#[trigger] es@[t]).0@ != key@,
        },
{
    let mut j: usize = 0;
    while j < es.len()
        invariant
            j <= es@.len(),
            forall|t: int| 0 <= t < j ==> (#[trigger] es@[t]).0@ != key@,
        decreases es@.len() - j,
    {
        if str_eq(es[j].0.as_str(), key) {
            proof {
                lemma_key_index_first(es@, key@, j as int);
            }
            return Some(j);
        }
        j += 1;
    }
    proof {
        lemma_key_index_none(es@, key@);
    }
    None
}

/// A prompt stalled on authentication: its text, or its blocks.
pub enum ParkedPromptKind {
    Text(String),
    Images(Vec<PromptBlock>),
}

/// A stalled prompt with the session that owned it (none when it was sent
/// before any session existed).
pub struct ParkedPrompt {
    pub session: Option<String>,
    pub kind: ParkedPromptKind,
}

/// One session's prompt state: the generation of its in-flight turn, the
/// prompts waiting for that turn to settle, and whether the turn was
/// cancelled.
pub struct SessionHandle {
    pub inflight: Option<u64>,
    pub queue: VecDeque<Cmd>,
    pub turn_aborted: bool,
}

/// The connection's prompt routing: each bound session's handle (each id
/// once), the session commands fall back to, prompts waiting for the first
/// session, and prompts stalled on authentication.
pub struct PromptQueues {
    pub sessions: Vec<(String, SessionHandle)>,
    pub current: Option<String>,
    pub pending: VecDeque<Cmd>,
    pub parked: VecDeque<ParkedPrompt>,
}

/// The queues by session id.
pub open spec fn queue_map(es: Seq<(String, SessionHandle)>) -> Map<Seq<char>, Seq<Cmd>> {
    Map::new(|k: Seq<char>| key_index(es, k) is Some, |k: Seq<char>| es[key_index(es, k).unwrap()].1.queue@)
}

/// The prompt a parked entry becomes when it is retried for `sid`.
pub open spec fn retry_cmd(sid: String, kind: ParkedPromptKind) -> Cmd {
    match kind {
        ParkedPromptKind::Text(text) => Cmd::Prompt { session_id: sid, text },
        ParkedPromptKind::Images(blocks) => Cmd::PromptImages { session_id: sid, blocks },
    }
}

/// Retrying the parked prompts in order: an entry goes to the front of its
/// session's queue while that session is still bound, and is dropped once
/// the session was closed; an entry sent before any session adopts the
/// fallback session (its queue created when missing), or stays parked when
/// there is none. Gives the queues, what stays parked, and how many were
/// retried.
pub open spec fn requeue_fold(qs: Map<Seq<char>, Seq<Cmd>>, current: Option<String>, ps: Seq<ParkedPrompt>) -> (Map<Seq<char>, Seq<Cmd>>, Seq<ParkedPrompt>, nat)
    decreases ps.len(),
{
    if ps.len() == 0 {
        (qs, Seq::empty(), 0)
    } else {
        let (q1, s1, n1) = requeue_fold(qs, current, ps.drop_last());
        let p = ps.last();
        match p.session {
            Some(sid) => if q1.contains_key(sid@) {
                (q1.insert(sid@, seq![retry_cmd(sid, p.kind)] + q1[sid@]), s1, n1 + 1)
            } else {
                (q1, s1, n1)
            },
            None => match current {
                Some(c) => (
                    q1.insert(c@, seq![retry_cmd(c, p.kind)] + (if q1.contains_key(c@) { q1[c@] } else { Seq::empty() })),
                    s1,
                    n1 + 1,
                ),
                None => (q1, s1.push(p), n1),
            },
        }
    }
}

/// The session a command addresses: the fallback session for an empty id;
/// the id itself when bound; no session while none is bound (an id sent
/// before then is a local placeholder); otherwise an error naming the
/// command.
pub open spec fn resolve_spec(sessions: Seq<(String, SessionHandle)>, current: Option<String>, cmd_session: Seq<char>, kind: Seq<char>) -> Result<Option<Seq<char>>, Seq<char>> {
    if cmd_session.len() == 0 {
        Ok(crate::text::opt_view(current))
    } else if key_index(sessions, cmd_session) is Some {
        Ok(Some(cmd_session))
    } else if sessions.len() == 0 {
        Ok(None)
    } else {
        Err(kind + ": unknown session "@ + cmd_session)
    }
}

/// Points a prompt-like command at a freshly bound session.
pub fn retarget_session(cmd: &mut Cmd, sid: &str)
    ensures
        match *old(cmd) {
            Cmd::Prompt { text, .. } => *final(cmd) matches Cmd::Prompt { session_id, text: t } && session_id@ == sid@ && t == text,
            Cmd::Steer { message_id, text, .. } => *final(cmd) matches Cmd::Steer { session_id, message_id: m, text: t }
                && session_id@ == sid@ && m == message_id && t == text,
            Cmd::PromptImages { blocks, .. } => *final(cmd) matches Cmd::PromptImages { session_id, blocks: b } && session_id@ == sid@ && b == blocks,
            Cmd::SteerImages { message_id, blocks, .. } => *final(cmd) matches Cmd::SteerImages { session_id, message_id: m, blocks: b }
                && session_id@ == sid@ && m == message_id && b == blocks,
            _ => *final(cmd) == *old(cmd),
        },
{
    match cmd {
        Cmd::Prompt { session_id, .. } => {
            *session_id = String::from_str(sid);
        },
        Cmd::Steer { session_id, .. } => {
            *session_id = String::from_str(sid);
        },
        Cmd::PromptImages { session_id, .. } => {
            *session_id = String::from_str(sid);
        },
        Cmd::SteerImages { session_id, .. } => {
            *session_id = String::from_str(sid);
        },
        _ => {},
    }
}

/// A copy of prompt blocks.
fn copy_blocks(v: &Vec<PromptBlock>) -> (r: Vec<PromptBlock>)
    ensures
        r@ == v@,
{
    let mut out: Vec<PromptBlock> = Vec::new();
    let mut i: usize = 0;
    while i < v.len()
        invariant
            i <= v@.len(),
            out@ == v@.subrange(0, i as int),
        decreases v@.len() - i,
    {
        let b = match &v[i] {
            PromptBlock::Text(t) => PromptBlock::Text(t.clone()),
            PromptBlock::Image(img) => PromptBlock::Image(crate::bus::ImagePart {
                data: img.data.clone(),
                media_type: img.media_type.clone(),
                name: img.name.clone(),
                path: img.path.clone(),
            }),
        };
        out.push(b);
        i += 1;
        assert(out@ =~= v@.subrange(0, i as int));
    }
    assert(v@.subrange(0, v@.len() as int) =~= v@);
    out
}

/// What of a prompt-like command is kept when it stalls on authentication.
pub fn parked_prompt(cmd: &Cmd) -> (r: Option<ParkedPromptKind>)
    ensures
        match *cmd {
            Cmd::Prompt { text, .. } => r matches Some(ParkedPromptKind::Text(t)) && t == text,
            Cmd::Steer { text, .. } => r matches Some(ParkedPromptKind::Text(t)) && t == text,
            Cmd::PromptImages { blocks, .. } => r matches Some(ParkedPromptKind::Images(b)) && b@ == blocks@,
            Cmd::SteerImages { blocks, .. } => r matches Some(ParkedPromptKind::Images(b)) && b@ == blocks@,
            _ => r is None,
        },
{
    match cmd {
        Cmd::Prompt { text, .. } | Cmd::Steer { text, .. } => Some(ParkedPromptKind::Text(text.clone())),
        Cmd::PromptImages { blocks, .. } | Cmd::SteerImages { blocks, .. } => Some(ParkedPromptKind::Images(copy_blocks(blocks))),
        _ => None,
    }
}

/// The text of a text prompt or steer.
pub open spec fn cmd_text(cmd: Cmd) -> Option<String> {
    match cmd {
        Cmd::Prompt { text, .. } => Some(text),
        Cmd::Steer { text, .. } => Some(text),
        _ => None,
    }
}

/// The blocks of an image prompt or steer.
pub open spec fn cmd_blocks(cmd: Cmd) -> Option<Seq<PromptBlock>> {
    match cmd {
        Cmd::PromptImages { blocks, .. } => Some(blocks@),
        Cmd::SteerImages { blocks, .. } => Some(blocks@),
        _ => None,
    }
}

/// How a prompt command starts: it is no prompt; it parks until a session
/// exists (the caller asks the user to sign in); it goes to the session
/// with its content blocks (and the payload kept should it stall on
/// authentication); or it fails for the session that asked.
pub enum PromptStart {
    Ignore,
    Park(ParkedPromptKind),
    Send { session_id: String, content: Vec<PromptContent>, payload: ParkedPromptKind },
    Fail { session_id: String, message: String },
}

/// Starts a prompt, steer, or image prompt or steer, on the connection's
/// `session`: without one it parks; a text goes as one text block; images
/// go as `prompt_content_blocks` makes them, an empty result failing with
/// `empty image prompt` and a content error failing with its message, both
/// for the session that asked. Other commands are no prompts.
pub fn plan_prompt(
    cmd: &Cmd,
    session: Option<&str>,
    prompt_image: bool,
    workspace: &str,
    cwd: Option<&str>,
    spilled: &Vec<Option<Result<String, String>>>,
) -> (r: PromptStart)
    ensures
        cmd_text(*cmd) is None && cmd_blocks(*cmd) is None ==> r is Ignore,
        session is None && cmd_text(*cmd) is Some ==> (r matches PromptStart::Park(ParkedPromptKind::Text(x)) && Some(x) == cmd_text(*cmd)),
        session is None && cmd_blocks(*cmd) is Some ==> (r matches PromptStart::Park(ParkedPromptKind::Images(x)) && Some(x@) == cmd_blocks(*cmd)),
        session is Some && cmd_text(*cmd) is Some ==> {
            &&& r matches PromptStart::Send { session_id, content, payload }
            &&& Some(session_id@) == opt_str_view(session)
            &&& contents_view(content@) == seq![PromptContentView::Text(cmd_text(*cmd).unwrap()@)]
            &&& payload matches ParkedPromptKind::Text(x) && Some(x) == cmd_text(*cmd)
        },
        session is Some && cmd_blocks(*cmd) is Some ==> match contents_spec(cmd_blocks(*cmd).unwrap(), prompt_image, workspace@, opt_str_view(cwd), spilled@) {
            Ok(c) => if c.len() > 0 {
                &&& r matches PromptStart::Send { session_id, content, payload }
                &&& Some(session_id@) == opt_str_view(session)
                &&& contents_view(content@) == c
                &&& payload matches ParkedPromptKind::Images(x) && Some(x@) == cmd_blocks(*cmd)
            } else {
                &&& r matches PromptStart::Fail { session_id, message }
                &&& Some(session_id@) == opt_str_view(session)
                &&& message@ == "empty image prompt"@
            },
            Err(e) => {
                &&& r matches PromptStart::Fail { session_id, message }
                &&& Some(session_id@) == opt_str_view(session)
                &&& message@ == e
            },
        },
{
    let kind = match parked_prompt(cmd) {
        Some(k) => k,
        None => {
            return PromptStart::Ignore;
        },
    };
    let sid = match session {
        Some(s) => s,
        None => {
            return PromptStart::Park(kind);
        },
    };
    match kind {
        ParkedPromptKind::Text(text) => {
            let mut content: Vec<PromptContent> = Vec::new();
            content.push(PromptContent::Text(text.clone()));
            assert(contents_view(content@) =~= seq![PromptContentView::Text(text@)]);
            PromptStart::Send { session_id: sid.to_string(), content, payload: ParkedPromptKind::Text(text) }
        },
        ParkedPromptKind::Images(blocks) => {
            match prompt_content_blocks(&blocks, prompt_image, workspace, cwd, spilled) {
                Ok(content) => {
                    if content.len() > 0 {
                        PromptStart::Send { session_id: sid.to_string(), content, payload: ParkedPromptKind::Images(blocks) }
                    } else {
                        PromptStart::Fail { session_id: sid.to_string(), message: "empty image prompt".to_string() }
                    }
                },
                Err(e) => PromptStart::Fail { session_id: sid.to_string(), message: e },
            }
        },
    }
}

impl PromptQueues {
    /// Each session id is bound once.
    pub open spec fn wf(self) -> bool {
        forall|i: int, j: int| 0 <= i < j < self.sessions@.len() ==> (#[trigger] self.sessions@[i]).0@ != (#[trigger] self.sessions@[j]).0@
    }

    /// The handle of session `id`.
    pub open spec fn handle(self, id: Seq<char>) -> Option<SessionHandle> {
        match key_index(self.sessions@, id) {
            Some(i) => Some(self.sessions@[i].1),
            None => None,
        }
    }

    /// No session, no prompts.
    pub fn new() -> (r: Self)
        ensures
            r.wf(),
            r.sessions@.len() == 0,
            r.current is None,
            r.pending@.len() == 0,
            r.parked@.len() == 0,
    {
        PromptQueues { sessions: Vec::new(), current: None, pending: VecDeque::new(), parked: VecDeque::new() }
    }

    /// The session a command addresses; see `resolve_spec`.
    pub fn resolve_cmd_session(&self, cmd_session: &str, kind: &str) -> (r: Result<Option<String>, String>)
        ensures
            match r {
                Ok(s) => resolve_spec(self.sessions@, self.current, cmd_session@, kind@) == Ok::<Option<Seq<char>>, Seq<char>>(crate::text::opt_view(s)),
                Err(e) => resolve_spec(self.sessions@, self.current, cmd_session@, kind@) == Err::<Option<Seq<char>>, Seq<char>>(e@),
            },
    {
        if cmd_session.unicode_len() == 0 {
            return Ok(crate::text::clone_opt(&self.current));
        }
        if find_key(&self.sessions, cmd_session).is_some() {
            return Ok(Some(String::from_str(cmd_session)));
        }
        if self.sessions.len() == 0 {
            return Ok(None);
        }
        let mut e = String::from_str(kind);
        e.append(": unknown session ");
        e.append(cmd_session);
        Err(e)
    }

    /// Binds session `sid`: its handle (created idle when new) takes the
    /// prompts that waited for a session, after its own, and it becomes the
    /// fallback session.
    pub fn bind_session(&mut self, sid: String)
        requires
            old(self).wf(),
        ensures
            final(self).wf(),
            final(self).current == Some(sid),
            final(self).pending@.len() == 0,
            final(self).parked == old(self).parked,
            final(self).handle(sid@) matches Some(h) && h.queue@ == (match old(self).handle(sid@) {
                Some(h0) => h0.queue@,
                None => Seq::empty(),
            }) + old(self).pending@ && (match old(self).handle(sid@) {
                Some(h0) => h.inflight == h0.inflight && h.turn_aborted == h0.turn_aborted,
                None => h.inflight is None && !h.turn_aborted,
            }),
            forall|k: Seq<char>| k != sid@ ==> final(self).handle(k) == old(self).handle(k),
    {
        let i = match find_key(&self.sessions, sid.as_str()) {
            Some(i) => i,
            None => {
                let ghost before = self.sessions@;
                self.sessions.push((sid.clone(), SessionHandle { inflight: None, queue: VecDeque::new(), turn_aborted: false }));
                proof {
                    assert(self.sessions@.drop_last() =~= before);
                    assert forall|k: Seq<char>| k != sid@ implies key_index(self.sessions@, k) == key_index(before, k) by {}
                    assert forall|a: int, b: int| 0 <= a < b < self.sessions@.len() implies (#[trigger] self.sessions@[a]).0@ != (#[trigger] self.sessions@[b]).0@ by {
                        if b == self.sessions@.len() - 1 {
                            assert(self.sessions@[a] == before[a]);
                        } else {
                            assert(self.sessions@[a] == before[a]);
                            assert(self.sessions@[b] == before[b]);
                        }
                    }
                }
                self.sessions.len() - 1
            },
        };
        proof {
            lemma_key_index_update(self.sessions@, i as int);
            lemma_key_index_sound(self.sessions@);
        }
        let ghost s0 = self.sessions@;
        let mut pending: VecDeque<Cmd> = VecDeque::new();
        std::mem::swap(&mut pending, &mut self.pending);
        self.sessions[i].1.queue.append(&mut pending);
        proof {
            assert(self.sessions@ == s0.update(i as int, (s0[i as int].0, self.sessions@[i as int].1)));
            assert forall|a: int, b: int| 0 <= a < b < self.sessions@.len() implies (#[trigger] self.sessions@[a]).0@ != (#[trigger] self.sessions@[b]).0@ by {
                assert(self.sessions@[a].0 == s0[a].0);
                assert(self.sessions@[b].0 == s0[b].0);
            }
        }
        self.current = Some(sid);
    }
}

/// The handle of session `k` among `es`.
pub open spec fn handle_in(es: Seq<(String, SessionHandle)>, k: Seq<char>) -> Option<SessionHandle> {
    match key_index(es, k) {
        Some(i) => Some(es[i].1),
        None => None,
    }
}

/// From `a` to `b` no session was forgotten and no turn state changed;
/// sessions new in `b` are idle.
pub open spec fn keeps_turns(a: Seq<(String, SessionHandle)>, b: Seq<(String, SessionHandle)>) -> bool {
    &&& forall|k: Seq<char>| #[trigger] handle_in(a, k) is Some ==> handle_in(b, k) is Some
    &&& forall|k: Seq<char>| #[trigger] handle_in(b, k) is Some ==> turn_kept(handle_in(b, k).unwrap(), handle_in(a, k))
}

/// A handle whose turn state is the earlier handle's, or idle when new.
pub open spec fn turn_kept(h: SessionHandle, before: Option<SessionHandle>) -> bool {
    match before {
        Some(h0) => h.inflight == h0.inflight && h.turn_aborted == h0.turn_aborted,
        None => h.inflight is None && !h.turn_aborted,
    }
}

proof fn lemma_keeps_turns_trans(a: Seq<(String, SessionHandle)>, b: Seq<(String, SessionHandle)>, c: Seq<(String, SessionHandle)>)
    requires
        keeps_turns(a, b),
        keeps_turns(b, c),
    ensures
        keeps_turns(a, c),
{
    assert forall|k: Seq<char>| #[trigger] handle_in(c, k) is Some implies turn_kept(handle_in(c, k).unwrap(), handle_in(a, k)) by {
        if handle_in(a, k) is Some {
            assert(handle_in(b, k) is Some);
        }
    }
}

impl PromptQueues {
    /// Puts `cmd` at the front of session `sid`'s queue, creating an idle
    /// handle when the session has none.
    fn push_front_to(&mut self, sid: String, cmd: Cmd)
        requires
            old(self).wf(),
        ensures
            final(self).wf(),
            queue_map(final(self).sessions@) == queue_map(old(self).sessions@).insert(sid@, seq![cmd] + (if queue_map(old(self).sessions@).contains_key(sid@) {
                queue_map(old(self).sessions@)[sid@]
            } else {
                Seq::empty()
            })),
            keeps_turns(old(self).sessions@, final(self).sessions@),
            final(self).current == old(self).current,
            final(self).pending == old(self).pending,
            final(self).parked == old(self).parked,
    {
        let ghost s0 = self.sessions@;
        proof {
            lemma_key_index_sound(s0);
        }
        match find_key(&self.sessions, sid.as_str()) {
            Some(i) => {
                let ghost q0 = self.sessions@[i as int].1.queue@;
                self.sessions[i].1.queue.push_front(cmd);
                proof {
                    let s1 = self.sessions@;
                    assert(s1 == s0.update(i as int, (s0[i as int].0, s1[i as int].1)));
                    lemma_key_index_update(s0, i as int);
                    assert forall|k: Seq<char>| key_index(s1, k) == key_index(s0, k) by {}
                    assert(s1[i as int].1.queue@ =~= seq![cmd] + q0);
                    assert forall|a: int, b: int| 0 <= a < b < s1.len() implies (#[trigger] s1[a]).0@ != (#[trigger] s1[b]).0@ by {
                        assert(s1[a].0 == s0[a].0);
                        assert(s1[b].0 == s0[b].0);
                    }
                    assert forall|k: Seq<char>| #[trigger] key_index(s1, k) == Some(i as int) implies k == sid@ by {}
                    assert(queue_map(s1) =~= queue_map(s0).insert(sid@, seq![cmd] + queue_map(s0)[sid@]));
                    assert forall|k: Seq<char>| #[trigger] handle_in(s1, k) is Some implies turn_kept(handle_in(s1, k).unwrap(), handle_in(s0, k)) by {}
                }
            },
            None => {
                let mut q: VecDeque<Cmd> = VecDeque::new();
                q.push_back(cmd);
                self.sessions.push((sid, SessionHandle { inflight: None, queue: q, turn_aborted: false }));
                proof {
                    let s1 = self.sessions@;
                    assert(s1.drop_last() =~= s0);
                    assert forall|k: Seq<char>| k != sid@ implies key_index(s1, k) == key_index(s0, k) by {}
                    lemma_key_index_first(s1, sid@, s1.len() - 1);
                    assert forall|a: int, b: int| 0 <= a < b < s1.len() implies (#[trigger] s1[a]).0@ != (#[trigger] s1[b]).0@ by {
                        assert(s1[a] == s0[a]);
                        if b < s1.len() - 1 {
                            assert(s1[b] == s0[b]);
                        }
                    }
                    assert(!queue_map(s0).contains_key(sid@));
                    assert(queue_map(s1) =~= queue_map(s0).insert(sid@, seq![cmd] + Seq::<Cmd>::empty()));
                    assert forall|k: Seq<char>| #[trigger] handle_in(s1, k) is Some implies turn_kept(handle_in(s1, k).unwrap(), handle_in(s0, k)) by {
                        if k != sid@ {
                            if let Some(j) = key_index(s0, k) {
                                assert(s1[j] == s0[j]);
                            }
                        }
                    }
                    assert forall|k: Seq<char>| #[trigger] handle_in(s0, k) is Some implies handle_in(s1, k) is Some by {
                        if k == sid@ {
                        } else {
                        }
                    }
                }
            },
        }
    }

    /// Puts `cmd` at the back of session `sid`'s queue, creating an idle
    /// handle when the session has none.
    fn push_back_to(&mut self, sid: String, cmd: Cmd)
        requires
            old(self).wf(),
        ensures
            final(self).wf(),
            queue_map(final(self).sessions@) == queue_map(old(self).sessions@).insert(sid@, (if queue_map(old(self).sessions@).contains_key(sid@) {
                queue_map(old(self).sessions@)[sid@]
            } else {
                Seq::empty()
            }).push(cmd)),
            keeps_turns(old(self).sessions@, final(self).sessions@),
            final(self).current == old(self).current,
            final(self).pending == old(self).pending,
            final(self).parked == old(self).parked,
    {
        let ghost s0 = self.sessions@;
        proof {
            lemma_key_index_sound(s0);
        }
        match find_key(&self.sessions, sid.as_str()) {
            Some(i) => {
                let ghost q0 = self.sessions@[i as int].1.queue@;
                self.sessions[i].1.queue.push_back(cmd);
                proof {
                    let s1 = self.sessions@;
                    assert(s1 == s0.update(i as int, (s0[i as int].0, s1[i as int].1)));
                    lemma_key_index_update(s0, i as int);
                    assert forall|k: Seq<char>| key_index(s1, k) == key_index(s0, k) by {}
                    assert(s1[i as int].1.queue@ =~= q0.push(cmd));
                    assert forall|a: int, b: int| 0 <= a < b < s1.len() implies (#[trigger] s1[a]).0@ != (#[trigger] s1[b]).0@ by {
                        assert(s1[a].0 == s0[a].0);
                        assert(s1[b].0 == s0[b].0);
                    }
                    assert forall|k: Seq<char>| #[trigger] key_index(s1, k) == Some(i as int) implies k == sid@ by {}
                    assert(queue_map(s1) =~= queue_map(s0).insert(sid@, queue_map(s0)[sid@].push(cmd)));
                    assert forall|k: Seq<char>| #[trigger] handle_in(s1, k) is Some implies turn_kept(handle_in(s1, k).unwrap(), handle_in(s0, k)) by {}
                }
            },
            None => {
                let mut q: VecDeque<Cmd> = VecDeque::new();
                q.push_back(cmd);
                self.sessions.push((sid, SessionHandle { inflight: None, queue: q, turn_aborted: false }));
                proof {
                    let s1 = self.sessions@;
                    assert(s1.drop_last() =~= s0);
                    assert forall|k: Seq<char>| k != sid@ implies key_index(s1, k) == key_index(s0, k) by {}
                    lemma_key_index_first(s1, sid@, s1.len() - 1);
                    assert forall|a: int, b: int| 0 <= a < b < s1.len() implies (#[trigger] s1[a]).0@ != (#[trigger] s1[b]).0@ by {
                        assert(s1[a] == s0[a]);
                        if b < s1.len() - 1 {
                            assert(s1[b] == s0[b]);
                        }
                    }
                    assert(!queue_map(s0).contains_key(sid@));
                    assert(queue_map(s1) =~= queue_map(s0).insert(sid@, Seq::<Cmd>::empty().push(cmd)));
                    assert forall|k: Seq<char>| #[trigger] handle_in(s1, k) is Some implies turn_kept(handle_in(s1, k).unwrap(), handle_in(s0, k)) by {
                        if k != sid@ {
                            if let Some(j) = key_index(s0, k) {
                                assert(s1[j] == s0[j]);
                            }
                        }
                    }
                    assert forall|k: Seq<char>| #[trigger] handle_in(s0, k) is Some implies handle_in(s1, k) is Some by {
                        if k == sid@ {
                        } else {
                        }
                    }
                }
            },
        }
    }

    /// Sends the prompts stalled on authentication back to their sessions;
    /// see `requeue_fold`. Returns how many were retried.
    pub fn requeue_parked_prompts(&mut self) -> (r: usize)
        requires
            old(self).wf(),
        ensures
            final(self).wf(),
            queue_map(final(self).sessions@) == requeue_fold(queue_map(old(self).sessions@), old(self).current, old(self).parked@).0,
            final(self).parked@ == requeue_fold(queue_map(old(self).sessions@), old(self).current, old(self).parked@).1,
            r == requeue_fold(queue_map(old(self).sessions@), old(self).current, old(self).parked@).2,
            keeps_turns(old(self).sessions@, final(self).sessions@),
            final(self).current == old(self).current,
            final(self).pending == old(self).pending,
    {
        let ghost qs0 = queue_map(self.sessions@);
        let ghost s0 = self.sessions@;
        let ghost cur = self.current;
        let mut rest: VecDeque<ParkedPrompt> = VecDeque::new();
        std::mem::swap(&mut rest, &mut self.parked);
        let ghost ps = rest@;
        let ghost pend = self.pending;
        assert(ps.len() == rest.len());
        let mut still: VecDeque<ParkedPrompt> = VecDeque::new();
        let mut retried: usize = 0;
        let ghost mut k: int = 0;
        proof {
            assert(ps.subrange(0, 0) =~= Seq::<ParkedPrompt>::empty());
            assert(ps.subrange(0, ps.len() as int) =~= ps);
            assert forall|kk: Seq<char>| #[trigger] handle_in(s0, kk) is Some implies turn_kept(handle_in(s0, kk).unwrap(), handle_in(s0, kk)) by {}
        }
        while rest.len() > 0
            invariant
                self.wf(),
                0 <= k <= ps.len(),
                rest@ == ps.subrange(k, ps.len() as int),
                retried <= k,
                (queue_map(self.sessions@), still@, retried as nat) == requeue_fold(qs0, cur, ps.subrange(0, k)),
                keeps_turns(s0, self.sessions@),
                self.current == cur,
                self.pending == pend,
                ps.len() <= usize::MAX,
                qs0 == queue_map(s0),
            decreases rest@.len(),
        {
            let p = rest.pop_front().unwrap();
            let ghost pv = p;
            let ghost m0 = queue_map(self.sessions@);
            let ghost s_before = self.sessions@;
            proof {
                assert(ps.subrange(0, k + 1).drop_last() =~= ps.subrange(0, k));
                assert(ps.subrange(0, k + 1).last() == pv);
                assert(rest@ =~= ps.subrange(k + 1, ps.len() as int));
            }
            let ParkedPrompt { session, kind } = p;
            match session {
                Some(sid) => {
                    if find_key(&self.sessions, sid.as_str()).is_some() {
                        let cmd = match kind {
                            ParkedPromptKind::Text(text) => Cmd::Prompt { session_id: sid.clone(), text },
                            ParkedPromptKind::Images(blocks) => Cmd::PromptImages { session_id: sid.clone(), blocks },
                        };
                        self.push_front_to(sid, cmd);
                        retried += 1;
                        proof {
                            lemma_keeps_turns_trans(s0, s_before, self.sessions@);
                        }
                    }
                },
                None => {
                    match &self.current {
                        Some(c) => {
                            let c2 = c.clone();
                            let cmd = match kind {
                                ParkedPromptKind::Text(text) => Cmd::Prompt { session_id: c2.clone(), text },
                                ParkedPromptKind::Images(blocks) => Cmd::PromptImages { session_id: c2.clone(), blocks },
                            };
                            self.push_front_to(c2, cmd);
                            retried += 1;
                            proof {
                                lemma_keeps_turns_trans(s0, s_before, self.sessions@);
                            }
                        },
                        None => {
                            still.push_back(ParkedPrompt { session: None, kind });
                        },
                    }
                },
            }
            proof {
                k = k + 1;
            }
        }
        self.parked = still;
        retried
    }
}

/// Whether a session can start its next prompt: no turn in flight, no
/// control request pending for it, and a prompt waiting.
pub open spec fn ready_to_start(e: (String, SessionHandle), busy: Seq<Seq<char>>) -> bool {
    e.1.inflight is None && !busy.contains(e.0@) && e.1.queue@.len() > 0
}

/// The prompts that start, in session order: each ready session's first.
pub open spec fn ready_fronts(es: Seq<(String, SessionHandle)>, busy: Seq<Seq<char>>) -> Seq<(Seq<char>, Cmd)>
    decreases es.len(),
{
    if es.len() == 0 {
        Seq::empty()
    } else {
        let rest = ready_fronts(es.drop_last(), busy);
        if ready_to_start(es.last(), busy) { rest.push((es.last().0@, es.last().1.queue@[0])) } else { rest }
    }
}

/// The view of started prompts.
pub open spec fn started_view(v: Seq<(String, Cmd)>) -> Seq<(Seq<char>, Cmd)> {
    v.map_values(|t: (String, Cmd)| (t.0@, t.1))
}

impl PromptQueues {
    /// Takes the prompts that start now: nothing while any prompt is stalled
    /// on authentication; otherwise the first waiting prompt of every
    /// session with no turn in flight and no control request pending (the
    /// sessions `busy` names). The caller starts each and records its turn
    /// with `set_inflight`.
    pub fn take_ready_prompts(&mut self, busy: &Vec<String>) -> (r: Vec<(String, Cmd)>)
        requires
            old(self).wf(),
        ensures
            final(self).wf(),
            final(self).current == old(self).current,
            final(self).pending == old(self).pending,
            final(self).parked == old(self).parked,
            old(self).parked@.len() > 0 ==> r@.len() == 0 && final(self).sessions == old(self).sessions,
            old(self).parked@.len() == 0 ==> {
                let bv = busy@.map_values(|b: String| b@);
                &&& started_view(r@) == ready_fronts(old(self).sessions@, bv)
                &&& final(self).sessions@.len() == old(self).sessions@.len()
                &&& forall|i: int| 0 <= i < old(self).sessions@.len() ==> {
                    let e = #[trigger] old(self).sessions@[i];
                    let f = final(self).sessions@[i];
                    &&& f.0 == e.0
                    &&& f.1.inflight == e.1.inflight
                    &&& f.1.turn_aborted == e.1.turn_aborted
                    &&& f.1.queue@ == (if ready_to_start(e, bv) { e.1.queue@.drop_first() } else { e.1.queue@ })
                }
            },
    {
        let mut out: Vec<(String, Cmd)> = Vec::new();
        if self.parked.len() > 0 {
            return out;
        }
        let ghost bv = busy@.map_values(|b: String| b@);
        let ghost s0 = self.sessions@;
        let ghost cur = self.current;
        let ghost pend = self.pending;
        let ghost park = self.parked;
        let mut i: usize = 0;
        while i < self.sessions.len()
            invariant
                self.current == cur,
                self.pending == pend,
                self.parked == park,
                self.sessions@.len() == s0.len(),
                i <= s0.len(),
                bv == busy@.map_values(|b: String| b@),
                started_view(out@) == ready_fronts(s0.subrange(0, i as int), bv),
                forall|j: int| i <= j < s0.len() ==> self.sessions@[j] == s0[j],
                forall|j: int| 0 <= j < i ==> {
                    let e = #[trigger] s0[j];
                    let f = self.sessions@[j];
                    &&& f.0 == e.0
                    &&& f.1.inflight == e.1.inflight
                    &&& f.1.turn_aborted == e.1.turn_aborted
                    &&& f.1.queue@ == (if ready_to_start(e, bv) { e.1.queue@.drop_first() } else { e.1.queue@ })
                },
            decreases s0.len() - i,
        {
            let mut is_busy = false;
            let mut b: usize = 0;
            while b < busy.len() && !is_busy
                invariant
                    b <= busy@.len(),
                    i < self.sessions@.len(),
                    bv == busy@.map_values(|x: String| x@),
                    is_busy ==> bv.contains(self.sessions@[i as int].0@),
                    !is_busy ==> forall|t: int| 0 <= t < b ==> bv[t] != self.sessions@[i as int].0@,
                decreases busy@.len() - b,
            {
                if str_eq(busy[b].as_str(), self.sessions[i].0.as_str()) {
                    is_busy = true;
                    assert(bv[b as int] == self.sessions@[i as int].0@);
                }
                b += 1;
            }
            proof {
                assert(s0.subrange(0, i + 1).drop_last() =~= s0.subrange(0, i as int));
                assert(s0.subrange(0, i + 1).last() == s0[i as int]);
            }
            let ready = self.sessions[i].1.inflight.is_none() && !is_busy && self.sessions[i].1.queue.len() > 0;
            if ready {
                let ghost before = out@;
                let cmd = self.sessions[i].1.queue.pop_front().unwrap();
                let id = self.sessions[i].0.clone();
                out.push((id, cmd));
                assert(started_view(out@) =~= started_view(before).push((s0[i as int].0@, s0[i as int].1.queue@[0])));
            }
            i += 1;
        }
        assert(s0.subrange(0, s0.len() as int) =~= s0);
        proof {
            assert forall|a: int, b2: int| 0 <= a < b2 < self.sessions@.len() implies (#[trigger] self.sessions@[a]).0@ != (#[trigger] self.sessions@[b2]).0@ by {
                assert(self.sessions@[a].0 == s0[a].0);
                assert(self.sessions@[b2].0 == s0[b2].0);
            }
        }
        out
    }

    /// Records session `id`'s turn in flight (its generation), or that it
    /// settled (`None`).
    pub fn set_inflight(&mut self, id: &str, generation: Option<u64>)
        requires
            old(self).wf(),
        ensures
            final(self).wf(),
            final(self).current == old(self).current,
            final(self).pending == old(self).pending,
            final(self).parked == old(self).parked,
            queue_map(final(self).sessions@) == queue_map(old(self).sessions@),
            match old(self).handle(id@) {
                Some(h0) => final(self).handle(id@) matches Some(h) && h.inflight == generation && h.turn_aborted == h0.turn_aborted,
                None => final(self).sessions == old(self).sessions,
            },
            forall|k: Seq<char>| k != id@ ==> final(self).handle(k) == old(self).handle(k),
    {
        let ghost s0 = self.sessions@;
        proof {
            lemma_key_index_sound(s0);
        }
        if let Some(i) = find_key(&self.sessions, id) {
            self.sessions[i].1.inflight = generation;
            proof {
                let s1 = self.sessions@;
                assert(s1 == s0.update(i as int, (s0[i as int].0, s1[i as int].1)));
                lemma_key_index_update(s0, i as int);
                assert forall|k: Seq<char>| key_index(s1, k) == key_index(s0, k) by {}
                assert forall|a: int, b: int| 0 <= a < b < s1.len() implies (#[trigger] s1[a]).0@ != (#[trigger] s1[b]).0@ by {
                    assert(s1[a].0 == s0[a].0);
                    assert(s1[b].0 == s0[b].0);
                }
                assert forall|k: Seq<char>| #[trigger] key_index(s1, k) == Some(i as int) implies k == id@ by {}
                assert(queue_map(s1) =~= queue_map(s0));
            }
        }
    }

    /// Gives session `sid` an idle handle where it has none.
    fn ensure_handle(&mut self, sid: &str)
        requires
            old(self).wf(),
        ensures
            final(self).wf(),
            queue_map(final(self).sessions@) == (if queue_map(old(self).sessions@).contains_key(sid@) {
                queue_map(old(self).sessions@)
            } else {
                queue_map(old(self).sessions@).insert(sid@, Seq::empty())
            }),
            keeps_turns(old(self).sessions@, final(self).sessions@),
            final(self).handle(sid@) is Some,
            old(self).handle(sid@) is Some ==> final(self).sessions == old(self).sessions,
            final(self).current == old(self).current,
            final(self).pending == old(self).pending,
            final(self).parked == old(self).parked,
    {
        let ghost s0 = self.sessions@;
        proof {
            lemma_key_index_sound(s0);
        }
        if find_key(&self.sessions, sid).is_none() {
            self.sessions.push((sid.to_string(), SessionHandle { inflight: None, queue: VecDeque::new(), turn_aborted: false }));
            proof {
                let s1 = self.sessions@;
                assert(s1.drop_last() =~= s0);
                assert forall|k: Seq<char>| k != sid@ implies key_index(s1, k) == key_index(s0, k) by {}
                lemma_key_index_first(s1, sid@, s1.len() - 1);
                assert forall|a: int, b: int| 0 <= a < b < s1.len() implies (#[trigger] s1[a]).0@ != (#[trigger] s1[b]).0@ by {
                    assert(s1[a] == s0[a]);
                    if b < s1.len() - 1 {
                        assert(s1[b] == s0[b]);
                    }
                }
                assert(!queue_map(s0).contains_key(sid@));
                assert(queue_map(s1) =~= queue_map(s0).insert(sid@, Seq::<Cmd>::empty()));
                assert forall|k: Seq<char>| #[trigger] handle_in(s1, k) is Some implies turn_kept(handle_in(s1, k).unwrap(), handle_in(s0, k)) by {
                    if k != sid@ {
                        if let Some(m) = key_index(s0, k) {
                            assert(s1[m] == s0[m]);
                        }
                    }
                }
                assert forall|k: Seq<char>| #[trigger] handle_in(s0, k) is Some implies handle_in(s1, k) is Some by {}
            }
        } else {
            proof {
                assert forall|k: Seq<char>| #[trigger] handle_in(s0, k) is Some implies turn_kept(handle_in(s0, k).unwrap(), handle_in(s0, k)) by {}
                assert(queue_map(s0) =~= queue_map(s0));
            }
        }
    }

    /// Marks session `id`'s turn as cancelled.
    fn mark_aborted(&mut self, id: &str)
        requires
            old(self).wf(),
        ensures
            final(self).wf(),
            final(self).current == old(self).current,
            final(self).pending == old(self).pending,
            final(self).parked == old(self).parked,
            queue_map(final(self).sessions@) == queue_map(old(self).sessions@),
            match old(self).handle(id@) {
                Some(h0) => final(self).handle(id@) matches Some(h) && h.inflight == h0.inflight && h.turn_aborted,
                None => final(self).sessions == old(self).sessions,
            },
            forall|k: Seq<char>| k != id@ ==> final(self).handle(k) == old(self).handle(k),
    {
        let ghost s0 = self.sessions@;
        proof {
            lemma_key_index_sound(s0);
        }
        if let Some(i) = find_key(&self.sessions, id) {
            self.sessions[i].1.turn_aborted = true;
            proof {
                let s1 = self.sessions@;
                assert(s1 == s0.update(i as int, (s0[i as int].0, s1[i as int].1)));
                lemma_key_index_update(s0, i as int);
                assert forall|k: Seq<char>| key_index(s1, k) == key_index(s0, k) by {}
                assert forall|a: int, b: int| 0 <= a < b < s1.len() implies (#[trigger] s1[a]).0@ != (#[trigger] s1[b]).0@ by {
                    assert(s1[a].0 == s0[a].0);
                    assert(s1[b].0 == s0[b].0);
                }
                assert forall|k: Seq<char>| #[trigger] key_index(s1, k) == Some(i as int) implies k == id@ by {}
                assert(queue_map(s1) =~= queue_map(s0));
            }
        }
    }
}

/// Where a prompt, steer or interrupt goes on the connection.
pub enum PromptRoute {
    /// The session takes the command now: start it (`plan_prompt`); a steer
    /// that starts a turn also reports itself settled, not deferred.
    Begin { session_id: String, cmd: Cmd },
    /// It waits behind the session's turn.
    Queued(String),
    /// It waits for the first session.
    Pending,
    /// The steer joins the session's running turn.
    SteerNow { session_id: String, cmd: Cmd },
    /// The steer is reported deferred.
    SteerDeferred,
    /// Cancel the session's running turn.
    Abort(String),
    /// Nothing to do.
    Nothing,
    /// The command named a session this connection never bound.
    SessionError { session_id: String, message: String },
    /// Not a prompt, steer or interrupt.
    NotPrompt,
}

/// The session a prompt-like command or interrupt names, and the word its
/// rejection uses.
pub open spec fn route_target(cmd: Cmd) -> Option<(Seq<char>, Seq<char>)> {
    match cmd {
        Cmd::Prompt { session_id, .. } => Some((session_id@, "prompt"@)),
        Cmd::Steer { session_id, .. } => Some((session_id@, "steer"@)),
        Cmd::PromptImages { session_id, .. } => Some((session_id@, "prompt_images"@)),
        Cmd::SteerImages { session_id, .. } => Some((session_id@, "steer_images"@)),
        Cmd::Interrupt { session_id } => Some((session_id@, "interrupt"@)),
        _ => None,
    }
}

/// Whether a command is a steer.
pub open spec fn is_steer(cmd: Cmd) -> bool {
    cmd is Steer || cmd is SteerImages
}

/// Whether session `sid` has a turn in flight.
pub open spec fn in_flight(q: PromptQueues, sid: Seq<char>) -> bool {
    q.handle(sid) matches Some(h) && h.inflight is Some
}

/// `q` after a new turn was made ready to start on `sid`: the session has
/// a handle, all else as before.
pub open spec fn handle_ready(old: PromptQueues, new: PromptQueues, sid: Seq<char>) -> bool {
    &&& new.wf()
    &&& queue_map(new.sessions@) == (if queue_map(old.sessions@).contains_key(sid) {
        queue_map(old.sessions@)
    } else {
        queue_map(old.sessions@).insert(sid, Seq::empty())
    })
    &&& keeps_turns(old.sessions@, new.sessions@)
    &&& new.handle(sid) is Some
    &&& new.current == old.current && new.pending == old.pending && new.parked == old.parked
}

impl PromptQueues {
    /// Routes a prompt, steer or interrupt to the session it names (see
    /// `resolve_spec`). A rejected id is reported to that id. Without a
    /// session, a prompt waits for the first one, a steer is deferred and
    /// an interrupt does nothing. With one: a prompt waits behind a running
    /// turn, a busy control lane or any parked prompt, else begins; a steer
    /// joins a running turn, is deferred while prompts are parked, else
    /// begins; an interrupt cancels a running turn only.
    pub fn route_prompt(&mut self, cmd: Cmd, control_busy: bool) -> (r: PromptRoute)
        requires
            old(self).wf(),
        ensures
            final(self).wf(),
            route_target(cmd) is None ==> r is NotPrompt && *final(self) == *old(self),
            route_target(cmd) matches Some((cs, kind)) ==> match resolve_spec(old(self).sessions@, old(self).current, cs, kind) {
                Err(e) => r matches PromptRoute::SessionError { session_id, message } && session_id@ == cs && message@ == e
                    && *final(self) == *old(self),
                Ok(None) => if cmd is Interrupt {
                    r is Nothing && *final(self) == *old(self)
                } else if is_steer(cmd) {
                    r is SteerDeferred && *final(self) == *old(self)
                } else {
                    r is Pending && final(self).pending@ == old(self).pending@.push(cmd)
                        && final(self).sessions == old(self).sessions && final(self).current == old(self).current
                        && final(self).parked == old(self).parked
                },
                Ok(Some(sid)) => if cmd is Interrupt {
                    if in_flight(*old(self), sid) {
                        &&& r matches PromptRoute::Abort(x) && x@ == sid
                        &&& final(self).handle(sid) matches Some(h) && h.inflight == old(self).handle(sid).unwrap().inflight && h.turn_aborted
                        &&& forall|k: Seq<char>| k != sid ==> final(self).handle(k) == old(self).handle(k)
                        &&& queue_map(final(self).sessions@) == queue_map(old(self).sessions@)
                        &&& final(self).current == old(self).current && final(self).pending == old(self).pending
                        &&& final(self).parked == old(self).parked
                    } else {
                        r is Nothing && *final(self) == *old(self)
                    }
                } else if is_steer(cmd) {
                    if in_flight(*old(self), sid) {
                        r matches PromptRoute::SteerNow { session_id, cmd: c } && session_id@ == sid && c == cmd && *final(self) == *old(self)
                    } else if old(self).parked@.len() > 0 {
                        r is SteerDeferred && *final(self) == *old(self)
                    } else {
                        (r matches PromptRoute::Begin { session_id, cmd: c } && session_id@ == sid && c == cmd)
                            && handle_ready(*old(self), *final(self), sid)
                    }
                } else if in_flight(*old(self), sid) || control_busy || old(self).parked@.len() > 0 {
                    &&& r matches PromptRoute::Queued(x) && x@ == sid
                    &&& queue_map(final(self).sessions@) == queue_map(old(self).sessions@).insert(sid,
                        (if queue_map(old(self).sessions@).contains_key(sid) { queue_map(old(self).sessions@)[sid] } else { Seq::empty() }).push(cmd))
                    &&& keeps_turns(old(self).sessions@, final(self).sessions@)
                    &&& final(self).current == old(self).current && final(self).pending == old(self).pending
                    &&& final(self).parked == old(self).parked
                } else {
                    (r matches PromptRoute::Begin { session_id, cmd: c } && session_id@ == sid && c == cmd)
                        && handle_ready(*old(self), *final(self), sid)
                },
            },
    {
        proof {
            reveal_strlit("prompt");
            reveal_strlit("steer");
            reveal_strlit("prompt_images");
            reveal_strlit("steer_images");
            reveal_strlit("interrupt");
        }
        let (cs, kind): (String, &str) = match &cmd {
            Cmd::Prompt { session_id, .. } => (session_id.clone(), "prompt"),
            Cmd::Steer { session_id, .. } => (session_id.clone(), "steer"),
            Cmd::PromptImages { session_id, .. } => (session_id.clone(), "prompt_images"),
            Cmd::SteerImages { session_id, .. } => (session_id.clone(), "steer_images"),
            Cmd::Interrupt { session_id } => (session_id.clone(), "interrupt"),
            _ => {
                return PromptRoute::NotPrompt;
            },
        };
        let interrupt = match &cmd {
            Cmd::Interrupt { .. } => true,
            _ => false,
        };
        let steer = match &cmd {
            Cmd::Steer { .. } | Cmd::SteerImages { .. } => true,
            _ => false,
        };
        let sid = match self.resolve_cmd_session(cs.as_str(), kind) {
            Err(e) => {
                return PromptRoute::SessionError { session_id: cs, message: e };
            },
            Ok(None) => {
                if interrupt {
                    return PromptRoute::Nothing;
                } else if steer {
                    return PromptRoute::SteerDeferred;
                } else {
                    self.pending.push_back(cmd);
                    return PromptRoute::Pending;
                }
            },
            Ok(Some(sid)) => sid,
        };
        proof {
            lemma_key_index_sound(self.sessions@);
        }
        let running = match find_key(&self.sessions, sid.as_str()) {
            Some(i) => self.sessions[i].1.inflight.is_some(),
            None => false,
        };
        assert(running == in_flight(*old(self), sid@));
        if interrupt {
            if running {
                self.mark_aborted(sid.as_str());
                return PromptRoute::Abort(sid);
            }
            return PromptRoute::Nothing;
        }
        if steer {
            if running {
                return PromptRoute::SteerNow { session_id: sid, cmd };
            }
            if self.parked.len() > 0 {
                return PromptRoute::SteerDeferred;
            }
            self.ensure_handle(sid.as_str());
            return PromptRoute::Begin { session_id: sid, cmd };
        }
        if running || control_busy || self.parked.len() > 0 {
            let target = sid.clone();
            self.push_back_to(target, cmd);
            return PromptRoute::Queued(sid);
        }
        self.ensure_handle(sid.as_str());
        PromptRoute::Begin { session_id: sid, cmd }
    }
}

/// With a fallback session, retrying leaves nothing parked.
pub proof fn law_requeue_with_a_session_leaves_nothing_parked(qs: Map<Seq<char>, Seq<Cmd>>, current: String, ps: Seq<ParkedPrompt>)
    ensures
        requeue_fold(qs, Some(current), ps).1.len() == 0,
    decreases ps.len(),
{
    if ps.len() > 0 {
        law_requeue_with_a_session_leaves_nothing_parked(qs, current, ps.drop_last());
    }
}

/// Without any fallback session, exactly the prompts sent before any
/// session stay parked, in order.
pub proof fn law_requeue_without_a_session_keeps_presession_prompts(qs: Map<Seq<char>, Seq<Cmd>>, ps: Seq<ParkedPrompt>)
    ensures
        requeue_fold(qs, None, ps).1 == ps.filter(|p: ParkedPrompt| p.session is None),
    decreases ps.len(),
{
    reveal_with_fuel(Seq::filter, 1);
    if ps.len() > 0 {
        law_requeue_without_a_session_keeps_presession_prompts(qs, ps.drop_last());
    }
}

/// Retrying accounts for every parked prompt: retried, still parked, or
/// dropped because its session was closed; none is retried twice.
pub proof fn law_requeue_retries_at_most_all(qs: Map<Seq<char>, Seq<Cmd>>, current: Option<String>, ps: Seq<ParkedPrompt>)
    ensures
        requeue_fold(qs, current, ps).2 + requeue_fold(qs, current, ps).1.len() <= ps.len(),
    decreases ps.len(),
{
    if ps.len() > 0 {
        law_requeue_retries_at_most_all(qs, current, ps.drop_last());
    }
}


/// Why an agent ended a turn.
#[derive(Debug, Clone, Copy, PartialEq, Eq, Structural)]
pub enum StopKind {
    EndTurn,
    MaxTokens,
    MaxTurnRequests,
    Refusal,
    Cancelled,
    Other,
}

/// The token counts an agent reports for a turn.
pub struct TurnUsage {
    pub input: u64,
    pub output: u64,
    pub cached_read: Option<u64>,
    pub cached_write: Option<u64>,
    pub thought: Option<u64>,
}

/// An agent's answer to `session/prompt`: why the turn ended and what it
/// used.
pub struct PromptReply {
    pub stop: StopKind,
    pub usage: Option<TurnUsage>,
}

/// What a finished prompt reports: the transcript events, and the sign-in
/// prompt's message or the session's error, where there is one.
pub struct FinishReport {
    pub events: Vec<UiEvent>,
    pub needs_auth: Option<String>,
    pub session_error: Option<String>,
}

/// The turn-end kind of a stop reason.
pub open spec fn stop_kind_text(k: StopKind) -> Seq<char> {
    match k {
        StopKind::EndTurn => "completed"@,
        StopKind::MaxTokens => "max-tokens"@,
        StopKind::MaxTurnRequests => "max-turn-requests"@,
        StopKind::Refusal => "blocked"@,
        StopKind::Cancelled => "interrupted"@,
        StopKind::Other => "unknown"@,
    }
}

/// The counts of a usage report, absent cache and thought counts as zero.
pub open spec fn opt0(o: Option<u64>) -> int {
    match o { Some(v) => v as int, None => 0 }
}

/// Whether a reply's cache counts add up within a `u64`.
pub open spec fn reply_fits(result: Result<PromptReply, crate::control::ControlError>) -> bool {
    result matches Ok(r) && r.usage matches Some(u) ==> opt0(u.cached_read) + opt0(u.cached_write) <= u64::MAX
}

impl PromptQueues {
    /// Settles session `session_id`'s finished prompt. A reply ends the
    /// turn with its stop reason, after its usage where it reports one. A
    /// sign-in error parks the payload with its session, ends the turn as
    /// interrupted and opens the sign-in prompt with the error's message;
    /// any other error ends the turn as an error and reports it to the
    /// session as `prompt: <error>`.
    pub fn finish_prompt(
        &mut self,
        session_id: String,
        result: Result<PromptReply, crate::control::ControlError>,
        payload: ParkedPromptKind,
    ) -> (r: FinishReport)
        requires
            reply_fits(result),
        ensures
            final(self).sessions == old(self).sessions,
            final(self).current == old(self).current,
            final(self).pending == old(self).pending,
            match result {
                Ok(reply) => {
                    &&& final(self).parked == old(self).parked
                    &&& r.needs_auth is None && r.session_error is None
                    &&& events_view(r.events@) == (match reply.usage {
                        Some(u) => seq![crate::events::UiEventV::Usage {
                            session: session_id@,
                            input: u.input,
                            output: u.output,
                            cached: (opt0(u.cached_read) + opt0(u.cached_write)) as u64,
                            reasoning: opt0(u.thought) as u64,
                        }],
                        None => Seq::empty(),
                    }) + seq![crate::events::UiEventV::TurnEnd { session: session_id@, kind: stop_kind_text(reply.stop) }]
                },
                Err(e) => if crate::control::auth_required_spec(e.info) {
                    &&& final(self).parked@ == old(self).parked@.push(ParkedPrompt { session: Some(session_id), kind: payload })
                    &&& events_view(r.events@) == seq![crate::events::UiEventV::TurnEnd { session: session_id@, kind: "interrupted"@ }]
                    &&& r.needs_auth matches Some(m) && m@ == crate::acp_auth::error_message_spec(e.info)
                    &&& r.session_error is None
                } else {
                    &&& final(self).parked == old(self).parked
                    &&& events_view(r.events@) == seq![crate::events::UiEventV::TurnEnd { session: session_id@, kind: "error"@ }]
                    &&& r.needs_auth is None
                    &&& r.session_error matches Some(m) && m@ == "prompt: "@ + e.text@
                },
            },
    {
        let mut events: Vec<UiEvent> = Vec::new();
        match result {
            Ok(reply) => {
                let kind = match reply.stop {
                    StopKind::EndTurn => "completed",
                    StopKind::MaxTokens => "max-tokens",
                    StopKind::MaxTurnRequests => "max-turn-requests",
                    StopKind::Refusal => "blocked",
                    StopKind::Cancelled => "interrupted",
                    StopKind::Other => "unknown",
                };
                match reply.usage {
                    Some(u) => {
                        let cr = match u.cached_read { Some(v) => v, None => 0 };
                        let cw = match u.cached_write { Some(v) => v, None => 0 };
                        let th = match u.thought { Some(v) => v, None => 0 };
                        events.push(UiEvent::Usage { session: session_id.clone(), input: u.input, output: u.output, cached: cr + cw, reasoning: th });
                    },
                    None => {},
                }
                events.push(UiEvent::TurnEnd { session: session_id, kind: kind.to_string() });
                FinishReport { events, needs_auth: None, session_error: None }
            },
            Err(e) => {
                if crate::acp_auth::is_auth_required_error(&e.info) {
                    let message = crate::acp_auth::acp_error_message(&e.info);
                    events.push(UiEvent::TurnEnd { session: session_id.clone(), kind: "interrupted".to_string() });
                    self.parked.push_back(ParkedPrompt { session: Some(session_id), kind: payload });
                    FinishReport { events, needs_auth: Some(message), session_error: None }
                } else {
                    events.push(UiEvent::TurnEnd { session: session_id, kind: "error".to_string() });
                    let mut m = "prompt: ".to_string();
                    m.append(e.text.as_str());
                    FinishReport { events, needs_auth: None, session_error: Some(m) }
                }
            },
        }
    }
}

} // verus!
