//! The classic DeepSeek Harness welcome mark: the whale art for each
//! terminal width, the wordmark layout, and the hollow-outline runs that
//! the renderer styles.

use vstd::prelude::*;
use crate::text::chars_of;

verus! {

/// The whale art sizes.
#[derive(Clone, Copy, Debug, PartialEq, Eq, Structural)]
pub enum WhaleSize {
    Sm,
    Md,
    Lg,
    Xl,
}

/// The whale size a terminal `width` shows: small up to 25 columns,
/// medium up to 45, large up to 63, extra large beyond.
pub open spec fn whale_size_spec(width: u16) -> WhaleSize {
    if width <= 25 {
        WhaleSize::Sm
    } else if width <= 45 {
        WhaleSize::Md
    } else if width <= 63 {
        WhaleSize::Lg
    } else {
        WhaleSize::Xl
    }
}

/// The sm whale rows.
pub open spec fn whale_sm() -> Seq<Seq<char>> {
    seq![
        "   ▄▄▄▄▄   ▄"@,
        " ████████▄ ████▀"@,
        "█▀ ▀▀████▀█▄█"@,
        "▀█    ▀██▄███"@,
        " ▀█▄  ▄ ▀██▀"@,
        "   ▀█████▀▀▀"@,
    ]
}

/// The md whale rows.
pub open spec fn whale_md() -> Seq<Seq<char>> {
    seq![
        "    ▄▄▄▄▄▄▄██▀   ██▄     ▄"@,
        "  ▄███████████▄  ▀███▄███▀"@,
        " ███████████████▄ ▀█████▀"@,
        " █▀ ▀▀▀███████▀███▄███"@,
        "▀█▄      ▀█████ ▀████"@,
        " ██        ▀████▄███▀"@,
        " ▀██▄    ▄  ▀██████▀"@,
        "   ███▄  ██▄  ▀███▄▄"@,
        "    ▀▀█████████▀▀▀▀▀"@,
        "         ▀▀▀"@,
    ]
}

/// The lg whale rows.
pub open spec fn whale_lg() -> Seq<Seq<char>> {
    seq![
        "          ▄▄▄▄ ▄▄▄███      █▄"@,
        "     ▄▄█████████████       ███▄▄     ▄█"@,
        "   ▄█████████████████▄▄    █████▄██████"@,
        "  ▄█████████████████████▄  ▀██████████"@,
        " ▄████████████████████████▄  ▀████▀▀▀"@,
        " ██▀    ▀▀▀██████████▀▀█████▄████"@,
        " ███         ▀███████▀▄ ▀████████"@,
        " ███           ▀███████   ██████▀"@,
        " ████            ▀██████████████"@,
        "  ████            ▀████████████"@,
        "   ████▄     ▄▄▄    █████████▀"@,
        "    ▀████▄    ███▄▄  ▀██████▄"@,
        "      ▀█████████████▄▄▄████████"@,
        "        ▀▀████████████▀▀"@,
        "             ▀▀▀▀▀▀"@,
    ]
}

/// The xl whale rows.
pub open spec fn whale_xl() -> Seq<Seq<char>> {
    seq![
        "                     ▄▄▄███▀       ██"@,
        "        ▄▄████████████████        ▄███▄▄         ▄█"@,
        "      ▄██████████████████▄       ██████▄ ▄▄▄▄████"@,
        "    ▄██████████████████████▄     ███████████████▀"@,
        "   ████████████████████████████▄    ▀████████████▀"@,
        "  ██████████████████████████████▄    ▀████████▀"@,
        " ▄███▀▀▀▀▀▀██████████████████████████▄▄ █████▀"@,
        " ████         ▀▀███████████▀ ▀▀████████████"@,
        " ████            ▀▀█████████▀█  ▀██████████"@,
        " ████               ▀█████████    ████████▀"@,
        " ▀████               ▀█████████▄▄▄████████"@,
        "  █████                ▀█████████████████"@,
        "  ▀█████                ▀███████████████"@,
        "   ▀█████▄       ▄▄▄      ████████████▀"@,
        "     ██████▄     ▀████▄    ▀████████▀"@,
        "      ▀███████▄▄▄▄██████▄▄   ▀████████▄▄"@,
        "        ▀▀██████████████████▄▄▄█▀███████▀"@,
        "           ▀▀██████████████████▀▀"@,
        "                ▀▀▀▀▀▀▀▀▀▀"@,
    ]
}

/// The rows of a whale size.
pub open spec fn whale_table(size: WhaleSize) -> Seq<Seq<char>> {
    match size {
        WhaleSize::Sm => whale_sm(),
        WhaleSize::Md => whale_md(),
        WhaleSize::Lg => whale_lg(),
        WhaleSize::Xl => whale_xl(),
    }
}

/// The views of static rows.
pub open spec fn rows_view(rows: Seq<&str>) -> Seq<Seq<char>> {
    rows.map_values(|r: &str| r@)
}

fn rows_sm() -> (r: Vec<&'static str>)
    ensures
        rows_view(r@) == whale_sm(),
{
    let v = vec![
        "   ▄▄▄▄▄   ▄",
        " ████████▄ ████▀",
        "█▀ ▀▀████▀█▄█",
        "▀█    ▀██▄███",
        " ▀█▄  ▄ ▀██▀",
        "   ▀█████▀▀▀",
    ];
    assert(rows_view(v@) =~= whale_sm());
    v
}

fn rows_md() -> (r: Vec<&'static str>)
    ensures
        rows_view(r@) == whale_md(),
{
    let v = vec![
        "    ▄▄▄▄▄▄▄██▀   ██▄     ▄",
        "  ▄███████████▄  ▀███▄███▀",
        " ███████████████▄ ▀█████▀",
        " █▀ ▀▀▀███████▀███▄███",
        "▀█▄      ▀█████ ▀████",
        " ██        ▀████▄███▀",
        " ▀██▄    ▄  ▀██████▀",
        "   ███▄  ██▄  ▀███▄▄",
        "    ▀▀█████████▀▀▀▀▀",
        "         ▀▀▀",
    ];
    assert(rows_view(v@) =~= whale_md());
    v
}

fn rows_lg() -> (r: Vec<&'static str>)
    ensures
        rows_view(r@) == whale_lg(),
{
    let v = vec![
        "          ▄▄▄▄ ▄▄▄███      █▄",
        "     ▄▄█████████████       ███▄▄     ▄█",
        "   ▄█████████████████▄▄    █████▄██████",
        "  ▄█████████████████████▄  ▀██████████",
        " ▄████████████████████████▄  ▀████▀▀▀",
        " ██▀    ▀▀▀██████████▀▀█████▄████",
        " ███         ▀███████▀▄ ▀████████",
        " ███           ▀███████   ██████▀",
        " ████            ▀██████████████",
        "  ████            ▀████████████",
        "   ████▄     ▄▄▄    █████████▀",
        "    ▀████▄    ███▄▄  ▀██████▄",
        "      ▀█████████████▄▄▄████████",
        "        ▀▀████████████▀▀",
        "             ▀▀▀▀▀▀",
    ];
    assert(rows_view(v@) =~= whale_lg());
    v
}

fn rows_xl() -> (r: Vec<&'static str>)
    ensures
        rows_view(r@) == whale_xl(),
{
    let v = vec![
        "                     ▄▄▄███▀       ██",
        "        ▄▄████████████████        ▄███▄▄         ▄█",
        "      ▄██████████████████▄       ██████▄ ▄▄▄▄████",
        "    ▄██████████████████████▄     ███████████████▀",
        "   ████████████████████████████▄    ▀████████████▀",
        "  ██████████████████████████████▄    ▀████████▀",
        " ▄███▀▀▀▀▀▀██████████████████████████▄▄ █████▀",
        " ████         ▀▀███████████▀ ▀▀████████████",
        " ████            ▀▀█████████▀█  ▀██████████",
        " ████               ▀█████████    ████████▀",
        " ▀████               ▀█████████▄▄▄████████",
        "  █████                ▀█████████████████",
        "  ▀█████                ▀███████████████",
        "   ▀█████▄       ▄▄▄      ████████████▀",
        "     ██████▄     ▀████▄    ▀████████▀",
        "      ▀███████▄▄▄▄██████▄▄   ▀████████▄▄",
        "        ▀▀██████████████████▄▄▄█▀███████▀",
        "           ▀▀██████████████████▀▀",
        "                ▀▀▀▀▀▀▀▀▀▀",
    ];
    assert(rows_view(v@) =~= whale_xl());
    v
}

/// The whale art for a terminal `width`.
pub fn whale_for_width(width: u16) -> (r: Vec<&'static str>)
    ensures
        rows_view(r@) == whale_table(whale_size_spec(width)),
{
    if width <= 25 {
        rows_sm()
    } else if width <= 45 {
        rows_md()
    } else if width <= 63 {
        rows_lg()
    } else {
        rows_xl()
    }
}

/// The large DEEPSEEK wordmark rows.
pub open spec fn wordmark_table() -> Seq<Seq<char>> {
    seq![
        "██████╗ ███████╗███████╗██████╗ ███████╗███████╗███████╗██╗  ██╗"@,
        "██╔══██╗██╔════╝██╔════╝██╔══██╗██╔════╝██╔════╝██╔════╝██║ ██╔╝"@,
        "██║  ██║█████╗  █████╗  ██████╔╝███████╗█████╗  █████╗  █████╔╝ "@,
        "██║  ██║██╔══╝  ██╔══╝  ██╔═══╝ ╚════██║██╔══╝  ██╔══╝  ██╔═██╗ "@,
        "██████╔╝███████╗███████╗██║     ███████║███████╗███████╗██║  ██╗"@,
        "╚═════╝ ╚══════╝╚══════╝╚═╝     ╚══════╝╚══════╝╚══════╝╚═╝  ╚═╝"@,
    ]
}

/// The large DEEPSEEK wordmark rows.
pub fn wordmark_rows() -> (r: Vec<&'static str>)
    ensures
        rows_view(r@) == wordmark_table(),
{
    let v = vec![
        "██████╗ ███████╗███████╗██████╗ ███████╗███████╗███████╗██╗  ██╗",
        "██╔══██╗██╔════╝██╔════╝██╔══██╗██╔════╝██╔════╝██╔════╝██║ ██╔╝",
        "██║  ██║█████╗  █████╗  ██████╔╝███████╗█████╗  █████╗  █████╔╝ ",
        "██║  ██║██╔══╝  ██╔══╝  ██╔═══╝ ╚════██║██╔══╝  ██╔══╝  ██╔═██╗ ",
        "██████╔╝███████╗███████╗██║     ███████║███████╗███████╗██║  ██╗",
        "╚═════╝ ╚══════╝╚══════╝╚═╝     ╚══════╝╚══════╝╚══════╝╚═╝  ╚═╝",
    ];
    assert(rows_view(v@) =~= wordmark_table());
    v
}

/// The large HARNESS wordmark rows, drawn hollow beside DEEPSEEK.
pub open spec fn harness_table() -> Seq<Seq<char>> {
    seq![
        "██╗  ██╗ █████╗ ██████╗ ███╗   ██╗███████╗███████╗███████╗"@,
        "██║  ██║██╔══██╗██╔══██╗████╗  ██║██╔════╝██╔════╝██╔════╝"@,
        "███████║███████║██████╔╝██╔██╗ ██║█████╗  ███████╗███████╗"@,
        "██╔══██║██╔══██║██╔══██╗██║╚██╗██║██╔══╝  ╚════██║╚════██║"@,
        "██║  ██║██║  ██║██║  ██║██║ ╚████║███████╗███████║███████║"@,
        "╚═╝  ╚═╝╚═╝  ╚═╝╚═╝  ╚═╝╚═╝  ╚═══╝╚══════╝╚══════╝╚══════╝"@,
    ]
}

/// The large HARNESS wordmark rows, drawn hollow beside DEEPSEEK.
pub fn harness_rows() -> (r: Vec<&'static str>)
    ensures
        rows_view(r@) == harness_table(),
{
    let v = vec![
        "██╗  ██╗ █████╗ ██████╗ ███╗   ██╗███████╗███████╗███████╗",
        "██║  ██║██╔══██╗██╔══██╗████╗  ██║██╔════╝██╔════╝██╔════╝",
        "███████║███████║██████╔╝██╔██╗ ██║█████╗  ███████╗███████╗",
        "██╔══██║██╔══██║██╔══██╗██║╚██╗██║██╔══╝  ╚════██║╚════██║",
        "██║  ██║██║  ██║██║  ██║██║ ╚████║███████╗███████║███████║",
        "╚═╝  ╚═╝╚═╝  ╚═╝╚═╝  ╚═╝╚═╝  ╚═══╝╚══════╝╚══════╝╚══════╝",
    ];
    assert(rows_view(v@) =~= harness_table());
    v
}

/// The small DEEPSEEK wordmark rows.
pub open spec fn wordmark_small_table() -> Seq<Seq<char>> {
    seq![
        " ___  ___ ___ ___  ___ ___ ___ _  __"@,
        "|   \\| __| __| _ \\/ __| __| __| |/ /"@,
        "| |) | _|| _||  _/\\__ \\ _|| _|| ' < "@,
        "|___/|___|___|_|  |___/___|___|_|\\_\\"@,
    ]
}

/// The small DEEPSEEK wordmark rows.
pub fn wordmark_small_rows() -> (r: Vec<&'static str>)
    ensures
        rows_view(r@) == wordmark_small_table(),
{
    let v = vec![
        " ___  ___ ___ ___  ___ ___ ___ _  __",
        "|   \\| __| __| _ \\/ __| __| __| |/ /",
        "| |) | _|| _||  _/\\__ \\ _|| _|| ' < ",
        "|___/|___|___|_|  |___/___|___|_|\\_\\",
    ];
    assert(rows_view(v@) =~= wordmark_small_table());
    v
}

/// The widest row's length in characters.
pub open spec fn widest(rows: Seq<Seq<char>>) -> int
    decreases rows.len(),
{
    if rows.len() == 0 {
        0
    } else {
        let w = widest(rows.drop_last());
        if rows.last().len() > w { rows.last().len() as int } else { w }
    }
}

/// The left padding that centres art `art_width` columns wide in `width`
/// columns (none when it does not fit).
pub open spec fn centre_pad(width: int, art_width: int) -> int {
    if width > art_width { (width - art_width) / 2 } else { 0 }
}

/// The left padding that centres a whale in a terminal `width`.
pub fn whale_pad(width: u16) -> (pad: usize)
    ensures
        pad == centre_pad(width as int, widest(whale_table(whale_size_spec(width)))),
{
    let rows = whale_for_width(width);
    let ghost rv = rows_view(rows@);
    let mut w: usize = 0;
    let mut i: usize = 0;
    while i < rows.len()
        invariant
            i <= rows@.len(),
            rv == rows_view(rows@),
            w == widest(rv.subrange(0, i as int)),
        decreases rows@.len() - i,
    {
        let n = rows[i].unicode_len();
        assert(rv.subrange(0, i + 1).drop_last() =~= rv.subrange(0, i as int));
        assert(rv.subrange(0, i + 1).last() == rows@[i as int]@);
        if n > w {
            w = n;
        }
        i += 1;
    }
    assert(rv.subrange(0, rows@.len() as int) =~= rv);
    let width = width as usize;
    if width > w { (width - w) / 2 } else { 0 }
}

/// A row with its full blocks drawn as light shade (the hollow outline).
pub open spec fn hollow_spec(row: Seq<char>) -> Seq<char> {
    row.map_values(|c: char| if c == '█' { '░' } else { c })
}

/// `row` with every full block `█` replaced by a light shade `░`.
pub fn hollow(row: &str) -> (r: String)
    ensures
        r@ == hollow_spec(row@),
{
    let cs = chars_of(row);
    let mut out = String::new();
    let mut i: usize = 0;
    while i < cs.len()
        invariant
            i <= cs@.len(),
            cs@ == row@,
            out@ == hollow_spec(row@.subrange(0, i as int)),
        decreases cs@.len() - i,
    {
        let c = cs[i];
        crate::text::push_char(&mut out, if c == '█' { '░' } else { c });
        i += 1;
        assert(out@ =~= hollow_spec(row@.subrange(0, i as int)));
    }
    assert(row@.subrange(0, cs@.len() as int) =~= row@);
    out
}

/// Whether a hollowed character belongs to the outline (neither shade nor
/// blank).
pub open spec fn is_edge(c: char) -> bool {
    !(c == '░' || c == ' ')
}

/// The maximal runs of outline and fill characters of `s`, in order, each
/// flagged whether it is outline.
pub open spec fn runs(s: Seq<char>) -> Seq<(Seq<char>, bool)>
    decreases s.len(),
{
    if s.len() == 0 {
        Seq::empty()
    } else {
        let r = runs(s.drop_last());
        let c = s.last();
        if r.len() > 0 && r.last().1 == is_edge(c) {
            r.update(r.len() - 1, (r.last().0.push(c), is_edge(c)))
        } else {
            r.push((seq![c], is_edge(c)))
        }
    }
}

/// The views of styled runs.
pub open spec fn runs_view(v: Seq<(String, bool)>) -> Seq<(Seq<char>, bool)> {
    v.map_values(|r: (String, bool)| (r.0@, r.1))
}

/// A wordmark row drawn hollow, as runs of outline (`true`) and fill
/// (`false`) characters, which the renderer styles as edge and fill.
pub fn hollow_spans(row: &str) -> (r: Vec<(String, bool)>)
    ensures
        runs_view(r@) == runs(hollow_spec(row@)),
{
    let h = hollow(row);
    let cs = chars_of(h.as_str());
    let mut spans: Vec<(String, bool)> = Vec::new();
    let mut run = String::new();
    let mut run_is_edge = false;
    let mut i: usize = 0;
    assert(cs@.subrange(0, 0) =~= Seq::<char>::empty());
    assert(runs_view(spans@) =~= Seq::<(Seq<char>, bool)>::empty());
    while i < cs.len()
        invariant
            i <= cs@.len(),
            cs@ == hollow_spec(row@),
            ({
                let r = runs(cs@.subrange(0, i as int));
                if run@.len() == 0 {
                    r == runs_view(spans@) && i == 0
                } else {
                    r == runs_view(spans@).push((run@, run_is_edge))
                }
            }),
        decreases cs@.len() - i,
    {
        let c = cs[i];
        let edge = !(c == '░' || c == ' ');
        let ghost r0 = runs(cs@.subrange(0, i as int));
        assert(cs@.subrange(0, i + 1).drop_last() =~= cs@.subrange(0, i as int));
        assert(cs@.subrange(0, i + 1).last() == c);
        if run.as_str().unicode_len() > 0 && edge != run_is_edge {
            let ghost sv = runs_view(spans@);
            let mut done = String::new();
            std::mem::swap(&mut done, &mut run);
            spans.push((done, run_is_edge));
            assert(runs_view(spans@) =~= sv.push((done@, run_is_edge)));
        }
        let ghost rv0 = run@;
        crate::text::push_char(&mut run, c);
        proof {
            let r1 = runs(cs@.subrange(0, i + 1));
            if rv0.len() > 0 && edge == run_is_edge {
                assert(r1 =~= runs_view(spans@).push((run@, edge)));
            } else {
                assert(run@ =~= seq![c]);
            }
        }
        run_is_edge = edge;
        i += 1;
    }
    assert(cs@.subrange(0, cs@.len() as int) =~= cs@);
    if run.as_str().unicode_len() > 0 {
        let ghost sv = runs_view(spans@);
        spans.push((run, run_is_edge));
        assert(runs_view(spans@) =~= sv.push((spans@.last().0@, run_is_edge)));
    }
    spans
}

/// How the wordmark is laid out at a terminal width.
#[derive(Clone, Copy, Debug, PartialEq, Eq, Structural)]
pub enum WordmarkPlan {
    /// DEEPSEEK and a hollow HARNESS side by side, after `pad` columns.
    Wide { pad: usize },
    /// The large (or small) DEEPSEEK art after `pad` columns, then the
    /// spaced-out HARNESS caption after `caption_pad` columns.
    Art { small: bool, pad: usize, caption_pad: usize },
    /// One text line `DEEPSEEK` (with ` HARNESS` when it fits).
    Text { pad: usize, harness: bool },
}

/// The wordmark layout of a terminal `width`: both wordmarks side by side
/// from 126 columns, the large art from 66, the small art from 38, else a
/// text line (naming HARNESS from 17 columns).
pub open spec fn wordmark_spec(width: int) -> WordmarkPlan {
    if width >= 126 {
        WordmarkPlan::Wide { pad: centre_pad(width, 124) as usize }
    } else if width >= 66 {
        WordmarkPlan::Art { small: false, pad: centre_pad(width, 64) as usize, caption_pad: centre_pad(width, 25) as usize }
    } else if width >= 38 {
        WordmarkPlan::Art { small: true, pad: centre_pad(width, 36) as usize, caption_pad: centre_pad(width, 13) as usize }
    } else if width >= 17 {
        WordmarkPlan::Text { pad: centre_pad(width, 16) as usize, harness: true }
    } else {
        WordmarkPlan::Text { pad: centre_pad(width, 8) as usize, harness: false }
    }
}

fn centred(width: usize, art: usize) -> (pad: usize)
    ensures
        pad == centre_pad(width as int, art as int),
{
    if width > art { (width - art) / 2 } else { 0 }
}

/// The wordmark layout of a terminal `width`.
pub fn wordmark_plan(width: u16) -> (r: WordmarkPlan)
    ensures
        r == wordmark_spec(width as int),
{
    let w = width as usize;
    if w >= 126 {
        WordmarkPlan::Wide { pad: centred(w, 124) }
    } else if w >= 66 {
        WordmarkPlan::Art { small: false, pad: centred(w, 64), caption_pad: centred(w, 25) }
    } else if w >= 38 {
        WordmarkPlan::Art { small: true, pad: centred(w, 36), caption_pad: centred(w, 13) }
    } else if w >= 17 {
        WordmarkPlan::Text { pad: centred(w, 16), harness: true }
    } else {
        WordmarkPlan::Text { pad: centred(w, 8), harness: false }
    }
}

/// The spaced-out HARNESS caption under the large or the small art.
pub fn wordmark_caption(small: bool) -> (r: &'static str)
    ensures
        r@ == (if small { "H A R N E S S"@ } else { "H   A   R   N   E   S   S"@ }),
{
    if small { "H A R N E S S" } else { "H   A   R   N   E   S   S" }
}

} // verus!
