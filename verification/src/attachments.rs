//! Staged composer attachments as inline chips: each staged image owns a
//! literal `[image N]` token living in the draft text. Cursor motion,
//! kills and history recall edit the token like ordinary text, and the
//! tray reconciles itself to whichever tokens survive.

use std::sync::Arc;
use vstd::prelude::*;
use vstd::std_specs::iter::IteratorSpec;
use crate::app::{first_occurrence, found_spans, span_le, spans_sorted, token_spans_in, tokens_of};
use crate::editor::Input;
use crate::text::{chars_of, contains_seq, occurs_at, decimal, find_chars, push_decimal, splice, splice_spec, string_of};

verus! {

/// Most images the tray holds at once.
pub const MAX_STAGED: usize = 8;

/// Composer preview thumbnails get image ids far above the transcript's
/// own counters so the two pools never collide.
pub const KITTY_ID_BASE: u32 = 0x4000_0000;

/// The eight-byte PNG file signature.
pub open spec fn png_signature() -> Seq<u8> {
    seq![0x89u8, 0x50u8, 0x4eu8, 0x47u8, 0x0du8, 0x0au8, 0x1au8, 0x0au8]
}

/// The draft token of the image with staging number `n`: `[image n]`.
pub open spec fn image_token(n: nat) -> Seq<char> {
    seq!['[', 'i', 'm', 'a', 'g', 'e', ' '] + decimal(n) + seq![']']
}

/// The message `add` fails with when the tray is full.
pub open spec fn tray_full_message() -> Seq<char> {
    "attachment tray is full — send or remove an [image] chip first"@
}

pub struct Attachment {
    pub id: u32,
    /// The literal draft token addressing this image, `[image N]`. `N` is
    /// the staging sequence number: stable, never reindexed.
    pub token: String,
    pub name: String,
    pub path: String,
    pub media_type: String,
    pub data: Arc<Vec<u8>>,
}

impl Attachment {
    /// Whether the payload is a PNG (it begins with the PNG signature);
    /// only those preview as images, others as metadata text.
    pub fn is_png(&self) -> (b: bool)
        ensures
            b == (self.data@.len() >= 8 && self.data@.subrange(0, 8) == png_signature()),
    {
        let data: &Vec<u8> = &*self.data;
        if data.len() < 8 {
            return false;
        }
        let sig: [u8; 8] = [0x89, 0x50, 0x4e, 0x47, 0x0d, 0x0a, 0x1a, 0x0a];
        assert(sig@ == png_signature());
        let mut i: usize = 0;
        while i < 8
            invariant
                data@ == self.data@,
                data@.len() >= 8,
                sig@ == png_signature(),
                i <= 8,
                forall|j: int| 0 <= j < i ==> data@[j] == sig@[j],
            decreases 8 - i,
        {
            if data[i] != sig[i] {
                assert(data@.subrange(0, 8)[i as int] != png_signature()[i as int]);
                return false;
            }
            i += 1;
        }
        assert(data@.subrange(0, 8) =~= png_signature());
        true
    }
}

/// The staged set. Order is staging order; the draft's token order decides
/// send order.
pub struct Staged {
    items: Vec<Attachment>,
    seq: u32,
}

impl Staged {
    /// The staged attachments, in staging order.
    pub closed spec fn items(&self) -> Seq<Attachment> {
        self.items@
    }

    /// How many images have ever been staged here (the last token number).
    pub closed spec fn minted(&self) -> nat {
        self.seq as nat
    }

    /// The tray's standing invariant: ids ascend strictly in staging order,
    /// each id is `KITTY_ID_BASE` plus a staging number no larger than the
    /// count minted so far, and each token is `[image N]` for that number.
    pub open spec fn wf(&self) -> bool {
        &&& forall|i: int, j: int| 0 <= i < j < self.items().len()
            ==> #[trigger] self.items()[i].id < #[trigger] self.items()[j].id
        &&& forall|i: int| 0 <= i < self.items().len() ==> {
            let a = #[trigger] self.items()[i];
            &&& KITTY_ID_BASE < a.id
            &&& a.id - KITTY_ID_BASE <= self.minted()
            &&& a.token@ == image_token((a.id - KITTY_ID_BASE) as nat)
        }
    }

    /// An empty tray that has minted no tokens yet.
    pub fn new() -> (r: Self)
        ensures
            r.items() == Seq::<Attachment>::empty(),
            r.minted() == 0,
            r.wf(),
    {
        Staged { items: Vec::new(), seq: 0 }
    }

    /// Appends one image and mints its draft token; fails when the tray
    /// already holds `MAX_STAGED` images.
    pub fn add(&mut self, name: String, path: String, media_type: String, data: Vec<u8>)
        -> (r: Result<&Attachment, &'static str>)
        requires
            old(self).wf(),
            old(self).items().len() < MAX_STAGED ==> old(self).minted() < 0xbfff_ffff,
        ensures
            final(self).wf(),
            old(self).items().len() >= MAX_STAGED ==> {
                &&& r matches Err(e) && e@ == tray_full_message()
                &&& final(self).items() == old(self).items()
                &&& final(self).minted() == old(self).minted()
            },
            old(self).items().len() < MAX_STAGED ==> {
                let n = old(self).minted() + 1;
                &&& final(self).minted() == n
                &&& final(self).items().len() == old(self).items().len() + 1
                &&& final(self).items().subrange(0, old(self).items().len() as int) == old(self).items()
                &&& r matches Ok(a) && *a == final(self).items().last()
                &&& final(self).items().last().id == KITTY_ID_BASE + n
                &&& final(self).items().last().token@ == image_token(n)
                &&& final(self).items().last().name == name
                &&& final(self).items().last().path == path
                &&& final(self).items().last().media_type == media_type
                &&& final(self).items().last().data@ == data@
            },
    {
        if self.items.len() >= MAX_STAGED {
            let msg = "attachment tray is full — send or remove an [image] chip first";
            proof {
                reveal_strlit("attachment tray is full — send or remove an [image] chip first");
            }
            return Err(msg);
        }
        let ghost old_items = self.items@;
        let ghost old_seq = self.seq;
        proof {
            assert forall|i: int| 0 <= i < old_items.len() implies #[trigger] old_items[i].id <= KITTY_ID_BASE + old_seq by {
                assert(self.items()[i].id - KITTY_ID_BASE <= self.minted());
            }
        }
        self.seq = self.seq + 1;
        let mut tok: Vec<char> = vec!['[', 'i', 'm', 'a', 'g', 'e', ' '];
        push_decimal(&mut tok, self.seq as u64);
        tok.push(']');
        let id = KITTY_ID_BASE + self.seq;
        let att = Attachment {
            id,
            token: string_of(tok.as_slice()),
            name,
            path,
            media_type,
            data: Arc::new(data),
        };
        self.items.push(att);
        let n = self.items.len();
        proof {
            assert forall|i: int, j: int| 0 <= i < j < self.items@.len()
                implies #[trigger] self.items@[i].id < #[trigger] self.items@[j].id by {
                if j == n - 1 {
                    assert(self.items@[i] == old_items[i]);
                } else {
                    assert(old_items[i].id < old_items[j].id);
                }
            }
            assert forall|i: int| 0 <= i < self.items@.len() implies {
                let a = #[trigger] self.items@[i];
                &&& KITTY_ID_BASE < a.id
                &&& a.id - KITTY_ID_BASE <= self.seq
                &&& a.token@ == image_token((a.id - KITTY_ID_BASE) as nat)
            } by {
                if i < n - 1 {
                    assert(self.items@[i] == old_items[i]);
                    assert(old_items[i] == self.items()[i]);
                }
            }
        }
        Ok(&self.items[n - 1])
    }

    /// Removes and returns the attachment at `idx`, if there is one.
    pub fn remove(&mut self, idx: usize) -> (r: Option<Attachment>)
        requires
            old(self).wf(),
        ensures
            final(self).wf(),
            idx < old(self).items().len() ==> r == Some(old(self).items()[idx as int])
                && final(self).items() == old(self).items().remove(idx as int),
            idx >= old(self).items().len() ==> r is None && final(self).items() == old(self).items(),
            final(self).minted() == old(self).minted(),
    {
        if idx < self.items.len() {
            Some(self.items.remove(idx))
        } else {
            None
        }
    }

    /// Drops every attachment whose token no longer appears in `text`
    /// (edited away, draft cleared, history recall) and returns how many
    /// were dropped.
    pub fn reconcile(&mut self, text: &str) -> (dropped: usize)
        requires
            old(self).wf(),
        ensures
            final(self).wf(),
            final(self).items() == old(self).items().filter(token_survives(text@)),
            dropped == old(self).items().len() - final(self).items().len(),
            final(self).minted() == old(self).minted(),
    {
        let hay = chars_of(text);
        let before = self.items.len();
        let ghost pred = token_survives(text@);
        let ghost orig = self.items@;
        let ghost seq0 = self.seq;
        proof {
            assert forall|a: int, b: int| 0 <= a < b < orig.len() implies #[trigger] orig[a].id < #[trigger] orig[b].id by {
                assert(self.items()[a].id < self.items()[b].id);
            }
            assert forall|a: int| 0 <= a < orig.len() implies {
                let x = #[trigger] orig[a];
                &&& KITTY_ID_BASE < x.id
                &&& x.id - KITTY_ID_BASE <= seq0
                &&& x.token@ == image_token((x.id - KITTY_ID_BASE) as nat)
            } by {
                assert(self.items()[a] == orig[a]);
            }
        }
        let mut rest: Vec<Attachment> = Vec::new();
        std::mem::swap(&mut rest, &mut self.items);
        let mut kept: Vec<Attachment> = Vec::new();
        let ghost mut i: int = 0;
        proof {
            assert(orig.subrange(0, 0).filter(pred) =~= Seq::<Attachment>::empty()) by {
                reveal_with_fuel(Seq::filter, 1);
            }
            assert(rest@ =~= orig.subrange(0, 0) + rest@);
        }
        while rest.len() > 0
            invariant
                before == orig.len(),
                hay@ == text@,
                pred == token_survives(text@),
                0 <= i <= orig.len(),
                orig == orig.subrange(0, i) + rest@,
                kept@ == orig.subrange(0, i).filter(pred),
                kept@.len() <= i,
                forall|k: int| 0 <= k < kept@.len() ==> exists|j: int| 0 <= j < i && #[trigger] kept@[k] == orig[j],
                forall|a: int, b: int| 0 <= a < b < kept@.len() ==> #[trigger] kept@[a].id < #[trigger] kept@[b].id,
                forall|a: int, b: int| 0 <= a < b < orig.len() ==> #[trigger] orig[a].id < #[trigger] orig[b].id,
                forall|a: int| 0 <= a < orig.len() ==> {
                    let x = #[trigger] orig[a];
                    &&& KITTY_ID_BASE < x.id
                    &&& x.id - KITTY_ID_BASE <= seq0
                    &&& x.token@ == image_token((x.id - KITTY_ID_BASE) as nat)
                },
                self.seq == seq0,
            decreases rest.len(),
        {
            let a = rest.remove(0);
            proof {
                assert(orig[i] == a);
                assert(orig.subrange(0, i + 1).drop_last() =~= orig.subrange(0, i));
                assert(orig.subrange(0, i + 1).last() == a);
                reveal_with_fuel(Seq::filter, 1);
                orig.subrange(0, i).lemma_filter_len(pred);
            }
            let tok = chars_of(a.token.as_str());
            let found = find_chars(hay.as_slice(), tok.as_slice());
            proof {
                if let Some(j) = found {
                    assert(occurs_at(hay@, tok@, j as int));
                }
                assert(tok@ == a.token@);
                assert(pred(a) == contains_seq(text@, a.token@));
                assert(pred(a) == found.is_some());
                assert(orig.subrange(0, i + 1).filter(pred) == (if pred(a) {
                    orig.subrange(0, i).filter(pred).push(a)
                } else {
                    orig.subrange(0, i).filter(pred)
                }));
            }
            proof {
                assert forall|k: int| 0 <= k < kept@.len() implies #[trigger] kept@[k].id < a.id by {
                    let j = choose|j: int| 0 <= j < i && kept@[k] == orig[j];
                    assert(orig[j].id < orig[i].id);
                }
            }
            if found.is_some() {
                kept.push(a);
            }
            proof {
                i = i + 1;
                assert(orig =~= orig.subrange(0, i) + rest@);
            }
        }
        proof {
            assert(orig.subrange(0, i) =~= orig);
            assert forall|k: int| 0 <= k < kept@.len() implies {
                let x = #[trigger] kept@[k];
                &&& KITTY_ID_BASE < x.id
                &&& x.id - KITTY_ID_BASE <= seq0
                &&& x.token@ == image_token((x.id - KITTY_ID_BASE) as nat)
            } by {
                let j = choose|j: int| 0 <= j < i && kept@[k] == orig[j];
                assert(orig[j] == kept@[k]);
            }
        }
        self.items = kept;
        before - self.items.len()
    }

    /// Removes and returns every staged attachment, leaving the tray empty.
    pub fn drain(&mut self) -> (r: Vec<Attachment>)
        ensures
            old(self).wf() ==> final(self).wf(),
            r@ == old(self).items(),
            final(self).items() == Seq::<Attachment>::empty(),
            final(self).minted() == old(self).minted(),
    {
        let mut out: Vec<Attachment> = Vec::new();
        std::mem::swap(&mut out, &mut self.items);
        out
    }

    /// Tray size.
    pub fn len(&self) -> (n: usize)
        ensures
            n == self.items().len(),
    {
        self.items.len()
    }

    /// Whether nothing is staged.
    pub fn is_empty(&self) -> (b: bool)
        ensures
            b == (self.items().len() == 0),
    {
        self.items.len() == 0
    }

    /// The staged attachments in staging order.
    pub fn iter(&self) -> (r: std::slice::Iter<'_, Attachment>)
        ensures
            r.remaining() == self.items().as_ref(),
    {
        broadcast use vstd::std_specs::slice::axiom_spec_slice_iter;
        self.items.iter()
    }

    /// The attachment at `idx`, if there is one.
    pub fn get(&self, idx: usize) -> (r: Option<&Attachment>)
        ensures
            idx < self.items().len() ==> r == Some(&self.items()[idx as int]),
            idx >= self.items().len() ==> r is None,
    {
        if idx < self.items.len() {
            Some(&self.items[idx])
        } else {
            None
        }
    }
}

/// Whether an attachment's token still appears in the draft `text`.
pub open spec fn token_survives(text: Seq<char>) -> spec_fn(Attachment) -> bool {
    |a: Attachment| contains_seq(text, a.token@)
}

impl Default for Staged {
    fn default() -> (r: Self)
        ensures
            r.items() == Seq::<Attachment>::empty(),
            r.minted() == 0,
            r.wf(),
    {
        Staged::new()
    }
}

/// Staging numbers are never reused or reindexed: in a well-formed tray
/// no two attachments share an id, and the next `add` mints an id above
/// every id present.
pub proof fn law_staged_ids_distinct(s: Staged)
    requires
        s.wf(),
    ensures
        forall|i: int, j: int| 0 <= i < s.items().len() && 0 <= j < s.items().len() && i != j
            ==> #[trigger] s.items()[i].id != #[trigger] s.items()[j].id,
        forall|i: int| 0 <= i < s.items().len() ==> #[trigger] s.items()[i].id < KITTY_ID_BASE + s.minted() + 1,
{
    assert forall|i: int, j: int| 0 <= i < s.items().len() && 0 <= j < s.items().len() && i != j
        implies #[trigger] s.items()[i].id != #[trigger] s.items()[j].id by {
        if i < j {
            assert(s.items()[i].id < s.items()[j].id);
        } else {
            assert(s.items()[j].id < s.items()[i].id);
        }
    }
}


/// Whether the chip span covers character position `p`.
pub open spec fn covers(sp: (usize, usize, usize), p: int) -> bool {
    sp.0 <= p < sp.1
}

/// `sp` is the least span of `spans` (in span order) that covers `p`.
pub open spec fn least_cover(spans: Seq<(usize, usize, usize)>, p: int, sp: (usize, usize, usize)) -> bool {
    &&& spans.contains(sp)
    &&& covers(sp, p)
    &&& forall|q: (usize, usize, usize)| spans.contains(q) && covers(q, p) ==> span_le(sp, q)
}

/// The chip spans of draft `text` over the tray `items`, in tray order.
pub open spec fn chip_spans(text: Seq<char>, items: Seq<Attachment>) -> Seq<(usize, usize, usize)> {
    found_spans(text, tokens_of(items))
}

/// What holds of one chip span `q` of `text` over the tokens `tokens`:
/// it names a token, ends where that token's first occurrence ends, and
/// lies inside the draft.
pub open spec fn span_ok(text: Seq<char>, tokens: Seq<Seq<char>>, q: (usize, usize, usize)) -> bool {
    &&& q.2 < tokens.len()
    &&& q.1 == q.0 + tokens[q.2 as int].len()
    &&& q.1 <= text.len()
}

/// Every chip span names a token and lies inside the draft.
pub proof fn lemma_found_spans_bounds(text: Seq<char>, tokens: Seq<Seq<char>>)
    requires
        text.len() <= usize::MAX,
        tokens.len() <= usize::MAX,
    ensures
        forall|q: (usize, usize, usize)| #[trigger] found_spans(text, tokens).contains(q) ==> span_ok(text, tokens, q),
    decreases tokens.len(),
{
    if tokens.len() > 0 {
        let pre = tokens.drop_last();
        lemma_found_spans_bounds(text, pre);
        let t = tokens.last();
        let rest = found_spans(text, pre);
        let all = found_spans(text, tokens);
        if contains_seq(text, t) {
            let w = choose|i: int| occurs_at(text, t, i);
            lemma_first_occurrence(text, t, w);
            let f = first_occurrence(text, t);
            let x = (f as usize, (f + t.len()) as usize, (tokens.len() - 1) as usize);
            assert(0 <= f && f + t.len() <= text.len());
            assert(x.0 == f && x.1 == f + t.len() && x.2 == tokens.len() - 1);
            assert(all == rest.push(x));
            assert(tokens[tokens.len() - 1] == t);
            assert forall|q: (usize, usize, usize)| #[trigger] all.contains(q) implies span_ok(text, tokens, q) by {
                let k = choose|k: int| 0 <= k < all.len() && all[k] == q;
                if k < rest.len() {
                    assert(rest[k] == q);
                    assert(rest.contains(q));
                    assert(pre[q.2 as int] == tokens[q.2 as int]);
                }
            }
        } else {
            assert(all == rest);
            assert forall|q: (usize, usize, usize)| #[trigger] all.contains(q) implies span_ok(text, tokens, q) by {
                assert(rest.contains(q));
                assert(pre[q.2 as int] == tokens[q.2 as int]);
            }
        }
    }
}

/// Where `needle` occurs at `w`, its first occurrence is an occurrence no
/// later than `w` with none before it.
pub proof fn lemma_first_occurrence(text: Seq<char>, needle: Seq<char>, w: int)
    requires
        occurs_at(text, needle, w),
    ensures
        occurs_at(text, needle, first_occurrence(text, needle)),
        forall|j: int| 0 <= j < first_occurrence(text, needle) ==> !occurs_at(text, needle, j),
        first_occurrence(text, needle) <= w,
    decreases w,
{
    if exists|j: int| 0 <= j < w && occurs_at(text, needle, j) {
        let j = choose|j: int| 0 <= j < w && occurs_at(text, needle, j);
        lemma_first_occurrence(text, needle, j);
    } else {
        let f = first_occurrence(text, needle);
        assert(occurs_at(text, needle, w) && forall|j: int| 0 <= j < w ==> !occurs_at(text, needle, j));
        assert(occurs_at(text, needle, f) && forall|j: int| 0 <= j < f ==> !occurs_at(text, needle, j));
        if f < w {
            assert(!occurs_at(text, needle, f));
        } else if w < f {
            assert(!occurs_at(text, needle, w));
        }
    }
}

/// The character a deletion probes: the one before the cursor for
/// Backspace, the one at it for Delete.
pub open spec fn probe_of(cursor: usize, backward: bool) -> int {
    if backward { cursor - 1 } else { cursor as int }
}

/// Whether some span of `spans` covers position `p`.
pub open spec fn has_cover(spans: Seq<(usize, usize, usize)>, p: int) -> bool {
    exists|q: (usize, usize, usize)| #[trigger] spans.contains(q) && covers(q, p)
}

/// The effect of deleting the chip with span `sp`: its image is returned
/// and leaves the tray, its token text leaves the draft, and the cursor
/// moves to where the token started.
pub open spec fn chip_deleted(
    before: Input,
    after: Input,
    items_before: Seq<Attachment>,
    items_after: Seq<Attachment>,
    r: Option<Attachment>,
    sp: (usize, usize, usize),
) -> bool {
    &&& r == Some(items_before[sp.2 as int])
    &&& items_after == items_before.remove(sp.2 as int)
    &&& after.buf@ == splice_spec(before.buf@, sp.0 as int, sp.1 as int, Seq::empty())
    &&& after.cursor == sp.0
}

/// Sequences with one multiset hold the same elements.
proof fn lemma_same_elements(a: Seq<(usize, usize, usize)>, b: Seq<(usize, usize, usize)>)
    requires
        a.to_multiset() == b.to_multiset(),
    ensures
        forall|q: (usize, usize, usize)| a.contains(q) <==> b.contains(q),
{
    broadcast use vstd::seq_lib::to_multiset_contains;
    assert forall|q: (usize, usize, usize)| a.contains(q) <==> b.contains(q) by {
        if a.contains(q) {
            assert(a.to_multiset().count(q) > 0);
        }
        if b.contains(q) {
            assert(b.to_multiset().count(q) > 0);
        }
    }
}

/// In sorted spans, the first one covering `p` is the least that does.
proof fn lemma_first_cover_is_least(si: Seq<(usize, usize, usize)>, p: int, i: int)
    requires
        spans_sorted(si),
        0 <= i < si.len(),
        covers(si[i], p),
        forall|j: int| 0 <= j < i ==> !covers(#[trigger] si[j], p),
    ensures
        least_cover(si, p, si[i]),
{
    assert(si.contains(si[i]));
    assert forall|q: (usize, usize, usize)| si.contains(q) && covers(q, p) implies span_le(si[i], q) by {
        let j = choose|j: int| 0 <= j < si.len() && si[j] == q;
        if j > i {
            assert(span_le(si[i], si[j]));
        } else if j < i {
            assert(!covers(si[j], p));
        }
    }
}

/// Cuts the characters `[start, end)` out of the draft, puts the cursor at
/// `start`, and takes image `idx` out of the tray.
fn cut_chip(input: &mut Input, staged: &mut Staged, cs: &Vec<char>, start: usize, end: usize, idx: usize) -> (r: Option<Attachment>)
    requires
        old(staged).wf(),
        cs@ == old(input).buf@,
        start <= end <= old(input).buf@.len(),
        idx < old(staged).items().len(),
    ensures
        final(staged).wf(),
        final(staged).minted() == old(staged).minted(),
        final(input).history == old(input).history,
        final(input).hist_pos == old(input).hist_pos,
        final(input).stash == old(input).stash,
        chip_deleted(*old(input), *final(input), old(staged).items(), final(staged).items(), r, (start, end, idx)),
{
    let none: [char; 0] = [];
    let kept = splice(cs, start, end, &none);
    input.buf = string_of(kept.as_slice());
    input.cursor = start;
    let removed = staged.remove(idx);
    proof {
        assert(none@ =~= Seq::<char>::empty());
    }
    removed
}

impl Staged {
    /// The chip spans of draft `text`: for each staged image whose token
    /// occurs in it, the character range of the token's first occurrence
    /// and the image's tray index, in ascending order.
    pub fn token_spans(&self, text: &str) -> (r: Vec<(usize, usize, usize)>)
        ensures
            spans_sorted(r@),
            r@.to_multiset() == chip_spans(text@, self.items()).to_multiset(),
    {
        token_spans_in(text, self.items.as_slice())
    }
}

/// Deletes the chip under the cursor: Backspace (`backward`) probes the
/// character before `cursor`, Delete the one at it. Where a chip span
/// covers the probe, the least such chip's whole token leaves the draft,
/// the cursor moves to where it started, and its image leaves the tray and
/// is returned; otherwise (and for Backspace at the start) nothing
/// changes.
pub fn delete_token_at(input: &mut Input, staged: &mut Staged, cursor: usize, backward: bool) -> (r: Option<Attachment>)
    requires
        old(staged).wf(),
    ensures
        final(staged).wf(),
        final(staged).minted() == old(staged).minted(),
        final(input).history == old(input).history,
        final(input).hist_pos == old(input).hist_pos,
        final(input).stash == old(input).stash,
        (backward && cursor == 0) || !has_cover(chip_spans(old(input).buf@, old(staged).items()), probe_of(cursor, backward))
            ==> r is None && *final(input) == *old(input) && final(staged).items() == old(staged).items(),
        !(backward && cursor == 0) && has_cover(chip_spans(old(input).buf@, old(staged).items()), probe_of(cursor, backward))
            ==> exists|sp: (usize, usize, usize)| #[trigger] least_cover(chip_spans(old(input).buf@, old(staged).items()), probe_of(cursor, backward), sp)
                && chip_deleted(*old(input), *final(input), old(staged).items(), final(staged).items(), r, sp),
{
    let ghost raw = chip_spans(input.buf@, staged.items());
    if backward && cursor == 0 {
        return None;
    }
    let probe: usize = if backward { cursor - 1 } else { cursor };
    let spans = staged.token_spans(input.buf.as_str());
    let cs = chars_of(input.buf.as_str());
    let total = cs.len();
    let tray = staged.len();
    proof {
        lemma_same_elements(spans@, raw);
    }
    let mut i: usize = 0;
    while i < spans.len() && !(spans[i].0 <= probe && probe < spans[i].1)
        invariant
            i <= spans@.len(),
            forall|j: int| 0 <= j < i ==> !covers(#[trigger] spans@[j], probe as int),
        decreases spans@.len() - i,
    {
        i += 1;
    }
    if i == spans.len() {
        proof {
            assert forall|q: (usize, usize, usize)| raw.contains(q) implies !covers(q, probe as int) by {
                assert(spans@.contains(q));
                let j = choose|j: int| 0 <= j < spans@.len() && spans@[j] == q;
            }
            assert(!has_cover(raw, probe as int));
        }
        return None;
    }
    let sp = spans[i];
    proof {
        lemma_first_cover_is_least(spans@, probe as int, i as int);
        assert(least_cover(raw, probe as int, sp));
        assert(raw.contains(sp));
        assert(span_ok(input.buf@, tokens_of(staged.items()), sp)) by {
            assert(total == input.buf@.len() && tray == tokens_of(staged.items()).len());
            lemma_found_spans_bounds(input.buf@, tokens_of(staged.items()));
        }
    }
    cut_chip(input, staged, &cs, sp.0, sp.1, sp.2)
}

/// The chip to preview: the hovered one where the mouse is over a chip,
/// else the least chip (in span order) whose token the cursor sits in or
/// right after.
pub fn preview_chip(hover: Option<usize>, text: &str, staged: &Staged, cursor: usize) -> (r: Option<usize>)
    ensures
        hover is Some ==> r == hover,
        hover is None ==> ({
            let raw = chip_spans(text@, staged.items());
            match r {
                Some(idx) => exists|sp: (usize, usize, usize)| {
                    &&& #[trigger] raw.contains(sp)
                    &&& sp.2 == idx
                    &&& sp.0 <= cursor <= sp.1
                    &&& forall|q: (usize, usize, usize)| raw.contains(q) && q.0 <= cursor <= q.1 ==> span_le(sp, q)
                },
                None => forall|q: (usize, usize, usize)| raw.contains(q) ==> !(q.0 <= cursor <= q.1),
            }
        }),
{
    if hover.is_some() {
        return hover;
    }
    let ghost raw = chip_spans(text@, staged.items());
    let spans = staged.token_spans(text);
    proof {
        lemma_same_elements(spans@, raw);
    }
    let mut i: usize = 0;
    while i < spans.len() && !(spans[i].0 <= cursor && cursor <= spans[i].1)
        invariant
            i <= spans@.len(),
            forall|j: int| 0 <= j < i ==> !((#[trigger] spans@[j]).0 <= cursor <= spans@[j].1),
        decreases spans@.len() - i,
    {
        i += 1;
    }
    if i == spans.len() {
        proof {
            assert forall|q: (usize, usize, usize)| raw.contains(q) implies !(q.0 <= cursor <= q.1) by {
                assert(spans@.contains(q));
                let j = choose|j: int| 0 <= j < spans@.len() && spans@[j] == q;
            }
        }
        return None;
    }
    let sp = spans[i];
    proof {
        assert(spans@.contains(sp));
        assert forall|q: (usize, usize, usize)| raw.contains(q) && q.0 <= cursor <= q.1 implies span_le(sp, q) by {
            assert(spans@.contains(q));
            let j = choose|j: int| 0 <= j < spans@.len() && spans@[j] == q;
            if j > i {
                assert(span_le(spans@[i as int], spans@[j]));
            }
        }
    }
    Some(sp.2)
}

} // verus!
