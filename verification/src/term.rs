//! The output buffer of an agent-requested terminal: output is appended as
//! it arrives, and the oldest text is dropped once the buffer outgrows the
//! byte limit the agent asked for.

use vstd::prelude::*;
use vstd::string::*;
use crate::app::{lemma_encode_utf8_concat, lossy_text, utf8_len, utf8_lossy};
use crate::text::{chars_of, sub_string};

verus! {

/// What a terminal buffer keeps of `s` under `limit` bytes: its oldest
/// characters dropped one by one until its UTF-8 encoding fits.
pub open spec fn kept_tail(s: Seq<char>, limit: int) -> Seq<char>
    decreases s.len(),
{
    if s.len() == 0 || vstd::utf8::encode_utf8(s).len() <= limit {
        s
    } else {
        kept_tail(s.drop_first(), limit)
    }
}

/// Appends terminal output to the buffer, decoded lossily. Where the
/// buffer then holds more than `byte_limit` bytes, the fewest whole
/// characters at its start that bring it within the limit are dropped.
/// Returns whether anything was dropped.
pub fn append_output(buf: &mut String, bytes: &[u8], byte_limit: usize) -> (trimmed: bool)
    ensures
        final(buf)@ == kept_tail(old(buf)@ + lossy_text(bytes@), byte_limit as int),
        trimmed == (vstd::utf8::encode_utf8(old(buf)@ + lossy_text(bytes@)).len() > byte_limit),
{
    let text = utf8_lossy(bytes);
    buf.append(text.as_str());
    let ghost full = buf@;
    assert(full == old(buf)@ + lossy_text(bytes@));
    let whole = buf.as_str();
    let total = whole.as_bytes().len();
    proof {
        assert(whole.spec_bytes() == vstd::utf8::encode_utf8(full));
    }
    if total <= byte_limit {
        return false;
    }
    let cs = chars_of(buf.as_str());
    let n = cs.len();
    let mut k: usize = 0;
    let mut left: usize = total;
    proof {
        assert(full.subrange(0, n as int) =~= full);
    }
    while left > byte_limit && k < n
        invariant
            cs@ == full,
            n == full.len(),
            k <= n,
            left == vstd::utf8::encode_utf8(full.subrange(k as int, n as int)).len(),
            kept_tail(full.subrange(k as int, n as int), byte_limit as int) == kept_tail(full, byte_limit as int),
        decreases n - k,
    {
        let c = cs[k];
        let ghost rest = full.subrange(k as int, n as int);
        proof {
            assert(rest =~= seq![c] + full.subrange(k + 1, n as int));
            lemma_encode_utf8_concat(seq![c], full.subrange(k + 1, n as int));
            assert(seq![c].drop_first() =~= Seq::<char>::empty());
            reveal_with_fuel(vstd::utf8::encode_utf8, 2);
            assert(vstd::utf8::encode_utf8(seq![c]) =~= vstd::utf8::encode_scalar(c as u32));
            assert(rest.drop_first() =~= full.subrange(k + 1, n as int));
        }
        let w = utf8_len(c);
        left = left - w;
        k += 1;
    }
    proof {
        let rest = full.subrange(k as int, n as int);
        if k == n {
            assert(rest.len() == 0);
        }
    }
    *buf = sub_string(&cs, k, n);
    true
}

} // verus!
