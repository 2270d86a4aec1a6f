//! Masking byte spans of a text with a run of mask characters.
use vstd::prelude::*;
use crate::text::{byte_offset, is_boundary, lemma_byte_offset_increasing, lemma_byte_offset_step, utf8_width};

verus! {

/// The character that hides redacted content.
pub const MASK: char = '*';

/// Spans as a matcher reports them: byte ranges of `s` that start and end
/// between characters, each ordered, none overlapping the next.
pub open spec fn spans_ok(s: Seq<char>, spans: Seq<(usize, usize)>) -> bool {
    &&& forall|k: int|
        0 <= k < spans.len() ==> #[trigger] spans[k].0 <= spans[k].1 && is_boundary(
            s,
            spans[k].0 as int,
        ) && is_boundary(s, spans[k].1 as int)
    &&& forall|j: int, k: int| 0 <= j < k < spans.len() ==> #[trigger] spans[j].1 <= #[trigger] spans[k].0
}

/// The byte offset `p` lies inside one of the spans.
pub open spec fn covered(spans: Seq<(usize, usize)>, p: int) -> bool {
    exists|k: int| 0 <= k < spans.len() && #[trigger] spans[k].0 <= p < spans[k].1
}

/// `s` with every character that starts inside a span replaced by the mask
/// character; the length in characters is kept.
pub open spec fn mask_spans(s: Seq<char>, spans: Seq<(usize, usize)>) -> Seq<char> {
    Seq::new(
        s.len(),
        |i: int|
            if covered(spans, byte_offset(s, i) as int) {
                MASK
            } else {
                s[i]
            },
    )
}

/// Replaces each character of `chars` that lies inside one of `spans` (byte
/// ranges of its UTF-8 encoding) with the mask character.
pub fn mask_chars(chars: &Vec<char>, spans: &Vec<(usize, usize)>) -> (r: Vec<char>)
    requires
        spans_ok(chars@, spans@),
    ensures
        r@ == mask_spans(chars@, spans@),
{
    let ghost s = chars@;
    let n = chars.len();
    let mut out: Vec<char> = Vec::new();
    let mut i: usize = 0;
    let mut k: usize = 0;
    let mut pos: usize = 0;
    assert(s.subrange(0, 0) =~= Seq::<char>::empty());
    while i < n
        invariant
            n == s.len(),
            s == chars@,
            spans_ok(s, spans@),
            0 <= i <= n,
            k <= spans.len(),
            k < spans.len() ==> pos == byte_offset(s, i as int),
            forall|j: int| 0 <= j < k ==> #[trigger] spans@[j].1 <= byte_offset(s, i as int),
            out@ =~= mask_spans(s, spans@).subrange(0, i as int),
        decreases n - i,
    {
        while k < spans.len() && spans[k].1 <= pos
            invariant
                i < n,
                k <= spans.len(),
                k < spans.len() ==> pos == byte_offset(s, i as int),
                forall|j: int| 0 <= j < k ==> #[trigger] spans@[j].1 <= byte_offset(s, i as int),
            decreases spans.len() - k,
        {
            k = k + 1;
        }
        let c = chars[i];
        let hit = k < spans.len() && spans[k].0 <= pos;
        proof {
            let p = byte_offset(s, i as int) as int;
            if hit {
                assert(covered(spans@, p));
            } else {
                assert forall|j: int| 0 <= j < spans@.len() implies !(#[trigger] spans@[j].0 <= p
                    < spans@[j].1) by {
                    if j >= k {
                        if j > k {
                            assert(spans@[k as int].1 <= spans@[j].0);
                            assert(spans@[k as int].0 <= spans@[k as int].1);
                        }
                    }
                }
            }
            lemma_byte_offset_step(s, i as int);
        }
        if hit {
            out.push(MASK);
        } else {
            out.push(c);
        }
        if k < spans.len() {
            proof {
                let e = spans@[k as int].1 as int;
                assert(is_boundary(s, e));
                let b = choose|b: int| 0 <= b <= s.len() && #[trigger] byte_offset(s, b) == e;
                if b <= i {
                    if b < i {
                        lemma_byte_offset_increasing(s, b, i as int);
                    }
                }
                if i + 1 < b {
                    lemma_byte_offset_increasing(s, i + 1, b);
                }
            }
            pos = pos + utf8_width(c);
        }
        i = i + 1;
    }
    assert(mask_spans(s, spans@).subrange(0, n as int) =~= mask_spans(s, spans@));
    out
}

/// A masking pass whose spans cover only characters that are already masked
/// leaves the text as it is.
pub proof fn lemma_mask_spans_on_masked(s: Seq<char>, spans: Seq<(usize, usize)>)
    requires
        forall|i: int|
            0 <= i < s.len() && covered(spans, #[trigger] byte_offset(s, i) as int) ==> s[i] == MASK,
    ensures
        mask_spans(s, spans) == s,
{
    assert(mask_spans(s, spans) =~= s);
}

} // verus!
