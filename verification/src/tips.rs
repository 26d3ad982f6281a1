//! Review flags and tips.
//!
//! A listing carries a review flag and a tip string: entries that each end
//! in a semicolon. An entry that begins with `!` is sticky and survives the
//! operator's clearing of the flag.

use vstd::prelude::*;
use vstd::string::*;

verus! {

/// Flag of a listing that no operator has reviewed yet.
pub const DRAFT: i64 = -2;

/// Flag of a listing on which a change was detected since the last review.
pub const NEEDS_REVIEW: i64 = -1;

/// Flag of a listing whose state the operator has accepted.
pub const CLEAR: i64 = 0;

/// The flag after a change was detected: a clear listing needs review, and
/// every other flag stays as it is.
pub open spec fn flagged(pending: int) -> int {
    if pending == CLEAR {
        NEEDS_REVIEW as int
    } else {
        pending
    }
}

/// `at` is the index of the first semicolon of `text`, or its length where
/// it holds none.
pub open spec fn ends_segment(text: Seq<char>, at: int) -> bool {
    &&& 0 <= at <= text.len()
    &&& at < text.len() ==> text[at] == ';'
    &&& forall|j: int| 0 <= j < at ==> text[j] != ';'
}

/// Length of the first entry of `text`: the index of its first semicolon,
/// or the length of the text.
pub open spec fn segment_end(text: Seq<char>) -> int {
    choose|at: int| ends_segment(text, at)
}

/// An entry that survives clearing.
pub open spec fn is_sticky(entry: Seq<char>) -> bool {
    entry.len() > 0 && entry[0] == '!'
}

/// The sticky entries of `text`, in order, each followed by a semicolon.
pub open spec fn sticky_only(text: Seq<char>) -> Seq<char>
    decreases text.len(),
{
    if text.len() == 0 {
        Seq::empty()
    } else {
        let end = segment_end(text);
        let entry = text.take(end);
        let kept = if is_sticky(entry) {
            entry.push(';')
        } else {
            Seq::empty()
        };
        if 0 <= end < text.len() {
            kept + sticky_only(text.skip(end + 1))
        } else {
            kept
        }
    }
}

/// There is exactly one end of the first entry.
pub proof fn lemma_segment_end(text: Seq<char>, at: int)
    requires
        ends_segment(text, at),
    ensures
        segment_end(text) == at,
{
    let chosen = segment_end(text);
    assert(ends_segment(text, chosen));
    if chosen < at {
        assert(text[chosen] != ';');
    } else if at < chosen {
        assert(text[at] != ';');
    }
}

/// The flag after a change was detected.
pub fn flag(pending: i64) -> (next: i64)
    ensures
        next == flagged(pending as int),
{
    if pending == CLEAR {
        NEEDS_REVIEW
    } else {
        pending
    }
}

/// Records a detected change: `note` and a semicolon are appended to the
/// tips, and a clear flag turns to needs-review.
pub fn annotate(tips: &mut String, pending: &mut i64, note: &str)
    ensures
        final(tips)@ == old(tips)@ + note@ + seq![';'],
        *final(pending) == flagged(*old(pending) as int),
{
    proof {
        reveal_strlit(";");
    }
    tips.append(note);
    tips.append(";");
    assert(";"@ =~= seq![';']);
    *pending = flag(*pending);
}

/// The tips with `note` and a semicolon appended where it is due.
pub open spec fn noted(tips: Seq<char>, due: bool, note: Seq<char>) -> Seq<char> {
    if due {
        tips + note + seq![';']
    } else {
        tips
    }
}

/// Appends `note` and a semicolon to the tips where `due` holds.
pub fn note_if(tips: &mut String, due: bool, note: &str)
    ensures
        final(tips)@ == noted(old(tips)@, due, note@),
{
    if due {
        proof {
            reveal_strlit(";");
        }
        tips.append(note);
        tips.append(";");
        assert(";"@ =~= seq![';']);
    }
}

/// The tips after the operator has cleared the flag: the sticky entries
/// alone.
pub fn retain_sticky(tips: &str) -> (kept: String)
    ensures
        kept@ == sticky_only(tips@),
{
    proof {
        reveal_strlit(";");
    }
    assert(";"@ =~= seq![';']);
    let n = tips.unicode_len();
    let mut kept = String::new();
    let mut start: usize = 0;
    let mut i: usize = 0;
    assert(tips@.skip(0) =~= tips@);
    assert(kept@ + sticky_only(tips@) =~= sticky_only(tips@));
    while i < n
        invariant
            n == tips@.len(),
            start <= i <= n,
            ";"@ == seq![';'],
            forall|j: int| start <= j < i ==> tips@[j] != ';',
            kept@ + sticky_only(tips@.skip(start as int)) == sticky_only(tips@),
        decreases n - i,
    {
        if tips.get_char(i) == ';' {
            let ghost rest = tips@.skip(start as int);
            let ghost before = kept@;
            proof {
                assert(ends_segment(rest, i - start));
                lemma_segment_end(rest, i - start);
                assert(rest.take(i - start) =~= tips@.subrange(start as int, i as int));
                assert(rest.skip(i - start + 1) =~= tips@.skip(i + 1));
            }
            if start < i && tips.get_char(start) == '!' {
                kept.append(tips.substring_char(start, i));
                kept.append(";");
                assert(kept@ =~= before + rest.take(i - start).push(';'));
            }
            assert(kept@ + sticky_only(tips@.skip(i + 1)) =~= before + sticky_only(rest));
            start = i + 1;
        }
        i += 1;
    }
    let ghost rest = tips@.skip(start as int);
    let ghost before = kept@;
    if start < n {
        proof {
            assert(ends_segment(rest, n - start));
            lemma_segment_end(rest, n - start);
            assert(rest.take(n - start) =~= tips@.subrange(start as int, n as int));
        }
        if tips.get_char(start) == '!' {
            kept.append(tips.substring_char(start, n));
            kept.append(";");
            assert(kept@ =~= before + rest.take(n - start).push(';'));
        }
        assert(kept@ =~= before + sticky_only(rest));
    } else {
        assert(kept@ =~= before + sticky_only(rest));
    }
    kept
}

} // verus!
