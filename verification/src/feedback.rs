//! The one-line notices shown after a correction.

use vstd::prelude::*;
use vstd::string::StringExecFns;
use crate::errors::FixError;
use crate::fix::FixOutcome;
use crate::settings::AppSettings;
use crate::text::{chars_of, is_whitespace, is_ws, push_char};

verus! {

broadcast use vstd::string::group_string_axioms;

/// The longest summary shown, in characters, before the ellipsis.
pub const SUMMARY_LIMIT: usize = 120;

/// `s` read from left to right with its words kept and each run of white
/// space between two words replaced by one space (`split_whitespace` joined by
/// spaces); the flag says whether white space follows the last word read.
pub open spec fn flatten_state(s: Seq<char>) -> (Seq<char>, bool)
    decreases s.len(),
{
    if s.len() == 0 {
        (Seq::empty(), false)
    } else {
        let (out, gap) = flatten_state(s.drop_last());
        let c = s.last();
        if is_ws(c) {
            (out, out.len() > 0)
        } else if gap {
            (out.push(' ').push(c), false)
        } else {
            (out.push(c), false)
        }
    }
}

/// The words of `s`, separated by single spaces.
pub open spec fn flattened(s: Seq<char>) -> Seq<char> {
    flatten_state(s).0
}

/// The summary of a corrected text: its words on one line, cut to
/// `SUMMARY_LIMIT` characters and marked with an ellipsis where cut.
pub open spec fn spec_summarise(text: Seq<char>) -> Seq<char> {
    let f = flattened(text);
    if f.len() <= SUMMARY_LIMIT {
        f
    } else {
        f.take(SUMMARY_LIMIT as int).push('…')
    }
}

/// Summarises a text for a one-line notice.
pub fn summarise(text: &str) -> (r: String)
    ensures
        r@ == spec_summarise(text@),
{
    let v = chars_of(text);
    let mut out: Vec<char> = Vec::new();
    let mut gap = false;
    let mut i: usize = 0;
    while i < v.len()
        invariant
            i <= v@.len(),
            v@ == text@,
            (out@, gap) == flatten_state(v@.take(i as int)),
        decreases v@.len() - i,
    {
        let c = v[i];
        assert(v@.take(i + 1).drop_last() =~= v@.take(i as int));
        assert(v@.take(i + 1).last() == c);
        if is_whitespace(c) {
            gap = out.len() > 0;
        } else {
            if gap {
                out.push(' ');
            }
            out.push(c);
            gap = false;
        }
        i = i + 1;
    }
    assert(v@.take(v@.len() as int) =~= v@);
    let n = if out.len() <= SUMMARY_LIMIT {
        out.len()
    } else {
        SUMMARY_LIMIT
    };
    let mut r = String::new();
    let mut k: usize = 0;
    while k < n
        invariant
            k <= n <= out@.len(),
            r@ == out@.take(k as int),
        decreases n - k,
    {
        push_char(&mut r, out[k]);
        assert(out@.take(k + 1) =~= out@.take(k as int).push(out@[k as int]));
        k = k + 1;
    }
    if out.len() > SUMMARY_LIMIT {
        push_char(&mut r, '…');
    } else {
        assert(out@.take(n as int) =~= out@);
    }
    r
}

/// The notice after a successful correction, with whether to play a sound;
/// none when notifications are switched off.
pub open spec fn spec_success_notice(settings: AppSettings, outcome: FixOutcome) -> Option<(Seq<char>, bool)> {
    if !settings.behavior.show_notifications {
        None
    } else if outcome.changed {
        Some((spec_summarise(outcome.corrected@), settings.behavior.play_sound))
    } else {
        Some(("No changes needed."@, settings.behavior.play_sound))
    }
}

/// The notice after a successful correction, with whether to play a sound.
pub fn success_notice(settings: &AppSettings, outcome: &FixOutcome) -> (r: Option<(String, bool)>)
    ensures
        match (r, spec_success_notice(*settings, *outcome)) {
            (Some((body, sound)), Some((b, s))) => body@ == b && sound == s,
            (None, None) => true,
            _ => false,
        },
{
    if !settings.behavior.show_notifications {
        return None;
    }
    let body = if outcome.changed {
        summarise(outcome.corrected.as_str())
    } else {
        String::from_str("No changes needed.")
    };
    Some((body, settings.behavior.play_sound))
}

/// The notice after a failed correction: the message, a line break, the remedy.
pub fn failure_notice(error: &FixError) -> (r: String)
    ensures
        r@ == error.message@ + "\n"@ + error.remedy@,
{
    let mut r = error.message.clone();
    r.append("\n");
    r.append(error.remedy.as_str());
    r
}

/// Flattening keeps the words and puts no white space at either end, and
/// none but single spaces inside.
pub proof fn lemma_flattened_is_one_line(s: Seq<char>)
    ensures
        forall|i: int| 0 <= i < flattened(s).len() && is_ws(#[trigger] flattened(s)[i]) ==> flattened(s)[i] == ' ',
        flattened(s).len() > 0 ==> !is_ws(flattened(s)[0]) && !is_ws(flattened(s).last()),
        forall|i: int| 0 <= i < flattened(s).len() - 1 && is_ws(#[trigger] flattened(s)[i]) ==> !is_ws(flattened(s)[i + 1]),
        flattened(s).filter(|c: char| !is_ws(c)) == s.filter(|c: char| !is_ws(c)),
    decreases s.len(),
{
    reveal(Seq::filter);
    if s.len() > 0 {
        let p = s.drop_last();
        lemma_flattened_is_one_line(p);
        let (out, gap) = flatten_state(p);
        let c = s.last();
        assert(gap ==> out.len() > 0) by {
            lemma_gap_needs_a_word(p);
        }
        assert(s.filter(|c: char| !is_ws(c)) == if is_ws(c) {
            p.filter(|c: char| !is_ws(c))
        } else {
            p.filter(|c: char| !is_ws(c)).push(c)
        });
        if is_ws(c) {
        } else if gap {
            let o2 = out.push(' ');
            assert(is_ws(' '));
            assert(o2.drop_last() =~= out);
            assert(o2.filter(|c: char| !is_ws(c)) == out.filter(|c: char| !is_ws(c)));
            assert(o2.push(c).drop_last() =~= o2);
            assert forall|i: int| 0 <= i < o2.push(c).len() - 1 && is_ws(#[trigger] o2.push(c)[i]) implies !is_ws(
                o2.push(c)[i + 1],
            ) by {
                if i == out.len() - 1 {
                    assert(o2.push(c)[i] == out.last());
                }
            }
        } else {
            assert(out.push(c).drop_last() =~= out);
            assert forall|i: int| 0 <= i < out.push(c).len() - 1 && is_ws(#[trigger] out.push(c)[i]) implies !is_ws(
                out.push(c)[i + 1],
            ) by {
                if i == out.len() - 1 {
                    assert(out.push(c)[i] == out.last());
                }
            }
        }
    }
}

/// A gap is only recorded after a word.
proof fn lemma_gap_needs_a_word(s: Seq<char>)
    ensures
        flatten_state(s).1 ==> flatten_state(s).0.len() > 0,
    decreases s.len(),
{
    if s.len() > 0 {
        lemma_gap_needs_a_word(s.drop_last());
    }
}

/// A summary is at most `SUMMARY_LIMIT` characters and an ellipsis, and it
/// is the whole flattened text where that fits.
pub proof fn lemma_summary_is_bounded(text: Seq<char>)
    ensures
        spec_summarise(text).len() <= SUMMARY_LIMIT + 1,
        flattened(text).len() <= SUMMARY_LIMIT ==> spec_summarise(text) == flattened(text),
        flattened(text).len() > SUMMARY_LIMIT ==> spec_summarise(text).last() == '…' && spec_summarise(
            text,
        ).drop_last() == flattened(text).take(SUMMARY_LIMIT as int),
{
    if flattened(text).len() > SUMMARY_LIMIT {
        assert(spec_summarise(text).drop_last() =~= flattened(text).take(SUMMARY_LIMIT as int));
    }
}

} // verus!
