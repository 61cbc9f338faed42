//! Cleaning what a model sends back before it replaces the user's text.

use vstd::prelude::*;
use crate::text::{
    all_ws, chars_of, ends_with, is_ws, leading_ws, lemma_leading_ws_bounds,
    lemma_trailing_ws_bounds, matches_at, occurs_at, push_range, starts_with, string_from_range,
    trailing_ws, trim, trim_start, ws_run_backward, ws_run_forward,
};

verus! {

broadcast use vstd::string::group_string_axioms;

/// The marker that opens the delimited text in the user turn.
pub open spec fn open_marker() -> Seq<char> {
    "<<<ZYNTAX_TEXT>>>"@
}

/// The marker that closes the delimited text in the user turn.
pub open spec fn close_marker() -> Seq<char> {
    "<<</ZYNTAX_TEXT>>>"@
}

/// A markdown code fence.
pub open spec fn fence() -> Seq<char> {
    "```"@
}

/// `s.replace(p, "")`: every non-overlapping occurrence of `p`, scanning
/// left to right, is removed.
pub open spec fn remove_all(s: Seq<char>, p: Seq<char>) -> Seq<char>
    decreases s.len(),
{
    if p.len() == 0 || s.len() == 0 {
        s
    } else if starts_with(s, p) {
        remove_all(s.skip(p.len() as int), p)
    } else {
        seq![s[0]] + remove_all(s.skip(1), p)
    }
}

/// What follows the first `c` in `s` (`split_once(c)`'s second half), if `c` occurs.
pub open spec fn after_first(s: Seq<char>, c: char) -> Option<Seq<char>>
    decreases s.len(),
{
    if s.len() == 0 {
        None
    } else if s[0] == c {
        Some(s.skip(1))
    } else {
        after_first(s.skip(1), c)
    }
}

/// `s.trim_end_matches('\n')`.
pub open spec fn trim_end_newlines(s: Seq<char>) -> Seq<char>
    decreases s.len(),
{
    if s.len() > 0 && s.last() == '\n' {
        trim_end_newlines(s.drop_last())
    } else {
        s
    }
}

/// The contents of a code fence that wraps the whole of `t`: the text after the
/// opening fence's first line and before the closing fence, without the
/// newlines that end it. `None` when `t` is not wrapped in a fence.
pub open spec fn strip_code_fence(t: Seq<char>) -> Option<Seq<char>> {
    if !starts_with(t, fence()) {
        None
    } else {
        match after_first(t.skip(3), '\n') {
            None => None,
            Some(a) => if ends_with(a, fence()) {
                Some(trim_end_newlines(a.take(a.len() - 3)))
            } else {
                None
            },
        }
    }
}

/// The model's reply with echoed markers removed and surrounding space trimmed.
pub open spec fn unmarked_reply(raw: Seq<char>) -> Seq<char> {
    trim(remove_all(remove_all(raw, open_marker()), close_marker()))
}

/// The corrected text: the reply, unwrapped from a code fence the user did
/// not select, placed between the white space that surrounded the selection.
/// A selection of nothing but white space is returned as it was.
pub open spec fn cleaned_output(raw: Seq<char>, original: Seq<char>) -> Seq<char> {
    if all_ws(original) {
        original
    } else {
        let t = unmarked_reply(raw);
        let body = if !starts_with(trim_start(original), fence()) && strip_code_fence(t) is Some {
            strip_code_fence(t)->0
        } else {
            t
        };
        original.take(leading_ws(original) as int) + body + original.skip(
            original.len() - trailing_ws(original),
        )
    }
}

proof fn lemma_remove_all_step(s: Seq<char>, p: Seq<char>, i: int)
    requires
        p.len() > 0,
        0 <= i < s.len(),
    ensures
        occurs_at(s, p, i) ==> remove_all(s.skip(i), p) == remove_all(s.skip(i + p.len()), p),
        !occurs_at(s, p, i) ==> remove_all(s.skip(i), p) == seq![s[i]] + remove_all(
            s.skip(i + 1),
            p,
        ),
{
    let t = s.skip(i);
    assert(t.len() > 0);
    if occurs_at(s, p, i) {
        assert(t.take(p.len() as int) =~= s.subrange(i, i + p.len()));
        assert(t.skip(p.len() as int) =~= s.skip(i + p.len()));
    } else {
        if starts_with(t, p) {
            assert(s.subrange(i, i + p.len()) =~= t.take(p.len() as int));
        }
        assert(t.skip(1) =~= s.skip(i + 1));
        assert(t[0] == s[i]);
    }
}

/// `v` with every occurrence of `p` removed.
fn remove_all_exec(v: &Vec<char>, p: &Vec<char>) -> (r: Vec<char>)
    requires
        p@.len() > 0,
    ensures
        r@ == remove_all(v@, p@),
{
    let mut out: Vec<char> = Vec::new();
    let mut i: usize = 0;
    assert(v@.skip(0) =~= v@);
    assert(out@ + remove_all(v@, p@) =~= remove_all(v@, p@));
    while i < v.len()
        invariant
            i <= v@.len(),
            p@.len() > 0,
            remove_all(v@, p@) == out@ + remove_all(v@.skip(i as int), p@),
        decreases v@.len() - i,
    {
        proof {
            lemma_remove_all_step(v@, p@, i as int);
        }
        if matches_at(v, i, p) {
            i = i + p.len();
        } else {
            let ghost prev = out@;
            out.push(v[i]);
            assert(out@ + remove_all(v@.skip(i + 1), p@) =~= prev + (seq![v@[i as int]]
                + remove_all(v@.skip(i + 1), p@)));
            i = i + 1;
        }
    }
    assert(v@.skip(i as int) =~= Seq::<char>::empty());
    assert(out@ + Seq::<char>::empty() =~= out@);
    out
}

proof fn lemma_after_first_found(s: Seq<char>, c: char, j: int)
    requires
        0 <= j < s.len(),
        s[j] == c,
        forall|k: int| 0 <= k < j ==> s[k] != c,
    ensures
        after_first(s, c) == Some(s.skip(j + 1)),
    decreases j,
{
    if j > 0 {
        assert(s[0] != c);
        assert forall|k: int| 0 <= k < j - 1 implies s.skip(1)[k] != c by {
            assert(s.skip(1)[k] == s[k + 1]);
        }
        assert(s.skip(1)[j - 1] == s[j]);
        lemma_after_first_found(s.skip(1), c, j - 1);
        assert(s.skip(1).skip(j) =~= s.skip(j + 1));
    }
}

proof fn lemma_after_first_absent(s: Seq<char>, c: char)
    requires
        forall|k: int| 0 <= k < s.len() ==> s[k] != c,
    ensures
        after_first(s, c) is None,
    decreases s.len(),
{
    if s.len() > 0 {
        assert(s[0] != c);
        assert forall|k: int| 0 <= k < s.skip(1).len() implies s.skip(1)[k] != c by {
            assert(s.skip(1)[k] == s[k + 1]);
        }
        lemma_after_first_absent(s.skip(1), c);
    }
}

proof fn lemma_trim_end_newlines(s: Seq<char>, e: int)
    requires
        0 <= e <= s.len(),
        forall|k: int| e <= k < s.len() ==> s[k] == '\n',
        e > 0 ==> s[e - 1] != '\n',
    ensures
        trim_end_newlines(s) == s.take(e),
    decreases s.len(),
{
    if s.len() > e {
        assert(s.last() == '\n');
        assert forall|k: int| e <= k < s.drop_last().len() implies s.drop_last()[k] == '\n' by {
            assert(s.drop_last()[k] == s[k]);
        }
        lemma_trim_end_newlines(s.drop_last(), e);
        assert(s.drop_last().take(e) =~= s.take(e));
    } else {
        assert(s.take(e) =~= s);
        if s.len() > 0 {
            assert(s.last() == s[e - 1]);
        }
    }
}

/// Locates, inside `v[a..b]`, the contents of a code fence that wraps the
/// whole range.
fn fence_body(v: &Vec<char>, fence_v: &Vec<char>, a: usize, b: usize) -> (r: Option<(usize, usize)>)
    requires
        a <= b <= v@.len(),
        fence_v@ == fence(),
    ensures
        match r {
            None => strip_code_fence(v@.subrange(a as int, b as int)) is None,
            Some((x, y)) => a <= x <= y <= b && strip_code_fence(v@.subrange(a as int, b as int))
                == Some(v@.subrange(x as int, y as int)),
        },
{
    let ghost t = v@.subrange(a as int, b as int);
    proof {
        reveal_strlit("```");
        assert(fence().len() == 3);
    }
    if !(b - a >= 3 && matches_at(v, a, fence_v)) {
        proof {
            if starts_with(t, fence()) {
                assert(v@.subrange(a as int, a + 3) =~= t.take(3));
            }
        }
        return None;
    }
    assert(t.take(3) =~= v@.subrange(a as int, a + 3));
    let ghost rest = t.skip(3);
    assert(rest =~= v@.subrange(a + 3, b as int));
    let mut j = a + 3;
    while j < b && v[j] != '\n'
        invariant
            a + 3 <= j <= b <= v@.len(),
            rest == v@.subrange(a + 3, b as int),
            forall|k: int| a + 3 <= k < j ==> v@[k] != '\n',
        decreases b - j,
    {
        j = j + 1;
    }
    if j == b {
        proof {
            assert forall|k: int| 0 <= k < rest.len() implies rest[k] != '\n' by {
                assert(rest[k] == v@[a + 3 + k]);
            }
            lemma_after_first_absent(rest, '\n');
        }
        return None;
    }
    let ghost after = v@.subrange(j + 1, b as int);
    proof {
        assert forall|k: int| 0 <= k < j - a - 3 implies rest[k] != '\n' by {
            assert(rest[k] == v@[a + 3 + k]);
        }
        assert(rest[j - a - 3] == v@[j as int]);
        lemma_after_first_found(rest, '\n', j - a - 3);
        assert(rest.skip(j - a - 3 + 1) =~= after);
    }
    let start = j + 1;
    if !(b - start >= 3 && matches_at(v, b - 3, fence_v)) {
        proof {
            if ends_with(after, fence()) {
                assert(v@.subrange(b - 3, b as int) =~= after.skip(after.len() - 3));
            }
        }
        return None;
    }
    assert(after.skip(after.len() - 3) =~= v@.subrange(b - 3, b as int));
    let ghost inner = after.take(after.len() - 3);
    assert(inner =~= v@.subrange(start as int, b - 3));
    let mut e = b - 3;
    while e > start && v[e - 1] == '\n'
        invariant
            start <= e <= b - 3,
            b <= v@.len(),
            forall|k: int| e <= k < b - 3 ==> v@[k] == '\n',
        decreases e - start,
    {
        e = e - 1;
    }
    proof {
        assert forall|k: int| e - start <= k < inner.len() implies inner[k] == '\n' by {
            assert(inner[k] == v@[start + k]);
        }
        if e > start {
            assert(inner[e - start - 1] == v@[e - 1]);
        }
        lemma_trim_end_newlines(inner, e - start);
        assert(inner.take(e - start) =~= v@.subrange(start as int, e as int));
    }
    Some((start, e))
}

/// Cleans a model reply: drops echoed delimiter markers, trims it, unwraps a
/// code fence the model added (unless the selection itself began with one),
/// and restores the white space that surrounded the selection. A selection
/// of only white space is returned unchanged.
pub fn clean_model_output(raw: &str, original: &str) -> (r: String)
    ensures
        r@ == cleaned_output(raw@, original@),
{
    let ov = chars_of(original);
    let n = ov.len();
    let lead = ws_run_forward(&ov, 0, n);
    proof {
        assert(ov@.subrange(0, n as int) =~= ov@);
        lemma_leading_ws_bounds(ov@);
    }
    if lead == n {
        assert(all_ws(original@));
        return string_from_range(&ov, 0, n);
    }
    proof {
        assert(!is_ws(ov@[lead as int]));
    }
    let open_v = chars_of("<<<ZYNTAX_TEXT>>>");
    let close_v = chars_of("<<</ZYNTAX_TEXT>>>");
    let fence_v = chars_of("```");
    proof {
        reveal_strlit("<<<ZYNTAX_TEXT>>>");
        reveal_strlit("<<</ZYNTAX_TEXT>>>");
    }
    let rv = chars_of(raw);
    let t1 = remove_all_exec(&rv, &open_v);
    let t2 = remove_all_exec(&t1, &close_v);
    let m = t2.len();
    let a = ws_run_forward(&t2, 0, m);
    proof {
        assert(t2@.subrange(0, m as int) =~= t2@);
        lemma_leading_ws_bounds(t2@);
    }
    let k = ws_run_backward(&t2, a, m);
    proof {
        assert(t2@.subrange(a as int, m as int) =~= trim_start(t2@));
        lemma_trailing_ws_bounds(t2@.subrange(a as int, m as int));
    }
    let b = m - k;
    assert(trim(t2@) =~= t2@.subrange(a as int, b as int));
    let tail = ws_run_backward(&ov, 0, n);
    proof {
        lemma_trailing_ws_bounds(ov@);
        reveal_strlit("```");
    }
    let user_fenced = matches_at(&ov, lead, &fence_v);
    proof {
        let ts = trim_start(original@);
        assert(ts =~= ov@.skip(lead as int));
        if starts_with(ts, fence()) {
            assert(ov@.subrange(lead as int, lead + 3) =~= ts.take(3));
        }
        if user_fenced {
            assert(ts.take(3) =~= ov@.subrange(lead as int, lead + 3));
        }
    }
    let (x, y) = if !user_fenced {
        match fence_body(&t2, &fence_v, a, b) {
            Some((x, y)) => (x, y),
            None => (a, b),
        }
    } else {
        (a, b)
    };
    proof {
        assert(lead + tail <= n) by {
            if lead + tail > n {
                assert(!is_ws(ov@[lead as int]));
                assert(is_ws(ov@[lead as int]));
            }
        }
    }
    let mut out = String::new();
    push_range(&mut out, &ov, 0, lead);
    push_range(&mut out, &t2, x, y);
    push_range(&mut out, &ov, n - tail, n);
    proof {
        assert(ov@.subrange(0, lead as int) =~= original@.take(lead as int));
        assert(ov@.subrange(n - tail, n as int) =~= original@.skip(n - tail));
    }
    assert(out@ =~= cleaned_output(raw@, original@));
    out
}

/// The corrected text keeps the white space that surrounded the selection:
/// it begins with the selection's leading white space and ends with its
/// trailing white space; a selection of only white space comes back as it was.
pub proof fn lemma_cleaned_output_keeps_the_surrounding_space(raw: Seq<char>, original: Seq<char>)
    ensures
        all_ws(original) ==> cleaned_output(raw, original) == original,
        !all_ws(original) ==> starts_with(cleaned_output(raw, original), original.take(leading_ws(original) as int)),
        !all_ws(original) ==> ends_with(
            cleaned_output(raw, original),
            original.skip(original.len() - trailing_ws(original)),
        ),
{
    if !all_ws(original) {
        lemma_leading_ws_bounds(original);
        lemma_trailing_ws_bounds(original);
        let c = cleaned_output(raw, original);
        let lead = original.take(leading_ws(original) as int);
        let tail = original.skip(original.len() - trailing_ws(original));
        assert(c.take(lead.len() as int) =~= lead);
        assert(c.skip(c.len() - tail.len()) =~= tail);
    }
}

/// When the selection, after its leading white space, opens with a code
/// fence, the reply is kept as it came (echoed markers and surrounding space
/// aside), fence included: it is not unwrapped. When the selection has no
/// such fence and the reply is wrapped in one, only the fence's contents are
/// kept.
pub proof fn lemma_a_fenced_selection_keeps_the_fence(raw: Seq<char>, original: Seq<char>)
    requires
        !all_ws(original),
    ensures
        ({
            let lead = original.take(leading_ws(original) as int);
            let tail = original.skip(original.len() - trailing_ws(original));
            &&& occurs_at(original, "```"@, leading_ws(original) as int) ==> cleaned_output(raw, original) == lead
                + unmarked_reply(raw) + tail
            &&& !occurs_at(original, "```"@, leading_ws(original) as int) && strip_code_fence(unmarked_reply(raw)) is Some
                ==> cleaned_output(raw, original) == lead + strip_code_fence(unmarked_reply(raw))->0 + tail
        }),
{
    lemma_leading_ws_bounds(original);
    let n = leading_ws(original) as int;
    let ts = trim_start(original);
    reveal_strlit("```");
    if ts.len() >= 3 {
        assert(original.subrange(n, n + 3) =~= ts.take(3));
    }
    if n + 3 <= original.len() {
        assert(original.subrange(n, n + 3) =~= ts.take(3));
    }
}

} // verus!
