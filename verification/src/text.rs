//! Reading shapes off text: blanks, quotes, and a generic wrapper's argument.

use vstd::prelude::*;

verus! {

/// A space, a tab or a line break.
pub open spec fn is_blank(c: char) -> bool {
    c == ' ' || c == '\t' || c == '\n' || c == '\r'
}

/// The first position in `lo..hi` that holds no blank; `hi` if there is none.
pub open spec fn lead(s: Seq<char>, lo: int, hi: int) -> int
    decreases hi - lo,
{
    if lo < hi && is_blank(s[lo]) {
        lead(s, lo + 1, hi)
    } else {
        lo
    }
}

/// One past the last position in `lo..hi` that holds no blank; `lo` if there
/// is none.
pub open spec fn trail(s: Seq<char>, lo: int, hi: int) -> int
    decreases hi - lo,
{
    if lo < hi && is_blank(s[hi - 1]) {
        trail(s, lo, hi - 1)
    } else {
        hi
    }
}

/// The position in `i..hi` of the `>` that closes an angle bracket opened
/// `depth` levels up; `hi` if nothing closes it. The `>` of an arrow `->`
/// closes nothing.
pub open spec fn closing(s: Seq<char>, i: int, hi: int, depth: nat) -> int
    decreases hi - i,
{
    if i >= hi {
        hi
    } else if s[i] == '<' {
        closing(s, i + 1, hi, depth + 1)
    } else if s[i] == '>' && s[i - 1] != '-' {
        if depth <= 1 {
            i
        } else {
            closing(s, i + 1, hi, (depth - 1) as nat)
        }
    } else {
        closing(s, i + 1, hi, depth)
    }
}

/// The bounds of the argument of a generic wrapper: `s`, between blanks, is
/// `wrapper`, then `<`, then a non-empty argument, then the `>` that closes
/// that bracket. `None` where `s` has another shape.
pub open spec fn argument_bounds(s: Seq<char>, wrapper: Seq<char>) -> Option<(int, int)> {
    let a = lead(s, 0, s.len() as int);
    let b = trail(s, a, s.len() as int);
    let open = lead(s, a + wrapper.len(), b);
    let from = lead(s, open + 1, b - 1);
    let to = trail(s, from, b - 1);
    if a + wrapper.len() <= b && s.subrange(a, a + wrapper.len()) == wrapper && open < b
        && s[open] == '<' && closing(s, open + 1, b, 1) == b - 1 && from < to {
        Some((from, to))
    } else {
        None
    }
}

/// The argument of a generic wrapper, without the blanks around it.
pub open spec fn generic_argument(s: Seq<char>, wrapper: Seq<char>) -> Option<Seq<char>> {
    match argument_bounds(s, wrapper) {
        Some((from, to)) => Some(s.subrange(from, to)),
        None => None,
    }
}

/// What stands between the double quotes, where `s` begins and ends with one.
pub open spec fn quoted(s: Seq<char>) -> Option<Seq<char>> {
    if s.len() >= 2 && s[0] == '"' && s[s.len() - 1] == '"' {
        Some(s.subrange(1, s.len() - 1))
    } else {
        None
    }
}

/// The characters of a string, one by one.
pub fn chars_of(s: &str) -> (v: Vec<char>)
    ensures
        v@ == s@,
{
    let n: usize = s.unicode_len();
    let mut v: Vec<char> = Vec::new();
    let mut i: usize = 0;
    while i < n
        invariant
            i <= n,
            n == s@.len(),
            v@ == s@.subrange(0, i as int),
        decreases n - i,
    {
        v.push(s.get_char(i));
        i += 1;
        assert(v@ =~= s@.subrange(0, i as int));
    }
    assert(v@ =~= s@);
    v
}

/// Whether two strings hold the same text.
pub fn same_text(a: &str, b: &str) -> (r: bool)
    ensures
        r == (a@ == b@),
{
    let x: String = a.to_owned();
    let y: String = b.to_owned();
    x == y
}

fn find_lead(v: &Vec<char>, lo: usize, hi: usize) -> (r: usize)
    requires
        lo <= hi <= v@.len(),
    ensures
        r == lead(v@, lo as int, hi as int),
        lo <= r <= hi,
{
    let mut i: usize = lo;
    while i < hi && is_blank_char(v[i])
        invariant
            lo <= i <= hi <= v@.len(),
            lead(v@, i as int, hi as int) == lead(v@, lo as int, hi as int),
        decreases hi - i,
    {
        i += 1;
    }
    i
}

fn find_trail(v: &Vec<char>, lo: usize, hi: usize) -> (r: usize)
    requires
        lo <= hi <= v@.len(),
    ensures
        r == trail(v@, lo as int, hi as int),
        lo <= r <= hi,
{
    let mut j: usize = hi;
    while lo < j && is_blank_char(v[j - 1])
        invariant
            lo <= j <= hi <= v@.len(),
            trail(v@, lo as int, j as int) == trail(v@, lo as int, hi as int),
        decreases j - lo,
    {
        j -= 1;
    }
    j
}

fn is_blank_char(c: char) -> (r: bool)
    ensures
        r == is_blank(c),
{
    c == ' ' || c == '\t' || c == '\n' || c == '\r'
}

fn find_closing(v: &Vec<char>, from: usize, hi: usize) -> (r: usize)
    requires
        1 <= from <= hi <= v@.len(),
    ensures
        r == closing(v@, from as int, hi as int, 1),
        from <= r <= hi,
{
    let mut i: usize = from;
    let mut depth: usize = 1;
    while i < hi
        invariant
            1 <= from <= i <= hi <= v@.len(),
            1 <= depth <= i,
            closing(v@, i as int, hi as int, depth as nat) == closing(
                v@,
                from as int,
                hi as int,
                1,
            ),
        decreases hi - i,
    {
        let c: char = v[i];
        if c == '<' {
            depth += 1;
        } else if c == '>' && v[i - 1] != '-' {
            if depth <= 1 {
                return i;
            }
            depth -= 1;
        }
        i += 1;
    }
    i
}

fn has_at(v: &Vec<char>, at: usize, w: &Vec<char>) -> (r: bool)
    requires
        at + w@.len() <= v@.len(),
    ensures
        r == (v@.subrange(at as int, at + w@.len()) == w@),
{
    let n: usize = v.len();
    let mut k: usize = 0;
    while k < w.len()
        invariant
            k <= w@.len(),
            at + w@.len() <= v@.len() == n,
            forall|j: int| 0 <= j < k ==> v@[at + j] == w@[j],
        decreases w@.len() - k,
    {
        if v[at + k] != w[k] {
            assert(v@.subrange(at as int, at + w@.len())[k as int] != w@[k as int]);
            return false;
        }
        k += 1;
    }
    assert(v@.subrange(at as int, at + w@.len()) =~= w@);
    true
}

/// The argument of a generic wrapper: for `Option<u32>` and the wrapper
/// `Option` it is `u32`. Blanks around the text, before `<` and around the
/// argument do not count.
pub fn unwrap_generic(s: &str, wrapper: &str) -> (r: Option<String>)
    ensures
        text_of(r) == generic_argument(s@, wrapper@),
{
    let v = chars_of(s);
    let w = chars_of(wrapper);
    let n: usize = v.len();
    let a = find_lead(&v, 0, n);
    let b = find_trail(&v, a, n);
    if w.len() > b - a {
        return None;
    }
    if !has_at(&v, a, &w) {
        return None;
    }
    let open = find_lead(&v, a + w.len(), b);
    if open >= b || v[open] != '<' {
        return None;
    }
    let close = find_closing(&v, open + 1, b);
    if close != b - 1 {
        return None;
    }
    let from = find_lead(&v, open + 1, b - 1);
    let to = find_trail(&v, from, b - 1);
    if from >= to {
        return None;
    }
    Some(s.substring_char(from, to).to_owned())
}

/// What stands between the double quotes of `s`, if it begins and ends with
/// one.
pub fn unquote(s: &str) -> (r: Option<String>)
    ensures
        text_of(r) == quoted(s@),
{
    let n: usize = s.unicode_len();
    if n >= 2 && s.get_char(0) == '"' && s.get_char(n - 1) == '"' {
        Some(s.substring_char(1, n - 1).to_owned())
    } else {
        None
    }
}

/// The text in an optional string.
pub open spec fn text_of(o: Option<String>) -> Option<Seq<char>> {
    match o {
        Some(s) => Some(s@),
        None => None,
    }
}


/// The texts of a sequence of strings.
pub open spec fn texts(v: Seq<String>) -> Seq<Seq<char>> {
    Seq::new(v.len(), |i: int| v[i]@)
}

/// The texts of a sequence with one more string are those of the sequence
/// with one more text.
pub proof fn lemma_texts_push(v: Seq<String>, s: String)
    ensures
        texts(v.push(s)) == texts(v).push(s@),
{
    assert(texts(v.push(s)) =~= texts(v).push(s@));
}

/// Whether one of the strings in `v` holds the text of `s`.
pub fn holds_text(v: &Vec<String>, s: &str) -> (r: bool)
    ensures
        r == texts(v@).contains(s@),
{
    let mut i: usize = 0;
    while i < v.len()
        invariant
            i <= v@.len(),
            forall|j: int| 0 <= j < i ==> texts(v@)[j] != s@,
        decreases v@.len() - i,
    {
        if same_text(v[i].as_str(), s) {
            assert(texts(v@)[i as int] == s@);
            return true;
        }
        i += 1;
    }
    false
}

/// A copy of `v`, string by string.
pub fn copy_texts(v: &Vec<String>) -> (r: Vec<String>)
    ensures
        texts(r@) == texts(v@),
{
    let mut r: Vec<String> = Vec::new();
    let mut i: usize = 0;
    while i < v.len()
        invariant
            i <= v@.len(),
            texts(r@) == texts(v@).take(i as int),
        decreases v@.len() - i,
    {
        proof {
            lemma_texts_push(r@, v@[i as int]);
        }
        r.push(v[i].clone());
        i += 1;
        assert(texts(r@) =~= texts(v@).take(i as int));
    }
    assert(texts(r@) =~= texts(v@));
    r
}


/// Every position in `lo..hi` holds a blank.
pub open spec fn all_blank(s: Seq<char>, lo: int, hi: int) -> bool {
    forall|j: int| lo <= j < hi ==> is_blank(#[trigger] s[j])
}

/// No position in `lo..hi` holds an angle bracket.
pub open spec fn no_brackets(s: Seq<char>, lo: int, hi: int) -> bool {
    forall|j: int| lo <= j < hi ==> (#[trigger] s[j]) != '<' && s[j] != '>'
}

/// Before the leading position stand blanks only, and at it none.
pub proof fn lemma_lead(s: Seq<char>, lo: int, hi: int)
    requires
        lo <= hi,
    ensures
        lo <= lead(s, lo, hi) <= hi,
        all_blank(s, lo, lead(s, lo, hi)),
        lead(s, lo, hi) < hi ==> !is_blank(s[lead(s, lo, hi)]),
    decreases hi - lo,
{
    if lo < hi && is_blank(s[lo]) {
        lemma_lead(s, lo + 1, hi);
    }
}

/// After the trailing position stand blanks only, and just before it none.
pub proof fn lemma_trail(s: Seq<char>, lo: int, hi: int)
    requires
        lo <= hi,
    ensures
        lo <= trail(s, lo, hi) <= hi,
        all_blank(s, trail(s, lo, hi), hi),
        lo < trail(s, lo, hi) ==> !is_blank(s[trail(s, lo, hi) - 1]),
    decreases hi - lo,
{
    if lo < hi && is_blank(s[hi - 1]) {
        lemma_trail(s, lo, hi - 1);
    }
}

/// The leading position is where the blanks end.
pub proof fn lemma_lead_at(s: Seq<char>, lo: int, hi: int, p: int)
    requires
        lo <= p <= hi,
        all_blank(s, lo, p),
        p < hi ==> !is_blank(s[p]),
    ensures
        lead(s, lo, hi) == p,
    decreases p - lo,
{
    if lo < p {
        assert(is_blank(s[lo]));
        lemma_lead_at(s, lo + 1, hi, p);
    }
}

/// The trailing position is where the blanks begin.
pub proof fn lemma_trail_at(s: Seq<char>, lo: int, hi: int, p: int)
    requires
        lo <= p <= hi,
        all_blank(s, p, hi),
        lo < p ==> !is_blank(s[p - 1]),
    ensures
        trail(s, lo, hi) == p,
    decreases hi - p,
{
    if p < hi {
        assert(is_blank(s[hi - 1]));
        lemma_trail_at(s, lo, hi - 1, p);
    }
}

/// Across text without angle brackets, the bracket that closes is the next
/// one.
pub proof fn lemma_closing_at(s: Seq<char>, i: int, hi: int, p: int)
    requires
        1 <= i <= p < hi,
        forall|j: int| i <= j < p ==> (#[trigger] s[j]) != '<' && s[j] != '>',
        s[p] == '>',
        s[p - 1] != '-',
    ensures
        closing(s, i, hi, 1) == p,
    decreases p - i,
{
    if i < p {
        assert(s[i] != '<' && s[i] != '>');
        lemma_closing_at(s, i + 1, hi, p);
    }
}

/// What closes a bracket is a `>` within the bounds.
pub proof fn lemma_closing(s: Seq<char>, i: int, hi: int, depth: nat)
    requires
        i <= hi,
    ensures
        i <= closing(s, i, hi, depth) <= hi,
        closing(s, i, hi, depth) < hi ==> s[closing(s, i, hi, depth)] == '>',
    decreases hi - i,
{
    if i < hi {
        if s[i] == '<' {
            lemma_closing(s, i + 1, hi, depth + 1);
        } else if s[i] == '>' && s[i - 1] != '-' {
            if depth > 1 {
                lemma_closing(s, i + 1, hi, (depth - 1) as nat);
            }
        } else {
            lemma_closing(s, i + 1, hi, depth);
        }
    }
}

/// A text that is made of blanks, the wrapper, blanks, `<`, blanks, an
/// argument, blanks, `>` and blanks has that argument: the text in
/// `from..to`, which begins and ends with something other than a blank,
/// holds no angle bracket and does not end in `-`.
pub proof fn law_wrapped_argument_is_found(
    s: Seq<char>,
    wrapper: Seq<char>,
    start: int,
    open: int,
    from: int,
    to: int,
    close: int,
)
    requires
        0 <= start,
        wrapper.len() > 0,
        start + wrapper.len() <= open < from < to <= close < s.len(),
        all_blank(s, 0, start),
        s.subrange(start, start + wrapper.len()) == wrapper,
        !is_blank(wrapper[0]),
        all_blank(s, start + wrapper.len(), open),
        s[open] == '<',
        all_blank(s, open + 1, from),
        !is_blank(s[from]),
        !is_blank(s[to - 1]),
        no_brackets(s, from, to),
        s[to - 1] != '-',
        all_blank(s, to, close),
        s[close] == '>',
        all_blank(s, close + 1, s.len() as int),
    ensures
        generic_argument(s, wrapper) == Some(s.subrange(from, to)),
{
    let n = s.len() as int;
    let end = close + 1;
    assert(s[start] == s.subrange(start, start + wrapper.len())[0]);
    lemma_lead_at(s, 0, n, start);
    lemma_trail_at(s, start, n, end);
    lemma_lead_at(s, start + wrapper.len(), end, open);
    assert forall|j: int| open + 1 <= j < close implies (#[trigger] s[j]) != '<' && s[j]
        != '>' by {
        if j < from || j >= to {
            assert(is_blank(s[j]));
        }
    }
    assert(s[close - 1] != '-') by {
        if to < close {
            assert(is_blank(s[close - 1]));
        }
    }
    lemma_closing_at(s, open + 1, end, close);
    lemma_lead_at(s, open + 1, close, from);
    lemma_trail_at(s, from, close, to);
}

/// A text that has an argument under a wrapper is made of blanks, the
/// wrapper, blanks, `<`, blanks, the argument, blanks, `>` and blanks; the
/// argument is not empty and neither begins nor ends with a blank.
pub proof fn law_found_argument_is_wrapped(s: Seq<char>, wrapper: Seq<char>)
    requires
        argument_bounds(s, wrapper) is Some,
    ensures
        ({
            let (from, to) = argument_bounds(s, wrapper)->0;
            exists|start: int, open: int, close: int|
                {
                    &&& 0 <= start
                    &&& #[trigger] all_blank(s, 0, start)
                    &&& s.subrange(start, start + wrapper.len()) == wrapper
                    &&& start + wrapper.len() <= open < from < to <= close < s.len()
                    &&& #[trigger] all_blank(s, start + wrapper.len(), open)
                    &&& s[open] == '<'
                    &&& all_blank(s, open + 1, from)
                    &&& !is_blank(s[from])
                    &&& !is_blank(s[to - 1])
                    &&& all_blank(s, to, close)
                    &&& s[close] == '>'
                    &&& #[trigger] all_blank(s, close + 1, s.len() as int)
                }
        }),
{
    let n = s.len() as int;
    let start = lead(s, 0, n);
    let end = trail(s, start, n);
    let open = lead(s, start + wrapper.len(), end);
    let (from, to) = argument_bounds(s, wrapper)->0;
    let close = end - 1;
    lemma_lead(s, 0, n);
    lemma_trail(s, start, n);
    lemma_lead(s, start + wrapper.len(), end);
    lemma_closing(s, open + 1, end, 1);
    lemma_lead(s, open + 1, close);
    lemma_trail(s, from, close);
    assert(all_blank(s, 0, start));
    assert(all_blank(s, start + wrapper.len(), open));
    assert(all_blank(s, close + 1, n));
}

} // verus!
