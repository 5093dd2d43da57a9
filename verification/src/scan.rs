//! Character-level scanning primitives shared by the extractor and the
//! emitter: character classes, substring matching and search, and the
//! conversion between `&str` / `String` and `Vec<char>` working copies.

use vstd::prelude::*;
use vstd::string::StrSliceExecFns;

verus! {

/// Whitespace as the structural patterns understand it (ASCII).
pub open spec fn is_space(c: char) -> bool {
    c == ' ' || c == '\t' || c == '\n' || c == '\r' || c == '\u{b}' || c == '\u{c}'
}

/// Word characters: the letters, digits and underscore that make up
/// identifiers and type tokens.
pub open spec fn is_word(c: char) -> bool {
    let u = c as u32;
    (48 <= u && u <= 57) || (65 <= u && u <= 90) || u == 95 || (97 <= u && u <= 122)
}

/// `pat` occurs in `s` starting exactly at index `i`.
pub open spec fn match_at(s: Seq<char>, pat: Seq<char>, i: int) -> bool {
    0 <= i && i + pat.len() <= s.len() && s.subrange(i, i + pat.len()) == pat
}

/// `pat` occurs somewhere in `s` at an index `>= from`.
pub open spec fn has_sub_from(s: Seq<char>, pat: Seq<char>, from: int) -> bool {
    exists|i: int| #![trigger match_at(s, pat, i)] i >= from && match_at(s, pat, i)
}

/// `pat` occurs inside the half-open window `[lo, hi)` of `s`
/// (the whole occurrence must fit before `hi`).
pub open spec fn has_sub_in(s: Seq<char>, pat: Seq<char>, lo: int, hi: int) -> bool {
    exists|i: int|
        #![trigger match_at(s, pat, i)]
        lo <= i && i + pat.len() <= hi && hi <= s.len() && match_at(s, pat, i)
}

pub fn space_char(c: char) -> (b: bool)
    ensures
        b == is_space(c),
{
    c == ' ' || c == '\t' || c == '\n' || c == '\r' || c == '\u{b}' || c == '\u{c}'
}

pub fn word_char(c: char) -> (b: bool)
    ensures
        b == is_word(c),
{
    let u = c as u32;
    (48 <= u && u <= 57) || (65 <= u && u <= 90) || u == 95 || (97 <= u && u <= 122)
}

/// Type-argument characters: what may stand between `<` and `>` of a
/// one-level generic type token.
pub open spec fn is_targ(c: char) -> bool {
    is_word(c) || is_space(c) || c == ','
}

/// Line whitespace: whitespace that does not end the line.
pub open spec fn is_lws(c: char) -> bool {
    is_space(c) && c != '\n'
}

/// First index `>= i` that does not hold whitespace (or the end of `s`).
pub open spec fn skip_ws(s: Seq<char>, i: int) -> int
    decreases s.len() - i,
{
    if i < 0 || i >= s.len() {
        i
    } else if is_space(s[i]) {
        skip_ws(s, i + 1)
    } else {
        i
    }
}

/// End of the maximal run of word characters starting at `i`.
pub open spec fn word_end(s: Seq<char>, i: int) -> int
    decreases s.len() - i,
{
    if i < 0 || i >= s.len() {
        i
    } else if is_word(s[i]) {
        word_end(s, i + 1)
    } else {
        i
    }
}

/// End of the maximal run of type-argument characters starting at `i`.
pub open spec fn targ_end(s: Seq<char>, i: int) -> int
    decreases s.len() - i,
{
    if i < 0 || i >= s.len() {
        i
    } else if is_targ(s[i]) {
        targ_end(s, i + 1)
    } else {
        i
    }
}

/// End of the maximal run of characters other than `)` starting at `i`.
pub open spec fn nonclose_end(s: Seq<char>, i: int) -> int
    decreases s.len() - i,
{
    if i < 0 || i >= s.len() {
        i
    } else if s[i] != ')' {
        nonclose_end(s, i + 1)
    } else {
        i
    }
}

/// End of the maximal run of characters other than `,` starting at `i`.
pub open spec fn noncomma_end(s: Seq<char>, i: int) -> int
    decreases s.len() - i,
{
    if i < 0 || i >= s.len() {
        i
    } else if s[i] != ',' {
        noncomma_end(s, i + 1)
    } else {
        i
    }
}

/// First index `>= i` that does not hold line whitespace.
pub open spec fn skip_lws(s: Seq<char>, i: int) -> int
    decreases s.len() - i,
{
    if i < 0 || i >= s.len() {
        i
    } else if is_lws(s[i]) {
        skip_lws(s, i + 1)
    } else {
        i
    }
}

/// End of the maximal run of non-whitespace characters starting at `i`.
pub open spec fn token_end(s: Seq<char>, i: int) -> int
    decreases s.len() - i,
{
    if i < 0 || i >= s.len() {
        i
    } else if !is_space(s[i]) {
        token_end(s, i + 1)
    } else {
        i
    }
}

/// Start of the maximal run of whitespace ending just before `p`.
pub open spec fn ws_back(s: Seq<char>, p: int) -> int
    decreases p,
{
    if p <= 0 {
        0
    } else if p > s.len() {
        p
    } else if is_space(s[p - 1]) {
        ws_back(s, p - 1)
    } else {
        p
    }
}

/// Start of the maximal run of word characters ending just before `p`.
pub open spec fn word_back(s: Seq<char>, p: int) -> int
    decreases p,
{
    if p <= 0 {
        0
    } else if p > s.len() {
        p
    } else if is_word(s[p - 1]) {
        word_back(s, p - 1)
    } else {
        p
    }
}

/// Start of the maximal run of characters other than parentheses ending
/// just before `p`.
pub open spec fn nonparen_back(s: Seq<char>, p: int) -> int
    decreases p,
{
    if p <= 0 {
        0
    } else if p > s.len() {
        p
    } else if s[p - 1] != '(' && s[p - 1] != ')' {
        nonparen_back(s, p - 1)
    } else {
        p
    }
}

/// Start of the line that holds position `p`.
pub open spec fn line_start_of(s: Seq<char>, p: int) -> int
    decreases p,
{
    if p <= 0 {
        0
    } else if p > s.len() {
        p
    } else if s[p - 1] == '\n' {
        p
    } else {
        line_start_of(s, p - 1)
    }
}

/// End of the line starting at or holding position `i`: the next `\n`
/// at or after `i`, or the end of `s`.
pub open spec fn line_end(s: Seq<char>, i: int) -> int
    decreases s.len() - i,
{
    if i < 0 || i >= s.len() {
        i
    } else if s[i] == '\n' {
        i
    } else {
        line_end(s, i + 1)
    }
}

/// `m` begins a line of `s`.
pub open spec fn is_line_start(s: Seq<char>, m: int) -> bool {
    m == 0 || (0 < m <= s.len() && s[m - 1] == '\n')
}

pub fn line_end_exec(s: &Vec<char>, i: usize) -> (r: usize)
    requires
        i <= s@.len(),
    ensures
        r == line_end(s@, i as int),
        i <= r <= s@.len(),
{
    let mut j = i;
    while j < s.len() && s[j] != '\n'
        invariant
            i <= j <= s@.len(),
            line_end(s@, i as int) == line_end(s@, j as int),
        decreases s@.len() - j,
    {
        j = j + 1;
    }
    j
}

pub fn skip_ws_exec(s: &Vec<char>, i: usize) -> (r: usize)
    requires
        i <= s@.len(),
    ensures
        r == skip_ws(s@, i as int),
        i <= r <= s@.len(),
{
    let mut j = i;
    while j < s.len() && space_char(s[j])
        invariant
            i <= j <= s@.len(),
            skip_ws(s@, i as int) == skip_ws(s@, j as int),
        decreases s@.len() - j,
    {
        j = j + 1;
    }
    j
}

pub fn word_end_exec(s: &Vec<char>, i: usize) -> (r: usize)
    requires
        i <= s@.len(),
    ensures
        r == word_end(s@, i as int),
        i <= r <= s@.len(),
{
    let mut j = i;
    while j < s.len() && word_char(s[j])
        invariant
            i <= j <= s@.len(),
            word_end(s@, i as int) == word_end(s@, j as int),
        decreases s@.len() - j,
    {
        j = j + 1;
    }
    j
}

pub fn targ_end_exec(s: &Vec<char>, i: usize) -> (r: usize)
    requires
        i <= s@.len(),
    ensures
        r == targ_end(s@, i as int),
        i <= r <= s@.len(),
{
    let mut j = i;
    while j < s.len() && (word_char(s[j]) || space_char(s[j]) || s[j] == ',')
        invariant
            i <= j <= s@.len(),
            targ_end(s@, i as int) == targ_end(s@, j as int),
        decreases s@.len() - j,
    {
        j = j + 1;
    }
    j
}

pub fn nonclose_end_exec(s: &Vec<char>, i: usize) -> (r: usize)
    requires
        i <= s@.len(),
    ensures
        r == nonclose_end(s@, i as int),
        i <= r <= s@.len(),
{
    let mut j = i;
    while j < s.len() && s[j] != ')'
        invariant
            i <= j <= s@.len(),
            nonclose_end(s@, i as int) == nonclose_end(s@, j as int),
        decreases s@.len() - j,
    {
        j = j + 1;
    }
    j
}

pub fn noncomma_end_exec(s: &Vec<char>, i: usize) -> (r: usize)
    requires
        i <= s@.len(),
    ensures
        r == noncomma_end(s@, i as int),
        i <= r <= s@.len(),
{
    let mut j = i;
    while j < s.len() && s[j] != ','
        invariant
            i <= j <= s@.len(),
            noncomma_end(s@, i as int) == noncomma_end(s@, j as int),
        decreases s@.len() - j,
    {
        j = j + 1;
    }
    j
}

/// The characters `v[lo..hi]`, as their own vector.
pub fn subvec(v: &Vec<char>, lo: usize, hi: usize) -> (r: Vec<char>)
    requires
        lo <= hi && hi <= v@.len(),
    ensures
        r@ == v@.subrange(lo as int, hi as int),
{
    let mut out: Vec<char> = Vec::new();
    let mut i = lo;
    while i < hi
        invariant
            lo <= i <= hi <= v@.len(),
            out@ == v@.subrange(lo as int, i as int),
        decreases hi - i,
    {
        out.push(v[i]);
        i = i + 1;
        assert(out@ =~= v@.subrange(lo as int, i as int));
    }
    assert(out@ =~= v@.subrange(lo as int, hi as int));
    out
}

pub fn skip_lws_exec(s: &Vec<char>, i: usize) -> (r: usize)
    requires
        i <= s@.len(),
    ensures
        r == skip_lws(s@, i as int),
        i <= r <= s@.len(),
{
    let mut j = i;
    while j < s.len() && space_char(s[j]) && s[j] != '\n'
        invariant
            i <= j <= s@.len(),
            skip_lws(s@, i as int) == skip_lws(s@, j as int),
        decreases s@.len() - j,
    {
        j = j + 1;
    }
    j
}

pub fn token_end_exec(s: &Vec<char>, i: usize) -> (r: usize)
    requires
        i <= s@.len(),
    ensures
        r == token_end(s@, i as int),
        i <= r <= s@.len(),
{
    let mut j = i;
    while j < s.len() && !space_char(s[j])
        invariant
            i <= j <= s@.len(),
            token_end(s@, i as int) == token_end(s@, j as int),
        decreases s@.len() - j,
    {
        j = j + 1;
    }
    j
}

pub fn ws_back_exec(s: &Vec<char>, p: usize) -> (r: usize)
    requires
        p <= s@.len(),
    ensures
        r == ws_back(s@, p as int),
        r <= p,
{
    let mut j = p;
    while j > 0 && space_char(s[j - 1])
        invariant
            j <= p <= s@.len(),
            ws_back(s@, p as int) == ws_back(s@, j as int),
        decreases j,
    {
        j = j - 1;
    }
    j
}

pub fn word_back_exec(s: &Vec<char>, p: usize) -> (r: usize)
    requires
        p <= s@.len(),
    ensures
        r == word_back(s@, p as int),
        r <= p,
{
    let mut j = p;
    while j > 0 && word_char(s[j - 1])
        invariant
            j <= p <= s@.len(),
            word_back(s@, p as int) == word_back(s@, j as int),
        decreases j,
    {
        j = j - 1;
    }
    j
}

pub fn nonparen_back_exec(s: &Vec<char>, p: usize) -> (r: usize)
    requires
        p <= s@.len(),
    ensures
        r == nonparen_back(s@, p as int),
        r <= p,
{
    let mut j = p;
    while j > 0 && s[j - 1] != '(' && s[j - 1] != ')'
        invariant
            j <= p <= s@.len(),
            nonparen_back(s@, p as int) == nonparen_back(s@, j as int),
        decreases j,
    {
        j = j - 1;
    }
    j
}

pub fn line_start_of_exec(s: &Vec<char>, p: usize) -> (r: usize)
    requires
        p <= s@.len(),
    ensures
        r == line_start_of(s@, p as int),
        r <= p,
{
    let mut j = p;
    while j > 0 && s[j - 1] != '\n'
        invariant
            j <= p <= s@.len(),
            line_start_of(s@, p as int) == line_start_of(s@, j as int),
        decreases j,
    {
        j = j - 1;
    }
    j
}

/// The characters of `s`, in order, as a vector.
pub fn chars_of(s: &str) -> (r: Vec<char>)
    ensures
        r@ == s@,
{
    let n = s.unicode_len();
    let mut v: Vec<char> = Vec::new();
    let mut i: usize = 0;
    while i < n
        invariant
            n == s@.len(),
            i <= n,
            v@ == s@.subrange(0, i as int),
        decreases n - i,
    {
        let c = s.get_char(i);
        v.push(c);
        i = i + 1;
        assert(v@ =~= s@.subrange(0, i as int));
    }
    assert(v@ =~= s@);
    v
}

/// Relies on `String::push`: it appends exactly the given character.
#[verifier::external_body]
fn push_char(s: &mut String, c: char)
    ensures
        final(s)@ == old(s)@.push(c),
{
    s.push(c);
}

/// The characters `v[lo..hi]`, collected into an owned string.
pub fn string_of_range(v: &Vec<char>, lo: usize, hi: usize) -> (r: String)
    requires
        lo <= hi && hi <= v@.len(),
    ensures
        r@ == v@.subrange(lo as int, hi as int),
{
    let mut out = String::new();
    let mut i = lo;
    while i < hi
        invariant
            lo <= i <= hi <= v@.len(),
            out@ == v@.subrange(lo as int, i as int),
        decreases hi - i,
    {
        push_char(&mut out, v[i]);
        i = i + 1;
        assert(out@ =~= v@.subrange(lo as int, i as int));
    }
    assert(out@ =~= v@.subrange(lo as int, hi as int));
    out
}

/// Does the window `v[lo..hi]` hold exactly the characters of `lit`?
pub fn range_eq_str(v: &Vec<char>, lo: usize, hi: usize, lit: &str) -> (b: bool)
    requires
        lo <= hi && hi <= v@.len(),
    ensures
        b == (v@.subrange(lo as int, hi as int) == lit@),
{
    let m = lit.unicode_len();
    if hi - lo != m {
        return false;
    }
    let mut k: usize = 0;
    while k < m
        invariant
            lo <= hi <= v@.len(),
            m == lit@.len(),
            hi - lo == m,
            k <= m,
            forall|j: int| 0 <= j < k ==> v@.subrange(lo as int, hi as int)[j] == lit@[j],
        decreases m - k,
    {
        if v[lo + k] != lit.get_char(k) {
            return false;
        }
        k = k + 1;
    }
    assert(v@.subrange(lo as int, hi as int) =~= lit@);
    true
}

/// Does `pat` occur in `s` starting exactly at `i`?
pub fn match_at_exec(s: &Vec<char>, pat: &Vec<char>, i: usize) -> (b: bool)
    requires
        i <= s@.len(),
    ensures
        b == match_at(s@, pat@, i as int),
{
    if s.len() - i < pat.len() {
        return false;
    }
    let n = s.len();
    let mut k: usize = 0;
    while k < pat.len()
        invariant
            n == s@.len(),
            i + pat@.len() <= s@.len(),
            k <= pat@.len(),
            forall|j: int| 0 <= j < k ==> s@[i + j] == pat@[j],
        decreases pat@.len() - k,
    {
        if s[i + k] != pat[k] {
            assert(s@.subrange(i as int, i + pat@.len())[k as int] != pat@[k as int]);
            return false;
        }
        k = k + 1;
    }
    assert(s@.subrange(i as int, i + pat@.len()) =~= pat@);
    true
}

/// The first occurrence of `pat` in `s` at an index `>= from`, if any.
pub fn find_from(s: &Vec<char>, pat: &Vec<char>, from: usize) -> (r: Option<usize>)
    requires
        from <= s@.len(),
    ensures
        match r {
            Some(i) => from <= i && i + pat@.len() <= s@.len() && match_at(s@, pat@, i as int)
                && forall|j: int| from <= j < i ==> !match_at(s@, pat@, j),
            None => !has_sub_from(s@, pat@, from as int),
        },
{
    let mut i = from;
    while i < s.len()
        invariant
            from <= i <= s@.len(),
            forall|j: int| from <= j < i ==> !match_at(s@, pat@, j),
        decreases s@.len() - i,
    {
        if match_at_exec(s, pat, i) {
            return Some(i);
        }
        i = i + 1;
    }
    if pat.len() == 0 && from <= s.len() {
        assert(s@.subrange(from as int, from as int) =~= pat@);
        return Some(from);
    }
    assert(forall|j: int| j >= from ==> !match_at(s@, pat@, j)) by {
        assert forall|j: int| j >= from implies !match_at(s@, pat@, j) by {
            if j < s@.len() {
            } else {
                assert(j + pat@.len() > s@.len());
            }
        }
    }
    None
}

/// Does `pat` occur anywhere inside the window `[lo, hi)` of `s`?
pub fn has_sub_in_exec(s: &Vec<char>, pat: &Vec<char>, lo: usize, hi: usize) -> (b: bool)
    requires
        lo <= hi && hi <= s@.len(),
    ensures
        b == has_sub_in(s@, pat@, lo as int, hi as int),
{
    let mut i = lo;
    while i < hi
        invariant
            lo <= i <= hi <= s@.len(),
            forall|j: int| lo <= j < i ==> !(j + pat@.len() <= hi && match_at(s@, pat@, j)),
        decreases hi - i,
    {
        if hi - i >= pat.len() && match_at_exec(s, pat, i) {
            assert(has_sub_in(s@, pat@, lo as int, hi as int)) by {
                assert(lo <= i && i + pat@.len() <= hi && hi <= s@.len()
                    && match_at(s@, pat@, i as int));
            }
            return true;
        }
        i = i + 1;
    }
    if pat.len() == 0 {
        assert(s@.subrange(lo as int, lo as int) =~= pat@);
        assert(match_at(s@, pat@, lo as int));
        return true;
    }
    assert(!has_sub_in(s@, pat@, lo as int, hi as int)) by {
        if has_sub_in(s@, pat@, lo as int, hi as int) {
            let j = choose|j: int|
                lo <= j && j + pat@.len() <= hi && hi <= s@.len() && match_at(s@, pat@, j);
            assert(j < hi);
        }
    }
    false
}

} // verus!
