//! The extractor: decides whether a source text is in scope, finds the
//! class declaration, and collects the members that carry the exposure
//! annotation.
//!
//! The structural patterns are stated as spec functions over the text's
//! character sequence; the executable scanner is proved to return exactly
//! what those patterns describe.

use vstd::prelude::*;
use crate::scan::{
    is_space, match_at, has_sub_in, skip_ws, word_end, targ_end, nonclose_end,
    skip_lws, token_end, ws_back, word_back, nonparen_back, line_start_of, line_end,
    is_line_start, space_char, chars_of, string_of_range, match_at_exec, find_from,
    has_sub_in_exec, skip_ws_exec, word_end_exec, targ_end_exec, nonclose_end_exec,
    skip_lws_exec, token_end_exec, ws_back_exec, word_back_exec, nonparen_back_exec,
    line_start_of_exec, line_end_exec, noncomma_end, noncomma_end_exec, subvec,
};
use crate::records::{
    ApexClass, ApexField, ApexMethod, ApexParameter, ClassView, FieldView, MethodView, ParamView,
};

verus! {

/// Opening delimiter of a documentation comment.
pub open spec fn doc_open() -> Seq<char> {
    "/**"@
}

/// Closing delimiter of a documentation comment.
pub open spec fn doc_close() -> Seq<char> {
    "*/"@
}

/// The inclusion marker that makes a source text in scope.
pub open spec fn ts_marker() -> Seq<char> {
    "@tsexport"@
}

/// The exposure annotation that makes a member part of the output.
pub open spec fn aura_marker() -> Seq<char> {
    "@AuraEnabled"@
}

pub open spec fn kw_public() -> Seq<char> {
    "public"@
}

pub open spec fn kw_class() -> Seq<char> {
    "class"@
}

pub open spec fn kw_static() -> Seq<char> {
    "static"@
}

/// Positions `i <= j <= k` witnessing a documentation comment that opens
/// before the inclusion marker and closes after it.
pub open spec fn marker_triple(s: Seq<char>, i: int, j: int, k: int) -> bool {
    match_at(s, doc_open(), i) && match_at(s, ts_marker(), j) && match_at(s, doc_close(), k)
        && i + doc_open().len() <= j && j + ts_marker().len() <= k
}

/// The text holds a documentation comment with the inclusion marker inside.
pub open spec fn has_marker(s: Seq<char>) -> bool {
    exists|i: int, j: int, k: int| #[trigger] marker_triple(s, i, j, k)
}

/// Is the text in scope?  True exactly when a documentation comment
/// containing the inclusion marker occurs somewhere in it.
pub fn has_marker_exec(text: &Vec<char>) -> (b: bool)
    ensures
        b == has_marker(text@),
{
    let n = text.len();
    let open = chars_of("/**");
    let r1 = find_from(text, &open, 0);
    match r1 {
        None => {
            assert(!has_marker(text@)) by {
                if has_marker(text@) {
                    let (i, j, k) = choose|i: int, j: int, k: int| marker_triple(text@, i, j, k);
                    assert(match_at(text@, doc_open(), i));
                }
            }
            false
        },
        Some(i0) => {
            let tsm = chars_of("@tsexport");
            let r2 = find_from(text, &tsm, i0 + open.len());
            match r2 {
                None => {
                    assert(!has_marker(text@)) by {
                        if has_marker(text@) {
                            let (i, j, k) = choose|i: int, j: int, k: int|
                                marker_triple(text@, i, j, k);
                            assert(match_at(text@, doc_open(), i));
                            assert(i >= i0);
                            assert(j >= i0 + doc_open().len());
                            assert(match_at(text@, ts_marker(), j));
                        }
                    }
                    false
                },
                Some(j0) => {
                    let close = chars_of("*/");
                    let r3 = find_from(text, &close, j0 + tsm.len());
                    match r3 {
                        None => {
                            assert(!has_marker(text@)) by {
                                if has_marker(text@) {
                                    let (i, j, k) = choose|i: int, j: int, k: int|
                                        marker_triple(text@, i, j, k);
                                    assert(match_at(text@, doc_open(), i));
                                    assert(i >= i0);
                                    assert(match_at(text@, ts_marker(), j));
                                    assert(j >= j0);
                                    assert(match_at(text@, doc_close(), k));
                                }
                            }
                            false
                        },
                        Some(k0) => {
                            assert(marker_triple(text@, i0 as int, j0 as int, k0 as int));
                            true
                        },
                    }
                },
            }
        },
    }
}

/// The class declaration pattern, anchored at position `m`: optional
/// whitespace, `public`, whitespace, `class`, whitespace, and the class
/// name, whose characters are the result.
pub open spec fn class_at(s: Seq<char>, m: int) -> Option<Seq<char>> {
    let a = skip_ws(s, m);
    if !match_at(s, kw_public(), a) {
        None
    } else {
        let b = a + kw_public().len();
        if !(b < s.len() && is_space(s[b])) {
            None
        } else {
            let c = skip_ws(s, b);
            if !match_at(s, kw_class(), c) {
                None
            } else {
                let d = c + kw_class().len();
                if !(d < s.len() && is_space(s[d])) {
                    None
                } else {
                    let e = skip_ws(s, d);
                    let f = word_end(s, e);
                    if f > e {
                        Some(s.subrange(e, f))
                    } else {
                        None
                    }
                }
            }
        }
    }
}

/// The name of the first class declaration whose line starts at or after
/// position `m`.
pub open spec fn first_class_from(s: Seq<char>, m: int) -> Option<Seq<char>>
    decreases s.len() - m,
{
    if m < 0 || m >= s.len() {
        None
    } else if is_line_start(s, m) && class_at(s, m) is Some {
        class_at(s, m)
    } else {
        first_class_from(s, m + 1)
    }
}

/// The name of the first line-anchored `public class` declaration of the
/// text, if any.
pub open spec fn class_name_of(s: Seq<char>) -> Option<Seq<char>> {
    first_class_from(s, 0)
}

fn class_at_exec(
    text: &Vec<char>,
    m: usize,
    pub_pat: &Vec<char>,
    class_pat: &Vec<char>,
) -> (r: Option<(usize, usize)>)
    requires
        m <= text@.len(),
        pub_pat@ == kw_public(),
        class_pat@ == kw_class(),
    ensures
        match r {
            Some(p) => p.0 <= p.1 <= text@.len() && class_at(text@, m as int) == Some(
                text@.subrange(p.0 as int, p.1 as int),
            ),
            None => class_at(text@, m as int) is None,
        },
{
    let n = text.len();
    let a = skip_ws_exec(text, m);
    if !match_at_exec(text, pub_pat, a) {
        return None;
    }
    let b = a + pub_pat.len();
    if !(b < n && space_char(text[b])) {
        return None;
    }
    let c = skip_ws_exec(text, b);
    if !match_at_exec(text, class_pat, c) {
        return None;
    }
    let d = c + class_pat.len();
    if !(d < n && space_char(text[d])) {
        return None;
    }
    let e = skip_ws_exec(text, d);
    let f = word_end_exec(text, e);
    if f > e {
        Some((e, f))
    } else {
        None
    }
}

/// The first class declaration of the whole text, as the index range of
/// its name.
fn find_class_exec(text: &Vec<char>) -> (r: Option<(usize, usize)>)
    ensures
        match r {
            Some(p) => p.0 <= p.1 <= text@.len() && class_name_of(text@) == Some(
                text@.subrange(p.0 as int, p.1 as int),
            ),
            None => class_name_of(text@) is None,
        },
{
    let pub_pat = chars_of("public");
    let class_pat = chars_of("class");
    let mut m: usize = 0;
    while m < text.len()
        invariant
            m <= text@.len(),
            pub_pat@ == kw_public(),
            class_pat@ == kw_class(),
            first_class_from(text@, 0) == first_class_from(text@, m as int),
        decreases text@.len() - m,
    {
        let at_line_start = m == 0 || text[m - 1] == '\n';
        if at_line_start {
            assert(is_line_start(text@, m as int));
            let r = class_at_exec(text, m, &pub_pat, &class_pat);
            match r {
                Some(p) => {
                    return Some(p);
                },
                None => {},
            }
        } else {
            assert(!is_line_start(text@, m as int));
        }
        m = m + 1;
    }
    None
}

/// End of a type token starting at `i`: a word run, optionally followed by
/// one bracketed list of type arguments.  `None` when no word run starts
/// at `i`; when a `<` follows the head but no well-formed argument list
/// does, the token falls back to the bare head.
pub open spec fn type_end(s: Seq<char>, i: int) -> Option<int> {
    let w = word_end(s, i);
    if w <= i {
        None
    } else if w < s.len() && s[w] == '<' {
        let g = targ_end(s, w + 1);
        if g > w + 1 && g < s.len() && s[g] == '>' {
            Some(g + 1)
        } else {
            Some(w)
        }
    } else {
        Some(w)
    }
}

/// A field declaration recognized at position `p` (the `public` keyword):
/// `public`, whitespace, a type token, whitespace, the field name, and a
/// terminating `;`.
pub ghost struct FieldMatch {
    pub ty: Seq<char>,
    pub name: Seq<char>,
}

pub open spec fn field_at(s: Seq<char>, p: int) -> Option<FieldMatch> {
    if !match_at(s, kw_public(), p) {
        None
    } else {
        let q = p + kw_public().len();
        if !(q < s.len() && is_space(s[q])) {
            None
        } else {
            let a = skip_ws(s, q);
            match type_end(s, a) {
                None => None,
                Some(t) => if !(t < s.len() && is_space(s[t])) {
                    None
                } else {
                    let b = skip_ws(s, t);
                    let nn = word_end(s, b);
                    if nn <= b {
                        None
                    } else {
                        let e = skip_ws(s, nn);
                        if e < s.len() && s[e] == ';' {
                            Some(FieldMatch { ty: s.subrange(a, t), name: s.subrange(b, nn) })
                        } else {
                            None
                        }
                    }
                },
            }
        }
    }
}

/// A method declaration recognized at position `p`: like a field but with
/// an optional `static` modifier, and a parenthesized raw parameter list
/// instead of the `;`.
pub ghost struct MethodMatch {
    pub is_static: bool,
    pub ret: Seq<char>,
    pub name: Seq<char>,
    pub params: Seq<char>,
}

/// The part of the method pattern after the modifiers, starting at the
/// return type.
pub open spec fn method_tail(s: Seq<char>, a: int, st: bool) -> Option<MethodMatch> {
    match type_end(s, a) {
        None => None,
        Some(t) => if !(t < s.len() && is_space(s[t])) {
            None
        } else {
            let b = skip_ws(s, t);
            let nn = word_end(s, b);
            if nn <= b {
                None
            } else {
                let e = skip_ws(s, nn);
                if !(e < s.len() && s[e] == '(') {
                    None
                } else {
                    let r = nonclose_end(s, e + 1);
                    if r < s.len() && s[r] == ')' {
                        Some(
                            MethodMatch {
                                is_static: st,
                                ret: s.subrange(a, t),
                                name: s.subrange(b, nn),
                                params: s.subrange(e + 1, r),
                            },
                        )
                    } else {
                        None
                    }
                }
            }
        },
    }
}

pub open spec fn method_at(s: Seq<char>, p: int) -> Option<MethodMatch> {
    if !match_at(s, kw_public(), p) {
        None
    } else {
        let q = p + kw_public().len();
        if !(q < s.len() && is_space(s[q])) {
            None
        } else {
            let a = skip_ws(s, q);
            let sq = a + kw_static().len();
            let with_static = (if match_at(s, kw_static(), a) && sq < s.len() && is_space(s[sq]) {
                method_tail(s, skip_ws(s, sq), true)
            } else {
                None
            });
            if with_static is Some {
                with_static
            } else {
                method_tail(s, a, false)
            }
        }
    }
}

/// Only line whitespace stands from position `t` to the end of its line.
pub open spec fn lws_to_eol(s: Seq<char>, t: int) -> bool {
    let z = skip_lws(s, t);
    z >= s.len() || s[z] == '\n'
}

/// The line starting at `l` is blank.
pub open spec fn blank_line(s: Seq<char>, l: int) -> bool {
    lws_to_eol(s, l)
}

/// The line starting at `l` holds exactly one annotation — `@`, a word,
/// an optional parenthesized argument list — and nothing else.
pub open spec fn ann_only_line(s: Seq<char>, l: int) -> bool {
    let f = skip_lws(s, l);
    if !(f < s.len() && s[f] == '@') {
        false
    } else {
        let w = word_end(s, f + 1);
        if w <= f + 1 {
            false
        } else if w < s.len() && s[w] == '(' {
            let g = nonclose_end(s, w + 1);
            if g < s.len() && s[g] == ')' {
                lws_to_eol(s, g + 1)
            } else {
                false
            }
        } else {
            lws_to_eol(s, w)
        }
    }
}

/// The line starting at `l` closes a documentation comment: after some
/// `*/` inside it, only line whitespace follows.
pub open spec fn doc_tail_line(s: Seq<char>, l: int) -> bool {
    let le = line_end(s, l);
    exists|e: int|
        #![trigger match_at(s, doc_close(), e)]
        l <= e && e + 2 <= le && match_at(s, doc_close(), e) && lws_to_eol(s, e + 2)
}

/// The line starting at `l` opens a documentation comment: its first
/// content is `/**`.
pub open spec fn doc_head_line(s: Seq<char>, l: int) -> bool {
    match_at(s, doc_open(), skip_lws(s, l))
}

/// Scan upward, strictly above a comment's closing line, for the line
/// that opened it.  A comment opened at a `/**`-headed line closes at
/// the first line-ending `*/` at or after it, so the scan fails as soon
/// as it meets a line that itself ends a comment: the closing line it
/// started from would then belong to no comment.
pub open spec fn doc_scan_head(s: Seq<char>, l: int) -> Option<int>
    decreases l,
{
    if l < 0 || l > s.len() {
        None
    } else if doc_tail_line(s, l) {
        None
    } else if doc_head_line(s, l) {
        Some(l)
    } else if l <= 0 {
        None
    } else {
        let pl0 = line_start_of(s, l - 1);
        let pl = if 0 <= pl0 < l {
            pl0
        } else {
            0
        };
        doc_scan_head(s, pl)
    }
}

/// The line opening the documentation comment whose closing line starts
/// at `l`: `l` itself when it is `/**`-headed (a one-line comment), else
/// the nearest `/**`-headed line above with no comment-ending line in
/// between.
pub open spec fn doc_pair_head(s: Seq<char>, l: int) -> Option<int> {
    if l < 0 || l > s.len() {
        None
    } else if doc_head_line(s, l) {
        Some(l)
    } else if l <= 0 {
        None
    } else {
        let pl0 = line_start_of(s, l - 1);
        let pl = if 0 <= pl0 < l {
            pl0
        } else {
            0
        };
        doc_scan_head(s, pl)
    }
}

/// Start of the annotation block immediately above the line starting at
/// `l`: the maximal run of whole lines, walking upward, each either
/// blank, a single annotation on its own line, or a documentation
/// comment paired from its closing line to the `/**`-headed line that
/// opened it.  A line holding any other content — a declaration, even
/// one carrying an inline annotation or a trailing comment — ends the
/// block.
pub open spec fn block_start(s: Seq<char>, l: int) -> int
    decreases l,
{
    if l <= 0 {
        0
    } else if l > s.len() {
        l
    } else {
        let pl0 = line_start_of(s, l - 1);
        let pl = if 0 <= pl0 < l {
            pl0
        } else {
            0
        };
        if blank_line(s, pl) || ann_only_line(s, pl) {
            block_start(s, pl)
        } else if doc_tail_line(s, pl) {
            match doc_pair_head(s, pl) {
                Some(q) => {
                    let q2 = if 0 <= q < l {
                        q
                    } else {
                        0
                    };
                    block_start(s, q2)
                },
                None => l,
            }
        } else {
            l
        }
    }
}

/// The member whose declaration starts at `p` carries the exposure
/// annotation in the annotation block on the preceding lines.  The block
/// attaches only when nothing but whitespace — and the member's own
/// inline annotation, if any — stands between the block and the `public`
/// keyword: a second declaration on one line never inherits the block of
/// the first.
pub open spec fn prev_exposed(s: Seq<char>, p: int) -> bool {
    let l = line_start_of(s, p);
    let head = (match inline_ann_start(s, p) {
        Some(a) => ws_back(s, a) <= l,
        None => ws_back(s, p) <= l,
    });
    head && has_sub_in(s, aura_marker(), block_start(s, l), l)
}

/// Start of a single inline annotation standing immediately before
/// position `p`, separated from it by whitespace.
pub open spec fn inline_ann_start(s: Seq<char>, p: int) -> Option<int> {
    let a = ws_back(s, p);
    if a >= p {
        None
    } else if a > 0 && s[a - 1] == ')' {
        let b = nonparen_back(s, a - 1);
        if b > 0 && s[b - 1] == '(' {
            let c = word_back(s, b - 1);
            if c < b - 1 && c > 0 && s[c - 1] == '@' {
                Some(c - 1)
            } else {
                None
            }
        } else {
            None
        }
    } else {
        let c = word_back(s, a);
        if c < a && c > 0 && s[c - 1] == '@' {
            Some(c - 1)
        } else {
            None
        }
    }
}

/// The member whose declaration starts at `p` carries the exposure
/// annotation inline, immediately before its `public` modifier.
pub open spec fn inline_exposed(s: Seq<char>, p: int) -> bool {
    match inline_ann_start(s, p) {
        Some(a) => has_sub_in(s, aura_marker(), a, p),
        None => false,
    }
}

/// The member declared at `p` passes the exposure filter: the annotation
/// stands on the preceding lines or inline.  The two positions are checked
/// independently.
pub open spec fn exposed(s: Seq<char>, p: int) -> bool {
    prev_exposed(s, p) || inline_exposed(s, p)
}

/// A field candidate that passed the exposure filter, together with the
/// position of its declaration.
pub ghost struct FieldHit {
    pub pos: int,
    pub ty: Seq<char>,
    pub name: Seq<char>,
}

/// A method candidate that passed the exposure filter.
pub ghost struct MethodHit {
    pub pos: int,
    pub is_static: bool,
    pub ret: Seq<char>,
    pub name: Seq<char>,
    pub params: Seq<char>,
}

/// The exposed field declarations found at positions `>= i`, in source
/// order.
pub open spec fn kept_fields_from(s: Seq<char>, i: int) -> Seq<FieldHit>
    decreases s.len() - i,
{
    if i < 0 || i >= s.len() {
        Seq::empty()
    } else {
        let rest = kept_fields_from(s, i + 1);
        match field_at(s, i) {
            Some(fm) => if exposed(s, i) {
                seq![FieldHit { pos: i, ty: fm.ty, name: fm.name }] + rest
            } else {
                rest
            },
            None => rest,
        }
    }
}

pub open spec fn kept_fields(s: Seq<char>) -> Seq<FieldHit> {
    kept_fields_from(s, 0)
}

/// The names of field declarations that failed the exposure filter, in
/// source order.
pub open spec fn skipped_fields_from(s: Seq<char>, i: int) -> Seq<Seq<char>>
    decreases s.len() - i,
{
    if i < 0 || i >= s.len() {
        Seq::empty()
    } else {
        let rest = skipped_fields_from(s, i + 1);
        match field_at(s, i) {
            Some(fm) => if !exposed(s, i) {
                seq![fm.name] + rest
            } else {
                rest
            },
            None => rest,
        }
    }
}

pub open spec fn skipped_fields(s: Seq<char>) -> Seq<Seq<char>> {
    skipped_fields_from(s, 0)
}

/// The exposed method declarations found at positions `>= i`, in source
/// order.
pub open spec fn kept_methods_from(s: Seq<char>, i: int) -> Seq<MethodHit>
    decreases s.len() - i,
{
    if i < 0 || i >= s.len() {
        Seq::empty()
    } else {
        let rest = kept_methods_from(s, i + 1);
        match method_at(s, i) {
            Some(mm) => if exposed(s, i) {
                seq![
                    MethodHit {
                        pos: i,
                        is_static: mm.is_static,
                        ret: mm.ret,
                        name: mm.name,
                        params: mm.params,
                    },
                ] + rest
            } else {
                rest
            },
            None => rest,
        }
    }
}

pub open spec fn kept_methods(s: Seq<char>) -> Seq<MethodHit> {
    kept_methods_from(s, 0)
}

/// The names of method declarations that failed the exposure filter.
pub open spec fn skipped_methods_from(s: Seq<char>, i: int) -> Seq<Seq<char>>
    decreases s.len() - i,
{
    if i < 0 || i >= s.len() {
        Seq::empty()
    } else {
        let rest = skipped_methods_from(s, i + 1);
        match method_at(s, i) {
            Some(mm) => if !exposed(s, i) {
                seq![mm.name] + rest
            } else {
                rest
            },
            None => rest,
        }
    }
}

pub open spec fn skipped_methods(s: Seq<char>) -> Seq<Seq<char>> {
    skipped_methods_from(s, 0)
}

/// The comma-separated segments of a raw parameter list, from position
/// `i` on.  Empty segments are kept; a trailing comma yields a final
/// empty segment, as splitting on every comma does.
pub open spec fn split_commas_from(s: Seq<char>, i: int) -> Seq<Seq<char>>
    decreases s.len() - i,
{
    if i < 0 || i > s.len() {
        Seq::empty()
    } else {
        let c0 = noncomma_end(s, i);
        let c = if i <= c0 <= s.len() {
            c0
        } else {
            s.len() as int
        };
        if c >= s.len() {
            seq![s.subrange(i, s.len() as int)]
        } else {
            seq![s.subrange(i, c)] + split_commas_from(s, c + 1)
        }
    }
}

/// One segment resolves to a parameter exactly when it splits on
/// whitespace into at least two tokens; the first is the type, the second
/// the name, and anything further is ignored.
pub open spec fn seg_param(seg: Seq<char>) -> Option<ParamView> {
    let a = skip_ws(seg, 0);
    let b = token_end(seg, a);
    if b <= a {
        None
    } else {
        let c = skip_ws(seg, b);
        let d = token_end(seg, c);
        if d <= c {
            None
        } else {
            Some(ParamView { param_type: seg.subrange(a, b), name: seg.subrange(c, d) })
        }
    }
}

/// The parameters of a segment list: segments that do not resolve are
/// dropped without error.
pub open spec fn params_of_segs(segs: Seq<Seq<char>>) -> Seq<ParamView>
    decreases segs.len(),
{
    if segs.len() == 0 {
        Seq::empty()
    } else {
        let rest = params_of_segs(segs.drop_first());
        match seg_param(segs[0]) {
            Some(p) => seq![p] + rest,
            None => rest,
        }
    }
}

/// The parameter records extracted from a raw parameter list.
pub open spec fn spec_params(raw: Seq<char>) -> Seq<ParamView> {
    params_of_segs(split_commas_from(raw, 0))
}

/// Parse one comma-separated segment of a raw parameter list.
fn parse_segment(seg: &Vec<char>) -> (r: Option<ApexParameter>)
    ensures
        match r {
            Some(p) => seg_param(seg@) == Some(p@),
            None => seg_param(seg@) is None,
        },
{
    let a = skip_ws_exec(seg, 0);
    let b = token_end_exec(seg, a);
    if b <= a {
        return None;
    }
    let c = skip_ws_exec(seg, b);
    let d = token_end_exec(seg, c);
    if d <= c {
        return None;
    }
    Some(
        ApexParameter {
            param_type: string_of_range(seg, a, b),
            name: string_of_range(seg, c, d),
        },
    )
}

/// Parse a raw parameter list held as a character vector.
fn parse_params_vec(raw: &Vec<char>) -> (r: Vec<ApexParameter>)
    ensures
        r@.map_values(|p: ApexParameter| p@) == spec_params(raw@),
{
    let n = raw.len();
    let mut out: Vec<ApexParameter> = Vec::new();
    let ghost mut done: Seq<ParamView> = Seq::empty();
    let mut pos: usize = 0;
    let mut fin = false;
    while !fin
        invariant
            n == raw@.len(),
            pos <= n,
            out@.map_values(|p: ApexParameter| p@) == done,
            !fin ==> done + params_of_segs(split_commas_from(raw@, pos as int)) == spec_params(
                raw@,
            ),
            fin ==> done == spec_params(raw@),
        decreases n - pos + (if fin {
            0int
        } else {
            1int
        }),
    {
        let c = noncomma_end_exec(raw, pos);
        let seg = subvec(raw, pos, c);
        let ghost segs = split_commas_from(raw@, pos as int);
        proof {
            if c < n {
                assert(segs == seq![seg@] + split_commas_from(raw@, c + 1));
            } else {
                assert(segs =~= seq![seg@]);
            }
            assert(segs.len() >= 1);
            assert(segs[0] == seg@);
            if c < n {
                assert(segs.drop_first() =~= split_commas_from(raw@, c + 1));
            } else {
                assert(segs.drop_first() =~= Seq::<Seq<char>>::empty());
                assert(params_of_segs(segs.drop_first()) == Seq::<ParamView>::empty());
            }
        }
        let p = parse_segment(&seg);
        let ghost prev = done;
        match p {
            Some(param) => {
                out.push(param);
                proof {
                    done = done + seq![param@];
                    assert(out@.map_values(|p: ApexParameter| p@) =~= done);
                    assert(params_of_segs(segs) == seq![param@] + params_of_segs(
                        segs.drop_first(),
                    ));
                    assert(done + params_of_segs(segs.drop_first()) =~= prev + params_of_segs(
                        segs,
                    ));
                }
            },
            None => {
                proof {
                    assert(params_of_segs(segs) == params_of_segs(segs.drop_first()));
                }
            },
        }
        proof {
            assert(done + params_of_segs(segs.drop_first()) == spec_params(raw@));
            if c >= n {
                assert(done + Seq::<ParamView>::empty() =~= done);
            }
        }
        if c < n {
            pos = c + 1;
        } else {
            fin = true;
        }
    }
    out
}

fn type_end_exec(text: &Vec<char>, i: usize) -> (r: Option<usize>)
    requires
        i <= text@.len(),
    ensures
        match r {
            Some(t) => i <= t <= text@.len() && type_end(text@, i as int) == Some(t as int),
            None => type_end(text@, i as int) is None,
        },
{
    let w = word_end_exec(text, i);
    if w <= i {
        return None;
    }
    if w < text.len() && text[w] == '<' {
        let g = targ_end_exec(text, w + 1);
        if g > w + 1 && g < text.len() && text[g] == '>' {
            Some(g + 1)
        } else {
            Some(w)
        }
    } else {
        Some(w)
    }
}

fn lws_to_eol_exec(text: &Vec<char>, t: usize) -> (b: bool)
    requires
        t <= text@.len(),
    ensures
        b == lws_to_eol(text@, t as int),
{
    let z = skip_lws_exec(text, t);
    z >= text.len() || text[z] == '\n'
}

fn ann_only_line_exec(text: &Vec<char>, l: usize) -> (b: bool)
    requires
        l <= text@.len(),
    ensures
        b == ann_only_line(text@, l as int),
{
    let n = text.len();
    let f = skip_lws_exec(text, l);
    if !(f < n && text[f] == '@') {
        return false;
    }
    let w = word_end_exec(text, f + 1);
    if w <= f + 1 {
        return false;
    }
    if w < n && text[w] == '(' {
        let g = nonclose_end_exec(text, w + 1);
        if g < n && text[g] == ')' {
            lws_to_eol_exec(text, g + 1)
        } else {
            false
        }
    } else {
        lws_to_eol_exec(text, w)
    }
}

fn doc_tail_line_exec(text: &Vec<char>, l: usize, close_pat: &Vec<char>) -> (b: bool)
    requires
        l <= text@.len(),
        close_pat@ == doc_close(),
    ensures
        b == doc_tail_line(text@, l as int),
{
    let le = line_end_exec(text, l);
    let mut e = l;
    while e < le
        invariant
            l <= e <= le <= text@.len(),
            le == line_end(text@, l as int),
            close_pat@ == doc_close(),
            forall|x: int|
                l <= x < e ==> !(x + 2 <= le && #[trigger] match_at(text@, doc_close(), x)
                    && lws_to_eol(text@, x + 2)),
        decreases le - e,
    {
        if le - e >= 2 && match_at_exec(text, close_pat, e) && lws_to_eol_exec(text, e + 2) {
            assert(doc_tail_line(text@, l as int)) by {
                assert(l <= e && e + 2 <= le && match_at(text@, doc_close(), e as int)
                    && lws_to_eol(text@, e + 2));
            }
            return true;
        }
        e = e + 1;
    }
    assert(!doc_tail_line(text@, l as int)) by {
        if doc_tail_line(text@, l as int) {
            let x = choose|x: int|
                #![trigger match_at(text@, doc_close(), x)]
                l <= x && x + 2 <= le && match_at(text@, doc_close(), x) && lws_to_eol(
                    text@,
                    x + 2,
                );
            assert(x < le);
        }
    }
    false
}

fn doc_pair_head_exec(
    text: &Vec<char>,
    l: usize,
    open_pat: &Vec<char>,
    close_pat: &Vec<char>,
) -> (r: Option<usize>)
    requires
        l <= text@.len(),
        open_pat@ == doc_open(),
        close_pat@ == doc_close(),
    ensures
        match r {
            Some(q) => q <= l && doc_pair_head(text@, l as int) == Some(q as int),
            None => doc_pair_head(text@, l as int) is None,
        },
{
    let f = skip_lws_exec(text, l);
    if match_at_exec(text, open_pat, f) {
        return Some(l);
    }
    if l == 0 {
        return None;
    }
    let first = line_start_of_exec(text, l - 1);
    assert(first <= l - 1);
    let mut cur = first;
    loop
        invariant
            cur <= first < l <= text@.len(),
            open_pat@ == doc_open(),
            close_pat@ == doc_close(),
            doc_pair_head(text@, l as int) == doc_scan_head(text@, cur as int),
        decreases cur,
    {
        if doc_tail_line_exec(text, cur, close_pat) {
            return None;
        }
        let f2 = skip_lws_exec(text, cur);
        if match_at_exec(text, open_pat, f2) {
            return Some(cur);
        }
        if cur == 0 {
            return None;
        }
        let pl = line_start_of_exec(text, cur - 1);
        assert(pl <= cur - 1);
        cur = pl;
    }
}

fn block_start_exec(text: &Vec<char>, l: usize, open_pat: &Vec<char>, close_pat: &Vec<char>) -> (r:
    usize)
    requires
        l <= text@.len(),
        open_pat@ == doc_open(),
        close_pat@ == doc_close(),
    ensures
        r == block_start(text@, l as int),
        r <= l,
{
    let mut cur = l;
    loop
        invariant
            cur <= l <= text@.len(),
            open_pat@ == doc_open(),
            close_pat@ == doc_close(),
            block_start(text@, l as int) == block_start(text@, cur as int),
        decreases cur,
    {
        if cur == 0 {
            return cur;
        }
        let pl = line_start_of_exec(text, cur - 1);
        assert(pl <= cur - 1);
        let blank = lws_to_eol_exec(text, pl);
        if blank || ann_only_line_exec(text, pl) {
            cur = pl;
        } else if doc_tail_line_exec(text, pl, close_pat) {
            let q = doc_pair_head_exec(text, pl, open_pat, close_pat);
            match q {
                Some(q0) => {
                    assert(q0 <= pl);
                    cur = q0;
                },
                None => {
                    return cur;
                },
            }
        } else {
            return cur;
        }
    }
}

fn inline_ann_start_exec(text: &Vec<char>, p: usize) -> (r: Option<usize>)
    requires
        p <= text@.len(),
    ensures
        match r {
            Some(a) => a < p && inline_ann_start(text@, p as int) == Some(a as int),
            None => inline_ann_start(text@, p as int) is None,
        },
{
    let a = ws_back_exec(text, p);
    if a >= p {
        return None;
    }
    if a > 0 && text[a - 1] == ')' {
        let b2 = nonparen_back_exec(text, a - 1);
        if b2 > 0 && text[b2 - 1] == '(' {
            let c = word_back_exec(text, b2 - 1);
            if c < b2 - 1 && c > 0 && text[c - 1] == '@' {
                Some(c - 1)
            } else {
                None
            }
        } else {
            None
        }
    } else {
        let c = word_back_exec(text, a);
        if c < a && c > 0 && text[c - 1] == '@' {
            Some(c - 1)
        } else {
            None
        }
    }
}

fn exposed_exec(
    text: &Vec<char>,
    p: usize,
    aura_pat: &Vec<char>,
    open_pat: &Vec<char>,
    close_pat: &Vec<char>,
) -> (b: bool)
    requires
        p <= text@.len(),
        aura_pat@ == aura_marker(),
        open_pat@ == doc_open(),
        close_pat@ == doc_close(),
    ensures
        b == exposed(text@, p as int),
{
    let l = line_start_of_exec(text, p);
    let ia = inline_ann_start_exec(text, p);
    let head_ok = (match ia {
        Some(a) => ws_back_exec(text, a) <= l,
        None => ws_back_exec(text, p) <= l,
    });
    if head_ok {
        let bs = block_start_exec(text, l, open_pat, close_pat);
        if has_sub_in_exec(text, aura_pat, bs, l) {
            assert(prev_exposed(text@, p as int));
            return true;
        }
    }
    assert(!prev_exposed(text@, p as int));
    match ia {
        Some(a) => has_sub_in_exec(text, aura_pat, a, p),
        None => {
            assert(!inline_exposed(text@, p as int));
            false
        },
    }
}

fn field_at_exec(text: &Vec<char>, p: usize, pub_pat: &Vec<char>) -> (r: Option<
    (usize, usize, usize, usize),
>)
    requires
        p <= text@.len(),
        pub_pat@ == kw_public(),
    ensures
        match r {
            Some(h) => {
                &&& h.0 <= h.1 <= text@.len()
                &&& h.2 <= h.3 <= text@.len()
                &&& field_at(text@, p as int) == Some(
                    FieldMatch {
                        ty: text@.subrange(h.0 as int, h.1 as int),
                        name: text@.subrange(h.2 as int, h.3 as int),
                    },
                )
            },
            None => field_at(text@, p as int) is None,
        },
{
    let n = text.len();
    if !match_at_exec(text, pub_pat, p) {
        return None;
    }
    let q = p + pub_pat.len();
    if !(q < n && space_char(text[q])) {
        return None;
    }
    let a = skip_ws_exec(text, q);
    let te = type_end_exec(text, a);
    match te {
        None => None,
        Some(t) => {
            if !(t < n && space_char(text[t])) {
                return None;
            }
            let b = skip_ws_exec(text, t);
            let nn = word_end_exec(text, b);
            if nn <= b {
                return None;
            }
            let e = skip_ws_exec(text, nn);
            if e < n && text[e] == ';' {
                Some((a, t, b, nn))
            } else {
                None
            }
        },
    }
}

fn method_tail_exec(text: &Vec<char>, a: usize, st: bool) -> (r: Option<
    (usize, usize, usize, usize, usize, usize),
>)
    requires
        a <= text@.len(),
    ensures
        match r {
            Some(h) => {
                &&& h.0 <= h.1 <= text@.len()
                &&& h.2 <= h.3 <= text@.len()
                &&& h.4 <= h.5 <= text@.len()
                &&& method_tail(text@, a as int, st) == Some(
                    MethodMatch {
                        is_static: st,
                        ret: text@.subrange(h.0 as int, h.1 as int),
                        name: text@.subrange(h.2 as int, h.3 as int),
                        params: text@.subrange(h.4 as int, h.5 as int),
                    },
                )
            },
            None => method_tail(text@, a as int, st) is None,
        },
{
    let n = text.len();
    let te = type_end_exec(text, a);
    match te {
        None => None,
        Some(t) => {
            if !(t < n && space_char(text[t])) {
                return None;
            }
            let b = skip_ws_exec(text, t);
            let nn = word_end_exec(text, b);
            if nn <= b {
                return None;
            }
            let e = skip_ws_exec(text, nn);
            if !(e < n && text[e] == '(') {
                return None;
            }
            let r = nonclose_end_exec(text, e + 1);
            if r < n && text[r] == ')' {
                Some((a, t, b, nn, e + 1, r))
            } else {
                None
            }
        },
    }
}

fn method_at_exec(text: &Vec<char>, p: usize, pub_pat: &Vec<char>, static_pat: &Vec<char>) -> (r:
    Option<(bool, usize, usize, usize, usize, usize, usize)>)
    requires
        p <= text@.len(),
        pub_pat@ == kw_public(),
        static_pat@ == kw_static(),
    ensures
        match r {
            Some(h) => {
                &&& h.1 <= h.2 <= text@.len()
                &&& h.3 <= h.4 <= text@.len()
                &&& h.5 <= h.6 <= text@.len()
                &&& method_at(text@, p as int) == Some(
                    MethodMatch {
                        is_static: h.0,
                        ret: text@.subrange(h.1 as int, h.2 as int),
                        name: text@.subrange(h.3 as int, h.4 as int),
                        params: text@.subrange(h.5 as int, h.6 as int),
                    },
                )
            },
            None => method_at(text@, p as int) is None,
        },
{
    let n = text.len();
    if !match_at_exec(text, pub_pat, p) {
        return None;
    }
    let q = p + pub_pat.len();
    if !(q < n && space_char(text[q])) {
        return None;
    }
    let a = skip_ws_exec(text, q);
    if match_at_exec(text, static_pat, a) {
        let sq = a + static_pat.len();
        if sq < n && space_char(text[sq]) {
            let a2 = skip_ws_exec(text, sq);
            let r = method_tail_exec(text, a2, true);
            match r {
                Some(h) => {
                    return Some((true, h.0, h.1, h.2, h.3, h.4, h.5));
                },
                None => {},
            }
        }
    }
    let r = method_tail_exec(text, a, false);
    match r {
        Some(h) => Some((false, h.0, h.1, h.2, h.3, h.4, h.5)),
        None => None,
    }
}

/// The record view that one kept field candidate contributes.
pub open spec fn field_hit_view(h: FieldHit) -> FieldView {
    FieldView { name: h.name, field_type: h.ty, is_optional: false }
}

/// The record view that one kept method candidate contributes.
pub open spec fn method_hit_view(h: MethodHit) -> MethodView {
    MethodView {
        name: h.name,
        return_type: h.ret,
        parameters: spec_params(h.params),
        is_static: h.is_static,
    }
}

/// The class record that an in-scope text with a class declaration yields.
pub open spec fn spec_class_of(s: Seq<char>) -> ClassView {
    ClassView {
        name: match class_name_of(s) {
            Some(n) => n,
            None => Seq::empty(),
        },
        fields: kept_fields(s).map_values(|h: FieldHit| field_hit_view(h)),
        methods: kept_methods(s).map_values(|h: MethodHit| method_hit_view(h)),
    }
}

/// A text with the marker but no recognizable class declaration fails the
/// whole run.
pub open spec fn file_fails(s: Seq<char>) -> bool {
    has_marker(s) && class_name_of(s) is None
}

/// Scan the whole text for field declarations, splitting them into the
/// exposed records and the skipped names.
fn collect_fields(
    text: &Vec<char>,
    pub_pat: &Vec<char>,
    aura_pat: &Vec<char>,
    open_pat: &Vec<char>,
    close_pat: &Vec<char>,
) -> (r: (Vec<ApexField>, Vec<String>))
    requires
        pub_pat@ == kw_public(),
        aura_pat@ == aura_marker(),
        open_pat@ == doc_open(),
        close_pat@ == doc_close(),
    ensures
        r.0@.map_values(|f: ApexField| f@) == kept_fields(text@).map_values(
            |h: FieldHit| field_hit_view(h),
        ),
        r.1@.map_values(|x: String| x@) == skipped_fields(text@),
{
    let n = text.len();
    let mut fields: Vec<ApexField> = Vec::new();
    let mut skipped: Vec<String> = Vec::new();
    let ghost mut done: Seq<FieldHit> = Seq::empty();
    let ghost mut dropped: Seq<Seq<char>> = Seq::empty();
    let mut p: usize = 0;
    while p < n
        invariant
            n == text@.len(),
            p <= n,
            pub_pat@ == kw_public(),
            aura_pat@ == aura_marker(),
            open_pat@ == doc_open(),
            close_pat@ == doc_close(),
            fields@.map_values(|f: ApexField| f@) == done.map_values(
                |h: FieldHit| field_hit_view(h),
            ),
            skipped@.map_values(|x: String| x@) == dropped,
            done + kept_fields_from(text@, p as int) == kept_fields(text@),
            dropped + skipped_fields_from(text@, p as int) == skipped_fields(text@),
        decreases n - p,
    {
        let ghost prev = done;
        let ghost prev_dropped = dropped;
        let m = field_at_exec(text, p, pub_pat);
        match m {
            Some(h) => {
                let ghost hit = FieldHit {
                    pos: p as int,
                    ty: text@.subrange(h.0 as int, h.1 as int),
                    name: text@.subrange(h.2 as int, h.3 as int),
                };
                if exposed_exec(text, p, aura_pat, open_pat, close_pat) {
                    let fr = ApexField {
                        name: string_of_range(text, h.2, h.3),
                        field_type: string_of_range(text, h.0, h.1),
                        is_optional: false,
                    };
                    let ghost oldf = fields@;
                    let ghost frec = fr;
                    fields.push(fr);
                    proof {
                        done = done.push(hit);
                        assert(fields@ == oldf.push(frec));
                        assert(frec@ == field_hit_view(hit));
                        oldf.lemma_push_map_commute(|f: ApexField| f@, frec);
                        prev.lemma_push_map_commute(|h2: FieldHit| field_hit_view(h2), hit);
                        assert(fields@.map_values(|f: ApexField| f@) =~= done.map_values(
                            |h2: FieldHit| field_hit_view(h2),
                        ));
                        assert(kept_fields_from(text@, p as int) == seq![hit]
                            + kept_fields_from(text@, p + 1));
                        assert(done + kept_fields_from(text@, p + 1) =~= prev + kept_fields_from(
                            text@,
                            p as int,
                        ));
                    }
                } else {
                    let ghost oldsk = skipped@;
                    let nm = string_of_range(text, h.2, h.3);
                    let ghost nrec = nm;
                    skipped.push(nm);
                    proof {
                        dropped = dropped.push(hit.name);
                        assert(skipped@ == oldsk.push(nrec));
                        oldsk.lemma_push_map_commute(|x: String| x@, nrec);
                        assert(skipped@.map_values(|x: String| x@) =~= dropped);
                        assert(skipped_fields_from(text@, p as int) == seq![hit.name]
                            + skipped_fields_from(text@, p + 1));
                        assert(dropped + skipped_fields_from(text@, p + 1) =~= prev_dropped
                            + skipped_fields_from(text@, p as int));
                    }
                }
            },
            None => {},
        }
        p = p + 1;
    }
    (fields, skipped)
}

/// Scan the whole text for method declarations, splitting them into the
/// exposed records and the skipped names.
fn collect_methods(
    text: &Vec<char>,
    pub_pat: &Vec<char>,
    static_pat: &Vec<char>,
    aura_pat: &Vec<char>,
    open_pat: &Vec<char>,
    close_pat: &Vec<char>,
) -> (r: (Vec<ApexMethod>, Vec<String>))
    requires
        pub_pat@ == kw_public(),
        static_pat@ == kw_static(),
        aura_pat@ == aura_marker(),
        open_pat@ == doc_open(),
        close_pat@ == doc_close(),
    ensures
        r.0@.map_values(|m: ApexMethod| m@) == kept_methods(text@).map_values(
            |h: MethodHit| method_hit_view(h),
        ),
        r.1@.map_values(|x: String| x@) == skipped_methods(text@),
{
    let n = text.len();
    let mut methods: Vec<ApexMethod> = Vec::new();
    let mut skipped: Vec<String> = Vec::new();
    let ghost mut done: Seq<MethodHit> = Seq::empty();
    let ghost mut dropped: Seq<Seq<char>> = Seq::empty();
    let mut p: usize = 0;
    while p < n
        invariant
            n == text@.len(),
            p <= n,
            pub_pat@ == kw_public(),
            static_pat@ == kw_static(),
            aura_pat@ == aura_marker(),
            open_pat@ == doc_open(),
            close_pat@ == doc_close(),
            methods@.map_values(|m: ApexMethod| m@) == done.map_values(
                |h: MethodHit| method_hit_view(h),
            ),
            skipped@.map_values(|x: String| x@) == dropped,
            done + kept_methods_from(text@, p as int) == kept_methods(text@),
            dropped + skipped_methods_from(text@, p as int) == skipped_methods(text@),
        decreases n - p,
    {
        let ghost prev = done;
        let ghost prev_dropped = dropped;
        let m = method_at_exec(text, p, pub_pat, static_pat);
        match m {
            Some(h) => {
                let ghost hit = MethodHit {
                    pos: p as int,
                    is_static: h.0,
                    ret: text@.subrange(h.1 as int, h.2 as int),
                    name: text@.subrange(h.3 as int, h.4 as int),
                    params: text@.subrange(h.5 as int, h.6 as int),
                };
                if exposed_exec(text, p, aura_pat, open_pat, close_pat) {
                    let raw = subvec(text, h.5, h.6);
                    let parameters = parse_params_vec(&raw);
                    let mrec = ApexMethod {
                        name: string_of_range(text, h.3, h.4),
                        return_type: string_of_range(text, h.1, h.2),
                        parameters,
                        is_static: h.0,
                    };
                    let ghost oldm = methods@;
                    let ghost mghost = mrec;
                    methods.push(mrec);
                    proof {
                        done = done.push(hit);
                        assert(methods@ == oldm.push(mghost));
                        assert(mghost@ == method_hit_view(hit));
                        oldm.lemma_push_map_commute(|m: ApexMethod| m@, mghost);
                        prev.lemma_push_map_commute(|h2: MethodHit| method_hit_view(h2), hit);
                        assert(methods@.map_values(|m: ApexMethod| m@) =~= done.map_values(
                            |h2: MethodHit| method_hit_view(h2),
                        ));
                        assert(kept_methods_from(text@, p as int) == seq![hit]
                            + kept_methods_from(text@, p + 1));
                        assert(done + kept_methods_from(text@, p + 1) =~= prev
                            + kept_methods_from(text@, p as int));
                    }
                } else {
                    let ghost oldsk = skipped@;
                    let nm = string_of_range(text, h.3, h.4);
                    let ghost nrec = nm;
                    skipped.push(nm);
                    proof {
                        dropped = dropped.push(hit.name);
                        assert(skipped@ == oldsk.push(nrec));
                        oldsk.lemma_push_map_commute(|x: String| x@, nrec);
                        assert(skipped@.map_values(|x: String| x@) =~= dropped);
                        assert(skipped_methods_from(text@, p as int) == seq![hit.name]
                            + skipped_methods_from(text@, p + 1));
                        assert(dropped + skipped_methods_from(text@, p + 1) =~= prev_dropped
                            + skipped_methods_from(text@, p as int));
                    }
                }
            },
            None => {},
        }
        p = p + 1;
    }
    (methods, skipped)
}

/// The fatal conditions of an extraction run.
#[derive(Debug, Clone, Copy, PartialEq, Eq, Structural)]
pub enum ExtractError {
    /// The text carries the inclusion marker but no recognizable
    /// `public class` declaration.
    MissingClassDeclaration,
}

/// A fatal condition together with the path of the text that caused it.
#[derive(Debug, Clone)]
pub struct ExtractFileError {
    pub path: String,
    pub error: ExtractError,
}

/// The result of extracting one in-scope text: the class record, and the
/// names of the members that were skipped for lacking the exposure
/// annotation (reported as diagnostics, never an error).
#[derive(Debug, Clone)]
pub struct Extraction {
    pub class: ApexClass,
    pub skipped_fields: Vec<String>,
    pub skipped_methods: Vec<String>,
}

/// The extractor.  It holds no state: every call scans one text
/// independently.
pub struct ApexParser {}

impl ApexParser {
    pub fn new() -> (r: ApexParser) {
        ApexParser {  }
    }

    /// Extract one source text, also reporting which members were skipped.
    ///
    /// Returns `Ok(None)` exactly when the text lacks the inclusion
    /// marker; fails exactly when the marker is present but no class
    /// declaration is found.
    pub fn parse_file_with_diagnostics(&self, content: &str) -> (r: Result<
        Option<Extraction>,
        ExtractError,
    >)
        ensures
            ({
                let s = content@;
                match r {
                    Ok(None) => !has_marker(s),
                    Ok(Some(x)) => has_marker(s) && class_name_of(s) is Some && x.class@
                        == spec_class_of(s) && x.skipped_fields@.map_values(|n: String| n@)
                        == skipped_fields(s) && x.skipped_methods@.map_values(|n: String| n@)
                        == skipped_methods(s),
                    Err(e) => has_marker(s) && class_name_of(s) is None && e
                        == ExtractError::MissingClassDeclaration,
                }
            }),
    {
        let text = chars_of(content);
        if !has_marker_exec(&text) {
            return Ok(None);
        }
        let cls = find_class_exec(&text);
        match cls {
            None => Err(ExtractError::MissingClassDeclaration),
            Some(nm) => {
                let name = string_of_range(&text, nm.0, nm.1);
                let pub_pat = chars_of("public");
                let static_pat = chars_of("static");
                let aura_pat = chars_of("@AuraEnabled");
                let open_pat = chars_of("/**");
                let close_pat = chars_of("*/");
                let (fields, skipped_f) = collect_fields(
                    &text,
                    &pub_pat,
                    &aura_pat,
                    &open_pat,
                    &close_pat,
                );
                let (methods, skipped_m) = collect_methods(
                    &text,
                    &pub_pat,
                    &static_pat,
                    &aura_pat,
                    &open_pat,
                    &close_pat,
                );
                let class = ApexClass { name, fields, methods };
                Ok(
                    Some(
                        Extraction {
                            class,
                            skipped_fields: skipped_f,
                            skipped_methods: skipped_m,
                        },
                    ),
                )
            },
        }
    }

    /// Extract one source text: `Ok(None)` when the text is out of scope,
    /// the class record when it qualifies, and a fatal error when the
    /// marker is present without a class declaration.
    pub fn parse_file(&self, content: &str) -> (r: Result<Option<ApexClass>, ExtractError>)
        ensures
            ({
                let s = content@;
                match r {
                    Ok(None) => !has_marker(s),
                    Ok(Some(c)) => has_marker(s) && class_name_of(s) is Some && c@
                        == spec_class_of(s),
                    Err(e) => has_marker(s) && class_name_of(s) is None && e
                        == ExtractError::MissingClassDeclaration,
                }
            }),
    {
        let r = self.parse_file_with_diagnostics(content);
        match r {
            Ok(None) => Ok(None),
            Ok(Some(x)) => Ok(Some(x.class)),
            Err(e) => Err(e),
        }
    }

    /// Split a raw parameter list on commas and resolve each segment into
    /// a `(type, name)` pair; segments with fewer than two whitespace
    /// tokens are dropped without error.
    pub fn parse_parameters(&self, params_str: &str) -> (r: Vec<ApexParameter>)
        ensures
            r@.map_values(|p: ApexParameter| p@) == spec_params(params_str@),
    {
        let raw = chars_of(params_str);
        parse_params_vec(&raw)
    }

    /// Extract every text of `files` (given as `(path, content)` pairs) in
    /// order, keeping one class record per in-scope text.  The first text
    /// that fails fatally aborts the run with its path.
    pub fn parse_files(&self, files: &Vec<(String, String)>) -> (r: Result<
        Vec<ApexClass>,
        ExtractFileError,
    >)
        ensures
            ({
                match r {
                    Ok(v) => (forall|i: int|
                        0 <= i < files@.len() ==> !file_fails(#[trigger] files@[i].1@))
                        && v@.map_values(|c: ApexClass| c@) == spec_classes_upto(
                        files@,
                        files@.len() as int,
                    ),
                    Err(e) => exists|k: int|
                        {
                            &&& 0 <= k < files@.len()
                            &&& file_fails(#[trigger] files@[k].1@)
                            &&& (forall|j: int| 0 <= j < k ==> !file_fails(#[trigger] files@[j].1@))
                            &&& e.path@ == files@[k].0@
                            &&& e.error == ExtractError::MissingClassDeclaration
                        },
                }
            }),
    {
        let n = files.len();
        let mut classes: Vec<ApexClass> = Vec::new();
        let mut i: usize = 0;
        while i < n
            invariant
                n == files@.len(),
                i <= n,
                forall|j: int| 0 <= j < i ==> !file_fails(#[trigger] files@[j].1@),
                classes@.map_values(|c: ApexClass| c@) == spec_classes_upto(files@, i as int),
            decreases n - i,
        {
            let entry = &files[i];
            let r = self.parse_file(entry.1.as_str());
            match r {
                Ok(Some(c)) => {
                    classes.push(c);
                    assert(classes@.map_values(|c: ApexClass| c@) =~= spec_classes_upto(
                        files@,
                        i + 1,
                    ));
                },
                Ok(None) => {
                    assert(spec_classes_upto(files@, i + 1) =~= spec_classes_upto(
                        files@,
                        i as int,
                    ));
                },
                Err(e) => {
                    let err = ExtractFileError { path: entry.0.clone(), error: e };
                    assert(file_fails(files@[i as int].1@));
                    return Err(err);
                },
            }
            i = i + 1;
        }
        Ok(classes)
    }
}

impl Default for ApexParser {
    fn default() -> (r: Self)
        ensures
            r == (ApexParser {  }),
    {
        ApexParser {  }
    }
}

/// The class records of the first `k` files, in input order: one per
/// in-scope text.
pub open spec fn spec_classes_upto(files: Seq<(String, String)>, k: int) -> Seq<ClassView>
    decreases k,
{
    if k <= 0 {
        Seq::empty()
    } else {
        let prev = spec_classes_upto(files, k - 1);
        let s = files[k - 1].1@;
        if has_marker(s) {
            prev + seq![spec_class_of(s)]
        } else {
            prev
        }
    }
}

} // verus!
