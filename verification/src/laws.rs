//! The general guarantees of the pipeline, stated and proved over the
//! extraction and rendering specifications.

use vstd::prelude::*;
use crate::scan::{word_end, noncomma_end};
use crate::records::ClassView;
use crate::extract::{
    exposed, field_at, method_at, kept_fields, kept_fields_from, kept_methods, kept_methods_from,
    FieldHit, MethodHit,
};
use crate::emit::{ts_type, render_all, known_head, trim};

verus! {

proof fn lemma_kept_fields_entry(s: Seq<char>, i: int, j: int)
    requires
        0 <= j < kept_fields_from(s, i).len(),
    ensures
        exposed(s, kept_fields_from(s, i)[j].pos),
        field_at(s, kept_fields_from(s, i)[j].pos) is Some,
        kept_fields_from(s, i)[j].pos >= i,
    decreases s.len() - i,
{
    if i < 0 || i >= s.len() {
    } else {
        let rest = kept_fields_from(s, i + 1);
        match field_at(s, i) {
            Some(fm) => {
                if exposed(s, i) {
                    if j == 0 {
                        assert(kept_fields_from(s, i)[0].pos == i);
                    } else {
                        lemma_kept_fields_entry(s, i + 1, j - 1);
                        assert(kept_fields_from(s, i)[j] == rest[j - 1]);
                    }
                } else {
                    lemma_kept_fields_entry(s, i + 1, j);
                }
            },
            None => {
                lemma_kept_fields_entry(s, i + 1, j);
            },
        }
    }
}

proof fn lemma_kept_methods_entry(s: Seq<char>, i: int, j: int)
    requires
        0 <= j < kept_methods_from(s, i).len(),
    ensures
        exposed(s, kept_methods_from(s, i)[j].pos),
        method_at(s, kept_methods_from(s, i)[j].pos) is Some,
        kept_methods_from(s, i)[j].pos >= i,
    decreases s.len() - i,
{
    if i < 0 || i >= s.len() {
    } else {
        let rest = kept_methods_from(s, i + 1);
        match method_at(s, i) {
            Some(mm) => {
                if exposed(s, i) {
                    if j == 0 {
                        assert(kept_methods_from(s, i)[0].pos == i);
                    } else {
                        lemma_kept_methods_entry(s, i + 1, j - 1);
                        assert(kept_methods_from(s, i)[j] == rest[j - 1]);
                    }
                } else {
                    lemma_kept_methods_entry(s, i + 1, j);
                }
            },
            None => {
                lemma_kept_methods_entry(s, i + 1, j);
            },
        }
    }
}

/// Every member of an extracted record passed the exposure filter: a
/// member declaration that carries the annotation neither on its
/// preceding lines nor inline is absent from the record, however many
/// unrelated annotations surround it.
pub proof fn lemma_exposure_filter(s: Seq<char>)
    ensures
        forall|j: int|
            0 <= j < kept_fields(s).len() ==> exposed(
                s,
                (#[trigger] kept_fields(s)[j]).pos,
            ) && field_at(s, kept_fields(s)[j].pos) is Some,
        forall|j: int|
            0 <= j < kept_methods(s).len() ==> exposed(
                s,
                (#[trigger] kept_methods(s)[j]).pos,
            ) && method_at(s, kept_methods(s)[j].pos) is Some,
{
    assert forall|j: int| 0 <= j < kept_fields(s).len() implies exposed(
        s,
        (#[trigger] kept_fields(s)[j]).pos,
    ) && field_at(s, kept_fields(s)[j].pos) is Some by {
        lemma_kept_fields_entry(s, 0, j);
    }
    assert forall|j: int| 0 <= j < kept_methods(s).len() implies exposed(
        s,
        (#[trigger] kept_methods(s)[j]).pos,
    ) && method_at(s, kept_methods(s)[j].pos) is Some by {
        lemma_kept_methods_entry(s, 0, j);
    }
}

proof fn lemma_kept_fields_sorted(s: Seq<char>, i: int, j1: int, j2: int)
    requires
        0 <= j1 < j2 < kept_fields_from(s, i).len(),
    ensures
        kept_fields_from(s, i)[j1].pos < kept_fields_from(s, i)[j2].pos,
    decreases s.len() - i,
{
    if i < 0 || i >= s.len() {
    } else {
        let rest = kept_fields_from(s, i + 1);
        match field_at(s, i) {
            Some(fm) => {
                if exposed(s, i) {
                    assert(kept_fields_from(s, i)[j2] == rest[j2 - 1]);
                    lemma_kept_fields_entry(s, i + 1, j2 - 1);
                    if j1 == 0 {
                        assert(kept_fields_from(s, i)[0].pos == i);
                    } else {
                        assert(kept_fields_from(s, i)[j1] == rest[j1 - 1]);
                        lemma_kept_fields_sorted(s, i + 1, j1 - 1, j2 - 1);
                    }
                } else {
                    lemma_kept_fields_sorted(s, i + 1, j1, j2);
                }
            },
            None => {
                lemma_kept_fields_sorted(s, i + 1, j1, j2);
            },
        }
    }
}

proof fn lemma_kept_methods_sorted(s: Seq<char>, i: int, j1: int, j2: int)
    requires
        0 <= j1 < j2 < kept_methods_from(s, i).len(),
    ensures
        kept_methods_from(s, i)[j1].pos < kept_methods_from(s, i)[j2].pos,
    decreases s.len() - i,
{
    if i < 0 || i >= s.len() {
    } else {
        let rest = kept_methods_from(s, i + 1);
        match method_at(s, i) {
            Some(mm) => {
                if exposed(s, i) {
                    assert(kept_methods_from(s, i)[j2] == rest[j2 - 1]);
                    lemma_kept_methods_entry(s, i + 1, j2 - 1);
                    if j1 == 0 {
                        assert(kept_methods_from(s, i)[0].pos == i);
                    } else {
                        assert(kept_methods_from(s, i)[j1] == rest[j1 - 1]);
                        lemma_kept_methods_sorted(s, i + 1, j1 - 1, j2 - 1);
                    }
                } else {
                    lemma_kept_methods_sorted(s, i + 1, j1, j2);
                }
            },
            None => {
                lemma_kept_methods_sorted(s, i + 1, j1, j2);
            },
        }
    }
}

/// Member order in the record equals source declaration order: the kept
/// fields stand at strictly increasing source positions, and so do the
/// kept methods.  Nothing is reordered or sorted.
pub proof fn lemma_member_order(s: Seq<char>)
    ensures
        forall|j1: int, j2: int|
            0 <= j1 < j2 < kept_fields(s).len() ==> (#[trigger] kept_fields(s)[j1]).pos < (
            #[trigger] kept_fields(s)[j2]).pos,
        forall|j1: int, j2: int|
            0 <= j1 < j2 < kept_methods(s).len() ==> (#[trigger] kept_methods(s)[j1]).pos < (
            #[trigger] kept_methods(s)[j2]).pos,
{
    assert forall|j1: int, j2: int| 0 <= j1 < j2 < kept_fields(s).len() implies (
    #[trigger] kept_fields(s)[j1]).pos < (#[trigger] kept_fields(s)[j2]).pos by {
        lemma_kept_fields_sorted(s, 0, j1, j2);
    }
    assert forall|j1: int, j2: int| 0 <= j1 < j2 < kept_methods(s).len() implies (
    #[trigger] kept_methods(s)[j1]).pos < (#[trigger] kept_methods(s)[j2]).pos by {
        lemma_kept_methods_sorted(s, 0, j1, j2);
    }
}

/// Rendering is a pure function of the record list: identical inputs
/// yield byte-identical output text.
pub proof fn lemma_render_deterministic(a: Seq<ClassView>, b: Seq<ClassView>)
    requires
        a == b,
    ensures
        render_all(a) == render_all(b),
{
}

/// Type mapping is total: every type token has exactly one target form,
/// which is never empty; a plain token whose head is not in the mapping
/// table maps to `unknown`; and a one-level generic is mapped by applying
/// the same mapping to its arguments and re-wrapping them — `List`/`Set`
/// as an array, `Map` as a keyed record.
pub proof fn lemma_type_mapping_total(tok: Seq<char>)
    ensures
        ts_type(tok).len() > 0,
        word_end(tok, 0) == tok.len() && tok.len() > 0 && !known_head(tok) ==> ts_type(tok)
            == "unknown"@,
        ({
            let w = word_end(tok, 0);
            (0 < w && w < tok.len() && tok[w] == '<' && tok[tok.len() - 1] == '>' && w + 1
                <= tok.len() - 1 && (tok.subrange(0, w) == "List"@ || tok.subrange(0, w)
                == "Set"@)) ==> ts_type(tok) == ts_type(trim(tok.subrange(w + 1, tok.len() - 1)))
                + "[]"@
        }),
        ({
            let w = word_end(tok, 0);
            let inner = tok.subrange(w + 1, tok.len() - 1);
            let c0 = noncomma_end(inner, 0);
            (0 < w && w < tok.len() && tok[w] == '<' && tok[tok.len() - 1] == '>' && w + 1
                <= tok.len() - 1 && tok.subrange(0, w) == "Map"@ && 0 <= c0 < inner.len())
                ==> ts_type(tok) == "Record<"@ + ts_type(trim(inner.subrange(0, c0))) + ", "@
                + ts_type(trim(inner.subrange(c0 + 1, inner.len() as int))) + ">"@
        }),
{
    reveal_strlit("List");
    reveal_strlit("Set");
    reveal_strlit("Map");
    reveal_strlit("string");
    reveal_strlit("number");
    reveal_strlit("boolean");
    reveal_strlit("void");
    reveal_strlit("unknown");
    reveal_strlit("[]");
    reveal_strlit("Record<");
    reveal_strlit(", ");
    reveal_strlit(">");
    let w = word_end(tok, 0);
    if 0 < w && w < tok.len() && tok[w] == '<' && tok[tok.len() - 1] == '>' && w + 1 <= tok.len()
        - 1 && tok.subrange(0, w) == "Map"@ {
        let inner = tok.subrange(w + 1, tok.len() - 1);
        let c0 = noncomma_end(inner, 0);
        if 0 <= c0 < inner.len() {
            assert("Map"@.len() == 3);
            assert("List"@.len() == 4);
            assert("Map"@[0] == 'M' && "Set"@[0] == 'S');
            assert(tok.subrange(0, w) != "List"@);
            assert(tok.subrange(0, w) != "Set"@);
            assert(ts_type(tok) == "Record<"@ + ts_type(trim(inner.subrange(0, c0))) + ", "@
                + ts_type(trim(inner.subrange(c0 + 1, inner.len() as int))) + ">"@);
        }
    }
}

} // verus!
