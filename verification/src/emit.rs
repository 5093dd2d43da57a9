//! The declaration emitter: a pure, total function from an ordered list of
//! class records to one unit of TypeScript declaration text.
//!
//! Type tokens are translated head-first; a generic argument list of depth
//! one is translated recursively and re-wrapped in the structurally
//! equivalent TypeScript form.  Unrecognized heads fall back to `unknown`,
//! so emission never fails.

use vstd::prelude::*;
use vstd::string::StrSliceExecFns;
use vstd::string::StringExecFns;
use crate::scan::{
    skip_ws, ws_back, word_end, noncomma_end, skip_ws_exec, ws_back_exec, word_end_exec,
    noncomma_end_exec, chars_of, subvec, range_eq_str,
};
use crate::records::{ApexClass, ApexField, ApexMethod, ApexParameter, ClassView, FieldView,
    MethodView, ParamView};

verus! {

/// `s` without leading and trailing whitespace.
pub open spec fn trim(s: Seq<char>) -> Seq<char> {
    let a0 = skip_ws(s, 0);
    let b0 = ws_back(s, s.len() as int);
    let a = if 0 <= a0 <= s.len() {
        a0
    } else {
        0
    };
    let b = if a <= b0 <= s.len() {
        b0
    } else {
        a
    };
    s.subrange(a, b)
}

/// The heads that the mapping table recognizes; every other head falls
/// back to `unknown`.
pub open spec fn known_head(h: Seq<char>) -> bool {
    h == "String"@ || h == "Id"@ || h == "Date"@ || h == "Datetime"@ || h == "Integer"@ || h
        == "Long"@ || h == "Decimal"@ || h == "Double"@ || h == "Boolean"@ || h == "void"@
}

/// The target type for a plain head token.  Every head maps to exactly
/// one target; unrecognized heads map to `unknown`.
pub open spec fn head_map(h: Seq<char>) -> Seq<char> {
    if h == "String"@ || h == "Id"@ || h == "Date"@ || h == "Datetime"@ {
        "string"@
    } else if h == "Integer"@ || h == "Long"@ || h == "Decimal"@ || h == "Double"@ {
        "number"@
    } else if h == "Boolean"@ {
        "boolean"@
    } else if h == "void"@ {
        "void"@
    } else {
        "unknown"@
    }
}

/// The target type for a full type token: a plain head, or a one-level
/// generic (`List`/`Set` become arrays, `Map` becomes a `Record`), with
/// the arguments translated by the same table.  Total: every token maps
/// to exactly one target type.
pub open spec fn ts_type(tok: Seq<char>) -> Seq<char>
    decreases tok.len(),
{
    let w = word_end(tok, 0);
    if 0 < w && w == tok.len() {
        head_map(tok)
    } else if 0 < w && w < tok.len() && tok[w] == '<' && tok[tok.len() - 1] == '>' && w + 1 <= tok.len() - 1 {
        let head = tok.subrange(0, w);
        let inner = tok.subrange(w + 1, tok.len() - 1);
        if head == "List"@ || head == "Set"@ {
            ts_type(trim(inner)) + "[]"@
        } else if head == "Map"@ {
            let c0 = noncomma_end(inner, 0);
            let c = if 0 <= c0 <= inner.len() {
                c0
            } else {
                inner.len() as int
            };
            if c < inner.len() {
                "Record<"@ + ts_type(trim(inner.subrange(0, c))) + ", "@ + ts_type(
                    trim(inner.subrange(c + 1, inner.len() as int)),
                ) + ">"@
            } else {
                "unknown"@
            }
        } else {
            "unknown"@
        }
    } else {
        "unknown"@
    }
}

fn trim_vec(v: &Vec<char>) -> (r: Vec<char>)
    ensures
        r@ == trim(v@),
        r@.len() <= v@.len(),
{
    let a = skip_ws_exec(v, 0);
    let b = ws_back_exec(v, v.len());
    if a <= b {
        subvec(v, a, b)
    } else {
        subvec(v, a, a)
    }
}

fn map_head(tok: &Vec<char>) -> (r: String)
    ensures
        r@ == head_map(tok@),
{
    let n = tok.len();
    assert(tok@.subrange(0, n as int) =~= tok@);
    if range_eq_str(tok, 0, n, "String") || range_eq_str(tok, 0, n, "Id") || range_eq_str(
        tok,
        0,
        n,
        "Date",
    ) || range_eq_str(tok, 0, n, "Datetime") {
        String::from_str("string")
    } else if range_eq_str(tok, 0, n, "Integer") || range_eq_str(tok, 0, n, "Long")
        || range_eq_str(tok, 0, n, "Decimal") || range_eq_str(tok, 0, n, "Double") {
        String::from_str("number")
    } else if range_eq_str(tok, 0, n, "Boolean") {
        String::from_str("boolean")
    } else if range_eq_str(tok, 0, n, "void") {
        String::from_str("void")
    } else {
        String::from_str("unknown")
    }
}

/// Translate one raw type token into its TypeScript form.
pub fn map_type(tok: &Vec<char>) -> (r: String)
    ensures
        r@ == ts_type(tok@),
    decreases tok@.len(),
{
    let n = tok.len();
    let w = word_end_exec(tok, 0);
    if w > 0 && w == n {
        map_head(tok)
    } else if w > 0 && w < n && tok[w] == '<' && tok[n - 1] == '>' && w + 1 <= n - 1 {
        let inner = subvec(tok, w + 1, n - 1);
        if range_eq_str(tok, 0, w, "List") || range_eq_str(tok, 0, w, "Set") {
            let t = trim_vec(&inner);
            let mut out = map_type(&t);
            out.append("[]");
            assert(out@ =~= ts_type(tok@));
            out
        } else if range_eq_str(tok, 0, w, "Map") {
            let c = noncomma_end_exec(&inner, 0);
            if c < inner.len() {
                let lraw = subvec(&inner, 0, c);
                let rraw = subvec(&inner, c + 1, inner.len());
                let left = trim_vec(&lraw);
                let right = trim_vec(&rraw);
                let lmapped = map_type(&left);
                let rmapped = map_type(&right);
                let mut out = String::from_str("Record<");
                out.append(lmapped.as_str());
                out.append(", ");
                out.append(rmapped.as_str());
                out.append(">");
                assert(out@ =~= ts_type(tok@));
                out
            } else {
                String::from_str("unknown")
            }
        } else {
            String::from_str("unknown")
        }
    } else {
        String::from_str("unknown")
    }
}

/// One emitted field line.
pub open spec fn render_field(f: FieldView) -> Seq<char> {
    "  "@ + f.name + ": "@ + ts_type(f.field_type) + ";\n"@
}

/// One emitted parameter.
pub open spec fn render_param(p: ParamView) -> Seq<char> {
    p.name + ": "@ + ts_type(p.param_type)
}

/// The emitted parameter list from index `k` on, comma-separated.
pub open spec fn render_params_from(ps: Seq<ParamView>, k: int) -> Seq<char>
    decreases ps.len() - k,
{
    if k < 0 || k >= ps.len() {
        Seq::empty()
    } else if k == ps.len() - 1 {
        render_param(ps[k])
    } else {
        render_param(ps[k]) + ", "@ + render_params_from(ps, k + 1)
    }
}

/// One emitted method line.  Static methods render exactly as instance
/// methods do.
pub open spec fn render_method(m: MethodView) -> Seq<char> {
    "  "@ + m.name + "("@ + render_params_from(m.parameters, 0) + "): "@ + ts_type(m.return_type)
        + ";\n"@
}

/// The emitted field lines from index `k` on, in record order.
pub open spec fn render_fields_from(fs: Seq<FieldView>, k: int) -> Seq<char>
    decreases fs.len() - k,
{
    if k < 0 || k >= fs.len() {
        Seq::empty()
    } else {
        render_field(fs[k]) + render_fields_from(fs, k + 1)
    }
}

/// The emitted method lines from index `k` on, in record order.
pub open spec fn render_methods_from(ms: Seq<MethodView>, k: int) -> Seq<char>
    decreases ms.len() - k,
{
    if k < 0 || k >= ms.len() {
        Seq::empty()
    } else {
        render_method(ms[k]) + render_methods_from(ms, k + 1)
    }
}

/// One exported interface block: fields first, then methods, in record
/// order.
pub open spec fn render_class(c: ClassView) -> Seq<char> {
    "export interface "@ + c.name + " {\n"@ + render_fields_from(c.fields, 0)
        + render_methods_from(c.methods, 0) + "}"@
}

/// The interface blocks from index `k` on, separated by one blank line.
pub open spec fn render_blocks_from(cs: Seq<ClassView>, k: int) -> Seq<char>
    decreases cs.len() - k,
{
    if k < 0 || k >= cs.len() {
        Seq::empty()
    } else if k == cs.len() - 1 {
        render_class(cs[k])
    } else {
        render_class(cs[k]) + "\n\n"@ + render_blocks_from(cs, k + 1)
    }
}

/// The whole rendered unit: the blocks, with a trailing newline.  An
/// empty record list renders as empty text.
pub open spec fn render_all(cs: Seq<ClassView>) -> Seq<char> {
    if cs.len() == 0 {
        Seq::empty()
    } else {
        render_blocks_from(cs, 0) + "\n"@
    }
}

/// Append the TypeScript form of the type held in `tok` to `out`.
fn append_mapped(out: &mut String, tok: &String)
    ensures
        final(out)@ == old(out)@ + ts_type(tok@),
{
    let chars = chars_of(tok.as_str());
    let mapped = map_type(&chars);
    out.append(mapped.as_str());
}

/// Append one rendered field line to `out`.
fn append_field(out: &mut String, f: &ApexField)
    ensures
        final(out)@ == old(out)@ + render_field(f@),
{
    out.append("  ");
    out.append(f.name.as_str());
    out.append(": ");
    append_mapped(out, &f.field_type);
    out.append(";\n");
    assert(final(out)@ =~= old(out)@ + render_field(f@));
}

/// Append one rendered method line to `out`.
fn append_method(out: &mut String, m: &ApexMethod)
    ensures
        final(out)@ == old(out)@ + render_method(m@),
{
    out.append("  ");
    out.append(m.name.as_str());
    out.append("(");
    let k_end = m.parameters.len();
    let mut k: usize = 0;
    let ghost base = out@;
    while k < k_end
        invariant
            k <= k_end,
            k_end == m.parameters@.len(),
            base + render_params_from(m@.parameters, 0) == out@ + render_params_from(
                m@.parameters,
                k as int,
            ),
        decreases k_end - k,
    {
        let p = &m.parameters[k];
        let ghost before = out@;
        out.append(p.name.as_str());
        out.append(": ");
        append_mapped(out, &p.param_type);
        proof {
            assert(m@.parameters[k as int] == p@);
            assert(out@ =~= before + render_param(p@));
        }
        if k + 1 < k_end {
            out.append(", ");
            proof {
                assert(render_params_from(m@.parameters, k as int) == render_param(p@) + ", "@
                    + render_params_from(m@.parameters, k + 1));
                assert(base + render_params_from(m@.parameters, 0) =~= out@ + render_params_from(
                    m@.parameters,
                    k + 1,
                ));
            }
        } else {
            proof {
                assert(render_params_from(m@.parameters, k as int) == render_param(p@));
                assert(render_params_from(m@.parameters, k + 1) == Seq::<char>::empty());
                assert(base + render_params_from(m@.parameters, 0) =~= out@ + render_params_from(
                    m@.parameters,
                    k + 1,
                ));
            }
        }
        k = k + 1;
    }
    proof {
        assert(render_params_from(m@.parameters, k_end as int) == Seq::<char>::empty());
        assert(out@ =~= base + render_params_from(m@.parameters, 0));
    }
    out.append("): ");
    append_mapped(out, &m.return_type);
    out.append(";\n");
    assert(out@ =~= old(out)@ + render_method(m@));
}

/// Append one rendered interface block to `out`.
fn append_class(out: &mut String, c: &ApexClass)
    ensures
        final(out)@ == old(out)@ + render_class(c@),
{
    out.append("export interface ");
    out.append(c.name.as_str());
    out.append(" {\n");
    let f_end = c.fields.len();
    let mut i: usize = 0;
    let ghost base = out@;
    while i < f_end
        invariant
            i <= f_end,
            f_end == c.fields@.len(),
            base + render_fields_from(c@.fields, 0) == out@ + render_fields_from(
                c@.fields,
                i as int,
            ),
        decreases f_end - i,
    {
        let ghost before = out@;
        append_field(out, &c.fields[i]);
        proof {
            assert(c@.fields[i as int] == c.fields@[i as int]@);
            assert(render_fields_from(c@.fields, i as int) == render_field(c@.fields[i as int])
                + render_fields_from(c@.fields, i + 1));
            assert(base + render_fields_from(c@.fields, 0) =~= out@ + render_fields_from(
                c@.fields,
                i + 1,
            ));
        }
        i = i + 1;
    }
    proof {
        assert(render_fields_from(c@.fields, f_end as int) == Seq::<char>::empty());
        assert(out@ =~= base + render_fields_from(c@.fields, 0));
    }
    let m_end = c.methods.len();
    let mut j: usize = 0;
    let ghost base2 = out@;
    while j < m_end
        invariant
            j <= m_end,
            m_end == c.methods@.len(),
            base2 + render_methods_from(c@.methods, 0) == out@ + render_methods_from(
                c@.methods,
                j as int,
            ),
        decreases m_end - j,
    {
        append_method(out, &c.methods[j]);
        proof {
            assert(c@.methods[j as int] == c.methods@[j as int]@);
            assert(render_methods_from(c@.methods, j as int) == render_method(c@.methods[j as int])
                + render_methods_from(c@.methods, j + 1));
            assert(base2 + render_methods_from(c@.methods, 0) =~= out@ + render_methods_from(
                c@.methods,
                j + 1,
            ));
        }
        j = j + 1;
    }
    proof {
        assert(render_methods_from(c@.methods, m_end as int) == Seq::<char>::empty());
        assert(out@ =~= base2 + render_methods_from(c@.methods, 0));
    }
    out.append("}");
    assert(out@ =~= old(out)@ + render_class(c@));
}

/// The declaration emitter.  It holds no state; rendering is a pure
/// function of the record list.
pub struct TypeScriptGenerator {}

impl TypeScriptGenerator {
    pub fn new() -> (r: TypeScriptGenerator) {
        TypeScriptGenerator {  }
    }

    /// Render the whole declaration text for `classes`, one exported
    /// interface block per record, in input order, separated by one blank
    /// line, with a trailing newline.
    pub fn generate(&self, classes: &Vec<ApexClass>) -> (r: String)
        ensures
            r@ == render_all(classes@.map_values(|c: ApexClass| c@)),
    {
        let ghost views = classes@.map_values(|c: ApexClass| c@);
        let mut out = String::new();
        let n = classes.len();
        if n == 0 {
            assert(out@ =~= render_all(views));
            return out;
        }
        let mut i: usize = 0;
        while i < n
            invariant
                i <= n,
                n == classes@.len(),
                n >= 1,
                views == classes@.map_values(|c: ApexClass| c@),
                views.len() == n,
                Seq::<char>::empty() + render_blocks_from(views, 0) == out@ + render_blocks_from(
                    views,
                    i as int,
                ),
            decreases n - i,
        {
            let ghost before = out@;
            append_class(&mut out, &classes[i]);
            proof {
                assert(views[i as int] == classes@[i as int]@);
                assert(out@ == before + render_class(views[i as int]));
            }
            if i + 1 < n {
                out.append("\n\n");
                proof {
                    assert(render_blocks_from(views, i as int) == render_class(views[i as int])
                        + "\n\n"@ + render_blocks_from(views, i + 1));
                    assert(Seq::<char>::empty() + render_blocks_from(views, 0) =~= out@
                        + render_blocks_from(views, i + 1));
                }
            } else {
                proof {
                    assert(render_blocks_from(views, i as int) == render_class(views[i as int]));
                    assert(render_blocks_from(views, i + 1) == Seq::<char>::empty());
                    assert(Seq::<char>::empty() + render_blocks_from(views, 0) =~= out@
                        + render_blocks_from(views, i + 1));
                }
            }
            i = i + 1;
        }
        out.append("\n");
        assert(out@ =~= render_all(views));
        out
    }
}

impl Default for TypeScriptGenerator {
    fn default() -> (r: Self)
        ensures
            r == (TypeScriptGenerator {  }),
    {
        TypeScriptGenerator {  }
    }
}

} // verus!
