//! Renders a parsed declaration into the companion object text: an encoder
//! and a decoder binding built positionally from the field list, branching
//! on whether the declaration is generic.

use vstd::prelude::*;
use vstd::string::StringExecFns;

use crate::decl::{CaseClass, DeclModel};
use crate::text::{dec_str, dec_string, join, join_comma_sep, snake_case, snake_of};

verus! {

/// The binding kind: eager for a non-generic declaration, parameterized
/// for a generic one.
pub open spec fn binding_kind(tps: Seq<Seq<char>>) -> Seq<char> {
    if tps.len() == 0 {
        "lazy val"@
    } else {
        "def"@
    }
}

/// One entry of a bounded type parameter list, e.g. `A: Encoder`.
pub open spec fn bound_entry(t: Seq<char>, bound_suffix: Seq<char>) -> Seq<char> {
    t + bound_suffix
}

/// The entries of a bounded type parameter list, in declaration order.
pub open spec fn bound_entries(tps: Seq<Seq<char>>, bound_suffix: Seq<char>) -> Seq<Seq<char>> {
    tps.map_values(|t: Seq<char>| bound_entry(t, bound_suffix))
}

/// The bracketed, bounded type parameter list introduced by a generic
/// binding; empty for a non-generic declaration.
pub open spec fn tp_list(tps: Seq<Seq<char>>, bound_suffix: Seq<char>) -> Seq<char> {
    if tps.len() == 0 {
        Seq::empty()
    } else {
        "["@ + join(bound_entries(tps, bound_suffix), ", "@) + "]"@
    }
}

/// The bracketed plain type parameter list, e.g. `[A, B]`; empty for a
/// non-generic declaration.
pub open spec fn just_tps(tps: Seq<Seq<char>>) -> Seq<char> {
    if tps.len() == 0 {
        Seq::empty()
    } else {
        "["@ + join(tps, ", "@) + "]"@
    }
}

/// One quoted serialized-field label, e.g. `"favorite_food"`.
pub open spec fn label_entry(f: Seq<char>) -> Seq<char> {
    "\""@ + snake_of(f) + "\""@
}

/// The quoted labels, one per field, in field order.
pub open spec fn label_entries(fields: Seq<Seq<char>>) -> Seq<Seq<char>> {
    fields.map_values(|f: Seq<char>| label_entry(f))
}

/// The comma-joined quoted label list.
pub open spec fn labels(fields: Seq<Seq<char>>) -> Seq<char> {
    join(label_entries(fields), ", "@)
}

/// One tuple projection off the bound variable `a`, using the original
/// (non-snake-cased) field name, e.g. `a.favoriteFood`.
pub open spec fn proj_entry(f: Seq<char>) -> Seq<char> {
    "a."@ + f
}

/// The projections, one per field, in field order.
pub open spec fn proj_entries(fields: Seq<Seq<char>>) -> Seq<Seq<char>> {
    fields.map_values(|f: Seq<char>| proj_entry(f))
}

/// The comma-joined tuple projection list.
pub open spec fn projections(fields: Seq<Seq<char>>) -> Seq<char> {
    join(proj_entries(fields), ", "@)
}

/// The encoder binding up to and including `forProduct`; the field count
/// and the two field lists follow it.
pub open spec fn encoder_prefix(d: DeclModel) -> Seq<char> {
    "implicit "@ + binding_kind(d.type_params) + " encoder"@ + tp_list(d.type_params, ": Encoder"@)
        + ": Encoder["@ + d.name + just_tps(d.type_params) + "] = Encoder.forProduct"@
}

/// The whole encoder binding line.
pub open spec fn encoder_line(d: DeclModel) -> Seq<char> {
    encoder_prefix(d) + dec_str(d.fields.len()) + "("@ + labels(d.fields) + ")(a => ("@
        + projections(d.fields) + "))"@
}

/// The decoder binding up to and including `forProduct`.
pub open spec fn decoder_prefix(d: DeclModel) -> Seq<char> {
    "implicit "@ + binding_kind(d.type_params) + " decoder"@ + tp_list(d.type_params, ": Decoder"@)
        + ": Decoder["@ + d.name + just_tps(d.type_params) + "] = Decoder.forProduct"@
}

/// The whole decoder binding line; the constructor reference is the bare
/// class name for a non-generic declaration and is explicitly instantiated
/// at the type parameters for a generic one.
pub open spec fn decoder_line(d: DeclModel) -> Seq<char> {
    decoder_prefix(d) + dec_str(d.fields.len()) + "("@ + labels(d.fields) + ")("@ + d.name
        + ".apply"@ + just_tps(d.type_params) + ")"@
}

/// The companion object text: the two bindings separated by one blank
/// line, wrapped in `object <Name> { ... }` with two-space indentation.
pub open spec fn companion_spec(d: DeclModel) -> Seq<char> {
    "object "@ + d.name + " {\n  "@ + encoder_line(d) + "\n\n  "@ + decoder_line(d) + "\n}"@
}

fn quoted_labels(fields: &Vec<String>) -> (r: String)
    ensures
        r@ == labels(fields.deep_view()),
{
    let ghost fs: Seq<Seq<char>> = fields.deep_view();
    let mut items: Vec<String> = Vec::new();
    let mut i: usize = 0;
    while i < fields.len()
        invariant
            fs == fields.deep_view(),
            i <= fields.len(),
            items@.len() == i,
            forall|k: int| 0 <= k < i ==> items@[k]@ == label_entries(fs)[k],
        decreases fields.len() - i,
    {
        let mut e = String::from_str("\"");
        let sn = snake_case(fields[i].as_str());
        e.append(sn.as_str());
        e.append("\"");
        proof {
            assert(fs[i as int] == fields[i as int]@);
            assert(e@ == label_entries(fs)[i as int]);
        }
        items.push(e);
        i += 1;
    }
    proof {
        assert forall|k: int| 0 <= k < items@.len() implies items.deep_view()[k] == label_entries(
            fs,
        )[k] by {
            assert(items@[k]@ == label_entries(fs)[k]);
        }
        assert(items.deep_view() =~= label_entries(fs));
    }
    join_comma_sep(&items)
}

fn projection_tuple(fields: &Vec<String>) -> (r: String)
    ensures
        r@ == projections(fields.deep_view()),
{
    let ghost fs: Seq<Seq<char>> = fields.deep_view();
    let mut items: Vec<String> = Vec::new();
    let mut i: usize = 0;
    while i < fields.len()
        invariant
            fs == fields.deep_view(),
            i <= fields.len(),
            items@.len() == i,
            forall|k: int| 0 <= k < i ==> items@[k]@ == proj_entries(fs)[k],
        decreases fields.len() - i,
    {
        let mut e = String::from_str("a.");
        e.append(fields[i].as_str());
        proof {
            assert(fs[i as int] == fields[i as int]@);
            assert(e@ == proj_entries(fs)[i as int]);
        }
        items.push(e);
        i += 1;
    }
    proof {
        assert forall|k: int| 0 <= k < items@.len() implies items.deep_view()[k] == proj_entries(
            fs,
        )[k] by {
            assert(items@[k]@ == proj_entries(fs)[k]);
        }
        assert(items.deep_view() =~= proj_entries(fs));
    }
    join_comma_sep(&items)
}

fn bounded_tp_list(tps: &Vec<String>, bound_suffix: &str) -> (r: String)
    ensures
        r@ == tp_list(tps.deep_view(), bound_suffix@),
{
    let ghost ts: Seq<Seq<char>> = tps.deep_view();
    if tps.len() == 0 {
        let out = String::new();
        return out;
    }
    let mut items: Vec<String> = Vec::new();
    let mut i: usize = 0;
    while i < tps.len()
        invariant
            ts == tps.deep_view(),
            i <= tps.len(),
            items@.len() == i,
            forall|k: int| 0 <= k < i ==> items@[k]@ == bound_entries(ts, bound_suffix@)[k],
        decreases tps.len() - i,
    {
        let mut e = String::from_str(tps[i].as_str());
        e.append(bound_suffix);
        proof {
            assert(ts[i as int] == tps[i as int]@);
            assert(e@ == bound_entries(ts, bound_suffix@)[i as int]);
        }
        items.push(e);
        i += 1;
    }
    proof {
        assert forall|k: int| 0 <= k < items@.len() implies items.deep_view()[k] == bound_entries(
            ts,
            bound_suffix@,
        )[k] by {
            assert(items@[k]@ == bound_entries(ts, bound_suffix@)[k]);
        }
        assert(items.deep_view() =~= bound_entries(ts, bound_suffix@));
    }
    let mut out = String::from_str("[");
    let joined = join_comma_sep(&items);
    out.append(joined.as_str());
    out.append("]");
    proof {
        assert(out@ =~= tp_list(ts, bound_suffix@));
    }
    out
}

fn plain_tp_list(tps: &Vec<String>) -> (r: String)
    ensures
        r@ == just_tps(tps.deep_view()),
{
    if tps.len() == 0 {
        let out = String::new();
        return out;
    }
    let mut out = String::from_str("[");
    let joined = join_comma_sep(tps);
    out.append(joined.as_str());
    out.append("]");
    proof {
        assert(out@ =~= just_tps(tps.deep_view()));
    }
    out
}

impl CaseClass {
    fn binding_word(&self) -> (r: &'static str)
        ensures
            r@ == binding_kind(self@.type_params),
    {
        if self.type_params.len() == 0 {
            "lazy val"
        } else {
            "def"
        }
    }

    fn encoder_binding(&self) -> (r: String)
        ensures
            r@ == encoder_line(self@),
    {
        let mut out = String::from_str("implicit ");
        out.append(self.binding_word());
        out.append(" encoder");
        let tpl = bounded_tp_list(&self.type_params, ": Encoder");
        out.append(tpl.as_str());
        out.append(": Encoder[");
        out.append(self.name.as_str());
        let jt = plain_tp_list(&self.type_params);
        out.append(jt.as_str());
        out.append("] = Encoder.forProduct");
        let num = dec_string(self.fields.len());
        out.append(num.as_str());
        out.append("(");
        let ls = quoted_labels(&self.fields);
        out.append(ls.as_str());
        out.append(")(a => (");
        let tup = projection_tuple(&self.fields);
        out.append(tup.as_str());
        out.append("))");
        out
    }

    fn decoder_binding(&self) -> (r: String)
        ensures
            r@ == decoder_line(self@),
    {
        let mut out = String::from_str("implicit ");
        out.append(self.binding_word());
        out.append(" decoder");
        let tpl = bounded_tp_list(&self.type_params, ": Decoder");
        out.append(tpl.as_str());
        out.append(": Decoder[");
        out.append(self.name.as_str());
        let jt = plain_tp_list(&self.type_params);
        out.append(jt.as_str());
        out.append("] = Decoder.forProduct");
        let num = dec_string(self.fields.len());
        out.append(num.as_str());
        out.append("(");
        let ls = quoted_labels(&self.fields);
        out.append(ls.as_str());
        out.append(")(");
        out.append(self.name.as_str());
        out.append(".apply");
        out.append(jt.as_str());
        out.append(")");
        out
    }

    /// Renders the companion object for this declaration. Pure and total:
    /// the output is a function of the declaration alone.
    pub fn companion_object(&self) -> (r: String)
        ensures
            r@ == companion_spec(self@),
    {
        let mut out = String::from_str("object ");
        out.append(self.name.as_str());
        out.append(" {\n  ");
        let enc = self.encoder_binding();
        out.append(enc.as_str());
        out.append("\n\n  ");
        let dec = self.decoder_binding();
        out.append(dec.as_str());
        out.append("\n}");
        out
    }
}

} // verus!
