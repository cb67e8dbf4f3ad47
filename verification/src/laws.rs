//! The laws the library keeps, stated over the same spec functions that
//! the executable contracts use: determinism of the pipeline, the field
//! count carried into the generated calls, the generic/non-generic branch,
//! newline tolerance of the parser, and variance/bound stripping of type
//! parameters.

use vstd::prelude::*;

use crate::decl::DeclModel;
use crate::parse::{parse_spec, strip_nl, type_param_of, word_end, ws_end};
use crate::render::{
    binding_kind, bound_entries, companion_spec, decoder_line, decoder_prefix, encoder_line,
    encoder_prefix, just_tps, label_entries, label_entry, proj_entries, proj_entry, tp_list,
};
use crate::text::{dec_str, is_space_char, is_word_char, join};

verus! {

/// Parsing and rendering are pure functions of the input text alone:
/// repeated invocation on identical text yields the identical declaration
/// and byte-identical output. The executable `parse` and
/// `companion_object` are each pinned to these spec functions by their
/// contracts.
pub proof fn lemma_pipeline_deterministic(t1: Seq<char>, t2: Seq<char>)
    requires
        t1 == t2,
    ensures
        parse_spec(t1) == parse_spec(t2),
        parse_spec(t1) is Ok ==> companion_spec(parse_spec(t1)->Ok_0) == companion_spec(
            parse_spec(t2)->Ok_0,
        ),
{
}

/// The `forProduct<N>` count rendered into both binding lines is the
/// decimal form of the number of fields, and the quoted-label list and
/// the tuple-projection list each hold exactly one entry per field, in
/// field order.
pub proof fn lemma_field_count(d: DeclModel)
    ensures
        label_entries(d.fields).len() == d.fields.len(),
        proj_entries(d.fields).len() == d.fields.len(),
        forall|i: int|
            0 <= i < d.fields.len() ==> #[trigger] label_entries(d.fields)[i] == label_entry(
                d.fields[i],
            ),
        forall|i: int|
            0 <= i < d.fields.len() ==> #[trigger] proj_entries(d.fields)[i] == proj_entry(
                d.fields[i],
            ),
        encoder_line(d) == encoder_prefix(d) + dec_str(d.fields.len()) + "("@ + join(
            label_entries(d.fields),
            ", "@,
        ) + ")(a => ("@ + join(proj_entries(d.fields), ", "@) + "))"@,
        decoder_line(d) == decoder_prefix(d) + dec_str(d.fields.len()) + "("@ + join(
            label_entries(d.fields),
            ", "@,
        ) + ")("@ + d.name + ".apply"@ + just_tps(d.type_params) + ")"@,
{
}

/// A declaration without type parameters renders eager bindings with no
/// bracketed lists and a bare constructor reference; one with type
/// parameters renders parameterized bindings, each type parameter bound
/// to `Encoder` in the encoder line and to `Decoder` in the decoder line,
/// and the constructor reference instantiated at the type parameters.
pub proof fn lemma_generic_branch(d: DeclModel)
    ensures
        d.type_params.len() == 0 <==> binding_kind(d.type_params) == "lazy val"@,
        d.type_params.len() != 0 <==> binding_kind(d.type_params) == "def"@,
        d.type_params.len() == 0 ==> tp_list(d.type_params, ": Encoder"@) == Seq::<char>::empty()
            && tp_list(d.type_params, ": Decoder"@) == Seq::<char>::empty() && just_tps(
            d.type_params,
        ) == Seq::<char>::empty(),
        d.type_params.len() != 0 ==> tp_list(d.type_params, ": Encoder"@) == "["@ + join(
            bound_entries(d.type_params, ": Encoder"@),
            ", "@,
        ) + "]"@ && tp_list(d.type_params, ": Decoder"@) == "["@ + join(
            bound_entries(d.type_params, ": Decoder"@),
            ", "@,
        ) + "]"@ && just_tps(d.type_params) == "["@ + join(d.type_params, ", "@) + "]"@,
        forall|i: int|
            0 <= i < d.type_params.len() ==> #[trigger] bound_entries(d.type_params, ": Encoder"@)[i]
                == d.type_params[i] + ": Encoder"@,
        forall|i: int|
            0 <= i < d.type_params.len() ==> #[trigger] bound_entries(d.type_params, ": Decoder"@)[i]
                == d.type_params[i] + ": Decoder"@,
{
    reveal_strlit("lazy val");
    reveal_strlit("def");
    assert("lazy val"@.len() == 8);
    assert("def"@.len() == 3);
}

/// Removing newlines distributes over concatenation.
pub proof fn lemma_strip_nl_concat(a: Seq<char>, b: Seq<char>)
    ensures
        strip_nl(a + b) == strip_nl(a) + strip_nl(b),
    decreases b.len(),
{
    if b.len() == 0 {
        assert(a + b =~= a);
        assert(strip_nl(a) + strip_nl(b) =~= strip_nl(a));
    } else {
        lemma_strip_nl_concat(a, b.drop_last());
        assert((a + b).drop_last() =~= a + b.drop_last());
        assert((a + b).last() == b.last());
        if b.last() == '\n' {
            assert(strip_nl(b) == strip_nl(b.drop_last()));
        } else {
            assert(strip_nl(a) + strip_nl(b.drop_last()).push(b.last()) =~= (strip_nl(a)
                + strip_nl(b.drop_last())).push(b.last()));
        }
    }
}

/// Two renderings of the same declaration text parse identically however
/// the text is split across lines: the parse depends only on the text
/// with its newlines removed.
pub proof fn lemma_newline_tolerance(a: Seq<char>, b: Seq<char>)
    requires
        strip_nl(a) == strip_nl(b),
    ensures
        parse_spec(a) == parse_spec(b),
{
}

proof fn lemma_ws_end_at(p: Seq<char>, j: int, n: int)
    requires
        0 <= j <= n <= p.len(),
        forall|k: int| j <= k < n ==> is_space_char(#[trigger] p[k]),
        n < p.len() ==> !is_space_char(p[n]),
    ensures
        ws_end(p, j) == n,
    decreases n - j,
{
    if j < n {
        lemma_ws_end_at(p, j + 1, n);
    }
}

proof fn lemma_word_end_at(p: Seq<char>, j: int, n: int)
    requires
        0 <= j <= n <= p.len(),
        forall|k: int| j <= k < n ==> is_word_char(#[trigger] p[k]),
        n < p.len() ==> !is_word_char(p[n]),
    ensures
        word_end(p, j) == n,
    decreases n - j,
{
    if j < n {
        lemma_word_end_at(p, j + 1, n);
    }
}

/// A type parameter piece made of leading whitespace, an optional
/// variance marker (`+` or `-`), an identifier, and any trailing
/// annotation that does not extend the identifier (an upper bound
/// `<: B`, a context bound `: Something`, or nothing) always yields
/// exactly that identifier.
pub proof fn lemma_variance_bound_stripping(
    ws: Seq<char>,
    marker: Seq<char>,
    ident: Seq<char>,
    rest: Seq<char>,
)
    requires
        forall|k: int| 0 <= k < ws.len() ==> is_space_char(#[trigger] ws[k]),
        marker == Seq::<char>::empty() || marker == seq!['+'] || marker == seq!['-'],
        ident.len() > 0,
        forall|k: int| 0 <= k < ident.len() ==> is_word_char(#[trigger] ident[k]),
        rest.len() == 0 || !is_word_char(rest[0]),
    ensures
        type_param_of(ws + marker + ident + rest) == Some(ident),
{
    let p = ws + marker + ident + rest;
    let w = ws.len() as int;
    let ml = marker.len() as int;
    assert forall|k: int| 0 <= k < w implies is_space_char(#[trigger] p[k]) by {
        assert(p[k] == ws[k]);
    }
    assert(p[w] == if ml == 1 {
        marker[0]
    } else {
        ident[0]
    });
    lemma_ws_end_at(p, 0, w);
    let t2 = w + ml;
    assert forall|k: int| t2 <= k < t2 + ident.len() implies is_word_char(#[trigger] p[k]) by {
        assert(p[k] == ident[k - t2]);
    }
    if t2 + ident.len() < p.len() {
        assert(p[t2 + ident.len()] == rest[0]);
    }
    lemma_word_end_at(p, t2, t2 + ident.len());
    assert(p.subrange(t2, t2 + ident.len()) =~= ident);
}

/// Inserting a newline at any point of the text leaves the parse
/// unchanged: a declaration split across lines parses as the one-line
/// form does.
pub proof fn lemma_newline_insertion(a: Seq<char>, b: Seq<char>)
    ensures
        parse_spec(a + seq!['\n'] + b) == parse_spec(a + b),
{
    let nl = seq!['\n'];
    assert(nl.drop_last() =~= Seq::<char>::empty());
    assert(strip_nl(nl) == strip_nl(Seq::<char>::empty()));
    lemma_strip_nl_concat(a, nl);
    lemma_strip_nl_concat(a + nl, b);
    lemma_strip_nl_concat(a, b);
    assert(strip_nl(a) + strip_nl(nl) =~= strip_nl(a));
}

} // verus!
