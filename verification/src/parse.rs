//! Parses a free-form `case class` declaration into a [`CaseClass`].
//!
//! Newlines are removed first, so a declaration may be split across lines
//! with arbitrary indentation. The outer shape is the leftmost position
//! where the literal `case class ` is followed by an identifier, an
//! optional bracketed type parameter group, and a parenthesized field
//! group extending to the final closing parenthesis of the whole input.
//! Bracket and paren groups are matched greedily, not balanced; splitting
//! on commas is not aware of nesting, a deliberate simplicity tradeoff
//! kept from the pattern-based extraction this parser mirrors.

use vstd::prelude::*;

use crate::decl::{CaseClass, DeclModel, ParseError};
use crate::text::{is_space_char, is_word_char, space_char, string_of_range, word_char};

verus! {

/// The input with every newline character removed.
pub open spec fn strip_nl(s: Seq<char>) -> Seq<char>
    decreases s.len(),
{
    if s.len() == 0 {
        Seq::empty()
    } else if s.last() == '\n' {
        strip_nl(s.drop_last())
    } else {
        strip_nl(s.drop_last()).push(s.last())
    }
}

/// The end of the word-character run starting at `j`: the first position
/// at or after `j` holding no word character.
pub open spec fn word_end(s: Seq<char>, j: int) -> int
    decreases s.len() - j,
{
    if j < 0 || j >= s.len() {
        j
    } else if is_word_char(s[j]) {
        word_end(s, j + 1)
    } else {
        j
    }
}

/// The end of the whitespace run starting at `j`.
pub open spec fn ws_end(s: Seq<char>, j: int) -> int
    decreases s.len() - j,
{
    if j < 0 || j >= s.len() {
        j
    } else if is_space_char(s[j]) {
        ws_end(s, j + 1)
    } else {
        j
    }
}

/// The position of the last closing parenthesis, if any.
pub open spec fn last_rparen(s: Seq<char>) -> Option<int>
    decreases s.len(),
{
    if s.len() == 0 {
        None
    } else if s.last() == ')' {
        Some(s.len() - 1)
    } else {
        last_rparen(s.drop_last())
    }
}

/// Whether position `m` can close the type parameter group opened at `j`:
/// a nonempty group, `](` at `m`, and a nonempty field group up to the
/// final closing parenthesis after it.
pub open spec fn close_ok(s: Seq<char>, j: int, m: int) -> bool {
    &&& j + 2 <= m
    &&& m + 1 < s.len()
    &&& s[m] == ']'
    &&& s[m + 1] == '('
    &&& match last_rparen(s) {
        Some(r) => r >= m + 3,
        None => false,
    }
}

/// The largest position below `k` that can close the type parameter group
/// opened at `j`: the greedy choice of the closing bracket.
pub open spec fn bracket_close(s: Seq<char>, j: int, k: int) -> Option<int>
    decreases k - j,
{
    if k <= j + 2 {
        None
    } else if close_ok(s, j, k - 1) {
        Some(k - 1)
    } else {
        bracket_close(s, j, k - 1)
    }
}

/// Whether the literal `case class ` stands at position `i`.
pub open spec fn header_at(s: Seq<char>, i: int) -> bool {
    &&& 0 <= i
    &&& i + 11 <= s.len()
    &&& s[i] == 'c'
    &&& s[i + 1] == 'a'
    &&& s[i + 2] == 's'
    &&& s[i + 3] == 'e'
    &&& s[i + 4] == ' '
    &&& s[i + 5] == 'c'
    &&& s[i + 6] == 'l'
    &&& s[i + 7] == 'a'
    &&& s[i + 8] == 's'
    &&& s[i + 9] == 's'
    &&& s[i + 10] == ' '
}

/// Whether, right after the class name ending at `j`, either a bracketed
/// type parameter group followed by a paren group, or directly a paren
/// group, completes the outer shape.
pub open spec fn shape_tail(s: Seq<char>, j: int) -> bool {
    ||| (j < s.len() && s[j] == '[' && bracket_close(s, j, s.len() as int) is Some)
    ||| (j < s.len() && s[j] == '(' && match last_rparen(s) {
        Some(r) => r >= j + 2,
        None => false,
    })
}

/// Whether the whole outer shape matches at position `i`.
pub open spec fn shape_at(s: Seq<char>, i: int) -> bool {
    &&& header_at(s, i)
    &&& i + 11 < s.len()
    &&& is_word_char(s[i + 11])
    &&& shape_tail(s, word_end(s, i + 11))
}

/// The leftmost position at or after `i` where the outer shape matches.
pub open spec fn match_from(s: Seq<char>, i: int) -> Option<int>
    decreases s.len() - i,
{
    if i < 0 || i >= s.len() {
        None
    } else if shape_at(s, i) {
        Some(i)
    } else {
        match_from(s, i + 1)
    }
}

/// Bounds and character classes of a word run.
pub proof fn lemma_word_end(s: Seq<char>, j: int)
    requires
        0 <= j <= s.len(),
    ensures
        j <= word_end(s, j) <= s.len(),
        forall|k: int| j <= k < word_end(s, j) ==> is_word_char(s[k]),
        word_end(s, j) < s.len() ==> !is_word_char(s[word_end(s, j)]),
    decreases s.len() - j,
{
    if j < s.len() && is_word_char(s[j]) {
        lemma_word_end(s, j + 1);
    }
}

/// Bounds and character classes of a whitespace run.
pub proof fn lemma_ws_end(s: Seq<char>, j: int)
    requires
        0 <= j <= s.len(),
    ensures
        j <= ws_end(s, j) <= s.len(),
        forall|k: int| j <= k < ws_end(s, j) ==> is_space_char(s[k]),
        ws_end(s, j) < s.len() ==> !is_space_char(s[ws_end(s, j)]),
    decreases s.len() - j,
{
    if j < s.len() && is_space_char(s[j]) {
        lemma_ws_end(s, j + 1);
    }
}

/// Bounds of the last closing parenthesis.
pub proof fn lemma_last_rparen(s: Seq<char>)
    ensures
        match last_rparen(s) {
            Some(r) => 0 <= r < s.len() && s[r] == ')',
            None => true,
        },
    decreases s.len(),
{
    if s.len() > 0 && s.last() != ')' {
        lemma_last_rparen(s.drop_last());
    }
}

/// The position of the first comma, or the length when there is none.
pub open spec fn first_comma(s: Seq<char>) -> int
    decreases s.len(),
{
    if s.len() == 0 {
        0
    } else if s[0] == ',' {
        0
    } else {
        1 + first_comma(s.drop_first())
    }
}

/// Bounds and characterization of the first comma.
pub proof fn lemma_first_comma(s: Seq<char>)
    ensures
        0 <= first_comma(s) <= s.len(),
        forall|t: int| 0 <= t < first_comma(s) ==> s[t] != ',',
        first_comma(s) < s.len() ==> s[first_comma(s)] == ',',
    decreases s.len(),
{
    if s.len() > 0 && s[0] != ',' {
        lemma_first_comma(s.drop_first());
        assert forall|t: int| 0 <= t < first_comma(s) implies s[t] != ',' by {
            if t > 0 {
                assert(s.drop_first()[t - 1] == s[t]);
            }
        }
        if first_comma(s) < s.len() {
            assert(s.drop_first()[first_comma(s) - 1] == s[first_comma(s)]);
        }
    }
}

/// The pieces between plain commas, in order. Splitting is not aware of
/// nesting: every comma separates, even one inside a bracketed type.
pub open spec fn split_commas(s: Seq<char>) -> Seq<Seq<char>>
    decreases s.len(),
    via split_commas_dec
{
    let k = first_comma(s);
    if k >= s.len() {
        seq![s]
    } else {
        seq![s.take(k)] + split_commas(s.skip(k + 1))
    }
}

#[via_fn]
proof fn split_commas_dec(s: Seq<char>) {
    lemma_first_comma(s);
}

/// Splitting always yields at least one piece.
pub proof fn lemma_split_nonempty(s: Seq<char>)
    ensures
        split_commas(s).len() >= 1,
{
    let k = first_comma(s);
    if k >= s.len() {
        assert(split_commas(s) == seq![s]);
    } else {
        assert(split_commas(s) == seq![s.take(k)] + split_commas(s.skip(k + 1)));
    }
}

/// The identifier extracted from one type parameter piece: leading
/// whitespace is trimmed, a single leading variance marker is skipped,
/// and the leading word run is taken; whatever follows it, such as an
/// upper bound or a context bound, is discarded. `None` when no
/// identifier starts the piece.
pub open spec fn type_param_of(p: Seq<char>) -> Option<Seq<char>> {
    let t = ws_end(p, 0);
    let t2 = if t < p.len() && (p[t] == '+' || p[t] == '-') {
        t + 1
    } else {
        t
    };
    if t2 < p.len() && is_word_char(p[t2]) {
        Some(p.subrange(t2, word_end(p, t2)))
    } else {
        None
    }
}

/// The field name extracted from one field piece: leading whitespace is
/// trimmed and the leading word run must be immediately followed by a
/// colon; the declared type after the colon is discarded. `None` when
/// the piece lacks the `identifier:` prefix.
pub open spec fn field_of(p: Seq<char>) -> Option<Seq<char>> {
    let t = ws_end(p, 0);
    if t < p.len() && is_word_char(p[t]) {
        let e = word_end(p, t);
        if e < p.len() && p[e] == ':' {
            Some(p.subrange(t, e))
        } else {
            None
        }
    } else {
        None
    }
}

/// All type parameter identifiers, in order; `None` as soon as any piece
/// has no extractable identifier.
pub open spec fn params_result(pieces: Seq<Seq<char>>) -> Option<Seq<Seq<char>>> {
    if forall|k: int| 0 <= k < pieces.len() ==> type_param_of(#[trigger] pieces[k]) is Some {
        Some(pieces.map_values(|p: Seq<char>| type_param_of(p)->Some_0))
    } else {
        None
    }
}

/// All field names, in order; `None` as soon as any piece lacks the
/// `identifier:` prefix.
pub open spec fn fields_result(pieces: Seq<Seq<char>>) -> Option<Seq<Seq<char>>> {
    if forall|k: int| 0 <= k < pieces.len() ==> field_of(#[trigger] pieces[k]) is Some {
        Some(pieces.map_values(|p: Seq<char>| field_of(p)->Some_0))
    } else {
        None
    }
}

/// Assembles the declaration from the captured name, the optional type
/// parameter group interior, and the field group interior. The type
/// parameter failure is reported before the field failure.
pub open spec fn decl_result(name: Seq<char>, types_s: Option<Seq<char>>, fields_s: Seq<char>) -> Result<DeclModel, ParseError> {
    let tps = match types_s {
        None => Some(Seq::<Seq<char>>::empty()),
        Some(ts) => params_result(split_commas(ts)),
    };
    match tps {
        None => Err(ParseError::MalformedTypeParameter),
        Some(tps) => match fields_result(split_commas(fields_s)) {
            None => Err(ParseError::MalformedField),
            Some(fs) => Ok(DeclModel { name: name, type_params: tps, fields: fs }),
        },
    }
}

/// Parses the newline-free text: the leftmost outer-shape match gives the
/// name and the two group interiors, which are then split and extracted.
pub open spec fn parse_flat(s: Seq<char>) -> Result<DeclModel, ParseError> {
    match match_from(s, 0) {
        None => Err(ParseError::MalformedDeclaration),
        Some(i) => {
            let j = word_end(s, i + 11);
            let name = s.subrange(i + 11, j);
            if j < s.len() && s[j] == '[' {
                match (bracket_close(s, j, s.len() as int), last_rparen(s)) {
                    (Some(m), Some(r)) => decl_result(
                        name,
                        Some(s.subrange(j + 1, m)),
                        s.subrange(m + 2, r),
                    ),
                    _ => Err(ParseError::MalformedDeclaration),
                }
            } else if j < s.len() && s[j] == '(' {
                match last_rparen(s) {
                    Some(r) => decl_result(name, None, s.subrange(j + 1, r)),
                    None => Err(ParseError::MalformedDeclaration),
                }
            } else {
                Err(ParseError::MalformedDeclaration)
            }
        },
    }
}

/// What parsing returns on any input: newlines are removed, then the
/// flattened text is matched.
pub open spec fn parse_spec(input: Seq<char>) -> Result<DeclModel, ParseError> {
    parse_flat(strip_nl(input))
}

/// The views of a sequence of character vectors.
pub open spec fn piece_views(ps: Seq<Vec<char>>) -> Seq<Seq<char>> {
    ps.map_values(|p: Vec<char>| p@)
}

/// The views of a sequence of strings.
pub open spec fn string_views(ss: Seq<String>) -> Seq<Seq<char>> {
    ss.map_values(|s: String| s@)
}

/// A closing position returned by the greedy search can in fact close
/// the group.
pub proof fn lemma_bracket_close(s: Seq<char>, j: int, k: int)
    ensures
        match bracket_close(s, j, k) {
            Some(m) => close_ok(s, j, m) && j + 2 <= m && m < k,
            None => true,
        },
    decreases k - j,
{
    if k > j + 2 && !close_ok(s, j, k - 1) {
        lemma_bracket_close(s, j, k - 1);
    }
}

/// Removes every newline character from the input.
fn strip_newlines(input: &str) -> (v: Vec<char>)
    ensures
        v@ == strip_nl(input@),
{
    let n = input.unicode_len();
    let mut v: Vec<char> = Vec::new();
    let mut i: usize = 0;
    while i < n
        invariant
            n == input@.len(),
            i <= n,
            v@ == strip_nl(input@.take(i as int)),
        decreases n - i,
    {
        let c = input.get_char(i);
        if c != '\n' {
            v.push(c);
        }
        proof {
            let t = input@.take(i + 1);
            assert(t.drop_last() =~= input@.take(i as int));
            assert(t.last() == c);
        }
        i += 1;
    }
    proof {
        assert(input@.take(n as int) =~= input@);
    }
    v
}

/// Copies the characters of `v` between `from` and `to`.
fn subvec(v: &Vec<char>, from: usize, to: usize) -> (r: Vec<char>)
    requires
        from <= to <= v@.len(),
    ensures
        r@ == v@.subrange(from as int, to as int),
{
    let mut r: Vec<char> = Vec::new();
    let mut k = from;
    while k < to
        invariant
            from <= k <= to <= v@.len(),
            r@ == v@.subrange(from as int, k as int),
        decreases to - k,
    {
        r.push(v[k]);
        proof {
            assert(v@.subrange(from as int, k + 1) =~= v@.subrange(from as int, k as int).push(
                v@[k as int],
            ));
        }
        k += 1;
    }
    r
}

fn word_end_exec(v: &Vec<char>, j: usize) -> (e: usize)
    requires
        j <= v@.len(),
    ensures
        e as int == word_end(v@, j as int),
        j <= e <= v@.len(),
{
    let mut k = j;
    while k < v.len() && word_char(v[k])
        invariant
            j <= k <= v@.len(),
            word_end(v@, j as int) == word_end(v@, k as int),
        decreases v@.len() - k,
    {
        proof {
            assert(word_end(v@, k as int) == word_end(v@, k + 1));
        }
        k += 1;
    }
    proof {
        assert(word_end(v@, k as int) == k);
    }
    k
}

fn ws_end_exec(v: &Vec<char>, j: usize) -> (e: usize)
    requires
        j <= v@.len(),
    ensures
        e as int == ws_end(v@, j as int),
        j <= e <= v@.len(),
{
    let mut k = j;
    while k < v.len() && space_char(v[k])
        invariant
            j <= k <= v@.len(),
            ws_end(v@, j as int) == ws_end(v@, k as int),
        decreases v@.len() - k,
    {
        proof {
            assert(ws_end(v@, k as int) == ws_end(v@, k + 1));
        }
        k += 1;
    }
    proof {
        assert(ws_end(v@, k as int) == k);
    }
    k
}

fn last_rparen_exec(v: &Vec<char>) -> (r: Option<usize>)
    ensures
        match (r, last_rparen(v@)) {
            (Some(a), Some(b)) => a as int == b,
            (None, None) => true,
            _ => false,
        },
{
    let mut k = v.len();
    proof {
        assert(v@.take(v@.len() as int) =~= v@);
    }
    while k > 0
        invariant
            k <= v@.len(),
            last_rparen(v@) == last_rparen(v@.take(k as int)),
        decreases k,
    {
        if v[k - 1] == ')' {
            proof {
                let t = v@.take(k as int);
                assert(t.last() == v@[k - 1]);
                assert(last_rparen(t) == Some(k - 1));
            }
            return Some(k - 1);
        }
        proof {
            let t = v@.take(k as int);
            assert(t.last() == v@[k - 1]);
            assert(t.drop_last() =~= v@.take(k - 1));
            assert(last_rparen(t) == last_rparen(v@.take(k - 1)));
        }
        k -= 1;
    }
    proof {
        assert(last_rparen(v@.take(0)) is None);
    }
    None
}

fn bracket_close_exec(v: &Vec<char>, j: usize) -> (r: Option<usize>)
    requires
        j < v@.len(),
    ensures
        match (r, bracket_close(v@, j as int, v@.len() as int)) {
            (Some(a), Some(b)) => a as int == b,
            (None, None) => true,
            _ => false,
        },
{
    let lr = last_rparen_exec(v);
    let mut k = v.len();
    while k >= 3 && k - 3 >= j
        invariant
            k <= v@.len(),
            bracket_close(v@, j as int, v@.len() as int) == bracket_close(
                v@,
                j as int,
                k as int,
            ),
            match (lr, last_rparen(v@)) {
                (Some(a), Some(b)) => a as int == b,
                (None, None) => true,
                _ => false,
            },
        decreases k,
    {
        let m = k - 1;
        let ok = v[m] == ']' && m + 1 < v.len() && v[m + 1] == '(' && match lr {
            Some(r) => r >= 3 && r - 3 >= m,
            None => false,
        };
        proof {
            assert(ok == close_ok(v@, j as int, m as int));
            assert(bracket_close(v@, j as int, k as int) == if close_ok(v@, j as int, k - 1) {
                Some(k - 1 as int)
            } else {
                bracket_close(v@, j as int, k - 1)
            });
        }
        if ok {
            return Some(m);
        }
        k -= 1;
    }
    proof {
        assert(k <= j + 2);
        assert(bracket_close(v@, j as int, k as int) is None);
    }
    None
}

fn shape_at_exec(v: &Vec<char>, i: usize) -> (b: bool)
    requires
        i < v@.len(),
    ensures
        b == shape_at(v@, i as int),
{
    if v.len() - i < 12 {
        return false;
    }
    let h = v[i] == 'c' && v[i + 1] == 'a' && v[i + 2] == 's' && v[i + 3] == 'e' && v[i + 4] == ' '
        && v[i + 5] == 'c' && v[i + 6] == 'l' && v[i + 7] == 'a' && v[i + 8] == 's' && v[i + 9]
        == 's' && v[i + 10] == ' ';
    if !h {
        return false;
    }
    if !word_char(v[i + 11]) {
        return false;
    }
    let j = word_end_exec(v, i + 11);
    if j == v.len() {
        return false;
    }
    let c = v[j];
    if c == '[' {
        let bc = bracket_close_exec(v, j);
        bc.is_some()
    } else if c == '(' {
        match last_rparen_exec(v) {
            Some(r) => r >= 2 && r - 2 >= j,
            None => false,
        }
    } else {
        false
    }
}

fn split_commas_exec(v: &Vec<char>) -> (r: Vec<Vec<char>>)
    ensures
        piece_views(r@) == split_commas(v@),
{
    let mut r: Vec<Vec<char>> = Vec::new();
    let mut start: usize = 0;
    let mut k: usize = 0;
    proof {
        assert(piece_views(r@) =~= Seq::<Seq<char>>::empty());
        assert(v@.skip(0) =~= v@);
    }
    while k < v.len()
        invariant
            start <= k <= v@.len(),
            forall|t: int| start <= t < k ==> v@[t] != ',',
            split_commas(v@) == piece_views(r@) + split_commas(v@.skip(start as int)),
        decreases v@.len() - k,
    {
        if v[k] == ',' {
            let piece = subvec(v, start, k);
            let ghost prev = piece_views(r@);
            let ghost suf = v@.skip(start as int);
            proof {
                lemma_first_comma(suf);
                assert forall|t: int| 0 <= t < k - start implies suf[t] != ',' by {
                    assert(suf[t] == v@[start + t]);
                }
                assert(suf[k - start] == v@[k as int]);
                assert(first_comma(suf) == k - start);
                assert(suf.take(k - start) =~= piece@);
                assert(suf.skip(k - start + 1) =~= v@.skip(k + 1));
                assert(split_commas(suf) == seq![piece@] + split_commas(v@.skip(k + 1)));
            }
            r.push(piece);
            proof {
                assert(piece_views(r@) =~= prev.push(piece@));
                assert(piece_views(r@) + split_commas(v@.skip(k + 1)) =~= prev + split_commas(
                    suf,
                ));
            }
            start = k + 1;
        }
        k += 1;
    }
    let piece = subvec(v, start, v.len());
    let ghost prev = piece_views(r@);
    let ghost suf = v@.skip(start as int);
    proof {
        lemma_first_comma(suf);
        if first_comma(suf) < suf.len() {
            assert(suf[first_comma(suf)] == v@[start + first_comma(suf)]);
        }
        assert(first_comma(suf) == suf.len());
        assert(suf =~= piece@);
        assert(split_commas(suf) == seq![piece@]);
    }
    r.push(piece);
    proof {
        assert(piece_views(r@) =~= prev + seq![piece@]);
    }
    r
}

fn type_param_piece(p: &Vec<char>) -> (r: Option<String>)
    ensures
        match (r, type_param_of(p@)) {
            (Some(a), Some(b)) => a@ == b,
            (None, None) => true,
            _ => false,
        },
{
    let t = ws_end_exec(p, 0);
    let t2 = if t < p.len() && (p[t] == '+' || p[t] == '-') {
        t + 1
    } else {
        t
    };
    if t2 < p.len() && word_char(p[t2]) {
        let e = word_end_exec(p, t2);
        Some(string_of_range(p, t2, e))
    } else {
        None
    }
}

fn field_piece(p: &Vec<char>) -> (r: Option<String>)
    ensures
        match (r, field_of(p@)) {
            (Some(a), Some(b)) => a@ == b,
            (None, None) => true,
            _ => false,
        },
{
    let t = ws_end_exec(p, 0);
    if t < p.len() && word_char(p[t]) {
        let e = word_end_exec(p, t);
        if e < p.len() && p[e] == ':' {
            Some(string_of_range(p, t, e))
        } else {
            None
        }
    } else {
        None
    }
}

fn parse_type_params(pieces: &Vec<Vec<char>>) -> (r: Option<Vec<String>>)
    ensures
        match (r, params_result(piece_views(pieces@))) {
            (Some(a), Some(b)) => string_views(a@) == b,
            (None, None) => true,
            _ => false,
        },
{
    let ghost ps = piece_views(pieces@);
    let mut out: Vec<String> = Vec::new();
    let mut i: usize = 0;
    while i < pieces.len()
        invariant
            ps == piece_views(pieces@),
            i <= pieces@.len(),
            out@.len() == i,
            forall|k: int| 0 <= k < i ==> type_param_of(#[trigger] ps[k]) is Some,
            forall|k: int| 0 <= k < i ==> out@[k]@ == type_param_of(ps[k])->Some_0,
        decreases pieces@.len() - i,
    {
        proof {
            assert(ps[i as int] == pieces@[i as int]@);
        }
        match type_param_piece(&pieces[i]) {
            None => {
                proof {
                    assert(type_param_of(ps[i as int]) is None);
                }
                return None;
            },
            Some(ident) => {
                out.push(ident);
            },
        }
        i += 1;
    }
    proof {
        let b = ps.map_values(|p: Seq<char>| type_param_of(p)->Some_0);
        assert(string_views(out@) =~= b);
    }
    Some(out)
}

fn parse_fields(pieces: &Vec<Vec<char>>) -> (r: Option<Vec<String>>)
    ensures
        match (r, fields_result(piece_views(pieces@))) {
            (Some(a), Some(b)) => string_views(a@) == b,
            (None, None) => true,
            _ => false,
        },
{
    let ghost ps = piece_views(pieces@);
    let mut out: Vec<String> = Vec::new();
    let mut i: usize = 0;
    while i < pieces.len()
        invariant
            ps == piece_views(pieces@),
            i <= pieces@.len(),
            out@.len() == i,
            forall|k: int| 0 <= k < i ==> field_of(#[trigger] ps[k]) is Some,
            forall|k: int| 0 <= k < i ==> out@[k]@ == field_of(ps[k])->Some_0,
        decreases pieces@.len() - i,
    {
        proof {
            assert(ps[i as int] == pieces@[i as int]@);
        }
        match field_piece(&pieces[i]) {
            None => {
                proof {
                    assert(field_of(ps[i as int]) is None);
                }
                return None;
            },
            Some(ident) => {
                out.push(ident);
            },
        }
        i += 1;
    }
    proof {
        let b = ps.map_values(|p: Seq<char>| field_of(p)->Some_0);
        assert(string_views(out@) =~= b);
    }
    Some(out)
}

fn match_from_exec(v: &Vec<char>) -> (r: Option<usize>)
    ensures
        match (r, match_from(v@, 0)) {
            (Some(a), Some(b)) => a as int == b && shape_at(v@, a as int),
            (None, None) => true,
            _ => false,
        },
{
    let mut i: usize = 0;
    while i < v.len()
        invariant
            i <= v@.len(),
            match_from(v@, 0) == match_from(v@, i as int),
        decreases v@.len() - i,
    {
        if shape_at_exec(v, i) {
            proof {
                assert(match_from(v@, i as int) == Some(i as int));
            }
            return Some(i);
        }
        proof {
            assert(match_from(v@, i as int) == match_from(v@, i + 1));
        }
        i += 1;
    }
    proof {
        assert(match_from(v@, i as int) is None);
    }
    None
}

/// The view of an optional captured group.
pub open spec fn types_view(o: Option<Vec<char>>) -> Option<Seq<char>> {
    match o {
        Some(t) => Some(t@),
        None => None,
    }
}

fn with_params(name: String, tps: Vec<String>, fields_v: Vec<char>) -> (r: Result<
    CaseClass,
    ParseError,
>)
    ensures
        ({
            let fr = fields_result(split_commas(fields_v@));
            &&& (r is Ok) == (fr is Some)
            &&& (r is Ok ==> r->Ok_0@ == (DeclModel {
                name: name@,
                type_params: string_views(tps@),
                fields: fr->Some_0,
            }) && r->Ok_0@.wf())
            &&& (r is Err ==> r->Err_0 == ParseError::MalformedField)
        }),
{
    let pieces = split_commas_exec(&fields_v);
    match parse_fields(&pieces) {
        None => Err(ParseError::MalformedField),
        Some(fs) => {
            proof {
                lemma_split_nonempty(fields_v@);
            }
            let cc = CaseClass { name, type_params: tps, fields: fs };
            proof {
                assert forall|k: int| 0 <= k < cc.type_params@.len() implies cc.type_params.deep_view()[k]
                    == string_views(tps@)[k] by {
                    assert(cc.type_params@[k]@ == tps@[k]@);
                }
                assert(cc.type_params.deep_view() =~= string_views(tps@));
                assert forall|k: int| 0 <= k < cc.fields@.len() implies cc.fields.deep_view()[k]
                    == string_views(fs@)[k] by {
                    assert(cc.fields@[k]@ == fs@[k]@);
                }
                assert(cc.fields.deep_view() =~= string_views(fs@));
            }
            Ok(cc)
        },
    }
}

fn assemble(name: String, types_v: Option<Vec<char>>, fields_v: Vec<char>) -> (r: Result<
    CaseClass,
    ParseError,
>)
    ensures
        ({
            let d = decl_result(name@, types_view(types_v), fields_v@);
            &&& (r is Ok) == (d is Ok)
            &&& (r is Ok ==> r->Ok_0@ == d->Ok_0 && r->Ok_0@.wf())
            &&& (r is Err ==> d is Err && r->Err_0 == d->Err_0)
        }),
{
    match types_v {
        None => {
            let tps: Vec<String> = Vec::new();
            proof {
                assert(string_views(tps@) =~= Seq::<Seq<char>>::empty());
            }
            with_params(name, tps, fields_v)
        },
        Some(tv) => {
            let pieces = split_commas_exec(&tv);
            match parse_type_params(&pieces) {
                None => Err(ParseError::MalformedTypeParameter),
                Some(tps) => with_params(name, tps, fields_v),
            }
        },
    }
}

/// Parses a case class declaration. Succeeds exactly when the outer
/// `case class Name(...)` shape is present (after newline removal), every
/// type parameter piece has an extractable identifier, and every field
/// piece has an `identifier:` prefix; each failure reports its stage.
pub fn parse(input: &str) -> (r: Result<CaseClass, ParseError>)
    ensures
        (r is Ok) == (parse_spec(input@) is Ok),
        r is Ok ==> r->Ok_0@ == parse_spec(input@)->Ok_0 && r->Ok_0@.wf(),
        r is Err ==> parse_spec(input@) is Err && r->Err_0 == parse_spec(input@)->Err_0,
{
    let v = strip_newlines(input);
    let ghost s = v@;
    match match_from_exec(&v) {
        None => Err(ParseError::MalformedDeclaration),
        Some(i) => {
            proof {
                lemma_word_end(s, i as int + 11);
            }
            let j = word_end_exec(&v, i + 11);
            let name = string_of_range(&v, i + 11, j);
            if j < v.len() && v[j] == '[' {
                let bc = bracket_close_exec(&v, j);
                let lr = last_rparen_exec(&v);
                match (bc, lr) {
                    (Some(m), Some(r)) => {
                        proof {
                            lemma_bracket_close(s, j as int, s.len() as int);
                            lemma_last_rparen(s);
                        }
                        let types_v = subvec(&v, j + 1, m);
                        let fields_v = subvec(&v, m + 2, r);
                        assemble(name, Some(types_v), fields_v)
                    },
                    _ => Err(ParseError::MalformedDeclaration),
                }
            } else if j < v.len() && v[j] == '(' {
                match last_rparen_exec(&v) {
                    Some(r) => {
                        proof {
                            lemma_last_rparen(s);
                        }
                        let fields_v = subvec(&v, j + 1, r);
                        assemble(name, None, fields_v)
                    },
                    None => Err(ParseError::MalformedDeclaration),
                }
            } else {
                Err(ParseError::MalformedDeclaration)
            }
        },
    }
}

} // verus!
