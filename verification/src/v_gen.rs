//! Signature and struct scanning for V-language sources, with the richer
//! grammar: a visibility marker, an optional method receiver, and struct
//! declarations; plus the smarter per-type test stub generation.
//!
//! Scanning works the same way as in the plain scanner: signatures are
//! matched at line starts, leftmost first and non-overlapping, with ASCII
//! character classes.

use vstd::prelude::*;
use vstd::string::StrSliceExecFns;
use vstd::string::StringExecFns;

use crate::strutil::concat2;
use crate::strutil::concat3;
use crate::strutil::find_close;
use crate::strutil::is_space;
use crate::strutil::is_space_char;
use crate::strutil::is_word;
use crate::strutil::is_word_char;
use crate::strutil::join_strings;
use crate::strutil::lemma_find_close;
use crate::strutil::lemma_space_run_end;
use crate::strutil::lemma_trim_end_char;
use crate::strutil::lemma_word_run_end;
use crate::strutil::space_run_end;
use crate::strutil::spec_filter_nonempty;
use crate::strutil::spec_find_close;
use crate::strutil::spec_join;
use crate::strutil::spec_space_run_end;
use crate::strutil::spec_split;
use crate::strutil::spec_starts_with;
use crate::strutil::spec_to_lower;
use crate::strutil::spec_trim;
use crate::strutil::spec_trim_end;
use crate::strutil::spec_word_run_end;
use crate::strutil::split_char;
use crate::strutil::starts_with;
use crate::strutil::str_eq;
use crate::strutil::to_ascii_lower;
use crate::strutil::trim;
use crate::strutil::usize_to_string;
use crate::strutil::word_run_end;

verus! {

/// A return-type character of this grammar: word, whitespace, bracket, `?`
/// or `&`.
pub open spec fn is_gret_char(c: char) -> bool {
    is_word_char(c) || is_space_char(c) || c == '[' || c == ']' || c == '?' || c == '&'
}

fn is_gret(c: char) -> (r: bool)
    ensures
        r == is_gret_char(c),
{
    is_word(c) || is_space(c) || c == '[' || c == ']' || c == '?' || c == '&'
}

/// End of the maximal run of return-type characters starting at `i`.
pub open spec fn spec_gret_run_end(s: Seq<char>, i: int) -> int
    decreases s.len() - i,
{
    if 0 <= i < s.len() && is_gret_char(s[i]) {
        spec_gret_run_end(s, i + 1)
    } else {
        i
    }
}

pub proof fn lemma_gret_run_end(s: Seq<char>, i: int)
    requires
        0 <= i <= s.len(),
    ensures
        i <= spec_gret_run_end(s, i) <= s.len(),
    decreases s.len() - i,
{
    if 0 <= i < s.len() && is_gret_char(s[i]) {
        lemma_gret_run_end(s, i + 1);
    }
}

fn gret_run_end(s: &str, i: usize) -> (r: usize)
    requires
        i <= s@.len(),
    ensures
        r == spec_gret_run_end(s@, i as int),
{
    let n = s.unicode_len();
    let mut j: usize = i;
    while j < n && is_gret(s.get_char(j))
        invariant
            n == s@.len(),
            i <= j <= n,
            spec_gret_run_end(s@, i as int) == spec_gret_run_end(s@, j as int),
        decreases n - j,
    {
        j += 1;
    }
    j
}

/// Index of the first `}` at or after `i`, or -1 when there is none.
pub open spec fn spec_find_brace(s: Seq<char>, i: int) -> int
    decreases s.len() - i,
{
    if !(0 <= i < s.len()) {
        -1
    } else if s[i] == '}' {
        i
    } else {
        spec_find_brace(s, i + 1)
    }
}

pub proof fn lemma_find_brace(s: Seq<char>, i: int)
    requires
        0 <= i <= s.len(),
    ensures
        spec_find_brace(s, i) >= 0 ==> i <= spec_find_brace(s, i) < s.len(),
    decreases s.len() - i,
{
    if 0 <= i < s.len() && s[i] != '}' {
        lemma_find_brace(s, i + 1);
    }
}

fn find_brace(s: &str, i: usize) -> (r: Option<usize>)
    requires
        i <= s@.len(),
    ensures
        match r {
            Some(k) => spec_find_brace(s@, i as int) == k as int,
            None => spec_find_brace(s@, i as int) == -1,
        },
{
    let n = s.unicode_len();
    let mut j: usize = i;
    while j < n
        invariant
            n == s@.len(),
            i <= j <= n,
            spec_find_brace(s@, i as int) == spec_find_brace(s@, j as int),
        decreases n - j,
    {
        if s.get_char(j) == '}' {
            return Some(j);
        }
        j += 1;
    }
    None
}

/// A position is a line start when it is the text's start or follows `\n`.
pub open spec fn is_line_start(s: Seq<char>, p: int) -> bool {
    p == 0 || (0 < p <= s.len() && s[p - 1] == '\n')
}

/// Whether a `pub` marker followed by whitespace stands at `p`.
pub open spec fn spec_has_pub(s: Seq<char>, p: int) -> bool {
    &&& 0 <= p
    &&& p + 4 <= s.len()
    &&& s[p] == 'p'
    &&& s[p + 1] == 'u'
    &&& s[p + 2] == 'b'
    &&& is_space_char(s[p + 3])
}

/// One raw signature match of the richer grammar.
#[verifier::ext_equal]
pub struct GMatchModel {
    pub is_public: bool,
    pub receiver: Option<Seq<char>>,
    pub name: Seq<char>,
    pub args_src: Seq<char>,
    pub ret_src: Seq<char>,
    pub end: int,
}

/// The receiver group at position `q2` (just after `fn` and its whitespace):
/// `( word whitespace word )` followed by at least one whitespace character.
/// Yields the receiver type text and the position after the group.
pub open spec fn spec_receiver_at(s: Seq<char>, q2: int) -> Option<(Seq<char>, int)> {
    if !(0 <= q2 < s.len() && s[q2] == '(') {
        None
    } else {
        let r1 = spec_word_run_end(s, q2 + 1);
        if r1 <= q2 + 1 {
            None
        } else {
            let r2 = spec_space_run_end(s, r1);
            if r2 <= r1 {
                None
            } else {
                let r3 = spec_word_run_end(s, r2);
                if r3 <= r2 {
                    None
                } else if !(r3 < s.len() && s[r3] == ')') {
                    None
                } else {
                    let r5 = spec_space_run_end(s, r3 + 1);
                    if r5 <= r3 + 1 {
                        None
                    } else {
                        Some((s.subrange(r2, r3), r5))
                    }
                }
            }
        }
    }
}

pub proof fn lemma_receiver_at_bounds(s: Seq<char>, q2: int)
    requires
        spec_receiver_at(s, q2) is Some,
    ensures
        ({
            let rv = spec_receiver_at(s, q2)->0;
            q2 < rv.1 <= s.len()
        }),
{
    lemma_word_run_end(s, q2 + 1);
    let r1 = spec_word_run_end(s, q2 + 1);
    lemma_space_run_end(s, r1);
    let r2 = spec_space_run_end(s, r1);
    lemma_word_run_end(s, r2);
    let r3 = spec_word_run_end(s, r2);
    lemma_space_run_end(s, r3 + 1);
}

/// The tail of a signature match from the name position on: the name, the
/// one-line argument text in parentheses, and the return-type run.
pub open spec fn spec_sig_tail_at(s: Seq<char>, start: int) -> Option<(
    Seq<char>,
    Seq<char>,
    Seq<char>,
    int,
)> {
    if !(0 <= start <= s.len()) {
        None
    } else {
        let n1 = spec_word_run_end(s, start);
        if n1 <= start {
            None
        } else {
            let n2 = spec_space_run_end(s, n1);
            if !(n2 < s.len() && s[n2] == '(') {
                None
            } else {
                let close = spec_find_close(s, n2 + 1);
                if close < 0 {
                    None
                } else {
                    let g1 = spec_space_run_end(s, close + 1);
                    let g2 = spec_gret_run_end(s, g1);
                    Some(
                        (
                            s.subrange(start, n1),
                            s.subrange(n2 + 1, close),
                            s.subrange(g1, g2),
                            g2,
                        ),
                    )
                }
            }
        }
    }
}

pub proof fn lemma_sig_tail_at_bounds(s: Seq<char>, start: int)
    requires
        spec_sig_tail_at(s, start) is Some,
    ensures
        ({
            let t = spec_sig_tail_at(s, start)->0;
            start < t.3 <= s.len()
        }),
{
    lemma_word_run_end(s, start);
    let n1 = spec_word_run_end(s, start);
    lemma_space_run_end(s, n1);
    let n2 = spec_space_run_end(s, n1);
    lemma_find_close(s, n2 + 1);
    let close = spec_find_close(s, n2 + 1);
    lemma_space_run_end(s, close + 1);
    let g1 = spec_space_run_end(s, close + 1);
    lemma_gret_run_end(s, g1);
}

/// The signature match starting exactly at position `p`.
pub open spec fn spec_g_match_at(s: Seq<char>, p: int) -> Option<GMatchModel> {
    if !(0 <= p <= s.len()) {
        None
    } else {
        let has_pub = spec_has_pub(s, p);
        let q = if has_pub {
            spec_space_run_end(s, p + 3)
        } else {
            p
        };
        if !(q + 2 < s.len() && s[q] == 'f' && s[q + 1] == 'n' && is_space_char(s[q + 2])) {
            None
        } else {
            let q2 = spec_space_run_end(s, q + 2);
            match spec_receiver_at(s, q2) {
                Some(rv) => match spec_sig_tail_at(s, rv.1) {
                    Some(t) => Some(
                        GMatchModel {
                            is_public: has_pub,
                            receiver: Some(rv.0),
                            name: t.0,
                            args_src: t.1,
                            ret_src: t.2,
                            end: t.3,
                        },
                    ),
                    None => None,
                },
                None => match spec_sig_tail_at(s, q2) {
                    Some(t) => Some(
                        GMatchModel {
                            is_public: has_pub,
                            receiver: None,
                            name: t.0,
                            args_src: t.1,
                            ret_src: t.2,
                            end: t.3,
                        },
                    ),
                    None => None,
                },
            }
        }
    }
}

pub proof fn lemma_g_match_at_bounds(s: Seq<char>, p: int)
    requires
        spec_g_match_at(s, p) is Some,
    ensures
        p < spec_g_match_at(s, p)->0.end <= s.len(),
{
    let has_pub = spec_has_pub(s, p);
    if has_pub {
        lemma_space_run_end(s, p + 3);
    }
    let q = if has_pub {
        spec_space_run_end(s, p + 3)
    } else {
        p
    };
    lemma_space_run_end(s, q + 2);
    let q2 = spec_space_run_end(s, q + 2);
    if spec_receiver_at(s, q2) is Some {
        lemma_receiver_at_bounds(s, q2);
        let rv = spec_receiver_at(s, q2)->0;
        lemma_sig_tail_at_bounds(s, rv.1);
    } else {
        lemma_sig_tail_at_bounds(s, q2);
    }
}

/// All signature matches of `s` from position `p` on: only at line starts,
/// leftmost first and non-overlapping.
pub open spec fn spec_g_scan(s: Seq<char>, p: int) -> Seq<GMatchModel>
    decreases s.len() - p,
    when 0 <= p
    via spec_g_scan_decreases
{
    if p >= s.len() {
        Seq::empty()
    } else if is_line_start(s, p) {
        match spec_g_match_at(s, p) {
            Some(m) => seq![m] + spec_g_scan(s, m.end),
            None => spec_g_scan(s, p + 1),
        }
    } else {
        spec_g_scan(s, p + 1)
    }
}

#[via_fn]
proof fn spec_g_scan_decreases(s: Seq<char>, p: int) {
    if p < s.len() && is_line_start(s, p) && spec_g_match_at(s, p) is Some {
        lemma_g_match_at_bounds(s, p);
    }
}

/// Mathematical view of one scanned function signature.
#[verifier::ext_equal]
pub struct GFnModel {
    pub name: Seq<char>,
    pub args: Seq<Seq<char>>,
    pub return_type: Option<Seq<char>>,
    pub is_public: bool,
    pub receiver: Option<Seq<char>>,
}

/// The function record of one raw match: arguments split on commas, trimmed,
/// empties dropped; the return type trimmed, or nothing when empty.
pub open spec fn spec_g_fn(m: GMatchModel) -> GFnModel {
    GFnModel {
        name: m.name,
        args: spec_filter_nonempty(
            spec_split(m.args_src, ',').map_values(|piece: Seq<char>| spec_trim(piece)),
        ),
        return_type: if spec_trim(m.ret_src).len() == 0 {
            None
        } else {
            Some(spec_trim(m.ret_src))
        },
        is_public: m.is_public,
        receiver: m.receiver,
    }
}

/// The function records scanned from a whole source text.
pub open spec fn spec_parse_g(s: Seq<char>) -> Seq<GFnModel> {
    spec_g_scan(s, 0).map_values(|m: GMatchModel| spec_g_fn(m))
}

/// One function signature scanned from a V source text.
#[derive(Debug)]
pub struct FunctionInfo {
    /// The function name.
    pub name: String,
    /// The raw argument texts, one per comma-separated argument.
    pub args: Vec<String>,
    /// The trimmed return-type text, when one was written.
    pub return_type: Option<String>,
    /// Whether the function carried a `pub` marker.
    pub is_public: bool,
    /// The method receiver's type, when the function is a method.
    pub receiver: Option<String>,
}

impl View for FunctionInfo {
    type V = GFnModel;

    open spec fn view(&self) -> GFnModel {
        GFnModel {
            name: self.name@,
            args: crate::analyzer::strings_view(self.args@),
            return_type: match self.return_type {
                Some(ref t) => Some(t@),
                None => None,
            },
            is_public: self.is_public,
            receiver: match self.receiver {
                Some(ref t) => Some(t@),
                None => None,
            },
        }
    }
}

pub open spec fn g_fns_view(v: Seq<FunctionInfo>) -> Seq<GFnModel> {
    v.map_values(|f: FunctionInfo| f@)
}

/// Mathematical view of one scanned struct declaration.
#[verifier::ext_equal]
pub struct GStructModel {
    pub name: Seq<char>,
    pub fields: Seq<Seq<char>>,
}

/// One struct declaration scanned from a V source text.
#[derive(Debug)]
pub struct StructInfo {
    /// The struct name.
    pub name: String,
    /// The field lines, trimmed, with empties and comment lines dropped.
    pub fields: Vec<String>,
}

impl View for StructInfo {
    type V = GStructModel;

    open spec fn view(&self) -> GStructModel {
        GStructModel { name: self.name@, fields: crate::analyzer::strings_view(self.fields@) }
    }
}

pub open spec fn g_structs_view(v: Seq<StructInfo>) -> Seq<GStructModel> {
    v.map_values(|s: StructInfo| s@)
}

/// The field lines kept from a struct body: trimmed, non-empty, and not
/// comment lines.
pub open spec fn spec_field_filter(parts: Seq<Seq<char>>) -> Seq<Seq<char>>
    decreases parts.len(),
{
    if parts.len() == 0 {
        Seq::empty()
    } else if parts[0].len() > 0 && !spec_starts_with(parts[0], "//"@) {
        seq![parts[0]] + spec_field_filter(parts.subrange(1, parts.len() as int))
    } else {
        spec_field_filter(parts.subrange(1, parts.len() as int))
    }
}

/// One raw struct match: name, raw body text, and the position after it.
#[verifier::ext_equal]
pub struct GStructMatchModel {
    pub name: Seq<char>,
    pub body_src: Seq<char>,
    pub end: int,
}

/// The struct match starting exactly at position `p`: an optional `pub`
/// marker, the `struct` keyword, whitespace, a word name, optional
/// whitespace, and a braced body without nested braces.
pub open spec fn spec_struct_match_at(s: Seq<char>, p: int) -> Option<GStructMatchModel> {
    if !(0 <= p <= s.len()) {
        None
    } else {
        let has_pub = spec_has_pub(s, p);
        let q = if has_pub {
            spec_space_run_end(s, p + 3)
        } else {
            p
        };
        if !(q + 6 < s.len() && s[q] == 's' && s[q + 1] == 't' && s[q + 2] == 'r' && s[q + 3]
            == 'u' && s[q + 4] == 'c' && s[q + 5] == 't' && is_space_char(s[q + 6])) {
            None
        } else {
            let w = spec_space_run_end(s, q + 6);
            let n1 = spec_word_run_end(s, w);
            if n1 <= w {
                None
            } else {
                let n2 = spec_space_run_end(s, n1);
                if !(n2 < s.len() && s[n2] == '{') {
                    None
                } else {
                    let b = spec_find_brace(s, n2 + 1);
                    if b < 0 {
                        None
                    } else {
                        Some(
                            GStructMatchModel {
                                name: s.subrange(w, n1),
                                body_src: s.subrange(n2 + 1, b),
                                end: b + 1,
                            },
                        )
                    }
                }
            }
        }
    }
}

pub proof fn lemma_struct_match_at_bounds(s: Seq<char>, p: int)
    requires
        spec_struct_match_at(s, p) is Some,
    ensures
        p < spec_struct_match_at(s, p)->0.end <= s.len(),
{
    let has_pub = spec_has_pub(s, p);
    if has_pub {
        lemma_space_run_end(s, p + 3);
    }
    let q = if has_pub {
        spec_space_run_end(s, p + 3)
    } else {
        p
    };
    lemma_space_run_end(s, q + 6);
    let w = spec_space_run_end(s, q + 6);
    lemma_word_run_end(s, w);
    let n1 = spec_word_run_end(s, w);
    lemma_space_run_end(s, n1);
    let n2 = spec_space_run_end(s, n1);
    lemma_find_brace(s, n2 + 1);
}

/// All struct matches of `s` from position `p` on, at line starts.
pub open spec fn spec_struct_scan(s: Seq<char>, p: int) -> Seq<GStructMatchModel>
    decreases s.len() - p,
    when 0 <= p
    via spec_struct_scan_decreases
{
    if p >= s.len() {
        Seq::empty()
    } else if is_line_start(s, p) {
        match spec_struct_match_at(s, p) {
            Some(m) => seq![m] + spec_struct_scan(s, m.end),
            None => spec_struct_scan(s, p + 1),
        }
    } else {
        spec_struct_scan(s, p + 1)
    }
}

#[via_fn]
proof fn spec_struct_scan_decreases(s: Seq<char>, p: int) {
    if p < s.len() && is_line_start(s, p) && spec_struct_match_at(s, p) is Some {
        lemma_struct_match_at_bounds(s, p);
    }
}

/// The struct record of one raw match.
pub open spec fn spec_g_struct(m: GStructMatchModel) -> GStructModel {
    GStructModel {
        name: m.name,
        fields: spec_field_filter(
            spec_split(m.body_src, '\n').map_values(|line: Seq<char>| spec_trim(line)),
        ),
    }
}

/// The struct records scanned from a whole source text.
pub open spec fn spec_parse_structs(s: Seq<char>) -> Seq<GStructModel> {
    spec_struct_scan(s, 0).map_values(|m: GStructMatchModel| spec_g_struct(m))
}

/// Start of the whitespace-delimited token ending at `e`.
pub open spec fn spec_token_start(s: Seq<char>, e: int) -> int
    decreases e,
{
    if e <= 0 || !(e <= s.len()) {
        0
    } else if is_space_char(s[e - 1]) {
        e
    } else {
        spec_token_start(s, e - 1)
    }
}

pub proof fn lemma_token_start(s: Seq<char>, e: int)
    requires
        0 <= e <= s.len(),
    ensures
        0 <= spec_token_start(s, e) <= e,
        forall|j: int| spec_token_start(s, e) <= j < e ==> !is_space_char(s[j]),
        spec_token_start(s, e) > 0 ==> is_space_char(s[spec_token_start(s, e) - 1]),
    decreases e,
{
    if e > 0 && !is_space_char(s[e - 1]) {
        lemma_token_start(s, e - 1);
    }
}

/// The last whitespace-delimited token of `s`, or the placeholder word when
/// `s` holds no token.
pub open spec fn spec_last_token(s: Seq<char>) -> Seq<char> {
    let te = spec_trim_end(s);
    if te <= 0 {
        "unknown"@
    } else {
        s.subrange(spec_token_start(s, te), te)
    }
}

fn last_token(s: &str) -> (r: &str)
    ensures
        r@ == spec_last_token(s@),
{
    let n = s.unicode_len();
    let mut j: usize = n;
    while j > 0 && is_space(s.get_char(j - 1))
        invariant
            n == s@.len(),
            j <= n,
            forall|q: int| j <= q < n ==> is_space_char(s@[q]),
        decreases j,
    {
        j -= 1;
    }
    proof {
        lemma_trim_end_char(s@);
        let te = spec_trim_end(s@);
        assert(j == te) by {
            if j < te {
                assert(is_space_char(s@[te - 1]));
                assert(te - 1 >= j);
            } else if te < j {
                assert(is_space_char(s@[te]));
                assert(!is_space_char(s@[j - 1]));
                if te == j - 1 {
                    assert(is_space_char(s@[j - 1]));
                } else {
                    assert(is_space_char(s@[j - 1]));
                }
            }
        }
    }
    if j == 0 {
        return "unknown";
    }
    let mut k: usize = j;
    while k > 0 && !is_space(s.get_char(k - 1))
        invariant
            n == s@.len(),
            k <= j <= n,
            forall|q: int| k <= q < j ==> !is_space_char(s@[q]),
        decreases k,
    {
        k -= 1;
    }
    proof {
        lemma_token_start(s@, j as int);
        let ts = spec_token_start(s@, j as int);
        assert(k == ts) by {
            if k < ts {
                assert(!is_space_char(s@[ts - 1]));
                assert(is_space_char(s@[ts - 1]));
            } else if ts < k {
                assert(!is_space_char(s@[k - 1]));
                assert(ts <= k - 1 < j);
                assert(is_space_char(s@[k - 1]));
            }
        }
    }
    s.substring_char(k, j)
}

/// The synthesized sample value for one argument's type word.
pub open spec fn spec_g_param_value(t: Seq<char>, idx: int) -> Seq<char> {
    if t == "int"@ || t == "i8"@ || t == "i16"@ || t == "i32"@ || t == "i64"@ || t == "u8"@ || t
        == "u16"@ || t == "u32"@ || t == "u64"@ {
        crate::strutil::spec_decimal(idx + 1)
    } else if t == "f32"@ || t == "f64"@ {
        crate::strutil::spec_decimal(idx + 1) + ".0"@
    } else if t == "bool"@ {
        "true"@
    } else if t == "string"@ {
        "'test'"@
    } else if spec_starts_with(t, "[]"@) {
        "[]"@
    } else if spec_starts_with(t, "?"@) {
        "none"@
    } else {
        "/* needs a value of type "@ + t + " */"@
    }
}

/// The sample argument expressions for an argument list, in order; the value
/// for argument `i` uses its last type word and the one-based position.
pub open spec fn spec_call_params(args: Seq<Seq<char>>, idx: int) -> Seq<Seq<char>>
    decreases args.len(),
{
    if args.len() == 0 {
        Seq::empty()
    } else {
        seq![spec_g_param_value(spec_last_token(args[0]), idx)] + spec_call_params(
            args.subrange(1, args.len() as int),
            idx + 1,
        )
    }
}

/// The act line's call text: through a receiver instance for methods.
pub open spec fn spec_function_call(f: GFnModel) -> Seq<char> {
    let ps = spec_join(spec_call_params(f.args, 0), ", "@);
    if f.receiver is Some {
        "instance."@ + f.name + "("@ + ps + ")"@
    } else {
        f.name + "("@ + ps + ")"@
    }
}

/// The arrange comment block: an instance note for methods.
pub open spec fn spec_test_setup(f: GFnModel) -> Seq<char> {
    if f.receiver is Some {
        "    // Initialize "@ + f.receiver->0 + " instance\n    // let instance = "@
            + f.receiver->0 + "{ }"@
    } else {
        "    // Set up test data"@
    }
}

/// The assertion line for a scanned return type.
pub open spec fn spec_smart_assertion(rt: Option<Seq<char>>) -> Seq<char> {
    match rt {
        None => "    // Function returns nothing"@,
        Some(t0) => {
            let t = spec_trim(t0);
            if t.len() == 0 {
                "    // Function returns nothing"@
            } else if t == "int"@ || t == "i8"@ || t == "i16"@ || t == "i32"@ || t == "i64"@ || t
                == "u8"@ || t == "u16"@ || t == "u32"@ || t == "u64"@ {
                "    assert result == 0 // replace with the expected value"@
            } else if t == "bool"@ {
                "    assert result == true // verify the expected boolean"@
            } else if t == "string"@ {
                "    assert result.len > 0 // verify the string content"@
            } else if t == "f32"@ || t == "f64"@ {
                "    assert result >= 0.0 // verify the float value"@
            } else if spec_starts_with(t, "[]"@) {
                "    assert result.len >= 0 // verify the array content"@
            } else if spec_starts_with(t, "?"@) {
                "    assert result != none // verify the optional value"@
            } else {
                "    assert true // add an assertion for type: "@ + t
            }
        },
    }
}

/// The whole rendered test stub for one scanned function.
pub open spec fn spec_g_test(f: GFnModel) -> Seq<char> {
    let tn: Seq<char> = if f.receiver is Some {
        "test_"@ + spec_to_lower(f.receiver->0) + "_"@ + f.name
    } else {
        "test_"@ + f.name
    };
    "fn "@ + tn + "() {\n"@ + spec_test_setup(f) + "\n    let result = "@ + spec_function_call(f)
        + "\n"@ + spec_smart_assertion(f.return_type) + "\n}\n"@
}

/// Scans V-language sources and renders test stubs with per-type values and
/// assertions.
pub struct VParser;

impl VParser {
    /// The receiver group at `q2`, as the type text plus the position after.
    fn receiver_at(s: &str, q2: usize) -> (r: Option<(String, usize)>)
        requires
            q2 <= s@.len(),
        ensures
            match r {
                Some(t) => spec_receiver_at(s@, q2 as int) == Some((t.0@, t.1 as int)),
                None => spec_receiver_at(s@, q2 as int) is None,
            },
    {
        let n = s.unicode_len();
        if !(q2 < n && s.get_char(q2) == '(') {
            return None;
        }
        let r1 = word_run_end(s, q2 + 1);
        proof {
            lemma_word_run_end(s@, q2 + 1);
        }
        if r1 <= q2 + 1 {
            return None;
        }
        let r2 = space_run_end(s, r1);
        proof {
            lemma_space_run_end(s@, r1 as int);
        }
        if r2 <= r1 {
            return None;
        }
        let r3 = word_run_end(s, r2);
        proof {
            lemma_word_run_end(s@, r2 as int);
        }
        if r3 <= r2 {
            return None;
        }
        if !(r3 < n && s.get_char(r3) == ')') {
            return None;
        }
        let r5 = space_run_end(s, r3 + 1);
        proof {
            lemma_space_run_end(s@, r3 + 1);
        }
        if r5 <= r3 + 1 {
            return None;
        }
        Some((String::from_str(s.substring_char(r2, r3)), r5))
    }

    /// The signature tail from the name position on.
    fn sig_tail_at(s: &str, start: usize) -> (r: Option<(String, String, String, usize)>)
        requires
            start <= s@.len(),
        ensures
            match r {
                Some(t) => spec_sig_tail_at(s@, start as int) == Some(
                    (t.0@, t.1@, t.2@, t.3 as int),
                ),
                None => spec_sig_tail_at(s@, start as int) is None,
            },
    {
        let n = s.unicode_len();
        let n1 = word_run_end(s, start);
        proof {
            lemma_word_run_end(s@, start as int);
        }
        if n1 <= start {
            return None;
        }
        let n2 = space_run_end(s, n1);
        proof {
            lemma_space_run_end(s@, n1 as int);
        }
        if !(n2 < n && s.get_char(n2) == '(') {
            return None;
        }
        let close = match find_close(s, n2 + 1) {
            Some(c) => c,
            None => {
                return None;
            },
        };
        proof {
            lemma_find_close(s@, n2 + 1);
        }
        let g1 = space_run_end(s, close + 1);
        proof {
            lemma_space_run_end(s@, close + 1);
        }
        let g2 = gret_run_end(s, g1);
        proof {
            lemma_gret_run_end(s@, g1 as int);
        }
        Some(
            (
                String::from_str(s.substring_char(start, n1)),
                String::from_str(s.substring_char(n2 + 1, close)),
                String::from_str(s.substring_char(g1, g2)),
                g2,
            ),
        )
    }

    /// Whether a `pub` marker followed by whitespace stands at `p`.
    fn has_pub(s: &str, p: usize) -> (r: bool)
        requires
            p <= s@.len(),
        ensures
            r == spec_has_pub(s@, p as int),
    {
        let n = s.unicode_len();
        if p >= n || n - p < 4 {
            return false;
        }
        s.get_char(p) == 'p' && s.get_char(p + 1) == 'u' && s.get_char(p + 2) == 'b' && is_space(
            s.get_char(p + 3),
        )
    }

    /// The signature match at `p`, with all captures as owned strings.
    fn g_match_at(s: &str, p: usize) -> (r: Option<FunctionInfo_Match>)
        requires
            p <= s@.len(),
        ensures
            match r {
                Some(t) => spec_g_match_at(s@, p as int) == Some(t@),
                None => spec_g_match_at(s@, p as int) is None,
            },
    {
        let n = s.unicode_len();
        let has_pub = Self::has_pub(s, p);
        let q: usize = if has_pub {
            let e = space_run_end(s, p + 3);
            proof {
                lemma_space_run_end(s@, p + 3);
            }
            e
        } else {
            p
        };
        if q >= n || n - q < 3 {
            return None;
        }
        if !(s.get_char(q) == 'f' && s.get_char(q + 1) == 'n' && is_space(s.get_char(q + 2))) {
            return None;
        }
        let q2 = space_run_end(s, q + 2);
        proof {
            lemma_space_run_end(s@, q + 2);
        }
        match Self::receiver_at(s, q2) {
            Some(rv) => {
                proof {
                    lemma_receiver_at_bounds(s@, q2 as int);
                }
                match Self::sig_tail_at(s, rv.1) {
                    Some(t) => Some(
                        FunctionInfo_Match {
                            is_public: has_pub,
                            receiver: Some(rv.0),
                            name: t.0,
                            args_src: t.1,
                            ret_src: t.2,
                            end: t.3,
                        },
                    ),
                    None => None,
                }
            },
            None => {
                match Self::sig_tail_at(s, q2) {
                    Some(t) => Some(
                        FunctionInfo_Match {
                            is_public: has_pub,
                            receiver: None,
                            name: t.0,
                            args_src: t.1,
                            ret_src: t.2,
                            end: t.3,
                        },
                    ),
                    None => None,
                }
            },
        }
    }

    /// Scan a source text for function signatures, methods included.
    pub fn parse_function_signatures(content: &str) -> (r: Vec<FunctionInfo>)
        ensures
            g_fns_view(r@) == spec_parse_g(content@),
    {
        let n = content.unicode_len();
        let mut out: Vec<FunctionInfo> = Vec::new();
        let mut p: usize = 0;
        proof {
            assert(g_fns_view(out@) + spec_g_scan(content@, 0).map_values(
                |m: GMatchModel| spec_g_fn(m),
            ) =~= spec_parse_g(content@));
        }
        while p < n
            invariant
                n == content@.len(),
                p <= n,
                g_fns_view(out@) + spec_g_scan(content@, p as int).map_values(
                    |m: GMatchModel| spec_g_fn(m),
                ) == spec_parse_g(content@),
            decreases n - p,
        {
            let at_line_start: bool = p == 0 || content.get_char(p - 1) == '\n';
            if at_line_start {
                match Self::g_match_at(content, p) {
                    Some(t) => {
                        let ghost m = t@;
                        proof {
                            lemma_g_match_at_bounds(content@, p as int);
                        }
                        let pieces = split_char(t.args_src.as_str(), ',');
                        let args = crate::strutil::trim_filter_nonempty(&pieces, true);
                        let ret_trimmed = trim(t.ret_src.as_str());
                        let return_type: Option<String> = if ret_trimmed.unicode_len() == 0 {
                            None
                        } else {
                            Some(String::from_str(ret_trimmed))
                        };
                        let end = t.end;
                        let f = FunctionInfo {
                            name: t.name,
                            args,
                            return_type,
                            is_public: t.is_public,
                            receiver: t.receiver,
                        };
                        proof {
                            assert(crate::analyzer::strings_view(f.args@) =~= spec_g_fn(m).args);
                            assert(f@ =~= spec_g_fn(m));
                        }
                        let ghost prev = out@;
                        out.push(f);
                        proof {
                            let mapper = |mm: GMatchModel| spec_g_fn(mm);
                            assert(g_fns_view(out@) =~= g_fns_view(prev).push(spec_g_fn(m)));
                            assert(spec_g_scan(content@, p as int) == seq![m] + spec_g_scan(
                                content@,
                                m.end,
                            ));
                            assert(spec_g_scan(content@, p as int).map_values(mapper)
                                =~= seq![spec_g_fn(m)] + spec_g_scan(content@, m.end).map_values(
                                mapper,
                            ));
                            assert(g_fns_view(out@) + spec_g_scan(content@, m.end).map_values(
                                mapper,
                            ) =~= spec_parse_g(content@));
                        }
                        p = end;
                    },
                    None => {
                        p += 1;
                    },
                }
            } else {
                p += 1;
            }
        }
        proof {
            assert(spec_g_scan(content@, p as int) =~= Seq::<GMatchModel>::empty());
            assert(spec_g_scan(content@, p as int).map_values(|m: GMatchModel| spec_g_fn(m))
                =~= Seq::<GFnModel>::empty());
            assert(g_fns_view(out@) + Seq::<GFnModel>::empty() =~= g_fns_view(out@));
        }
        out
    }

    /// The field lines kept from a struct body.
    fn field_lines(body: &str) -> (r: Vec<String>)
        ensures
            crate::analyzer::strings_view(r@) == spec_field_filter(
                spec_split(body@, '\n').map_values(|line: Seq<char>| spec_trim(line)),
            ),
    {
        let parts = split_char(body, '\n');
        let ghost mapped = spec_split(body@, '\n').map_values(|line: Seq<char>| spec_trim(line));
        let mut out: Vec<String> = Vec::new();
        let mut i: usize = 0;
        proof {
            assert(mapped.subrange(0, mapped.len() as int) =~= mapped);
            assert(crate::analyzer::strings_view(out@) + spec_field_filter(mapped)
                =~= spec_field_filter(mapped));
        }
        while i < parts.len()
            invariant
                mapped == spec_split(body@, '\n').map_values(|line: Seq<char>| spec_trim(line)),
                parts.deep_view() == spec_split(body@, '\n'),
                mapped.len() == parts@.len(),
                i <= parts@.len(),
                crate::analyzer::strings_view(out@) + spec_field_filter(
                    mapped.subrange(i as int, mapped.len() as int),
                ) == spec_field_filter(mapped),
            decreases parts@.len() - i,
        {
            let ghost rest = mapped.subrange(i as int, mapped.len() as int);
            proof {
                assert(rest[0] == mapped[i as int]);
                assert(rest.subrange(1, rest.len() as int) =~= mapped.subrange(
                    i + 1,
                    mapped.len() as int,
                ));
                assert(parts.deep_view()[i as int] == parts@[i as int]@);
            }
            let t = trim(parts[i].as_str());
            if t.unicode_len() > 0 && !starts_with(t, "//") {
                let ghost prev = out@;
                out.push(String::from_str(t));
                proof {
                    assert(crate::analyzer::strings_view(out@)
                        =~= crate::analyzer::strings_view(prev).push(mapped[i as int]));
                    assert(crate::analyzer::strings_view(out@) + spec_field_filter(
                        mapped.subrange(i + 1, mapped.len() as int),
                    ) =~= spec_field_filter(mapped));
                }
            }
            i += 1;
        }
        proof {
            assert(mapped.subrange(mapped.len() as int, mapped.len() as int)
                =~= Seq::<Seq<char>>::empty());
            assert(crate::analyzer::strings_view(out@) + Seq::<Seq<char>>::empty()
                =~= crate::analyzer::strings_view(out@));
        }
        out
    }

    /// The struct match at `p`, with its captures as owned strings.
    fn struct_match_at(s: &str, p: usize) -> (r: Option<(String, String, usize)>)
        requires
            p <= s@.len(),
        ensures
            match r {
                Some(t) => spec_struct_match_at(s@, p as int) == Some(
                    GStructMatchModel { name: t.0@, body_src: t.1@, end: t.2 as int },
                ),
                None => spec_struct_match_at(s@, p as int) is None,
            },
    {
        let n = s.unicode_len();
        let has_pub = Self::has_pub(s, p);
        let q: usize = if has_pub {
            let e = space_run_end(s, p + 3);
            proof {
                lemma_space_run_end(s@, p + 3);
            }
            e
        } else {
            p
        };
        if q >= n || n - q < 7 {
            return None;
        }
        if !(s.get_char(q) == 's' && s.get_char(q + 1) == 't' && s.get_char(q + 2) == 'r'
            && s.get_char(q + 3) == 'u' && s.get_char(q + 4) == 'c' && s.get_char(q + 5) == 't'
            && is_space(s.get_char(q + 6))) {
            return None;
        }
        let w = space_run_end(s, q + 6);
        proof {
            lemma_space_run_end(s@, q + 6);
        }
        let n1 = word_run_end(s, w);
        proof {
            lemma_word_run_end(s@, w as int);
        }
        if n1 <= w {
            return None;
        }
        let n2 = space_run_end(s, n1);
        proof {
            lemma_space_run_end(s@, n1 as int);
        }
        if !(n2 < n && s.get_char(n2) == '{') {
            return None;
        }
        let b = match find_brace(s, n2 + 1) {
            Some(b) => b,
            None => {
                return None;
            },
        };
        proof {
            lemma_find_brace(s@, n2 + 1);
        }
        Some(
            (
                String::from_str(s.substring_char(w, n1)),
                String::from_str(s.substring_char(n2 + 1, b)),
                b + 1,
            ),
        )
    }

    /// Scan a source text for struct declarations.
    pub fn parse_structs(content: &str) -> (r: Vec<StructInfo>)
        ensures
            g_structs_view(r@) == spec_parse_structs(content@),
    {
        let n = content.unicode_len();
        let mut out: Vec<StructInfo> = Vec::new();
        let mut p: usize = 0;
        proof {
            assert(g_structs_view(out@) + spec_struct_scan(content@, 0).map_values(
                |m: GStructMatchModel| spec_g_struct(m),
            ) =~= spec_parse_structs(content@));
        }
        while p < n
            invariant
                n == content@.len(),
                p <= n,
                g_structs_view(out@) + spec_struct_scan(content@, p as int).map_values(
                    |m: GStructMatchModel| spec_g_struct(m),
                ) == spec_parse_structs(content@),
            decreases n - p,
        {
            let at_line_start: bool = p == 0 || content.get_char(p - 1) == '\n';
            if at_line_start {
                match Self::struct_match_at(content, p) {
                    Some(t) => {
                        let ghost m = GStructMatchModel {
                            name: t.0@,
                            body_src: t.1@,
                            end: t.2 as int,
                        };
                        proof {
                            lemma_struct_match_at_bounds(content@, p as int);
                        }
                        let fields = Self::field_lines(t.1.as_str());
                        let si = StructInfo { name: t.0, fields };
                        proof {
                            assert(si@ =~= spec_g_struct(m));
                        }
                        let ghost prev = out@;
                        out.push(si);
                        proof {
                            let mapper = |mm: GStructMatchModel| spec_g_struct(mm);
                            assert(g_structs_view(out@) =~= g_structs_view(prev).push(
                                spec_g_struct(m),
                            ));
                            assert(spec_struct_scan(content@, p as int) == seq![m]
                                + spec_struct_scan(content@, m.end));
                            assert(spec_struct_scan(content@, p as int).map_values(mapper)
                                =~= seq![spec_g_struct(m)] + spec_struct_scan(
                                content@,
                                m.end,
                            ).map_values(mapper));
                            assert(g_structs_view(out@) + spec_struct_scan(
                                content@,
                                m.end,
                            ).map_values(mapper) =~= spec_parse_structs(content@));
                        }
                        p = t.2;
                    },
                    None => {
                        p += 1;
                    },
                }
            } else {
                p += 1;
            }
        }
        proof {
            assert(spec_struct_scan(content@, p as int) =~= Seq::<GStructMatchModel>::empty());
            assert(spec_struct_scan(content@, p as int).map_values(
                |m: GStructMatchModel| spec_g_struct(m),
            ) =~= Seq::<GStructModel>::empty());
            assert(g_structs_view(out@) + Seq::<GStructModel>::empty() =~= g_structs_view(out@));
        }
        out
    }

    /// Synthesize a sample value for one argument's type word.
    pub fn generate_param_value(type_hint: &str, index: usize) -> (r: String)
        requires
            index < usize::MAX,
        ensures
            r@ == spec_g_param_value(type_hint@, index as int),
    {
        if str_eq(type_hint, "int") || str_eq(type_hint, "i8") || str_eq(type_hint, "i16")
            || str_eq(type_hint, "i32") || str_eq(type_hint, "i64") || str_eq(type_hint, "u8")
            || str_eq(type_hint, "u16") || str_eq(type_hint, "u32") || str_eq(type_hint, "u64") {
            return usize_to_string(index + 1);
        }
        if str_eq(type_hint, "f32") || str_eq(type_hint, "f64") {
            let num = usize_to_string(index + 1);
            return concat2(num.as_str(), ".0");
        }
        if str_eq(type_hint, "bool") {
            return String::from_str("true");
        }
        if str_eq(type_hint, "string") {
            return String::from_str("'test'");
        }
        if starts_with(type_hint, "[]") {
            return String::from_str("[]");
        }
        if starts_with(type_hint, "?") {
            return String::from_str("none");
        }
        concat3("/* needs a value of type ", type_hint, " */")
    }

    /// Render the act line's call: sample arguments, through an instance for
    /// methods.
    pub fn generate_function_call(func: &FunctionInfo) -> (r: String)
        requires
            func.args@.len() < usize::MAX,
        ensures
            r@ == spec_function_call(func@),
    {
        let ghost av = crate::analyzer::strings_view(func.args@);
        let mut params: Vec<String> = Vec::new();
        let mut i: usize = 0;
        proof {
            assert(av.subrange(0, av.len() as int) =~= av);
            assert(crate::analyzer::strings_view(params@) + spec_call_params(av, 0)
                =~= spec_call_params(av, 0));
        }
        while i < func.args.len()
            invariant
                av == crate::analyzer::strings_view(func.args@),
                av.len() == func.args@.len(),
                av.len() < usize::MAX,
                i <= av.len(),
                crate::analyzer::strings_view(params@) + spec_call_params(
                    av.subrange(i as int, av.len() as int),
                    i as int,
                ) == spec_call_params(av, 0),
            decreases av.len() - i,
        {
            let ghost rest = av.subrange(i as int, av.len() as int);
            proof {
                assert(rest[0] == av[i as int]);
                assert(rest.subrange(1, rest.len() as int) =~= av.subrange(
                    i + 1,
                    av.len() as int,
                ));
                assert(av[i as int] == func.args@[i as int]@);
            }
            let hint = last_token(func.args[i].as_str());
            let value = Self::generate_param_value(hint, i);
            let ghost prev = params@;
            params.push(value);
            proof {
                assert(crate::analyzer::strings_view(params@)
                    =~= crate::analyzer::strings_view(prev).push(
                    spec_g_param_value(spec_last_token(av[i as int]), i as int),
                ));
                assert(crate::analyzer::strings_view(params@) + spec_call_params(
                    av.subrange(i + 1, av.len() as int),
                    i + 1,
                ) =~= spec_call_params(av, 0));
            }
            i += 1;
        }
        proof {
            assert(av.subrange(av.len() as int, av.len() as int) =~= Seq::<Seq<char>>::empty());
            assert(crate::analyzer::strings_view(params@) + Seq::<Seq<char>>::empty()
                =~= crate::analyzer::strings_view(params@));
        }
        let ps = join_strings(&params, ", ");
        proof {
            assert(params.deep_view() =~= crate::analyzer::strings_view(params@));
            assert(spec_join(params.deep_view(), ", "@) == spec_join(
                crate::analyzer::strings_view(params@),
                ", "@,
            ));
            assert(ps@ == spec_join(spec_call_params(av, 0), ", "@));
            assert(func@.args == av);
        }
        match &func.receiver {
            Some(_) => {
                let mut outs = String::from_str("instance.");
                outs.append(func.name.as_str());
                outs.append("(");
                outs.append(ps.as_str());
                outs.append(")");
                proof {
                    assert(outs@ =~= "instance."@ + func@.name + "("@ + spec_join(
                        spec_call_params(func@.args, 0),
                        ", "@,
                    ) + ")"@);
                }
                outs
            },
            None => {
                let mut outs = String::new();
                outs.append(func.name.as_str());
                outs.append("(");
                outs.append(ps.as_str());
                outs.append(")");
                proof {
                    assert(outs@ =~= func@.name + "("@ + spec_join(
                        spec_call_params(func@.args, 0),
                        ", "@,
                    ) + ")"@);
                }
                outs
            },
        }
    }

    /// Render the arrange comment block for one scanned function.
    pub fn generate_test_setup(func: &FunctionInfo) -> (r: String)
        ensures
            r@ == spec_test_setup(func@),
    {
        match &func.receiver {
            Some(receiver) => {
                let mut outs = String::from_str("    // Initialize ");
                outs.append(receiver.as_str());
                outs.append(" instance\n    // let instance = ");
                outs.append(receiver.as_str());
                outs.append("{ }");
                outs
            },
            None => String::from_str("    // Set up test data"),
        }
    }

    /// Render the assertion line for one scanned return type.
    pub fn generate_smart_assertion(return_type: &Option<String>) -> (r: String)
        ensures
            r@ == spec_smart_assertion(
                match return_type {
                    Some(t) => Some(t@),
                    None => None,
                },
            ),
    {
        match return_type {
            None => String::from_str("    // Function returns nothing"),
            Some(t0) => {
                let t = trim(t0.as_str());
                if t.unicode_len() == 0 {
                    return String::from_str("    // Function returns nothing");
                }
                if str_eq(t, "int") || str_eq(t, "i8") || str_eq(t, "i16") || str_eq(t, "i32")
                    || str_eq(t, "i64") || str_eq(t, "u8") || str_eq(t, "u16") || str_eq(t, "u32")
                    || str_eq(t, "u64") {
                    return String::from_str(
                        "    assert result == 0 // replace with the expected value",
                    );
                }
                if str_eq(t, "bool") {
                    return String::from_str(
                        "    assert result == true // verify the expected boolean",
                    );
                }
                if str_eq(t, "string") {
                    return String::from_str(
                        "    assert result.len > 0 // verify the string content",
                    );
                }
                if str_eq(t, "f32") || str_eq(t, "f64") {
                    return String::from_str(
                        "    assert result >= 0.0 // verify the float value",
                    );
                }
                if starts_with(t, "[]") {
                    return String::from_str(
                        "    assert result.len >= 0 // verify the array content",
                    );
                }
                if starts_with(t, "?") {
                    return String::from_str(
                        "    assert result != none // verify the optional value",
                    );
                }
                concat2("    assert true // add an assertion for type: ", t)
            },
        }
    }

    /// Render the whole test stub for one scanned function: a name derived
    /// from the receiver and function name, the arrange block, the act line
    /// and the per-type assertion.
    pub fn generate_test(func: &FunctionInfo) -> (r: String)
        requires
            func.args@.len() < usize::MAX,
        ensures
            r@ == spec_g_test(func@),
    {
        let tn: String = match &func.receiver {
            Some(receiver) => {
                let lower = to_ascii_lower(receiver.as_str());
                let mut t = String::from_str("test_");
                t.append(lower.as_str());
                t.append("_");
                t.append(func.name.as_str());
                t
            },
            None => {
                let mut t = String::from_str("test_");
                t.append(func.name.as_str());
                t
            },
        };
        let setup = Self::generate_test_setup(func);
        let call = Self::generate_function_call(func);
        let assertion = Self::generate_smart_assertion(&func.return_type);
        let mut outs = String::from_str("fn ");
        outs.append(tn.as_str());
        outs.append("() {\n");
        outs.append(setup.as_str());
        outs.append("\n    let result = ");
        outs.append(call.as_str());
        outs.append("\n");
        outs.append(assertion.as_str());
        outs.append("\n}\n");
        outs
    }
}

/// One raw signature match carried between the scanner's stages.
pub struct FunctionInfo_Match {
    pub is_public: bool,
    pub receiver: Option<String>,
    pub name: String,
    pub args_src: String,
    pub ret_src: String,
    pub end: usize,
}

impl View for FunctionInfo_Match {
    type V = GMatchModel;

    open spec fn view(&self) -> GMatchModel {
        GMatchModel {
            is_public: self.is_public,
            receiver: match self.receiver {
                Some(ref t) => Some(t@),
                None => None,
            },
            name: self.name@,
            args_src: self.args_src@,
            ret_src: self.ret_src@,
            end: self.end as int,
        }
    }
}

} // verus!
