//! Signature scanning and test generation for V-language sources.
//!
//! The signature grammar is scanned directly: at each position the scanner
//! tries to read `fn`, whitespace, a word name, optional whitespace, a
//! parenthesized argument text confined to one line, then whitespace and a
//! run of return-type characters (words, whitespace, brackets, `&`). Matches
//! are taken leftmost and never overlap; the character classes are the ASCII
//! ones.

use vstd::prelude::*;
use vstd::string::StrSliceExecFns;
use vstd::string::StringExecFns;

use crate::strutil::find_close;
use crate::strutil::is_space;
use crate::strutil::is_space_char;
use crate::strutil::is_word;
use crate::strutil::is_word_char;
use crate::strutil::lemma_find_close;
use crate::strutil::lemma_space_run_end;
use crate::strutil::lemma_word_run_end;
use crate::strutil::space_run_end;
use crate::strutil::spec_filter_nonempty;
use crate::strutil::spec_find_close;
use crate::strutil::spec_space_run_end;
use crate::strutil::spec_split;
use crate::strutil::spec_trim;
use crate::strutil::spec_word_run_end;
use crate::strutil::split_char;
use crate::strutil::trim;
use crate::strutil::trim_filter_nonempty;
use crate::strutil::word_run_end;

verus! {

/// A return-type character of this grammar: word, whitespace, bracket or `&`.
pub open spec fn is_ret_char(c: char) -> bool {
    is_word_char(c) || is_space_char(c) || c == '[' || c == ']' || c == '&'
}

fn is_ret(c: char) -> (r: bool)
    ensures
        r == is_ret_char(c),
{
    is_word(c) || is_space(c) || c == '[' || c == ']' || c == '&'
}

/// End of the maximal run of return-type characters starting at `i`.
pub open spec fn spec_ret_run_end(s: Seq<char>, i: int) -> int
    decreases s.len() - i,
{
    if 0 <= i < s.len() && is_ret_char(s[i]) {
        spec_ret_run_end(s, i + 1)
    } else {
        i
    }
}

pub proof fn lemma_ret_run_end(s: Seq<char>, i: int)
    requires
        0 <= i <= s.len(),
    ensures
        i <= spec_ret_run_end(s, i) <= s.len(),
    decreases s.len() - i,
{
    if 0 <= i < s.len() && is_ret_char(s[i]) {
        lemma_ret_run_end(s, i + 1);
    }
}

fn ret_run_end(s: &str, i: usize) -> (r: usize)
    requires
        i <= s@.len(),
    ensures
        r == spec_ret_run_end(s@, i as int),
{
    let n = s.unicode_len();
    let mut j: usize = i;
    while j < n && is_ret(s.get_char(j))
        invariant
            n == s@.len(),
            i <= j <= n,
            spec_ret_run_end(s@, i as int) == spec_ret_run_end(s@, j as int),
        decreases n - j,
    {
        j += 1;
    }
    j
}

/// One raw signature match: the name text, the raw argument text between the
/// parentheses, the raw return-type text, and the scan position after it.
#[verifier::ext_equal]
pub struct VMatchModel {
    pub name: Seq<char>,
    pub args_src: Seq<char>,
    pub ret_src: Seq<char>,
    pub end: int,
}

/// The signature match starting exactly at position `p`, if any.
pub open spec fn spec_v_match_at(s: Seq<char>, p: int) -> Option<VMatchModel> {
    if !(0 <= p && p + 2 <= s.len() && s[p] == 'f' && s[p + 1] == 'n') {
        None
    } else if !(p + 2 < s.len() && is_space_char(s[p + 2])) {
        None
    } else {
        let q2 = spec_space_run_end(s, p + 2);
        let q3 = spec_word_run_end(s, q2);
        if q3 <= q2 {
            None
        } else {
            let q4 = spec_space_run_end(s, q3);
            if !(q4 < s.len() && s[q4] == '(') {
                None
            } else {
                let close = spec_find_close(s, q4 + 1);
                if close < 0 {
                    None
                } else {
                    let q6 = spec_space_run_end(s, close + 1);
                    let q7 = spec_ret_run_end(s, q6);
                    Some(
                        VMatchModel {
                            name: s.subrange(q2, q3),
                            args_src: s.subrange(q4 + 1, close),
                            ret_src: s.subrange(q6, q7),
                            end: q7,
                        },
                    )
                }
            }
        }
    }
}

pub proof fn lemma_v_match_at_bounds(s: Seq<char>, p: int)
    requires
        spec_v_match_at(s, p) is Some,
    ensures
        p < spec_v_match_at(s, p)->0.end <= s.len(),
{
    lemma_space_run_end(s, p + 2);
    let q2 = spec_space_run_end(s, p + 2);
    lemma_word_run_end(s, q2);
    let q3 = spec_word_run_end(s, q2);
    lemma_space_run_end(s, q3);
    let q4 = spec_space_run_end(s, q3);
    lemma_find_close(s, q4 + 1);
    let close = spec_find_close(s, q4 + 1);
    lemma_space_run_end(s, close + 1);
    let q6 = spec_space_run_end(s, close + 1);
    lemma_ret_run_end(s, q6);
}

/// All signature matches of `s` from position `p` on, leftmost first and
/// non-overlapping.
pub open spec fn spec_v_scan(s: Seq<char>, p: int) -> Seq<VMatchModel>
    decreases s.len() - p,
    when 0 <= p
    via spec_v_scan_decreases
{
    if p >= s.len() {
        Seq::empty()
    } else {
        match spec_v_match_at(s, p) {
            Some(m) => seq![m] + spec_v_scan(s, m.end),
            None => spec_v_scan(s, p + 1),
        }
    }
}

#[via_fn]
proof fn spec_v_scan_decreases(s: Seq<char>, p: int) {
    if p < s.len() && spec_v_match_at(s, p) is Some {
        lemma_v_match_at_bounds(s, p);
    }
}

/// Mathematical view of one scanned function signature.
#[verifier::ext_equal]
pub struct VFnModel {
    pub name: Seq<char>,
    pub args: Seq<Seq<char>>,
    pub return_type: Option<Seq<char>>,
}

/// The argument texts: the comma-separated pieces, trimmed, empties dropped.
pub open spec fn spec_v_args(args_src: Seq<char>) -> Seq<Seq<char>> {
    spec_filter_nonempty(spec_split(args_src, ',').map_values(|piece: Seq<char>| spec_trim(piece)))
}

/// The return type: the trimmed text, or nothing when it is empty.
pub open spec fn spec_v_ret(ret_src: Seq<char>) -> Option<Seq<char>> {
    if spec_trim(ret_src).len() == 0 {
        None
    } else {
        Some(spec_trim(ret_src))
    }
}

/// The function record of one raw match.
pub open spec fn spec_v_fn(m: VMatchModel) -> VFnModel {
    VFnModel { name: m.name, args: spec_v_args(m.args_src), return_type: spec_v_ret(m.ret_src) }
}

/// The function records scanned from a whole source text.
pub open spec fn spec_parse_v(s: Seq<char>) -> Seq<VFnModel> {
    spec_v_scan(s, 0).map_values(|m: VMatchModel| spec_v_fn(m))
}

/// One function signature scanned from a V source text.
#[derive(Debug)]
pub struct FunctionInfo {
    /// The function name.
    pub name: String,
    /// The raw argument texts, one per comma-separated argument.
    pub args: Vec<String>,
    /// The trimmed return-type text, when one was written.
    pub return_type: Option<String>,
}

impl View for FunctionInfo {
    type V = VFnModel;

    open spec fn view(&self) -> VFnModel {
        VFnModel {
            name: self.name@,
            args: crate::analyzer::strings_view(self.args@),
            return_type: match self.return_type {
                Some(ref t) => Some(t@),
                None => None,
            },
        }
    }
}

pub open spec fn v_fns_view(v: Seq<FunctionInfo>) -> Seq<VFnModel> {
    v.map_values(|f: FunctionInfo| f@)
}

/// Scans V-language sources and renders test stubs for them.
pub struct VParser;

impl VParser {
    /// The match at position `p`, as owned strings plus the end position.
    fn match_at(s: &str, p: usize) -> (r: Option<(String, String, String, usize)>)
        requires
            p <= s@.len(),
        ensures
            match r {
                Some(t) => spec_v_match_at(s@, p as int) == Some(
                    VMatchModel { name: t.0@, args_src: t.1@, ret_src: t.2@, end: t.3 as int },
                ),
                None => spec_v_match_at(s@, p as int) is None,
            },
    {
        let n = s.unicode_len();
        if p >= n || n - p < 3 {
            return None;
        }
        if !(s.get_char(p) == 'f' && s.get_char(p + 1) == 'n' && is_space(s.get_char(p + 2))) {
            return None;
        }
        let q2 = space_run_end(s, p + 2);
        proof {
            lemma_space_run_end(s@, p + 2);
        }
        let q3 = word_run_end(s, q2);
        proof {
            lemma_word_run_end(s@, q2 as int);
        }
        if q3 <= q2 {
            return None;
        }
        let q4 = space_run_end(s, q3);
        proof {
            lemma_space_run_end(s@, q3 as int);
        }
        if !(q4 < n && s.get_char(q4) == '(') {
            return None;
        }
        let close = match find_close(s, q4 + 1) {
            Some(c) => c,
            None => {
                return None;
            },
        };
        proof {
            lemma_find_close(s@, q4 + 1);
        }
        let q6 = space_run_end(s, close + 1);
        proof {
            lemma_space_run_end(s@, close + 1);
        }
        let q7 = ret_run_end(s, q6);
        proof {
            lemma_ret_run_end(s@, q6 as int);
        }
        let name = String::from_str(s.substring_char(q2, q3));
        let args_src = String::from_str(s.substring_char(q4 + 1, close));
        let ret_src = String::from_str(s.substring_char(q6, q7));
        Some((name, args_src, ret_src, q7))
    }

    /// Scan a source text for function signatures: name, argument texts and
    /// return type of every match, leftmost first and non-overlapping.
    pub fn parse_function_signatures(content: &str) -> (r: Vec<FunctionInfo>)
        ensures
            v_fns_view(r@) == spec_parse_v(content@),
    {
        let n = content.unicode_len();
        let mut out: Vec<FunctionInfo> = Vec::new();
        let mut p: usize = 0;
        proof {
            assert(v_fns_view(out@) + spec_v_scan(content@, 0).map_values(
                |m: VMatchModel| spec_v_fn(m),
            ) =~= spec_parse_v(content@));
        }
        while p < n
            invariant
                n == content@.len(),
                p <= n,
                v_fns_view(out@) + spec_v_scan(content@, p as int).map_values(
                    |m: VMatchModel| spec_v_fn(m),
                ) == spec_parse_v(content@),
            decreases n - p,
        {
            match Self::match_at(content, p) {
                Some(t) => {
                    let ghost m = VMatchModel {
                        name: t.0@,
                        args_src: t.1@,
                        ret_src: t.2@,
                        end: t.3 as int,
                    };
                    proof {
                        lemma_v_match_at_bounds(content@, p as int);
                    }
                    let pieces = split_char(t.1.as_str(), ',');
                    let args = trim_filter_nonempty(&pieces, true);
                    let ret_trimmed = trim(t.2.as_str());
                    let return_type: Option<String> = if ret_trimmed.unicode_len() == 0 {
                        None
                    } else {
                        Some(String::from_str(ret_trimmed))
                    };
                    let f = FunctionInfo { name: t.0, args, return_type };
                    proof {
                        assert(crate::analyzer::strings_view(f.args@) =~= spec_v_args(m.args_src));
                        assert(f@ =~= spec_v_fn(m));
                    }
                    let ghost prev = out@;
                    out.push(f);
                    proof {
                        let mapper = |mm: VMatchModel| spec_v_fn(mm);
                        assert(v_fns_view(out@) =~= v_fns_view(prev).push(spec_v_fn(m)));
                        assert(spec_v_scan(content@, p as int) == seq![m] + spec_v_scan(
                            content@,
                            m.end,
                        ));
                        assert(spec_v_scan(content@, p as int).map_values(mapper)
                            =~= seq![spec_v_fn(m)] + spec_v_scan(content@, m.end).map_values(
                            mapper,
                        ));
                        assert(v_fns_view(out@) + spec_v_scan(content@, m.end).map_values(mapper)
                            =~= spec_parse_v(content@));
                    }
                    p = t.3;
                },
                None => {
                    p += 1;
                },
            }
        }
        proof {
            assert(spec_v_scan(content@, p as int) =~= Seq::<VMatchModel>::empty());
            assert(spec_v_scan(content@, p as int).map_values(|m: VMatchModel| spec_v_fn(m))
                =~= Seq::<VFnModel>::empty());
            assert(v_fns_view(out@) + Seq::<VFnModel>::empty() =~= v_fns_view(out@));
        }
        out
    }

    /// Render a stub test for one scanned function: a named test that calls
    /// nothing yet and asserts trivially.
    pub fn generate_test(func: &FunctionInfo) -> (r: String)
        ensures
            r@ == spec_v_test(func@),
    {
        let mut out = String::from_str("fn test_");
        out.append(func.name.as_str());
        out.append("() {\n    // Implement test for ");
        out.append(func.name.as_str());
        out.append("\n    assert true\n}\n");
        out
    }
}

/// The rendered stub of one scanned function.
pub open spec fn spec_v_test(f: VFnModel) -> Seq<char> {
    "fn test_"@ + f.name + "() {\n    // Implement test for "@ + f.name
        + "\n    assert true\n}\n"@
}

/// The whole test-file body for a list of scanned functions: each function's
/// rendered stub followed by a blank line.
pub open spec fn spec_v_test_file_content(funcs: Seq<VFnModel>) -> Seq<char>
    decreases funcs.len(),
{
    if funcs.len() == 0 {
        Seq::empty()
    } else {
        spec_v_test(funcs[0]) + "\n"@ + spec_v_test_file_content(
            funcs.subrange(1, funcs.len() as int),
        )
    }
}

impl VParser {
    /// Assemble the full test-file text for a list of scanned functions:
    /// the module header, then each function's stub.
    pub fn build_test_file_content(funcs: &Vec<FunctionInfo>) -> (r: String)
        ensures
            r@ == "module main\n\n"@ + spec_v_test_file_content(v_fns_view(funcs@)),
    {
        let ghost fv = v_fns_view(funcs@);
        let mut out = String::from_str("module main\n\n");
        let mut i: usize = 0;
        proof {
            assert(fv.subrange(0, fv.len() as int) =~= fv);
        }
        while i < funcs.len()
            invariant
                fv == v_fns_view(funcs@),
                fv.len() == funcs@.len(),
                i <= fv.len(),
                out@ + spec_v_test_file_content(fv.subrange(i as int, fv.len() as int))
                    == "module main\n\n"@ + spec_v_test_file_content(fv),
            decreases fv.len() - i,
        {
            let ghost rest = fv.subrange(i as int, fv.len() as int);
            proof {
                assert(rest[0] == fv[i as int]);
                assert(rest.subrange(1, rest.len() as int) =~= fv.subrange(
                    i + 1,
                    fv.len() as int,
                ));
                assert(fv[i as int] == funcs@[i as int]@);
            }
            let t = Self::generate_test(&funcs[i]);
            out.append(t.as_str());
            out.append("\n");
            proof {
                assert(out@ + spec_v_test_file_content(fv.subrange(i + 1, fv.len() as int))
                    =~= "module main\n\n"@ + spec_v_test_file_content(fv));
            }
            i += 1;
        }
        proof {
            assert(spec_v_test_file_content(fv.subrange(fv.len() as int, fv.len() as int))
                =~= Seq::<char>::empty());
            assert(out@ + Seq::<char>::empty() =~= out@);
        }
        out
    }

    /// The test-file name beside a source file: its stem plus the test
    /// suffix.
    pub fn v_test_file_name(file_stem: &str) -> (r: String)
        ensures
            r@ == file_stem@ + "_test.v"@,
    {
        crate::strutil::concat2(file_stem, "_test.v")
    }
}

} // verus!
