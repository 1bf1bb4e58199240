//! Interpolation of shell-style variable references into strings.
//!
//! The three operations — interpolate, unescape, validate — run one shared
//! scanner ([`scan_str`]) whose behaviour is given by the single spec
//! automaton [`scan_from`], so the three can never disagree about the
//! grammar.

use vstd::prelude::*;
use vstd::string::StrSliceExecFns;
use vstd::string::StringExecFns;

use crate::environment::Environment;
use crate::environment::MemoryEnvironment;
use crate::errors::Error;
use crate::errors::ErrorModel;
use crate::grammar::braced_end;
use crate::grammar::escape_from;
use crate::grammar::escape_seq;
use crate::grammar::interp_out;
use crate::grammar::is_name_char;
use crate::grammar::is_name_start_char;
use crate::grammar::last_close_from;
use crate::grammar::lemma_last_close_from_found;
use crate::grammar::lemma_last_close_from_spec;
use crate::grammar::lemma_out_prepend_assoc;
use crate::grammar::lemma_scan_mode_shape;
use crate::grammar::lemma_unescape_env_irrelevant;
use crate::grammar::lemma_validate_env_irrelevant;
use crate::grammar::name_run_end;
use crate::grammar::out_prepend;
use crate::grammar::ref_colon;
use crate::grammar::ref_default;
use crate::grammar::ref_end;
use crate::grammar::ref_has_default;
use crate::grammar::ref_name;
use crate::grammar::ref_replacement;
use crate::grammar::scan_from;
use crate::grammar::spec_valid;
use crate::grammar::unescape_out;
use crate::grammar::Mode;
use crate::grammar::ScanOutcome;

verus! {

/// Whether `c` may start a variable name.
pub fn is_name_start_char_exec(c: char) -> (r: bool)
    ensures
        r == is_name_start_char(c),
{
    ('A' <= c && c <= 'Z') || ('a' <= c && c <= 'z') || c == '_'
}

/// Whether `c` may continue a variable name.
pub fn is_name_char_exec(c: char) -> (r: bool)
    ensures
        r == is_name_char(c),
{
    is_name_start_char_exec(c) || ('0' <= c && c <= '9')
}

/// Scan forward from `from` to the end of the run of name characters.
fn scan_name_end(input: &str, n: usize, from: usize) -> (r: usize)
    requires
        n == input@.len(),
        from <= n,
    ensures
        from <= r <= n,
        r as int == name_run_end(input@, from as int),
{
    let mut j = from;
    while j < n
        invariant
            from <= j <= n,
            n == input@.len(),
            name_run_end(input@, from as int) == name_run_end(input@, j as int),
        decreases n - j,
    {
        if is_name_char_exec(input.get_char(j)) {
            j += 1;
        } else {
            return j;
        }
    }
    j
}

/// Scan backward from the end for the last `}` at or after `from`.
fn scan_last_close(input: &str, n: usize, from: usize) -> (r: Option<usize>)
    requires
        n == input@.len(),
        from <= n,
    ensures
        match r {
            Some(j) => from <= j < n && last_close_from(input@, from as int) == j as int,
            None => last_close_from(input@, from as int) == -1,
        },
{
    let mut k = n;
    while k > from
        invariant
            from <= k <= n,
            n == input@.len(),
            forall|m: int| k <= m < n ==> input@[m] != '}',
        decreases k,
    {
        k -= 1;
        if input.get_char(k) == '}' {
            proof {
                lemma_last_close_from_found(input@, from as int, k as int);
            }
            return Some(k);
        }
    }
    proof {
        lemma_last_close_from_spec(input@, from as int);
    }
    None
}

/// How the result of the shared scanner relates to the spec automaton's
/// outcome on the same input.
pub open spec fn scan_result(
    s: Seq<char>,
    mode: Mode,
    env: Map<Seq<char>, Seq<char>>,
    r: Result<String, Error>,
) -> bool {
    match scan_from(s, 0, mode, env) {
        ScanOutcome::Done(out) => r matches Ok(v) && v@ == out,
        ScanOutcome::NeedsResolution => r matches Err(e) && e@ == ErrorModel::ResolutionRequired(s),
        ScanOutcome::Undefined(name) => r matches Err(e) && e@ == ErrorModel::UndefinedVariable(
            name,
        ),
        ScanOutcome::Malformed => r matches Err(e) && e@ == ErrorModel::InvalidSyntax(s),
    }
}

/// The shared scanner behind interpolation, unescaping and validation.
/// One pass over `input`; what happens at a resolvable reference is the
/// only thing that depends on `mode`.
fn scan_str<E: Environment>(input: &str, mode: Mode, env: &E) -> (r: Result<String, Error>)
    ensures
        scan_result(input@, mode, env.env_map(), r),
{
    let ghost s = input@;
    let ghost em = env.env_map();
    let n = input.unicode_len();
    let mut out = String::new();
    let mut i: usize = 0;
    while i < n
        invariant
            i <= n,
            n == s.len(),
            s == input@,
            em == env.env_map(),
            scan_from(s, 0, mode, em) == out_prepend(out@, scan_from(s, i as int, mode, em)),
        decreases n - i,
    {
        let ghost out0 = out@;
        let c = input.get_char(i);
        if c != '$' {
            let piece = input.substring_char(i, i + 1);
            out.append(piece);
            proof {
                assert(piece@ =~= seq![s[i as int]]);
                assert(scan_from(s, i as int, mode, em) == out_prepend(
                    seq![s[i as int]],
                    scan_from(s, i + 1, mode, em),
                ));
                lemma_out_prepend_assoc(out0, piece@, scan_from(s, i + 1, mode, em));
            }
            i += 1;
        } else {
            if i + 1 >= n {
                proof {
                    assert(ref_end(s, i as int) == -1);
                }
                return Err(Error::InvalidSyntax(input.to_owned()));
            }
            let c1 = input.get_char(i + 1);
            if c1 == '$' {
                out.append("$");
                proof {
                    reveal_strlit("$");
                    assert("$"@ =~= seq!['$']);
                    assert(ref_end(s, i as int) == i + 2);
                    assert(scan_from(s, i as int, mode, em) == out_prepend(
                        seq!['$'],
                        scan_from(s, i + 2, mode, em),
                    ));
                    lemma_out_prepend_assoc(out0, seq!['$'], scan_from(s, i + 2, mode, em));
                }
                i += 2;
            } else {
                // Work out which reference construct sits at `i`, or fail.
                let ns: usize;
                let ne: usize;
                let next: usize;
                let mut dspan: Option<(usize, usize)> = None;
                let mut colon = false;
                if is_name_start_char_exec(c1) {
                    ns = i + 1;
                    ne = scan_name_end(input, n, i + 1);
                    next = ne;
                    proof {
                        assert(ref_end(s, i as int) == ne as int);
                    }
                } else if c1 == '{' {
                    if i + 2 >= n {
                        proof {
                            assert(braced_end(s, i as int) == -1);
                        }
                        return Err(Error::InvalidSyntax(input.to_owned()));
                    }
                    if !is_name_start_char_exec(input.get_char(i + 2)) {
                        proof {
                            assert(braced_end(s, i as int) == -1);
                        }
                        return Err(Error::InvalidSyntax(input.to_owned()));
                    }
                    ns = i + 2;
                    ne = scan_name_end(input, n, i + 2);
                    if ne < n && input.get_char(ne) == '}' {
                        next = ne + 1;
                        proof {
                            assert(ref_end(s, i as int) == next as int);
                        }
                    } else if ne < n && input.get_char(ne) == '-' {
                        match scan_last_close(input, n, ne + 1) {
                            Some(j) => {
                                dspan = Some((ne + 1, j));
                                next = j + 1;
                                proof {
                                    assert(ref_end(s, i as int) == next as int);
                                }
                            },
                            None => {
                                proof {
                                    assert(braced_end(s, i as int) == -1);
                                }
                                return Err(Error::InvalidSyntax(input.to_owned()));
                            },
                        }
                    } else if ne < n && input.get_char(ne) == ':' && ne + 1 < n && input.get_char(
                        ne + 1,
                    ) == '-' {
                        match scan_last_close(input, n, ne + 2) {
                            Some(j) => {
                                dspan = Some((ne + 2, j));
                                colon = true;
                                next = j + 1;
                                proof {
                                    assert(ref_end(s, i as int) == next as int);
                                }
                            },
                            None => {
                                proof {
                                    assert(braced_end(s, i as int) == -1);
                                }
                                return Err(Error::InvalidSyntax(input.to_owned()));
                            },
                        }
                    } else {
                        proof {
                            assert(braced_end(s, i as int) == -1);
                        }
                        return Err(Error::InvalidSyntax(input.to_owned()));
                    }
                } else {
                    proof {
                        assert(ref_end(s, i as int) == -1);
                    }
                    return Err(Error::InvalidSyntax(input.to_owned()));
                }
                proof {
                    assert(ref_end(s, i as int) == next as int);
                    assert(ref_name(s, i as int) == s.subrange(ns as int, ne as int));
                    assert(ref_has_default(s, i as int) == dspan is Some);
                    assert(ref_colon(s, i as int) == colon);
                    assert(dspan matches Some((ds, de)) ==> ref_default(s, i as int) == s.subrange(
                        ds as int,
                        de as int,
                    ));
                }
                match mode {
                    Mode::Unescape => {
                        return Err(Error::ResolutionRequired(input.to_owned()));
                    },
                    Mode::Validate => {
                        proof {
                            assert(scan_from(s, i as int, mode, em) == out_prepend(
                                Seq::<char>::empty(),
                                scan_from(s, next as int, mode, em),
                            ));
                            lemma_out_prepend_assoc(
                                out0,
                                Seq::<char>::empty(),
                                scan_from(s, next as int, mode, em),
                            );
                            assert(out0 + Seq::<char>::empty() =~= out0);
                        }
                    },
                    Mode::Interpolate => {
                        let name_str = input.substring_char(ns, ne);
                        let ghost rep = ref_replacement(s, i as int, em);
                        match env.var(name_str) {
                            Some(val) => {
                                if colon && val.as_str().is_empty() {
                                    if let Some((ds, de)) = dspan {
                                        let piece = input.substring_char(ds, de);
                                        out.append(piece);
                                        proof {
                                            assert(rep == Some(piece@));
                                        }
                                    }
                                } else {
                                    out.append(val.as_str());
                                    proof {
                                        assert(rep == Some(val@));
                                    }
                                }
                            },
                            None => {
                                match dspan {
                                    Some((ds, de)) => {
                                        let piece = input.substring_char(ds, de);
                                        out.append(piece);
                                        proof {
                                            assert(rep == Some(piece@));
                                        }
                                    },
                                    None => {
                                        proof {
                                            assert(rep is None);
                                            assert(scan_from(s, i as int, mode, em)
                                                == ScanOutcome::Undefined(ref_name(s, i as int)));
                                        }
                                        return Err(Error::UndefinedVariable(name_str.to_owned()));
                                    },
                                }
                            },
                        }
                        proof {
                            assert(scan_from(s, i as int, mode, em) == out_prepend(
                                rep->Some_0,
                                scan_from(s, next as int, mode, em),
                            ));
                            lemma_out_prepend_assoc(
                                out0,
                                rep->Some_0,
                                scan_from(s, next as int, mode, em),
                            );
                        }
                    },
                }
                i = next;
            }
        }
    }
    proof {
        assert(scan_from(s, n as int, mode, em) == ScanOutcome::Done(Seq::<char>::empty()));
        assert(out@ + Seq::<char>::empty() =~= out@);
    }
    Ok(out)
}

/// Interpolate variable references in `input` against `env`: `$$` becomes
/// `$`, `$VAR` and `${VAR}` become the variable's value, `${VAR-d}` falls
/// back to `d` when `VAR` is absent, `${VAR:-d}` also when it is empty.
pub fn interpolate_env<E: Environment>(input: &str, env: &E) -> (r: Result<String, Error>)
    ensures
        match interp_out(input@, env.env_map()) {
            ScanOutcome::Done(t) => r matches Ok(v) && v@ == t,
            ScanOutcome::Undefined(name) => r matches Err(e) && e@ == ErrorModel::UndefinedVariable(
                name,
            ),
            ScanOutcome::Malformed => r matches Err(e) && e@ == ErrorModel::InvalidSyntax(input@),
            ScanOutcome::NeedsResolution => false,
        },
{
    proof {
        lemma_scan_mode_shape(input@, 0, Mode::Interpolate, env.env_map());
    }
    scan_str(input, Mode::Interpolate, env)
}

/// Escape interpolation sequences in a string literal: every `$` becomes
/// `$$`.
pub fn escape_str(input: &str) -> (r: String)
    ensures
        r@ == escape_seq(input@),
{
    let ghost s = input@;
    let n = input.unicode_len();
    let mut out = String::new();
    let mut i: usize = 0;
    while i < n
        invariant
            i <= n,
            n == s.len(),
            s == input@,
            escape_seq(s) == out@ + escape_from(s, i as int),
        decreases n - i,
    {
        let ghost out0 = out@;
        let c = input.get_char(i);
        if c == '$' {
            out.append("$$");
            proof {
                reveal_strlit("$$");
                assert("$$"@ =~= seq!['$', '$']);
                assert((out0 + seq!['$', '$']) + escape_from(s, i + 1) =~= out0 + (seq!['$', '$']
                    + escape_from(s, i + 1)));
            }
        } else {
            let piece = input.substring_char(i, i + 1);
            out.append(piece);
            proof {
                assert(piece@ =~= seq![s[i as int]]);
                assert((out0 + seq![s[i as int]]) + escape_from(s, i + 1) =~= out0 + (seq![
                    s[i as int],
                ] + escape_from(s, i + 1)));
            }
        }
        i += 1;
    }
    proof {
        assert(out@ + escape_from(s, n as int) =~= out@);
    }
    out
}

/// Unescape `$$` sequences to `$`, but fail with a resolution-required
/// error on any reference that would need a variable lookup.  Used for
/// reading and rewriting documents without touching any variable source.
pub fn unescape_str(input: &str) -> (r: Result<String, Error>)
    ensures
        match unescape_out(input@) {
            ScanOutcome::Done(t) => r matches Ok(v) && v@ == t,
            ScanOutcome::NeedsResolution => r matches Err(e) && e@
                == ErrorModel::ResolutionRequired(input@),
            ScanOutcome::Malformed => r matches Err(e) && e@ == ErrorModel::InvalidSyntax(input@),
            ScanOutcome::Undefined(_) => false,
        },
{
    let env = MemoryEnvironment::new();
    proof {
        lemma_scan_mode_shape(input@, 0, Mode::Unescape, env.env_map());
        lemma_unescape_env_irrelevant(input@, 0, env.env_map(), Map::empty());
    }
    scan_str(input, Mode::Unescape, &env)
}

/// Check that every reference in `input` is syntactically well formed;
/// never consults a variable source and never fails on an undefined
/// variable.
pub fn validate(input: &str) -> (r: Result<(), Error>)
    ensures
        r is Ok <==> spec_valid(input@),
        r matches Err(e) ==> e@ == ErrorModel::InvalidSyntax(input@),
{
    let env = MemoryEnvironment::new();
    proof {
        lemma_scan_mode_shape(input@, 0, Mode::Validate, env.env_map());
        lemma_validate_env_irrelevant(input@, 0, env.env_map(), Map::empty());
    }
    match scan_str(input, Mode::Validate, &env) {
        Ok(_) => Ok(()),
        Err(e) => Err(e),
    }
}

} // verus!
