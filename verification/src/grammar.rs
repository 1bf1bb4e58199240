//! The reference grammar for shell-style variable references, as one spec
//! automaton shared by the three scan modes (interpolate, unescape,
//! validate), so that what counts as "a valid reference" can never drift
//! between them.
//!
//! A reference starts at a `$` and is one of:
//! - `$$`, an escaped dollar sign;
//! - `$NAME`, a bare variable;
//! - `${NAME}`, `${NAME-default}` or `${NAME:-default}`, a braced variable;
//! - anything else, which is a syntax error.
//!
//! `NAME` is `[A-Za-z_][A-Za-z0-9_]*`.  A default runs to the last `}` of
//! the remaining input.

use vstd::prelude::*;

verus! {

/// The mode in which the shared scan runs.
#[derive(Debug, Clone, Copy, PartialEq, Eq, Structural)]
pub enum Mode {
    /// Replace every reference using a variable source.
    Interpolate,
    /// Rewrite `$$` to `$`, but fail on any reference that would need a
    /// variable lookup.
    Unescape,
    /// Only check the grammar; never consult a variable source.
    Validate,
}

/// The outcome of scanning a string in some mode.
pub enum ScanOutcome {
    /// The scan succeeded; for interpolation and unescaping this carries
    /// the rewritten text.
    Done(Seq<char>),
    /// An unescape scan met a reference that needs a variable lookup.
    NeedsResolution,
    /// An interpolation scan met an undefined variable with no default;
    /// carries the variable name.
    Undefined(Seq<char>),
    /// The grammar was violated.
    Malformed,
}

/// Whether `c` may start a variable name.
pub open spec fn is_name_start_char(c: char) -> bool {
    ('A' <= c && c <= 'Z') || ('a' <= c && c <= 'z') || c == '_'
}

/// Whether `c` may continue a variable name.
pub open spec fn is_name_char(c: char) -> bool {
    is_name_start_char(c) || ('0' <= c && c <= '9')
}

/// The first position at or after `i` that is not a name character
/// (or the end of the string).
pub open spec fn name_run_end(s: Seq<char>, i: int) -> int
    decreases s.len() - i
        when 0 <= i <= s.len()
{
    if i == s.len() {
        i
    } else if is_name_char(s[i]) {
        name_run_end(s, i + 1)
    } else {
        i
    }
}

pub proof fn lemma_name_run_end_bounds(s: Seq<char>, i: int)
    requires
        0 <= i <= s.len(),
    ensures
        i <= name_run_end(s, i) <= s.len(),
    decreases s.len() - i,
{
    if i < s.len() && is_name_char(s[i]) {
        lemma_name_run_end_bounds(s, i + 1);
    }
}

/// The last position at or after `i` that holds `}`, or -1 if there is none.
pub open spec fn last_close_from(s: Seq<char>, i: int) -> int
    decreases s.len() - i
        when 0 <= i <= s.len()
{
    if i == s.len() {
        -1
    } else {
        let r = last_close_from(s, i + 1);
        if r >= 0 {
            r
        } else if s[i] == '}' {
            i
        } else {
            -1
        }
    }
}

pub proof fn lemma_last_close_from_spec(s: Seq<char>, i: int)
    requires
        0 <= i <= s.len(),
    ensures
        last_close_from(s, i) == -1 ==> forall|k: int| i <= k < s.len() ==> s[k] != '}',
        last_close_from(s, i) != -1 ==> i <= last_close_from(s, i) < s.len() && s[last_close_from(
            s,
            i,
        )] == '}' && forall|k: int| last_close_from(s, i) < k < s.len() ==> s[k] != '}',
    decreases s.len() - i,
{
    if i < s.len() {
        lemma_last_close_from_spec(s, i + 1);
    }
}

/// `last_close_from` is the largest `}` position: whoever exhibits such a
/// position has found it.
pub proof fn lemma_last_close_from_found(s: Seq<char>, i: int, k: int)
    requires
        0 <= i <= k < s.len(),
        s[k] == '}',
        forall|m: int| k < m < s.len() ==> s[m] != '}',
    ensures
        last_close_from(s, i) == k,
    decreases k - i,
{
    lemma_last_close_from_spec(s, i + 1);
    if i < k {
        lemma_last_close_from_found(s, i + 1, k);
    }
}

/// The exclusive end of the braced construct whose `$` sits at `i`,
/// or -1 if it is ill-formed.
pub open spec fn braced_end(s: Seq<char>, i: int) -> int
    recommends
        0 <= i,
        i + 1 < s.len(),
        s[i] == '$',
        s[i + 1] == '{',
{
    if i + 3 > s.len() || !is_name_start_char(s[i + 2]) {
        -1
    } else {
        let ne = name_run_end(s, i + 2);
        if ne < s.len() && s[ne] == '}' {
            ne + 1
        } else if ne < s.len() && s[ne] == '-' {
            let j = last_close_from(s, ne + 1);
            if j >= 0 {
                j + 1
            } else {
                -1
            }
        } else if ne + 1 < s.len() && s[ne] == ':' && s[ne + 1] == '-' {
            let j = last_close_from(s, ne + 2);
            if j >= 0 {
                j + 1
            } else {
                -1
            }
        } else {
            -1
        }
    }
}

/// The exclusive end of the reference construct whose `$` sits at `i`,
/// or -1 if it is ill-formed.  This single function decides, for every
/// scan mode alike, what follows a `$`.
pub open spec fn ref_end(s: Seq<char>, i: int) -> int
    recommends
        0 <= i < s.len(),
        s[i] == '$',
{
    if i + 2 > s.len() {
        -1
    } else if s[i + 1] == '$' {
        i + 2
    } else if is_name_start_char(s[i + 1]) {
        name_run_end(s, i + 1)
    } else if s[i + 1] == '{' {
        braced_end(s, i)
    } else {
        -1
    }
}

pub proof fn lemma_ref_end_bounds(s: Seq<char>, i: int)
    requires
        0 <= i < s.len(),
        s[i] == '$',
        ref_end(s, i) != -1,
    ensures
        i + 2 <= ref_end(s, i) <= s.len(),
{
    if i + 2 > s.len() {
    } else if s[i + 1] == '$' {
    } else if is_name_start_char(s[i + 1]) {
        lemma_name_run_end_bounds(s, i + 2);
        assert(name_run_end(s, i + 1) == name_run_end(s, i + 2));
    } else if s[i + 1] == '{' {
        if !(i + 3 > s.len() || !is_name_start_char(s[i + 2])) {
            let ne = name_run_end(s, i + 2);
            lemma_name_run_end_bounds(s, i + 2);
            if ne < s.len() && s[ne] == '}' {
            } else if ne < s.len() && s[ne] == '-' {
                lemma_last_close_from_spec(s, ne + 1);
            } else if ne + 1 < s.len() && s[ne] == ':' && s[ne + 1] == '-' {
                lemma_last_close_from_spec(s, ne + 2);
            }
        }
    }
}

/// Whether the well-formed, non-escape reference at `i` is braced.
pub open spec fn ref_is_braced(s: Seq<char>, i: int) -> bool {
    i + 1 < s.len() && s[i + 1] == '{'
}

/// The position where the variable name of the reference at `i` starts.
pub open spec fn ref_name_start(s: Seq<char>, i: int) -> int {
    if ref_is_braced(s, i) {
        i + 2
    } else {
        i + 1
    }
}

/// The variable name of the well-formed, non-escape reference at `i`.
pub open spec fn ref_name(s: Seq<char>, i: int) -> Seq<char> {
    s.subrange(ref_name_start(s, i), name_run_end(s, ref_name_start(s, i)))
}

/// Whether the reference at `i` carries a `-default` or `:-default` part.
pub open spec fn ref_has_default(s: Seq<char>, i: int) -> bool {
    ref_is_braced(s, i) && {
        let ne = name_run_end(s, i + 2);
        ne < s.len() && (s[ne] == '-' || (s[ne] == ':' && ne + 1 < s.len() && s[ne + 1] == '-'))
    }
}

/// Whether the default of the reference at `i` uses the `:-` form, which
/// treats a present-but-empty variable as absent.
pub open spec fn ref_colon(s: Seq<char>, i: int) -> bool {
    ref_has_default(s, i) && s[name_run_end(s, i + 2)] == ':'
}

/// The default text of the reference at `i` (meaningful only when
/// `ref_has_default` holds and the construct is well formed).
pub open spec fn ref_default(s: Seq<char>, i: int) -> Seq<char> {
    let ne = name_run_end(s, i + 2);
    let dstart = if ref_colon(s, i) {
        ne + 2
    } else {
        ne + 1
    };
    s.subrange(dstart, ref_end(s, i) - 1)
}

/// What interpolation substitutes for the reference at `i`, or `None` if
/// the variable is undefined and the reference has no default.
pub open spec fn ref_replacement(s: Seq<char>, i: int, env: Map<Seq<char>, Seq<char>>) -> Option<
    Seq<char>,
> {
    let name = ref_name(s, i);
    if env.contains_key(name) {
        if ref_colon(s, i) && env[name].len() == 0 {
            Some(ref_default(s, i))
        } else {
            Some(env[name])
        }
    } else if ref_has_default(s, i) {
        Some(ref_default(s, i))
    } else {
        None
    }
}

/// Prepend `p` to the text of a successful outcome; errors pass through,
/// so the first error of a left-to-right scan is the one surfaced.
pub open spec fn out_prepend(p: Seq<char>, o: ScanOutcome) -> ScanOutcome {
    match o {
        ScanOutcome::Done(t) => ScanOutcome::Done(p + t),
        _ => o,
    }
}

/// The shared scan, from position `i` to the end of `s`.  All three
/// operations are this one automaton; only the treatment of a resolvable
/// reference differs by mode.
pub open spec fn scan_from(s: Seq<char>, i: int, mode: Mode, env: Map<Seq<char>, Seq<char>>) -> ScanOutcome
    decreases s.len() - i
        when 0 <= i <= s.len()
        via scan_from_decreases
{
    if i == s.len() {
        ScanOutcome::Done(Seq::empty())
    } else if s[i] != '$' {
        out_prepend(seq![s[i]], scan_from(s, i + 1, mode, env))
    } else if ref_end(s, i) == -1 {
        ScanOutcome::Malformed
    } else if s[i + 1] == '$' {
        out_prepend(seq!['$'], scan_from(s, i + 2, mode, env))
    } else if mode == Mode::Unescape {
        ScanOutcome::NeedsResolution
    } else if mode == Mode::Validate {
        out_prepend(Seq::empty(), scan_from(s, ref_end(s, i), mode, env))
    } else {
        match ref_replacement(s, i, env) {
            Some(rep) => out_prepend(rep, scan_from(s, ref_end(s, i), mode, env)),
            None => ScanOutcome::Undefined(ref_name(s, i)),
        }
    }
}

#[via_fn]
proof fn scan_from_decreases(s: Seq<char>, i: int, mode: Mode, env: Map<Seq<char>, Seq<char>>) {
    if 0 <= i < s.len() && s[i] == '$' && ref_end(s, i) != -1 {
        lemma_ref_end_bounds(s, i);
    }
}

/// The outcome of interpolating `s` against `env`, scanning from the start.
pub open spec fn interp_out(s: Seq<char>, env: Map<Seq<char>, Seq<char>>) -> ScanOutcome {
    scan_from(s, 0, Mode::Interpolate, env)
}

/// The outcome of unescaping `s`.  Unescaping never consults a variable
/// source, so the outcome does not depend on one.
pub open spec fn unescape_out(s: Seq<char>) -> ScanOutcome {
    scan_from(s, 0, Mode::Unescape, Map::empty())
}

/// Whether `s` is syntactically valid under the reference grammar.
pub open spec fn spec_valid(s: Seq<char>) -> bool {
    !(scan_from(s, 0, Mode::Validate, Map::empty()) is Malformed)
}

/// `s` with every `$` doubled, from position `i` on.
pub open spec fn escape_from(s: Seq<char>, i: int) -> Seq<char>
    decreases s.len() - i
        when 0 <= i <= s.len()
{
    if i == s.len() {
        Seq::empty()
    } else if s[i] == '$' {
        seq!['$', '$'] + escape_from(s, i + 1)
    } else {
        seq![s[i]] + escape_from(s, i + 1)
    }
}

/// `s` with every `$` doubled: the escaped form of a literal.
pub open spec fn escape_seq(s: Seq<char>) -> Seq<char> {
    escape_from(s, 0)
}

pub proof fn lemma_out_prepend_assoc(a: Seq<char>, b: Seq<char>, o: ScanOutcome)
    ensures
        out_prepend(a, out_prepend(b, o)) == out_prepend(a + b, o),
{
    match o {
        ScanOutcome::Done(t) => {
            assert(a + (b + t) =~= (a + b) + t);
        },
        _ => {},
    }
}

/// Which outcomes each mode can produce: interpolation never reports that
/// resolution is needed, unescaping never reports an undefined variable,
/// and validation either succeeds or finds a syntax error.
pub proof fn lemma_scan_mode_shape(s: Seq<char>, i: int, mode: Mode, env: Map<Seq<char>, Seq<char>>)
    requires
        0 <= i <= s.len(),
    ensures
        mode == Mode::Interpolate ==> !(scan_from(s, i, mode, env) is NeedsResolution),
        mode == Mode::Unescape ==> !(scan_from(s, i, mode, env) is Undefined),
        mode == Mode::Validate ==> scan_from(s, i, mode, env) is Done || scan_from(
            s,
            i,
            mode,
            env,
        ) is Malformed,
    decreases s.len() - i,
{
    if i == s.len() {
    } else if s[i] != '$' {
        lemma_scan_mode_shape(s, i + 1, mode, env);
    } else if ref_end(s, i) == -1 {
    } else {
        lemma_ref_end_bounds(s, i);
        if s[i + 1] == '$' {
            lemma_scan_mode_shape(s, i + 2, mode, env);
        } else {
            lemma_scan_mode_shape(s, ref_end(s, i), mode, env);
        }
    }
}

/// A string that validation accepts cannot produce a syntax error in any
/// other mode either: the three operations share one grammar.
pub proof fn lemma_valid_no_malformed(
    s: Seq<char>,
    i: int,
    mode: Mode,
    env: Map<Seq<char>, Seq<char>>,
    ev: Map<Seq<char>, Seq<char>>,
)
    requires
        0 <= i <= s.len(),
        !(scan_from(s, i, Mode::Validate, ev) is Malformed),
    ensures
        !(scan_from(s, i, mode, env) is Malformed),
    decreases s.len() - i,
{
    if i == s.len() {
    } else if s[i] != '$' {
        lemma_valid_no_malformed(s, i + 1, mode, env, ev);
    } else if ref_end(s, i) == -1 {
        assert(scan_from(s, i, Mode::Validate, ev) is Malformed);
    } else {
        lemma_ref_end_bounds(s, i);
        if s[i + 1] == '$' {
            lemma_valid_no_malformed(s, i + 2, mode, env, ev);
        } else {
            lemma_valid_no_malformed(s, ref_end(s, i), mode, env, ev);
        }
    }
}

/// When unescaping succeeds the text holds no real reference, so every
/// mode succeeds and produces the very same text.
pub proof fn lemma_unescape_done_all_modes(
    s: Seq<char>,
    i: int,
    env0: Map<Seq<char>, Seq<char>>,
    mode: Mode,
    env: Map<Seq<char>, Seq<char>>,
)
    requires
        0 <= i <= s.len(),
        scan_from(s, i, Mode::Unescape, env0) is Done,
    ensures
        scan_from(s, i, mode, env) == scan_from(s, i, Mode::Unescape, env0),
    decreases s.len() - i,
{
    if i == s.len() {
    } else if s[i] != '$' {
        lemma_unescape_done_all_modes(s, i + 1, env0, mode, env);
    } else if ref_end(s, i) == -1 {
    } else {
        lemma_ref_end_bounds(s, i);
        if s[i + 1] == '$' {
            lemma_unescape_done_all_modes(s, i + 2, env0, mode, env);
        }
    }
}

/// Unescaping does not depend on the variable source.
pub proof fn lemma_unescape_env_irrelevant(
    s: Seq<char>,
    i: int,
    env0: Map<Seq<char>, Seq<char>>,
    env1: Map<Seq<char>, Seq<char>>,
)
    requires
        0 <= i <= s.len(),
    ensures
        scan_from(s, i, Mode::Unescape, env0) == scan_from(s, i, Mode::Unescape, env1),
    decreases s.len() - i,
{
    if i == s.len() {
    } else if s[i] != '$' {
        lemma_unescape_env_irrelevant(s, i + 1, env0, env1);
    } else if ref_end(s, i) == -1 {
    } else {
        lemma_ref_end_bounds(s, i);
        if s[i + 1] == '$' {
            lemma_unescape_env_irrelevant(s, i + 2, env0, env1);
        }
    }
}

/// Validation does not depend on the variable source.
pub proof fn lemma_validate_env_irrelevant(
    s: Seq<char>,
    i: int,
    env0: Map<Seq<char>, Seq<char>>,
    env1: Map<Seq<char>, Seq<char>>,
)
    requires
        0 <= i <= s.len(),
    ensures
        scan_from(s, i, Mode::Validate, env0) == scan_from(s, i, Mode::Validate, env1),
    decreases s.len() - i,
{
    if i == s.len() {
    } else if s[i] != '$' {
        lemma_validate_env_irrelevant(s, i + 1, env0, env1);
    } else if ref_end(s, i) == -1 {
    } else {
        lemma_ref_end_bounds(s, i);
        if s[i + 1] == '$' {
            lemma_validate_env_irrelevant(s, i + 2, env0, env1);
        } else {
            lemma_validate_env_irrelevant(s, ref_end(s, i), env0, env1);
        }
    }
}

/// A suffix without `$` scans to itself in every mode.
pub proof fn lemma_scan_plain(s: Seq<char>, i: int, mode: Mode, env: Map<Seq<char>, Seq<char>>)
    requires
        0 <= i <= s.len(),
        forall|k: int| i <= k < s.len() ==> s[k] != '$',
    ensures
        scan_from(s, i, mode, env) == ScanOutcome::Done(s.subrange(i, s.len() as int)),
    decreases s.len() - i,
{
    if i == s.len() {
        assert(s.subrange(i, s.len() as int) =~= Seq::<char>::empty());
    } else {
        lemma_scan_plain(s, i + 1, mode, env);
        assert(seq![s[i]] + s.subrange(i + 1, s.len() as int) =~= s.subrange(i, s.len() as int));
    }
}

/// A literal string containing no `$` interpolates to itself, whatever the
/// variable source.
pub proof fn lemma_interpolate_literal(s: Seq<char>, env: Map<Seq<char>, Seq<char>>)
    requires
        forall|k: int| 0 <= k < s.len() ==> s[k] != '$',
    ensures
        interp_out(s, env) == ScanOutcome::Done(s),
{
    lemma_scan_plain(s, 0, Mode::Interpolate, env);
    assert(s.subrange(0, s.len() as int) =~= s);
}

/// Law: the escape takes precedence over any lookup.  Interpolating
/// `$$X` yields `$X` whatever the variable source holds, defined or not.
pub proof fn lemma_escape_precedence(env: Map<Seq<char>, Seq<char>>)
    ensures
        interp_out("$$X"@, env) == ScanOutcome::Done("$X"@),
{
    reveal_strlit("$$X");
    reveal_strlit("$X");
    assert(escape_seq("$X"@) =~= "$$X"@) by {
        assert(escape_from("$X"@, 2) =~= Seq::<char>::empty());
        assert(escape_from("$X"@, 1) =~= seq!['X']);
        assert(escape_from("$X"@, 0) =~= seq!['$', '$', 'X']);
    }
    lemma_escape_round_trip("$X"@, Mode::Interpolate, env);
}

/// Scanning the escaped form of `s`, starting where it was spliced into
/// `t`, succeeds in every mode and yields `s` back.
pub proof fn lemma_scan_of_escaped(
    s: Seq<char>,
    i: int,
    t: Seq<char>,
    p: int,
    mode: Mode,
    env: Map<Seq<char>, Seq<char>>,
)
    requires
        0 <= i <= s.len(),
        0 <= p <= t.len(),
        t.subrange(p, t.len() as int) == escape_from(s, i),
    ensures
        scan_from(t, p, mode, env) == ScanOutcome::Done(s.subrange(i, s.len() as int)),
    decreases s.len() - i,
{
    let suf = t.subrange(p, t.len() as int);
    if i == s.len() {
        assert(p == t.len());
        assert(s.subrange(i, s.len() as int) =~= Seq::<char>::empty());
    } else if s[i] == '$' {
        assert(suf == seq!['$', '$'] + escape_from(s, i + 1));
        assert(t[p] == '$') by { assert(suf[0] == '$'); }
        assert(p + 2 <= t.len()) by { assert(suf.len() >= 2); }
        assert(t[p + 1] == '$') by { assert(suf[1] == '$'); }
        assert(t.subrange(p + 2, t.len() as int) =~= escape_from(s, i + 1)) by {
            let rest = escape_from(s, i + 1);
            assert(suf.len() == 2 + rest.len());
            assert forall|k: int| 0 <= k < rest.len() implies t.subrange(p + 2, t.len() as int)[k]
                == rest[k] by {
                assert(suf[k + 2] == rest[k]);
                assert(suf[k + 2] == t[p + 2 + k]);
            }
        }
        lemma_scan_of_escaped(s, i + 1, t, p + 2, mode, env);
        assert(ref_end(t, p) == p + 2);
        assert(scan_from(t, p, mode, env) == out_prepend(
            seq!['$'],
            scan_from(t, p + 2, mode, env),
        ));
        assert(seq!['$'] + s.subrange(i + 1, s.len() as int) =~= s.subrange(i, s.len() as int));
    } else {
        assert(suf == seq![s[i]] + escape_from(s, i + 1));
        assert(t[p] == s[i]) by { assert(suf[0] == s[i]); }
        assert(p + 1 <= t.len()) by { assert(suf.len() >= 1); }
        assert(t.subrange(p + 1, t.len() as int) =~= escape_from(s, i + 1)) by {
            let rest = escape_from(s, i + 1);
            assert(suf.len() == 1 + rest.len());
            assert forall|k: int| 0 <= k < rest.len() implies t.subrange(p + 1, t.len() as int)[k]
                == rest[k] by {
                assert(suf[k + 1] == rest[k]);
                assert(suf[k + 1] == t[p + 1 + k]);
            }
        }
        lemma_scan_of_escaped(s, i + 1, t, p + 1, mode, env);
        assert(scan_from(t, p, mode, env) == out_prepend(
            seq![s[i]],
            scan_from(t, p + 1, mode, env),
        ));
        assert(seq![s[i]] + s.subrange(i + 1, s.len() as int) =~= s.subrange(i, s.len() as int));
    }
}

/// The escape/scan round trip: the escaped form of any string is valid,
/// carries no real reference, and scans back to the original in every
/// mode, whatever the variable source.
pub proof fn lemma_escape_round_trip(s: Seq<char>, mode: Mode, env: Map<Seq<char>, Seq<char>>)
    ensures
        scan_from(escape_seq(s), 0, mode, env) == ScanOutcome::Done(s),
{
    let t = escape_seq(s);
    assert(t.subrange(0, t.len() as int) =~= t);
    lemma_scan_of_escaped(s, 0, t, 0, mode, env);
    assert(s.subrange(0, s.len() as int) =~= s);
}

} // verus!
