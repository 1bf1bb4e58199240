//! The dual representation value: either an unresolved interpolation
//! string or a fully parsed, typed payload.

use vstd::prelude::*;
use vstd::string::StringExecFns;

use crate::environment::Environment;
use crate::errors::Error;
use crate::errors::ErrorModel;
use crate::grammar::escape_seq;
use crate::grammar::interp_out;
use crate::grammar::lemma_escape_round_trip;
use crate::grammar::lemma_unescape_done_all_modes;
use crate::grammar::lemma_valid_no_malformed;
use crate::grammar::spec_valid;
use crate::grammar::unescape_out;
use crate::grammar::Mode;
use crate::grammar::ScanOutcome;
use crate::interpolation::escape_str;
use crate::interpolation::unescape_str;
use crate::interpolation::validate;

verus! {

/// A payload type that can occupy a [`RawOr`]: it knows how to parse
/// itself from a string and how to format itself back, independently of
/// any general display machinery.  The model-level functions pin both
/// directions down, and the round-trip law ties them together.
pub trait InterpolatableValue: View + Clone + Sized {
    /// What parsing yields on each input, at the model level; `None`
    /// means the text cannot be coerced into this type.
    spec fn parse_spec(s: Seq<char>) -> Option<Self::V>;

    /// The textual form of a value, at the model level.
    spec fn fmt_spec(m: Self::V) -> Seq<char>;

    /// The values whose textual form parses back to themselves.  Parsing
    /// only ever produces such values.
    spec fn wf_model(m: Self::V) -> bool;

    /// The type name used in coercion errors.
    spec fn type_label() -> Seq<char>;

    /// Parse a value from a string; the equivalent of `from_str`.
    fn iv_from_str(s: &str) -> (r: Result<Self, Error>)
        ensures
            match Self::parse_spec(s@) {
                Some(m) => r matches Ok(v) && v@ == m,
                None => r matches Err(e) && e@ == ErrorModel::InvalidValue(
                    Self::type_label(),
                    s@,
                ),
            },
    ;

    /// Format the value back to a string; the equivalent of `fmt`.
    fn fmt_iv(&self) -> (r: String)
        ensures
            r@ == Self::fmt_spec(self@),
    ;

    /// Law: parsing never yields a value outside `wf_model`.
    proof fn lemma_parse_wf(s: Seq<char>)
        ensures
            Self::parse_spec(s) matches Some(m) ==> Self::wf_model(m),
    ;

    /// Law: formatting a well-formed value and parsing the result yields
    /// the value back.
    proof fn lemma_fmt_parse_round_trip(m: Self::V)
        requires
            Self::wf_model(m),
        ensures
            Self::parse_spec(Self::fmt_spec(m)) == Some(m),
    ;
}

/// Plain text: parsing is the identity and always succeeds.
impl InterpolatableValue for String {
    open spec fn parse_spec(s: Seq<char>) -> Option<Seq<char>> {
        Some(s)
    }

    open spec fn fmt_spec(m: Seq<char>) -> Seq<char> {
        m
    }

    open spec fn wf_model(m: Seq<char>) -> bool {
        true
    }

    open spec fn type_label() -> Seq<char> {
        "String"@
    }

    fn iv_from_str(s: &str) -> (r: Result<Self, Error>) {
        Ok(s.to_owned())
    }

    fn fmt_iv(&self) -> (r: String) {
        self.clone()
    }

    proof fn lemma_parse_wf(s: Seq<char>) {
    }

    proof fn lemma_fmt_parse_round_trip(m: Seq<char>) {
    }
}

/// The private representation: a raw string or a parsed value, never both.
#[derive(Debug, Clone, PartialEq, Eq)]
enum RawOrValue<T> {
    /// A raw string still holding variable references.
    Raw(String),
    /// A parsed value.
    Value(T),
}

/// The model of a [`RawOr`]: its two states over the payload's model.
pub enum RawOrModel<M> {
    /// Raw text that needs a variable source before it can be parsed.
    Unresolved(Seq<char>),
    /// A parsed payload value.
    Resolved(M),
}

/// Either an unparsed interpolation string, or a fully parsed value.
///
/// Any string field of a configuration document may hold a variable
/// reference such as `$VAR`, which must be kept unexpanded when the
/// document is read and written back.  `RawOr<T>` holds such a field
/// either as the verbatim raw text (when it still needs a lookup) or as
/// the parsed `T` (as soon as no lookup is needed), and the transition
/// from the former to the latter happens at most once, in place.
///
/// Values are created with [`raw`], [`escape`] or [`value`].
#[derive(Debug, Clone, PartialEq, Eq)]
pub struct RawOr<T: InterpolatableValue>(RawOrValue<T>);

impl<T: InterpolatableValue> View for RawOr<T> {
    type V = RawOrModel<T::V>;

    closed spec fn view(&self) -> RawOrModel<T::V> {
        match &self.0 {
            RawOrValue::Raw(s) => RawOrModel::Unresolved(s@),
            RawOrValue::Value(v) => RawOrModel::Resolved(v@),
        }
    }
}

/// The consistency invariant every `RawOr` satisfies: an unresolved state
/// holds syntactically valid text that genuinely needs a variable lookup
/// (unescaping it alone must fail with a resolution-required error).
pub open spec fn model_inv<M>(m: RawOrModel<M>) -> bool {
    match m {
        RawOrModel::Unresolved(s) => spec_valid(s) && unescape_out(s) is NeedsResolution,
        RawOrModel::Resolved(_) => true,
    }
}

/// [`model_inv`] together with well-formedness of a resolved payload.
pub open spec fn model_wf<T: InterpolatableValue>(m: RawOrModel<T::V>) -> bool {
    match m {
        RawOrModel::Unresolved(s) => model_inv(m),
        RawOrModel::Resolved(p) => T::wf_model(p),
    }
}

/// What [`raw`] yields on each input: a syntax error on invalid text, a
/// resolved value when the text unescapes and parses, an unresolved value
/// when the text needs a lookup, and a coercion error otherwise.
pub open spec fn raw_model<T: InterpolatableValue>(s: Seq<char>) -> Result<
    RawOrModel<T::V>,
    ErrorModel,
> {
    if !spec_valid(s) {
        Err(ErrorModel::InvalidSyntax(s))
    } else {
        match unescape_out(s) {
            ScanOutcome::Done(u) => match T::parse_spec(u) {
                Some(m) => Ok(RawOrModel::Resolved(m)),
                None => Err(ErrorModel::InvalidValue(T::type_label(), u)),
            },
            ScanOutcome::NeedsResolution => Ok(RawOrModel::Unresolved(s)),
            _ => Err(ErrorModel::InvalidSyntax(s)),
        }
    }
}

/// How a value renders back to text: unresolved text verbatim, a resolved
/// payload as its formatted form with every literal `$` re-escaped.
pub open spec fn render_model<T: InterpolatableValue>(m: RawOrModel<T::V>) -> Seq<char> {
    match m {
        RawOrModel::Unresolved(s) => s,
        RawOrModel::Resolved(p) => escape_seq(T::fmt_spec(p)),
    }
}

/// What resolving against `env` yields: the payload of a resolved value
/// unchanged, or the interpolated and coerced text of an unresolved one.
pub open spec fn resolve_model<T: InterpolatableValue>(
    m: RawOrModel<T::V>,
    env: Map<Seq<char>, Seq<char>>,
) -> Result<T::V, ErrorModel> {
    match m {
        RawOrModel::Resolved(p) => Ok(p),
        RawOrModel::Unresolved(s) => match interp_out(s, env) {
            ScanOutcome::Done(t) => match T::parse_spec(t) {
                Some(p) => Ok(p),
                None => Err(ErrorModel::InvalidValue(T::type_label(), t)),
            },
            ScanOutcome::Undefined(n) => Err(ErrorModel::UndefinedVariable(n)),
            _ => Err(ErrorModel::InvalidSyntax(s)),
        },
    }
}

/// Convert a raw string that may contain variable references into a
/// `RawOr<T>`: validate it, then parse it at once if no lookup is needed,
/// else keep it verbatim as unresolved.
pub fn raw<T: InterpolatableValue>(s: &str) -> (r: Result<RawOr<T>, Error>)
    ensures
        match raw_model::<T>(s@) {
            Ok(m) => r matches Ok(v) && v@ == m && model_wf::<T>(m) && model_inv(m),
            Err(em) => r matches Err(e) && e@ == em,
        },
{
    match validate(s) {
        Err(e) => Err(e),
        Ok(_) => {
            proof {
                lemma_valid_no_malformed(s@, 0, Mode::Unescape, Map::empty(), Map::empty());
            }
            match unescape_str(s) {
                Ok(unescaped) => {
                    proof {
                        T::lemma_parse_wf(unescaped@);
                    }
                    match T::iv_from_str(unescaped.as_str()) {
                        Ok(v) => Ok(RawOr(RawOrValue::Value(v))),
                        Err(e) => Err(e),
                    }
                },
                Err(_) => Ok(RawOr(RawOrValue::Raw(s.to_owned()))),
            }
        },
    }
}

/// Coerce a literal string directly into a `RawOr<T>`: a `$` in it is a
/// literal dollar sign, never a reference.
pub fn escape<T: InterpolatableValue>(s: &str) -> (r: Result<RawOr<T>, Error>)
    ensures
        match T::parse_spec(s@) {
            Some(m) => r matches Ok(v) && v@ == RawOrModel::Resolved(m) && model_wf::<T>(v@),
            None => r matches Err(e) && e@ == ErrorModel::InvalidValue(T::type_label(), s@),
        },
{
    proof {
        T::lemma_parse_wf(s@);
    }
    match T::iv_from_str(s) {
        Ok(v) => Ok(RawOr(RawOrValue::Value(v))),
        Err(e) => Err(e),
    }
}

/// Wrap an already-typed value, taking ownership; the result is resolved.
pub fn value<T: InterpolatableValue>(v: T) -> (r: RawOr<T>)
    ensures
        r@ == RawOrModel::<T::V>::Resolved(v@),
{
    RawOr(RawOrValue::Value(v))
}

impl<T: InterpolatableValue> RawOr<T> {
    /// Borrow the payload, or fail with the resolution-required error when
    /// the value is still unresolved: exactly the error that unescaping
    /// the raw text would produce.
    pub fn value(&self) -> (r: Result<&T, Error>)
        ensures
            match self@ {
                RawOrModel::Resolved(m) => r matches Ok(v) && v@ == m,
                RawOrModel::Unresolved(s) => r matches Err(e) && e@
                    == ErrorModel::ResolutionRequired(s),
            },
    {
        match &self.0 {
            RawOrValue::Value(v) => Ok(v),
            RawOrValue::Raw(s) => Err(Error::ResolutionRequired(s.clone())),
        }
    }

    /// Mutably borrow the payload, or fail with the resolution-required
    /// error when the value is still unresolved.
    pub fn value_mut(&mut self) -> (r: Result<&mut T, Error>)
        ensures
            match r {
                Ok(p) => old(self)@ matches RawOrModel::Resolved(m) && (*p)@ == m && final(self)@
                    == RawOrModel::<T::V>::Resolved((*final(p))@),
                Err(e) => *final(self) == *old(self) && (old(self)@ matches RawOrModel::Unresolved(
                    s,
                ) && e@ == ErrorModel::ResolutionRequired(s)),
            },
    {
        match &mut self.0 {
            RawOrValue::Value(v) => Ok(v),
            RawOrValue::Raw(s) => Err(Error::ResolutionRequired(s.clone())),
        }
    }

    /// Resolve in place against `env`: a resolved value is returned
    /// unchanged; an unresolved one is interpolated, coerced, and the
    /// transition to the resolved state happens here, exactly once.  On
    /// failure the value is left untouched.
    pub fn interpolate_env<E: Environment>(&mut self, env: &E) -> (r: Result<&mut T, Error>)
        ensures
            match r {
                Ok(p) => resolve_model::<T>(old(self)@, env.env_map()) == Ok::<T::V, ErrorModel>(
                    (*p)@,
                ) && final(self)@ == RawOrModel::<T::V>::Resolved((*final(p))@),
                Err(e) => *final(self) == *old(self) && resolve_model::<T>(
                    old(self)@,
                    env.env_map(),
                ) == Err::<T::V, ErrorModel>(e@),
            },
    {
        let raw_text: Option<String> = match &self.0 {
            RawOrValue::Raw(t) => Some(t.clone()),
            RawOrValue::Value(_) => None,
        };
        if let Some(t) = raw_text {
            let interpolated = match crate::interpolation::interpolate_env(t.as_str(), env) {
                Ok(u) => u,
                Err(e) => {
                    return Err(e);
                },
            };
            let parsed: T = match T::iv_from_str(interpolated.as_str()) {
                Ok(v) => v,
                Err(e) => {
                    return Err(e);
                },
            };
            self.0 = RawOrValue::Value(parsed);
        }
        match &mut self.0 {
            RawOrValue::Value(v) => Ok(v),
            RawOrValue::Raw(s) => {
                proof {
                    assert(false);
                }
                Err(Error::ResolutionRequired(s.clone()))
            },
        }
    }

    /// The textual round trip: unresolved text renders verbatim, a
    /// resolved payload renders as its formatted form with every `$`
    /// escaped, so that re-reading through [`raw`] reproduces the value.
    pub fn to_string(&self) -> (r: String)
        ensures
            r@ == render_model::<T>(self@),
    {
        match &self.0 {
            RawOrValue::Raw(s) => s.clone(),
            RawOrValue::Value(v) => escape_str(v.fmt_iv().as_str()),
        }
    }
}

impl<T: InterpolatableValue> core::str::FromStr for RawOr<T> {
    type Err = Error;

    fn from_str(s: &str) -> Result<RawOr<T>, Error> {
        raw(s)
    }
}

/// Law: for any value satisfying the representation invariant, rendering
/// it and re-reading the text through [`raw`] yields an equal value,
/// whatever its resolution state.
pub proof fn lemma_render_raw_round_trip<T: InterpolatableValue>(m: RawOrModel<T::V>)
    requires
        model_wf::<T>(m),
        model_inv(m),
    ensures
        raw_model::<T>(render_model::<T>(m)) == Ok::<RawOrModel<T::V>, ErrorModel>(m),
{
    match m {
        RawOrModel::Unresolved(s) => {
        },
        RawOrModel::Resolved(p) => {
            let text = T::fmt_spec(p);
            lemma_escape_round_trip(text, Mode::Validate, Map::empty());
            lemma_escape_round_trip(text, Mode::Unescape, Map::empty());
            T::lemma_fmt_parse_round_trip(p);
        },
    }
}

/// Law: for any string, reading its escaped form through [`raw`] with a
/// plain-text payload resolves immediately to exactly that string, and
/// rendering reproduces the escaped form exactly.
pub proof fn lemma_escape_form_round_trip(s: Seq<char>)
    ensures
        raw_model::<String>(escape_seq(s)) == Ok::<RawOrModel<Seq<char>>, ErrorModel>(
            RawOrModel::Resolved(s),
        ),
        render_model::<String>(RawOrModel::Resolved(s)) == escape_seq(s),
{
    lemma_escape_round_trip(s, Mode::Validate, Map::empty());
    lemma_escape_round_trip(s, Mode::Unescape, Map::empty());
}

/// Law: when [`raw`] parses immediately (no lookup was needed),
/// resolving the same text against any variable source yields the same
/// payload: the eager and the deferred path cannot disagree.
pub proof fn lemma_immediate_parse_agrees<T: InterpolatableValue>(
    s: Seq<char>,
    env: Map<Seq<char>, Seq<char>>,
    p: T::V,
)
    requires
        raw_model::<T>(s) == Ok::<RawOrModel<T::V>, ErrorModel>(RawOrModel::Resolved(p)),
    ensures
        resolve_model::<T>(RawOrModel::Unresolved(s), env) == Ok::<T::V, ErrorModel>(p),
{
    lemma_unescape_done_all_modes(s, 0, Map::empty(), Mode::Interpolate, env);
}

/// Law: resolving is idempotent.  A successful resolution yields a
/// resolved state, and resolving that state against the same source (or
/// any source) yields the same payload with no second-time failure.
pub proof fn lemma_resolve_idempotent<T: InterpolatableValue>(
    m: RawOrModel<T::V>,
    env: Map<Seq<char>, Seq<char>>,
    p: T::V,
)
    requires
        resolve_model::<T>(m, env) == Ok::<T::V, ErrorModel>(p),
    ensures
        resolve_model::<T>(RawOrModel::Resolved(p), env) == Ok::<T::V, ErrorModel>(p),
{
}

/// Law: direct access to an unresolved value fails for the same reason
/// unescaping its text fails: the invariant makes the unescape outcome
/// resolution-required, which is the error [`RawOr::value`] reports.
pub proof fn lemma_value_error_is_unescape_error<M>(m: RawOrModel<M>)
    requires
        model_inv(m),
        m is Unresolved,
    ensures
        unescape_out(m->Unresolved_0) is NeedsResolution,
{
}

} // verus!
