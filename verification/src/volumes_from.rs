//! Mounting the volumes of another service or container.

use vstd::prelude::*;
use vstd::string::StrSliceExecFns;
use vstd::string::StringExecFns;

use crate::environment::str_eq;
use crate::errors::Error;
use crate::errors::ErrorModel;
use crate::raw_or::InterpolatableValue;

verus! {

/// The access mode volumes are mounted with.
#[derive(Debug, Clone, Copy, PartialEq, Eq, Structural)]
pub enum VolumeModes {
    /// Volumes are read-write (the default; never serialized).
    ReadWrite,
    /// Volumes are read-only.
    ReadOnly,
}

/// The textual form of a mode.
pub open spec fn mode_fmt(m: VolumeModes) -> Seq<char> {
    if m is ReadOnly {
        "ro"@
    } else {
        "rw"@
    }
}

/// Which mode a string denotes, if any.
pub open spec fn mode_parse(s: Seq<char>) -> Option<VolumeModes> {
    if s == "ro"@ {
        Some(VolumeModes::ReadOnly)
    } else if s == "rw"@ {
        Some(VolumeModes::ReadWrite)
    } else {
        None
    }
}

impl Default for VolumeModes {
    /// The default mode is read-write.
    fn default() -> (r: VolumeModes)
        ensures
            r == VolumeModes::ReadWrite,
    {
        VolumeModes::ReadWrite
    }
}

impl VolumeModes {
    /// The string representation of this mode.
    pub fn to_string(&self) -> (r: String)
        ensures
            r@ == mode_fmt(*self),
    {
        match self {
            VolumeModes::ReadOnly => "ro".to_owned(),
            VolumeModes::ReadWrite => "rw".to_owned(),
        }
    }

    /// Parse a mode from its string representation.
    pub fn from_str(s: &str) -> (r: Result<VolumeModes, Error>)
        ensures
            match mode_parse(s@) {
                Some(m) => r matches Ok(v) && v == m,
                None => r matches Err(e) && e@ == ErrorModel::InvalidValue("mode"@, s@),
            },
    {
        if str_eq(s, "ro") {
            Ok(VolumeModes::ReadOnly)
        } else if str_eq(s, "rw") {
            Ok(VolumeModes::ReadWrite)
        } else {
            Err(Error::InvalidValue("mode".to_owned(), s.to_owned()))
        }
    }
}

/// The name of either a service or a container.
#[derive(Debug, Clone, PartialEq, Eq)]
pub enum ServiceOrContainer {
    /// The local name of a service defined in the same document.
    Service(String),
    /// The global name of a running container.
    Container(String),
}

/// The model of a [`ServiceOrContainer`].
pub enum ServiceOrContainerModel {
    /// The local name of a service defined in the same document.
    Service(Seq<char>),
    /// The global name of a running container.
    Container(Seq<char>),
}

impl View for ServiceOrContainer {
    type V = ServiceOrContainerModel;

    open spec fn view(&self) -> ServiceOrContainerModel {
        match self {
            ServiceOrContainer::Service(n) => ServiceOrContainerModel::Service(n@),
            ServiceOrContainer::Container(n) => ServiceOrContainerModel::Container(n@),
        }
    }
}

/// Mount the volumes defined by another container or service into this
/// one.
#[derive(Debug, Clone, PartialEq, Eq)]
pub struct VolumesFrom {
    /// Where do we get these volumes from?
    pub source: ServiceOrContainer,
    /// What mode should we apply to these volumes?
    pub mode: VolumeModes,
}

/// The model of a [`VolumesFrom`].
pub struct VolumesFromModel {
    /// Where the volumes come from.
    pub source: ServiceOrContainerModel,
    /// The mode they are mounted with.
    pub mode: VolumeModes,
}

impl View for VolumesFrom {
    type V = VolumesFromModel;

    open spec fn view(&self) -> VolumesFromModel {
        VolumesFromModel { source: self.source@, mode: self.mode }
    }
}

/// The first position at or after `i` that holds `:`, or -1 if none.
pub open spec fn first_colon_from(s: Seq<char>, i: int) -> int
    decreases s.len() - i
        when 0 <= i <= s.len()
{
    if i == s.len() {
        -1
    } else if s[i] == ':' {
        i
    } else {
        first_colon_from(s, i + 1)
    }
}

pub proof fn lemma_first_colon_spec(s: Seq<char>, i: int)
    requires
        0 <= i <= s.len(),
    ensures
        first_colon_from(s, i) == -1 ==> forall|k: int| i <= k < s.len() ==> s[k] != ':',
        first_colon_from(s, i) != -1 ==> i <= first_colon_from(s, i) < s.len() && s[first_colon_from(
            s,
            i,
        )] == ':' && forall|k: int| i <= k < first_colon_from(s, i) ==> s[k] != ':',
    decreases s.len() - i,
{
    if i < s.len() && s[i] != ':' {
        lemma_first_colon_spec(s, i + 1);
    }
}

/// A usable name: nonempty and free of `:`.
pub open spec fn name_ok(n: Seq<char>) -> bool {
    n.len() > 0 && forall|k: int| 0 <= k < n.len() ==> n[k] != ':'
}

/// The textual form: the bare service name, or `container:` plus the
/// container name, with `:` and the mode appended when it is not the
/// default.
pub open spec fn vf_fmt(m: VolumesFromModel) -> Seq<char> {
    let base = match m.source {
        ServiceOrContainerModel::Service(n) => n,
        ServiceOrContainerModel::Container(n) => "container:"@ + n,
    };
    if m.mode == VolumeModes::ReadWrite {
        base
    } else {
        base + seq![':'] + mode_fmt(m.mode)
    }
}

/// What parsing yields on each input: one to three `:`-separated
/// segments, the first being `container` to name a container, the last
/// optionally a mode; every segment must be nonempty.
pub open spec fn vf_parse(s: Seq<char>) -> Option<VolumesFromModel> {
    let c1 = first_colon_from(s, 0);
    if c1 == -1 {
        if s.len() > 0 {
            Some(
                VolumesFromModel {
                    source: ServiceOrContainerModel::Service(s),
                    mode: VolumeModes::ReadWrite,
                },
            )
        } else {
            None
        }
    } else {
        let a = s.subrange(0, c1);
        let c2 = first_colon_from(s, c1 + 1);
        if a == "container"@ {
            if c2 == -1 {
                let b = s.subrange(c1 + 1, s.len() as int);
                if b.len() > 0 {
                    Some(
                        VolumesFromModel {
                            source: ServiceOrContainerModel::Container(b),
                            mode: VolumeModes::ReadWrite,
                        },
                    )
                } else {
                    None
                }
            } else {
                let b = s.subrange(c1 + 1, c2);
                let c = s.subrange(c2 + 1, s.len() as int);
                if b.len() > 0 && first_colon_from(s, c2 + 1) == -1 {
                    match mode_parse(c) {
                        Some(m) => Some(
                            VolumesFromModel {
                                source: ServiceOrContainerModel::Container(b),
                                mode: m,
                            },
                        ),
                        None => None,
                    }
                } else {
                    None
                }
            }
        } else {
            if c2 == -1 && a.len() > 0 {
                let b = s.subrange(c1 + 1, s.len() as int);
                match mode_parse(b) {
                    Some(m) => Some(
                        VolumesFromModel { source: ServiceOrContainerModel::Service(a), mode: m },
                    ),
                    None => None,
                }
            } else {
                None
            }
        }
    }
}

/// The values whose textual form parses back to themselves: the name is
/// nonempty and free of `:`, and a service named `container` can only
/// carry the default mode (else its form would read as a container).
pub open spec fn vf_wf(m: VolumesFromModel) -> bool {
    match m.source {
        ServiceOrContainerModel::Service(n) => name_ok(n) && (n == "container"@ ==> m.mode
            == VolumeModes::ReadWrite),
        ServiceOrContainerModel::Container(n) => name_ok(n),
    }
}

impl VolumesFrom {
    /// Mount the volumes of a service defined in the same document.
    pub fn service(service: &str) -> (r: VolumesFrom)
        ensures
            r@ == (VolumesFromModel {
                source: ServiceOrContainerModel::Service(service@),
                mode: VolumeModes::ReadWrite,
            }),
    {
        VolumesFrom {
            source: ServiceOrContainer::Service(service.to_owned()),
            mode: Default::default(),

        }
    }

    /// Mount the volumes of a container defined elsewhere.
    pub fn container(container: &str) -> (r: VolumesFrom)
        ensures
            r@ == (VolumesFromModel {
                source: ServiceOrContainerModel::Container(container@),
                mode: VolumeModes::ReadWrite,
            }),
    {
        VolumesFrom {
            source: ServiceOrContainer::Container(container.to_owned()),
            mode: Default::default(),

        }
    }

    /// The string representation of this value.
    pub fn to_string(&self) -> (r: String)
        ensures
            r@ == vf_fmt(self@),
    {
        self.fmt_iv()
    }

    /// Parse from the string representation.
    pub fn from_str(s: &str) -> (r: Result<VolumesFrom, Error>)
        ensures
            match vf_parse(s@) {
                Some(m) => r matches Ok(v) && v@ == m,
                None => r matches Err(e) && e@ == ErrorModel::InvalidValue("volumes_from"@, s@),
            },
    {
        Self::iv_from_str(s)
    }
}

/// Scan forward from `from` for the first `:`.
fn scan_colon(s: &str, n: usize, from: usize) -> (r: Option<usize>)
    requires
        n == s@.len(),
        from <= n,
    ensures
        match r {
            Some(j) => from <= j < n && first_colon_from(s@, from as int) == j as int,
            None => first_colon_from(s@, from as int) == -1,
        },
{
    let mut j = from;
    while j < n
        invariant
            from <= j <= n,
            n == s@.len(),
            first_colon_from(s@, from as int) == first_colon_from(s@, j as int),
        decreases n - j,
    {
        if s.get_char(j) == ':' {
            return Some(j);
        }
        j += 1;
    }
    None
}

impl InterpolatableValue for VolumesFrom {
    open spec fn parse_spec(s: Seq<char>) -> Option<VolumesFromModel> {
        vf_parse(s)
    }

    open spec fn fmt_spec(m: VolumesFromModel) -> Seq<char> {
        vf_fmt(m)
    }

    open spec fn wf_model(m: VolumesFromModel) -> bool {
        vf_wf(m)
    }

    open spec fn type_label() -> Seq<char> {
        "volumes_from"@
    }

    fn iv_from_str(s: &str) -> (r: Result<Self, Error>) {
        let n = s.unicode_len();
        match scan_colon(s, n, 0) {
            None => {
                if n > 0 {
                    Ok(
                        VolumesFrom {
                            source: ServiceOrContainer::Service(s.to_owned()),
                            mode: VolumeModes::ReadWrite,

                        },
                    )
                } else {
                    Err(Error::InvalidValue("volumes_from".to_owned(), s.to_owned()))
                }
            },
            Some(p1) => {
                let a = s.substring_char(0, p1);
                let c2 = scan_colon(s, n, p1 + 1);
                if str_eq(a, "container") {
                    match c2 {
                        None => {
                            if p1 + 1 < n {
                                let b = s.substring_char(p1 + 1, n);
                                Ok(
                                    VolumesFrom {
                                        source: ServiceOrContainer::Container(b.to_owned()),
                                        mode: VolumeModes::ReadWrite,

                                    },
                                )
                            } else {
                                Err(Error::InvalidValue("volumes_from".to_owned(), s.to_owned()))
                            }
                        },
                        Some(p2) => {
                            match scan_colon(s, n, p2 + 1) {
                                Some(_) => Err(
                                    Error::InvalidValue("volumes_from".to_owned(), s.to_owned()),
                                ),
                                None => {
                                    if p1 + 1 < p2 {
                                        let b = s.substring_char(p1 + 1, p2);
                                        let c = s.substring_char(p2 + 1, n);
                                        if str_eq(c, "ro") {
                                            Ok(
                                                VolumesFrom {
                                                    source: ServiceOrContainer::Container(
                                                        b.to_owned(),
                                                    ),
                                                    mode: VolumeModes::ReadOnly,

                                                },
                                            )
                                        } else if str_eq(c, "rw") {
                                            Ok(
                                                VolumesFrom {
                                                    source: ServiceOrContainer::Container(
                                                        b.to_owned(),
                                                    ),
                                                    mode: VolumeModes::ReadWrite,

                                                },
                                            )
                                        } else {
                                            Err(
                                                Error::InvalidValue(
                                                    "volumes_from".to_owned(),
                                                    s.to_owned(),
                                                ),
                                            )
                                        }
                                    } else {
                                        Err(
                                            Error::InvalidValue(
                                                "volumes_from".to_owned(),
                                                s.to_owned(),
                                            ),
                                        )
                                    }
                                },
                            }
                        },
                    }
                } else {
                    match c2 {
                        Some(_) => Err(Error::InvalidValue("volumes_from".to_owned(), s.to_owned())),
                        None => {
                            if p1 > 0 {
                                let b = s.substring_char(p1 + 1, n);
                                if str_eq(b, "ro") {
                                    Ok(
                                        VolumesFrom {
                                            source: ServiceOrContainer::Service(a.to_owned()),
                                            mode: VolumeModes::ReadOnly,

                                        },
                                    )
                                } else if str_eq(b, "rw") {
                                    Ok(
                                        VolumesFrom {
                                            source: ServiceOrContainer::Service(a.to_owned()),
                                            mode: VolumeModes::ReadWrite,

                                        },
                                    )
                                } else {
                                    Err(
                                        Error::InvalidValue("volumes_from".to_owned(), s.to_owned()),
                                    )
                                }
                            } else {
                                Err(Error::InvalidValue("volumes_from".to_owned(), s.to_owned()))
                            }
                        },
                    }
                }
            },
        }
    }

    fn fmt_iv(&self) -> (r: String) {
        let mut out: String = match &self.source {
            ServiceOrContainer::Service(n) => n.clone(),
            ServiceOrContainer::Container(n) => {
                let mut o = "container:".to_owned();
                o.append(n.as_str());
                o
            },
        };
        match self.mode {
            VolumeModes::ReadWrite => {},
            VolumeModes::ReadOnly => {
                out.append(":");
                out.append("ro");
                proof {
                    reveal_strlit(":");
                    assert(":"@ =~= seq![':']);
                }
            },
        }
        proof {
            assert(out@ =~= vf_fmt(self@));
        }
        out
    }

    proof fn lemma_parse_wf(s: Seq<char>) {
        let c1 = first_colon_from(s, 0);
        lemma_first_colon_spec(s, 0);
        if c1 != -1 {
            lemma_first_colon_spec(s, c1 + 1);
            let c2 = first_colon_from(s, c1 + 1);
            if c2 != -1 {
                lemma_first_colon_spec(s, c2 + 1);
            }
        }
    }

    proof fn lemma_fmt_parse_round_trip(m: VolumesFromModel) {
        reveal_strlit("container");
        reveal_strlit("container:");
        reveal_strlit("ro");
        reveal_strlit("rw");
        let s = vf_fmt(m);
        match m.source {
            ServiceOrContainerModel::Service(n) => {
                if m.mode == VolumeModes::ReadWrite {
                    lemma_first_colon_none(n);
                } else {
                    assert(s == n + seq![':'] + mode_fmt(m.mode));
                    assert(s[n.len() as int] == ':');
                    assert(forall|k: int| 0 <= k < n.len() ==> s[k] == n[k]);
                    lemma_first_colon_found(s, 0, n.len() as int);
                    assert(s.subrange(0, n.len() as int) =~= n);
                    assert(n != "container"@);
                    assert(s.subrange(n.len() as int + 1, s.len() as int) =~= mode_fmt(m.mode));
                    assert(forall|k: int|
                        n.len() + 1 <= k < s.len() ==> s[k] == mode_fmt(m.mode)[k - n.len() - 1]);
                    assert(forall|k: int| n.len() + 1 <= k < s.len() ==> s[k] != ':');
                    lemma_first_colon_spec(s, n.len() as int + 1);
                    assert(first_colon_from(s, n.len() as int + 1) == -1);
                    assert(mode_parse(mode_fmt(m.mode)) == Some(m.mode));
                }
            },
            ServiceOrContainerModel::Container(n) => {
                let pre = "container:"@;
                assert(pre.len() == 10);
                assert(pre[9] == ':');
                assert(forall|k: int| 0 <= k < 9 ==> pre[k] != ':');
                if m.mode == VolumeModes::ReadWrite {
                    assert(s == pre + n);
                    assert(forall|k: int| 0 <= k < 9 ==> s[k] == pre[k]);
                    assert(s[9] == ':');
                    lemma_first_colon_found(s, 0, 9);
                    assert(s.subrange(0, 9) =~= "container"@);
                    assert(forall|k: int| 10 <= k < s.len() ==> s[k] == n[k - 10]);
                    lemma_first_colon_spec(s, 10);
                    assert(first_colon_from(s, 10) == -1);
                    assert(s.subrange(10, s.len() as int) =~= n);
                } else {
                    assert(s == pre + n + seq![':'] + mode_fmt(m.mode));
                    assert(forall|k: int| 0 <= k < 9 ==> s[k] == pre[k]);
                    assert(s[9] == ':');
                    lemma_first_colon_found(s, 0, 9);
                    assert(s.subrange(0, 9) =~= "container"@);
                    let q = 10 + n.len() as int;
                    assert(forall|k: int| 10 <= k < q ==> s[k] == n[k - 10]);
                    assert(s[q] == ':');
                    lemma_first_colon_found(s, 10, q);
                    assert(s.subrange(10, q) =~= n);
                    assert(forall|k: int|
                        q + 1 <= k < s.len() ==> s[k] == mode_fmt(m.mode)[k - q - 1]);
                    assert(forall|k: int| q + 1 <= k < s.len() ==> s[k] != ':');
                    lemma_first_colon_spec(s, q + 1);
                    assert(first_colon_from(s, q + 1) == -1);
                    assert(s.subrange(q + 1, s.len() as int) =~= mode_fmt(m.mode));
                    assert(mode_parse(mode_fmt(m.mode)) == Some(m.mode));
                }
            },
        }
    }
}

/// A sequence with no `:` has no first colon.
proof fn lemma_first_colon_none(n: Seq<char>)
    requires
        forall|k: int| 0 <= k < n.len() ==> n[k] != ':',
    ensures
        first_colon_from(n, 0) == -1,
{
    lemma_first_colon_spec(n, 0);
    if first_colon_from(n, 0) != -1 {
        assert(n[first_colon_from(n, 0)] == ':');
    }
}

/// Whoever exhibits the first `:` has found `first_colon_from`.
proof fn lemma_first_colon_found(s: Seq<char>, i: int, j: int)
    requires
        0 <= i <= j < s.len(),
        s[j] == ':',
        forall|k: int| i <= k < j ==> s[k] != ':',
    ensures
        first_colon_from(s, i) == j,
    decreases j - i,
{
    if i < j {
        lemma_first_colon_found(s, i + 1, j);
    }
}

} // verus!
