//! Permissions on devices that are mapped into a container.

use vstd::prelude::*;
use vstd::string::StringExecFns;

use crate::errors::Error;

verus! {

/// Permissions on devices that are mapped into a container.
#[derive(Debug, Eq, PartialEq, Clone, Copy, Structural)]
pub struct DevicePermissions {
    /// Can the container read from this device?
    pub read: bool,
    /// Can the container write to this device?
    pub write: bool,
    /// Can the container call `mknod` for this device?
    pub mknod: bool,
}

/// The textual form: `r`, `w` and `m` in that order, each present when
/// the corresponding permission is granted.
pub open spec fn dp_fmt(p: DevicePermissions) -> Seq<char> {
    (if p.read {
        seq!['r']
    } else {
        Seq::empty()
    }) + (if p.write {
        seq!['w']
    } else {
        Seq::empty()
    }) + (if p.mknod {
        seq!['m']
    } else {
        Seq::empty()
    })
}

/// What parsing grants on each input: a leading `r`, then `w`, then `m`,
/// each optional; whatever follows is ignored.  Parsing never fails.
pub open spec fn dp_parse(s: Seq<char>) -> DevicePermissions {
    let read = s.len() > 0 && s[0] == 'r';
    let wi: int = if read {
        1int
    } else {
        0int
    };
    let write = wi < s.len() && s[wi] == 'w';
    let mi: int = wi + if write {
        1int
    } else {
        0int
    };
    let mknod = mi < s.len() && s[mi] == 'm';
    DevicePermissions { read, write, mknod }
}

impl Default for DevicePermissions {
    /// By default every permission is granted.
    fn default() -> (r: DevicePermissions)
        ensures
            r == (DevicePermissions { read: true, write: true, mknod: true }),
    {
        DevicePermissions { read: true, write: true, mknod: true }
    }
}

impl DevicePermissions {
    /// The string representation of these permissions.
    pub fn to_string(&self) -> (r: String)
        ensures
            r@ == dp_fmt(*self),
    {
        let mut out = String::new();
        if self.read {
            out.append("r");
        }
        if self.write {
            out.append("w");
        }
        if self.mknod {
            out.append("m");
        }
        proof {
            reveal_strlit("r");
            reveal_strlit("w");
            reveal_strlit("m");
            assert(out@ =~= dp_fmt(*self));
        }
        out
    }

    /// Parse permissions from the front of a string; never fails.
    pub fn from_str(s: &str) -> (r: Result<DevicePermissions, Error>)
        ensures
            r matches Ok(p) && p == dp_parse(s@),
    {
        let n = s.unicode_len();
        let mut i: usize = 0;
        let read = n > 0 && s.get_char(0) == 'r';
        if read {
            i = 1;
        }
        let write = i < n && s.get_char(i) == 'w';
        if write {
            i += 1;
        }
        let mknod = i < n && s.get_char(i) == 'm';
        Ok(DevicePermissions { read, write, mknod })
    }
}

/// Law: formatting permissions and parsing the result yields them back.
pub proof fn lemma_permissions_round_trip(p: DevicePermissions)
    ensures
        dp_parse(dp_fmt(p)) == p,
{
}

} // verus!
