//! The permission probe: which capabilities a node is asked about, the
//! command that asks as another user, and how its outcome is judged.

use vstd::prelude::*;

verus! {

/// An access right that is probed on a node.
#[derive(Clone, Copy, Debug, PartialEq, Eq, Structural)]
pub enum Capability {
    Read,
    Write,
    Traverse,
}

impl Capability {
    /// The letter that stands for the capability in a rendered line.
    pub open spec fn letter_spec(self) -> char {
        match self {
            Capability::Read => 'R',
            Capability::Write => 'W',
            Capability::Traverse => 'T',
        }
    }

    /// The operand of `test` that checks the capability.
    pub open spec fn test_flag_spec(self) -> Seq<char> {
        match self {
            Capability::Read => seq!['-', 'r'],
            Capability::Write => seq!['-', 'w'],
            Capability::Traverse => seq!['-', 'x'],
        }
    }

    pub fn letter(&self) -> (r: &'static str)
        ensures
            r@ == seq![self.letter_spec()],
    {
        proof {
            reveal_strlit("R");
            reveal_strlit("W");
            reveal_strlit("T");
        }
        match self {
            Capability::Read => "R",
            Capability::Write => "W",
            Capability::Traverse => "T",
        }
    }

    pub fn test_flag(&self) -> (r: &'static str)
        ensures
            r@ == self.test_flag_spec(),
    {
        proof {
            reveal_strlit("-r");
            reveal_strlit("-w");
            reveal_strlit("-x");
        }
        match self {
            Capability::Read => "-r",
            Capability::Write => "-w",
            Capability::Traverse => "-x",
        }
    }
}

/// The capabilities probed on a node: read and write, and traverse for a
/// directory only.
pub open spec fn capabilities_spec(is_dir: bool) -> Seq<Capability> {
    if is_dir {
        seq![Capability::Read, Capability::Write, Capability::Traverse]
    } else {
        seq![Capability::Read, Capability::Write]
    }
}

pub fn capabilities_for(is_dir: bool) -> (r: Vec<Capability>)
    ensures
        r@ == capabilities_spec(is_dir),
{
    let mut r: Vec<Capability> = Vec::new();
    r.push(Capability::Read);
    r.push(Capability::Write);
    if is_dir {
        r.push(Capability::Traverse);
    }
    assert(r@ =~= capabilities_spec(is_dir));
    r
}

/// The command line that asks whether `user` holds `cap` on `path`: the
/// privilege-switch helper runs `test` as that user.
pub open spec fn probe_command_spec(user: Seq<char>, cap: Capability, path: Seq<char>) -> Seq<
    Seq<char>,
> {
    seq![
        seq!['s', 'u', 'd', 'o'],
        seq!['-', 'u'],
        user,
        seq!['t', 'e', 's', 't'],
        cap.test_flag_spec(),
        path,
    ]
}

/// The program and its arguments, program first.
pub fn probe_command(user: &str, cap: Capability, path: &str) -> (r: Vec<String>)
    ensures
        r@.map_values(|s: String| s@) == probe_command_spec(user@, cap, path@),
{
    proof {
        reveal_strlit("sudo");
        reveal_strlit("-u");
        reveal_strlit("test");
    }
    let mut r: Vec<String> = Vec::new();
    r.push(String::from_str("sudo"));
    r.push(String::from_str("-u"));
    r.push(String::from_str(user));
    r.push(String::from_str("test"));
    r.push(String::from_str(cap.test_flag()));
    r.push(String::from_str(path));
    let ghost spec_cmd = probe_command_spec(user@, cap, path@);
    assert(r@.map_values(|s: String| s@).len() == 6);
    assert forall|i: int| 0 <= i < 6 implies r@.map_values(|s: String| s@)[i] == spec_cmd[i] by {
        assert(r@.map_values(|s: String| s@)[i] == r@[i]@);
    }
    assert(r@.map_values(|s: String| s@) =~= spec_cmd);
    r
}

/// What became of one run of the probe command.
#[derive(Clone, Copy, Debug, PartialEq, Eq, Structural)]
pub enum ProbeOutcome {
    /// The command could not be started.
    NotRun,
    /// The command ran and exited, successfully or not.
    Exited { success: bool },
}

/// A capability is granted only when the probe ran and reported success;
/// every other outcome counts as denied.
pub open spec fn granted(o: ProbeOutcome) -> bool {
    o == ProbeOutcome::Exited { success: true }
}

pub fn verdict(o: ProbeOutcome) -> (r: bool)
    ensures
        r == granted(o),
{
    match o {
        ProbeOutcome::Exited { success } => success,
        ProbeOutcome::NotRun => false,
    }
}

/// The probed access of one node. `traverse` is present exactly when the node
/// is a directory.
#[derive(Clone, Copy, Debug, PartialEq, Eq, Structural)]
pub struct PermissionResult {
    pub read: bool,
    pub write: bool,
    pub traverse: Option<bool>,
}

/// The access of a node judged from the outcomes of its probes.
pub open spec fn judged(read: ProbeOutcome, write: ProbeOutcome, traverse: Option<ProbeOutcome>) -> PermissionResult {
    PermissionResult {
        read: granted(read),
        write: granted(write),
        traverse: match traverse {
            Some(t) => Some(granted(t)),
            None => None,
        },
    }
}

impl PermissionResult {
    pub open spec fn is_dir(self) -> bool {
        self.traverse is Some
    }

    /// The outcome for `cap`; a capability that does not apply is denied.
    pub open spec fn allows(self, cap: Capability) -> bool {
        match cap {
            Capability::Read => self.read,
            Capability::Write => self.write,
            Capability::Traverse => self.traverse == Some(true),
        }
    }

    /// Judges the outcomes of the probes of one node. `traverse` is given
    /// for a directory and absent for anything else.
    pub fn from_outcomes(read: ProbeOutcome, write: ProbeOutcome, traverse: Option<ProbeOutcome>) -> (r: PermissionResult)
        ensures
            r == judged(read, write, traverse),
    {
        let t = match traverse {
            Some(t) => Some(verdict(t)),
            None => None,
        };
        PermissionResult { read: verdict(read), write: verdict(write), traverse: t }
    }

    /// The result for a node on which every probe was judged by `allow`.
    pub fn uniform(is_dir: bool, allow: bool) -> (r: PermissionResult)
        ensures
            r.read == allow,
            r.write == allow,
            r.traverse == (if is_dir { Some(allow) } else { None }),
    {
        PermissionResult { read: allow, write: allow, traverse: if is_dir { Some(allow) } else { None } }
    }
}

} // verus!
