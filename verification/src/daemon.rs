//! Which `sdid` binary the shell starts, and whether it starts one.
//!
//! The binary is looked for in this order:
//!   1. the `SDI_DAEMON_BIN` override
//!   2. the plugin layout (sibling, `<plugin_root>/daemon/bin/`)
//!   3. the XDG data install (`~/.local/share/sdi/bin/sdid`)
//!   4. `PATH` (`sdid`)
//!
//! Paths of the platform stay opaque: a place is a root of any path type and the names to
//! join to it.

use vstd::prelude::*;
use vstd::string::*;

verus! {

/// A place in the file system: names joined to a root, or, where there is no root, to the
/// empty path.
#[derive(Debug, PartialEq, Eq)]
pub struct Location<P> {
    pub root: Option<P>,
    pub parts: Vec<&'static str>,
}

/// The mathematical value of a [`Location`].
pub struct Place<P> {
    pub root: Option<P>,
    pub parts: Seq<Seq<char>>,
}

impl<P> View for Location<P> {
    type V = Place<P>;

    open spec fn view(&self) -> Place<P> {
        Place { root: self.root, parts: self.parts@.map_values(|s: &'static str| s@) }
    }
}

/// The values of a list of locations.
pub open spec fn places<P>(list: Seq<Location<P>>) -> Seq<Place<P>> {
    list.map_values(|l: Location<P>| l@)
}

/// The name of the daemon's binary.
pub fn daemon_bin_name() -> (r: &'static str)
    ensures
        r@ == "sdid"@,
{
    "sdid"
}

/// The places of the plugin layout: beside the shell, and in `daemon/bin` beside the
/// shell's directory.
pub open spec fn plugin_places<P>(exe_dir: Option<P>, exe_dir_parent: Option<P>) -> Seq<Place<P>> {
    match exe_dir {
        None => seq![],
        Some(_) => {
            let sibling = Place { root: exe_dir, parts: seq!["sdid"@] };
            match exe_dir_parent {
                None => seq![sibling],
                Some(_) => seq![
                    sibling,
                    Place { root: exe_dir_parent, parts: seq!["daemon"@, "bin"@, "sdid"@] },
                ],
            }
        },
    }
}

/// The place of the XDG data install.
pub open spec fn data_place<P>(xdg_data_home: Option<P>, home: Option<P>) -> Place<P> {
    match xdg_data_home {
        Some(_) => Place { root: xdg_data_home, parts: seq!["sdi"@, "bin"@, "sdid"@] },
        None => Place { root: home, parts: seq![".local"@, "share"@, "sdi"@, "bin"@, "sdid"@] },
    }
}

/// The places where the daemon's binary may be, in the order in which they are tried.
/// `exe_dir` is the directory of the shell's own binary, `exe_dir_parent` the directory
/// above it.
pub fn candidate_paths<P>(
    exe_dir: Option<P>,
    exe_dir_parent: Option<P>,
    xdg_data_home: Option<P>,
    home: Option<P>,
) -> (r: Vec<Location<P>>)
    ensures
        places(r@) == plugin_places(exe_dir, exe_dir_parent) + seq![
            data_place(xdg_data_home, home),
        ],
        r@.len() == 1 + if exe_dir is None {
            0int
        } else if exe_dir_parent is None {
            1
        } else {
            2
        },
        exe_dir is Some ==> r@[0].root == exe_dir && r@[0]@.parts == seq!["sdid"@],
        exe_dir is Some && exe_dir_parent is Some ==> r@[1].root == exe_dir_parent && r@[1]@.parts
            == seq!["daemon"@, "bin"@, "sdid"@],
        xdg_data_home is Some ==> r@.last().root == xdg_data_home && r@.last()@.parts
            == seq!["sdi"@, "bin"@, "sdid"@],
        xdg_data_home is None ==> r@.last().root == home && r@.last()@.parts
            == seq![".local"@, "share"@, "sdi"@, "bin"@, "sdid"@],
{
    let mut out: Vec<Location<P>> = Vec::new();
    match exe_dir {
        Some(dir) => {
            let mut sibling: Vec<&'static str> = Vec::new();
            sibling.push("sdid");
            let sibling = Location { root: Some(dir), parts: sibling };
            assert(sibling@.parts =~= seq!["sdid"@]);
            out.push(sibling);
            match exe_dir_parent {
                Some(parent) => {
                    let mut parts: Vec<&'static str> = Vec::new();
                    parts.push("daemon");
                    parts.push("bin");
                    parts.push("sdid");
                    let bundled = Location { root: Some(parent), parts };
                    assert(bundled@.parts =~= seq!["daemon"@, "bin"@, "sdid"@]);
                    out.push(bundled);
                },
                None => {},
            }
        },
        None => {},
    }
    assert(places(out@) =~= plugin_places(exe_dir, exe_dir_parent));
    let ghost before = out@;
    let mut parts: Vec<&'static str> = Vec::new();
    let root = match xdg_data_home {
        Some(data) => Some(data),
        None => {
            parts.push(".local");
            parts.push("share");
            home
        },
    };
    parts.push("sdi");
    parts.push("bin");
    parts.push("sdid");
    let last = Location { root, parts };
    assert(last@.parts =~= data_place(xdg_data_home, home).parts);
    out.push(last);
    assert(places(out@) =~= places(before).push(last@));
    proof {
        let all = places(out@);
        assert(all.len() == out@.len());
        assert(forall|i: int| 0 <= i < out@.len() ==> #[trigger] all[i] == out@[i]@);
        if exe_dir is Some {
            assert(all[0] == out@[0]@);
            if exe_dir_parent is Some {
                assert(all[1] == out@[1]@);
            }
        }
    }
    out
}

/// The binary that was chosen.
#[derive(Clone, Copy, Debug, PartialEq, Eq, Structural)]
pub enum DaemonBin {
    /// The one that `SDI_DAEMON_BIN` names.
    Override,
    /// The candidate at this place of the list.
    Candidate(usize),
    /// The bare name, which the system looks up in `PATH`.
    OnPath,
}

/// The place `i` is the first at which a candidate exists.
pub open spec fn first_existing(exists_at: Seq<bool>, i: int) -> bool {
    &&& 0 <= i < exists_at.len()
    &&& exists_at[i]
    &&& forall|j: int| 0 <= j < i ==> !exists_at[j]
}

/// The choice of a binary. The override wins where it is set, not empty, and exists;
/// otherwise the first candidate that exists; otherwise the bare name. There is always one:
/// the lookup in `PATH` is left to the system.
///
/// `override_bin` is the value of `SDI_DAEMON_BIN`, and the flags say what exists.
pub fn resolve_daemon_bin(
    override_bin: Option<&str>,
    override_exists: bool,
    candidate_exists: &[bool],
) -> (r: Option<DaemonBin>)
    ensures
        r is Some,
        r == Some(DaemonBin::Override) <==> (override_bin matches Some(path) && path@.len() > 0
            && override_exists),
        r matches Some(DaemonBin::Candidate(i)) ==> first_existing(candidate_exists@, i as int),
        r matches Some(DaemonBin::Candidate(i)) ==> i < candidate_exists@.len()
            && candidate_exists@[i as int] && forall|j: int|
            0 <= j < i ==> !#[trigger] candidate_exists@[j],
        r == Some(DaemonBin::OnPath) ==> forall|j: int|
            0 <= j < candidate_exists@.len() ==> !#[trigger] candidate_exists@[j],
{
    match override_bin {
        Some(path) => {
            if !path.is_empty() && override_exists {
                return Some(DaemonBin::Override);
            }
        },
        None => {},
    }
    let mut i: usize = 0;
    while i < candidate_exists.len()
        invariant
            i <= candidate_exists@.len(),
            !(override_bin matches Some(path) && path@.len() > 0 && override_exists),
            forall|j: int| 0 <= j < i ==> !#[trigger] candidate_exists@[j],
        decreases candidate_exists@.len() - i,
    {
        if candidate_exists[i] {
            return Some(DaemonBin::Candidate(i));
        }
        i += 1;
    }
    Some(DaemonBin::OnPath)
}

/// Why no daemon is started.
#[derive(Clone, Copy, Debug, PartialEq, Eq, Structural)]
pub enum SpawnError {
    /// `SDI_NO_AUTOSPAWN` is set; the shell relies on a daemon that runs already.
    AutospawnOff,
    /// There is no binary.
    NoCandidate,
}

impl SpawnError {
    /// What the message says.
    pub open spec fn text(self) -> Seq<char> {
        match self {
            SpawnError::AutospawnOff => "SDI_NO_AUTOSPAWN is set"@,
            SpawnError::NoCandidate => "no sdid candidate"@,
        }
    }

    /// The message of the error.
    pub fn message(self) -> (r: &'static str)
        ensures
            r@ == self.text(),
            r@ == match self {
                SpawnError::AutospawnOff => "SDI_NO_AUTOSPAWN is set"@,
                SpawnError::NoCandidate => "no sdid candidate"@,
            },
    {
        match self {
            SpawnError::AutospawnOff => "SDI_NO_AUTOSPAWN is set",
            SpawnError::NoCandidate => "no sdid candidate",
        }
    }
}

/// What to start, if anything. A value of `SDI_NO_AUTOSPAWN` that is not empty forbids it.
pub fn spawn(no_autospawn: Option<&str>, bin: Option<DaemonBin>) -> (r: Result<
    DaemonBin,
    SpawnError,
>)
    ensures
        r == if no_autospawn matches Some(v) && v@.len() > 0 {
            Err::<DaemonBin, SpawnError>(SpawnError::AutospawnOff)
        } else {
            match bin {
                Some(b) => Ok::<DaemonBin, SpawnError>(b),
                None => Err::<DaemonBin, SpawnError>(SpawnError::NoCandidate),
            }
        },
{
    match no_autospawn {
        Some(v) => {
            if !v.is_empty() {
                return Err(SpawnError::AutospawnOff);
            }
        },
        None => {},
    }
    match bin {
        Some(b) => Ok(b),
        None => Err(SpawnError::NoCandidate),
    }
}

/// The value of a location is its root and all its names, in their order.
pub proof fn law_place_has_all_parts<P>(l: Location<P>)
    ensures
        l@.root == l.root,
        l@.parts.len() == l.parts@.len(),
        forall|i: int| 0 <= i < l.parts@.len() ==> #[trigger] l@.parts[i] == l.parts@[i]@,
{
}

/// The candidates come in this order: beside the shell, in the plugin's directory, in the XDG
/// data install. What is unknown of the shell's own place leaves its candidates out, and
/// never the data install.
pub proof fn law_candidates_in_order<P>(dir: P, parent: P, xdg_data_home: Option<P>, home: Option<P>)
    ensures
        plugin_places(Some(dir), Some(parent)) == seq![
            Place { root: Some(dir), parts: seq!["sdid"@] },
            Place { root: Some(parent), parts: seq!["daemon"@, "bin"@, "sdid"@] },
        ],
        plugin_places(Some(dir), None) == seq![Place { root: Some(dir), parts: seq!["sdid"@] }],
        plugin_places(None::<P>, Some(parent)).len() == 0,
        plugin_places(None::<P>, None::<P>).len() == 0,
        xdg_data_home is Some ==> data_place(xdg_data_home, home) == (Place {
            root: xdg_data_home,
            parts: seq!["sdi"@, "bin"@, "sdid"@],
        }),
        data_place(None, home) == (Place {
            root: home,
            parts: seq![".local"@, "share"@, "sdi"@, "bin"@, "sdid"@],
        }),
{
}

/// A candidate is the first that exists exactly where it exists and none before it does,
/// wherever in the list it stands.
pub proof fn law_first_existing(exists_at: Seq<bool>, i: int)
    requires
        0 <= i < exists_at.len(),
    ensures
        first_existing(exists_at, i) <==> exists_at[i] && forall|j: int|
            0 <= j < i ==> !#[trigger] exists_at[j],
{
}

} // verus!
