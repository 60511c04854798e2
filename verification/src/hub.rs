use vstd::prelude::*;
use vstd::string::{StrSliceExecFns, StringExecFns};

use crate::version::Version;

verus! {

/// An installed editor: its version and the directory it is installed in.
#[derive(Debug, Clone)]
pub struct Installation {
    version: Version,
    path: String,
}

/// The mathematical value of an [`Installation`].
pub struct InstallationView {
    pub version: Version,
    pub path: Seq<char>,
}

impl View for Installation {
    type V = InstallationView;

    closed spec fn view(&self) -> InstallationView {
        InstallationView { version: self.version, path: self.path@ }
    }
}

impl Installation {
    pub fn new(version: Version, path: String) -> (i: Installation)
        ensures
            i@.version == version,
            i@.path == path@,
    {
        Installation { version, path }
    }

    pub fn version(&self) -> (v: &Version)
        ensures
            *v == self@.version,
    {
        &self.version
    }

    pub fn version_owned(&self) -> (v: Version)
        ensures
            v == self@.version,
    {
        self.version
    }

    pub fn path(&self) -> (p: &str)
        ensures
            p@ == self@.path,
    {
        self.path.as_str()
    }
}

impl From<Installation> for Version {
    /// The version of the installation.
    fn from(item: Installation) -> (v: Version) {
        item.version_owned()
    }
}

impl vstd::std_specs::convert::FromSpecImpl<Installation> for Version {
    open spec fn obeys_from_spec() -> bool {
        true
    }

    open spec fn from_spec(item: Installation) -> Version {
        item@.version
    }
}

/// The path `base` with the relative component `name` appended, with a `/`
/// between them unless `base` is empty or already ends in `/`.
pub open spec fn join_path(base: Seq<char>, name: Seq<char>) -> Seq<char> {
    if base.len() == 0 || base.last() == '/' {
        base + name
    } else {
        base + seq!['/'] + name
    }
}

/// Joining keeps the base path as a prefix and ends with the appended name;
/// between them stands exactly one `/`, or nothing when the base is empty or
/// already ends in `/`.
pub proof fn lemma_join_path(base: Seq<char>, name: Seq<char>)
    ensures
        join_path(base, name).subrange(0, base.len() as int) == base,
        join_path(base, name).len() >= base.len() + name.len(),
        join_path(base, name).subrange(
            join_path(base, name).len() - name.len(),
            join_path(base, name).len() as int,
        ) == name,
        base.len() > 0 && base.last() != '/' ==> join_path(base, name).len() == base.len() + 1
            + name.len() && join_path(base, name)[base.len() as int] == '/',
        base.len() == 0 || base.last() == '/' ==> join_path(base, name).len() == base.len()
            + name.len(),
{
    let j = join_path(base, name);
    assert(j.subrange(0, base.len() as int) =~= base);
    assert(j.subrange(j.len() - name.len(), j.len() as int) =~= name);
}

/// The name of the application bundle inside an editor's directory.
pub open spec fn installation_binary() -> Seq<char> {
    seq!['U', 'n', 'i', 't', 'y', '.', 'a', 'p', 'p']
}

/// An editor as the Unity Hub lists it: its version, where its application
/// bundle is, and whether it was added by hand.
#[derive(Debug, Clone)]
pub struct EditorInstallation {
    pub version: Version,
    pub location: String,
    pub manual: bool,
}

impl EditorInstallation {
    /// The editor of an installation: its version, the `Unity.app` bundle in
    /// its directory, added by hand.
    pub fn from(installation: Installation) -> (e: EditorInstallation)
        ensures
            e.version == installation@.version,
            e.location@ == join_path(installation@.path, installation_binary()),
            e.manual,
    {
        let path = installation.path();
        let n = path.unicode_len();
        let base = String::from_str(path);
        let base = if n == 0 || path.get_char(n - 1) == '/' {
            base
        } else {
            base.concat("/")
        };
        proof {
            reveal_strlit("/");
            reveal_strlit("Unity.app");
        }
        let location = base.concat("Unity.app");
        proof {
            assert(location@ =~= join_path(installation@.path, installation_binary()));
        }
        EditorInstallation { version: installation.version_owned(), location, manual: true }
    }
}

} // verus!
