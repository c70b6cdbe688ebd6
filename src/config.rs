use vstd::prelude::*;
use vstd::string::StrSliceExecFns;

verus! {

/// The part a node plays in the network.
#[derive(Clone, Copy, Debug, PartialEq, Eq, Structural)]
pub enum RoleType {
    Validator,
    FullNode,
}

/// The name of a role, as configuration files write it.
pub open spec fn role_name(role: RoleType) -> Seq<char> {
    match role {
        RoleType::Validator => "validator"@,
        RoleType::FullNode => "full_node"@,
    }
}

/// A role name that names no role; holds the rejected text.
#[derive(Debug)]
pub struct ParseRoleError(pub String);

fn same_text(a: &str, b: &str) -> (r: bool)
    ensures
        r == (a@ == b@),
{
    let n = a.unicode_len();
    if n != b.unicode_len() {
        return false;
    }
    let mut i: usize = 0;
    while i < n
        invariant
            n == a@.len(),
            n == b@.len(),
            i <= n,
            forall|k: int| 0 <= k < i ==> a@[k] == b@[k],
        decreases n - i,
    {
        if a.get_char(i) != b.get_char(i) {
            return false;
        }
        i = i + 1;
    }
    assert(a@ =~= b@);
    true
}

impl RoleType {
    pub fn is_validator(self) -> (r: bool)
        ensures
            r == (self == RoleType::Validator),
    {
        match self {
            RoleType::Validator => true,
            RoleType::FullNode => false,
        }
    }

    pub fn as_str(self) -> (r: &'static str)
        ensures
            r@ == role_name(self),
    {
        match self {
            RoleType::Validator => "validator",
            RoleType::FullNode => "full_node",
        }
    }

    /// The role named `s`; any other text is refused.
    pub fn parse(s: &str) -> (r: Result<RoleType, ParseRoleError>)
        ensures
            r matches Ok(role) ==> role_name(role) == s@,
            r is Err <==> (s@ != role_name(RoleType::Validator) && s@ != role_name(RoleType::FullNode)),
            r matches Err(e) ==> e.0@ == s@,
    {
        if same_text(s, "validator") {
            Ok(RoleType::Validator)
        } else if same_text(s, "full_node") {
            Ok(RoleType::FullNode)
        } else {
            Err(ParseRoleError(s.to_owned()))
        }
    }
}

impl std::str::FromStr for RoleType {
    type Err = ParseRoleError;

    fn from_str(s: &str) -> (r: Result<RoleType, ParseRoleError>)
        ensures
            r matches Ok(role) ==> role_name(role) == s@,
            r is Err <==> (s@ != role_name(RoleType::Validator) && s@ != role_name(RoleType::FullNode)),
            r matches Err(e) ==> e.0@ == s@,
    {
        RoleType::parse(s)
    }
}

/// The directory part of a path (`std::path::Path::parent`), if it has one.
pub uninterp spec fn path_parent(path: Seq<char>) -> Option<Seq<char>>;

/// Whether a path is relative (`std::path::Path::is_relative`) on the platform
/// the crate is built for.
pub uninterp spec fn path_is_relative(path: Seq<char>) -> bool;

/// A path extended by another (`std::path::Path::join`).
pub uninterp spec fn path_join(base: Seq<char>, path: Seq<char>) -> Seq<char>;

/// Relies on `std::path::Path::parent`: the path without its last component, or
/// `None` for the empty path and for a path that ends in a root or prefix.
#[verifier::external_body]
fn parent_of(path: &str) -> (r: Option<String>)
    ensures
        r matches Some(p) ==> path_parent(path@) == Some(p@),
        r is None ==> path_parent(path@) is None,
        path@.len() == 0 ==> r is None,
{
    match std::path::Path::new(path).parent() {
        Some(p) => Some(p.to_string_lossy().into_owned()),
        None => None,
    }
}

/// Relies on `std::path::Path::is_relative`.
#[verifier::external_body]
fn is_relative(path: &str) -> (r: bool)
    ensures
        r == path_is_relative(path@),
{
    std::path::Path::new(path).is_relative()
}

/// Relies on `std::path::Path::join`.
#[verifier::external_body]
fn join(base: &str, path: &str) -> (r: String)
    ensures
        r@ == path_join(base@, path@),
{
    std::path::Path::new(base).join(path).to_string_lossy().into_owned()
}

/// The directory against which relative file names of a configuration resolve.
#[derive(Debug)]
pub struct RootPath {
    root_path: String,
}

impl RootPath {
    pub closed spec fn root(&self) -> Seq<char> {
        self.root_path@
    }

    /// The directory holding the file `path` (empty when it has none).
    pub fn new(path: &str) -> (r: RootPath)
        ensures
            r.root() == match path_parent(path@) {
                Some(p) => p,
                None => Seq::<char>::empty(),
            },
    {
        let root_path = match parent_of(path) {
            Some(p) => p,
            None => String::new(),
        };
        RootPath { root_path }
    }

    /// `path` itself, which names a directory.
    pub fn new_path(path: &str) -> (r: RootPath)
        ensures
            r.root() == path@,
    {
        RootPath { root_path: path.to_owned() }
    }

    /// `file_path` resolved against the root when it is relative, and unchanged otherwise.
    pub fn full_path(&self, file_path: &str) -> (r: String)
        ensures
            r@ == if path_is_relative(file_path@) {
                path_join(self.root(), file_path@)
            } else {
                file_path@
            },
    {
        if is_relative(file_path) {
            join(self.root_path.as_str(), file_path)
        } else {
            file_path.to_owned()
        }
    }
}

} // verus!
