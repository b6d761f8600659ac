use vstd::prelude::*;
use vstd::string::*;

verus! {

/// A deployment state, as reported to clients and stored in the registry.
#[derive(Debug)]
pub enum DeploymentStateMeta {
    Queued,
    Built,
    Loaded,
    Deployed,
    Error(String),
    Deleted,
}

impl DeploymentStateMeta {
    /// A terminal state admits no further transitions.
    pub open spec fn is_terminal(&self) -> bool {
        self is Error || self is Deleted
    }

    /// Position of a state along the lifecycle; terminal states sit last.
    pub open spec fn rank(&self) -> int {
        match self {
            DeploymentStateMeta::Queued => 0,
            DeploymentStateMeta::Built => 1,
            DeploymentStateMeta::Loaded => 2,
            DeploymentStateMeta::Deployed => 3,
            DeploymentStateMeta::Error(_) => 4,
            DeploymentStateMeta::Deleted => 4,
        }
    }

    /// An exact copy of the state.
    pub fn dup(&self) -> (r: Self)
        ensures
            r == *self,
    {
        match self {
            DeploymentStateMeta::Queued => DeploymentStateMeta::Queued,
            DeploymentStateMeta::Built => DeploymentStateMeta::Built,
            DeploymentStateMeta::Loaded => DeploymentStateMeta::Loaded,
            DeploymentStateMeta::Deployed => DeploymentStateMeta::Deployed,
            DeploymentStateMeta::Error(msg) => DeploymentStateMeta::Error(msg.clone()),
            DeploymentStateMeta::Deleted => DeploymentStateMeta::Deleted,
        }
    }

    /// Whether the state is terminal, decided at run time.
    pub fn is_terminal_exec(&self) -> (r: bool)
        ensures
            r == self.is_terminal(),
    {
        match self {
            DeploymentStateMeta::Error(_) => true,
            DeploymentStateMeta::Deleted => true,
            _ => false,
        }
    }
}

/// The errors the management surface reports to clients.
#[derive(Debug)]
pub enum DeploymentApiError {
    Internal(String),
    Unavailable(String),
    NotFound(String),
    BadRequest(String),
    ProjectAlreadyExists(String),
}

/// The configuration a client sends with an upload: the project name.
#[derive(Debug)]
pub struct ProjectConfig {
    pub name: String,
}

/// True of characters allowed anywhere in a project name: `a`-`z`, `0`-`9`, `-`.
pub open spec fn is_name_char(c: char) -> bool {
    (97 <= c as u32 && c as u32 <= 122) || (48 <= c as u32 && c as u32 <= 57) || c as u32 == 45
}

/// True of characters allowed at the start of a project name: `a`-`z`, `0`-`9`.
pub open spec fn is_name_start(c: char) -> bool {
    (97 <= c as u32 && c as u32 <= 122) || (48 <= c as u32 && c as u32 <= 57)
}

/// A valid project name: 1 to 63 characters, starting with a lower-case letter
/// or digit, the rest lower-case letters, digits or hyphens.
pub open spec fn valid_project_name(s: Seq<char>) -> bool {
    &&& 1 <= s.len() <= 63
    &&& is_name_start(s[0])
    &&& forall|i: int| 0 <= i < s.len() ==> is_name_char(#[trigger] s[i])
}

impl ProjectConfig {
    pub fn new(name: String) -> (r: Self)
        ensures
            r.name == name,
    {
        ProjectConfig { name }
    }

    pub fn name(&self) -> (r: &String)
        ensures
            *r == self.name,
    {
        &self.name
    }

    /// An exact copy of the configuration.
    pub fn dup(&self) -> (r: Self)
        ensures
            r == *self,
    {
        ProjectConfig { name: self.name.clone() }
    }

    /// Decides whether the project name is well formed.
    pub fn has_valid_name(&self) -> (r: bool)
        ensures
            r == valid_project_name(self.name@),
    {
        let s = self.name.as_str();
        let n = s.unicode_len();
        if n == 0 || n > 63 {
            return false;
        }
        let c0 = s.get_char(0);
        let c0v = c0 as u32;
        if !((97 <= c0v && c0v <= 122) || (48 <= c0v && c0v <= 57)) {
            return false;
        }
        let mut i: usize = 1;
        while i < n
            invariant
                1 <= i <= n,
                n == s@.len(),
                s@ == self.name@,
                1 <= s@.len() <= 63,
                forall|k: int| 0 <= k < i ==> is_name_char(#[trigger] s@[k]),
                is_name_start(s@[0]),
            decreases n - i,
        {
            let c = s.get_char(i);
            let cv = c as u32;
            if !((97 <= cv && cv <= 122) || (48 <= cv && cv <= 57) || cv == 45) {
                return false;
            }
            i += 1;
        }
        true
    }
}

/// Credentials of a database provisioned for a project.
#[derive(Debug)]
pub struct DatabaseReadyInfo {
    pub role_name: String,
    pub role_password: String,
    pub database_name: String,
}

/// The connection string assembled from credentials and a database address.
pub open spec fn connection_string_of(
    role_name: Seq<char>,
    role_password: Seq<char>,
    ip: Seq<char>,
    database_name: Seq<char>,
) -> Seq<char> {
    "postgres://"@ + role_name + ":"@ + role_password + "@"@ + ip + "/"@ + database_name
}

impl DatabaseReadyInfo {
    pub fn new(role_name: String, role_password: String, database_name: String) -> (r: Self)
        ensures
            r.role_name == role_name,
            r.role_password == role_password,
            r.database_name == database_name,
    {
        Self { role_name, role_password, database_name }
    }

    /// The `postgres://` URI a tenant program uses to reach its database.
    pub fn connection_string(&self, ip: &str) -> (r: String)
        ensures
            r@ == connection_string_of(
                self.role_name@,
                self.role_password@,
                ip@,
                self.database_name@,
            ),
    {
        let mut s = String::from_str("postgres://");
        s.append(self.role_name.as_str());
        s.append(":");
        s.append(self.role_password.as_str());
        s.append("@");
        s.append(ip);
        s.append("/");
        s.append(self.database_name.as_str());
        s
    }

    /// An exact copy of the credentials.
    pub fn dup(&self) -> (r: Self)
        ensures
            r == *self,
    {
        DatabaseReadyInfo {
            role_name: self.role_name.clone(),
            role_password: self.role_password.clone(),
            database_name: self.database_name.clone(),
        }
    }
}

} // verus!
