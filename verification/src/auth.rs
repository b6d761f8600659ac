use vstd::prelude::*;
use vstd::string::*;

use crate::meta::DeploymentMeta;
use crate::types::DeploymentApiError;

verus! {

/// An authenticated user: a name and the projects the user owns.
#[derive(Debug)]
pub struct User {
    pub name: String,
    pub projects: Vec<String>,
}

impl User {
    /// The user owns the named project.
    pub open spec fn owns(&self, name: Seq<char>) -> bool {
        exists|i: int| 0 <= i < self.projects@.len() && (#[trigger] self.projects@[i])@ == name
    }

    /// Decides whether the user owns the named project.
    pub fn owns_project(&self, project_name: &String) -> (r: bool)
        ensures
            r == self.owns(project_name@),
    {
        let n = self.projects.len();
        let mut i: usize = 0;
        while i < n
            invariant
                0 <= i <= n,
                n == self.projects@.len(),
                forall|k: int| 0 <= k < i ==> (#[trigger] self.projects@[k])@ != project_name@,
            decreases n - i,
        {
            if self.projects[i].eq(project_name) {
                return true;
            }
            i += 1;
        }
        false
    }
}

/// The in-memory directory of users: each entry is an API key and the user
/// it authenticates. App code persists it; the rules live here.
pub struct UserDirectory {
    pub entries: Vec<(String, User)>,
}

impl UserDirectory {
    /// Usernames are unique across the directory.
    pub open spec fn wf(&self) -> bool {
        forall|i: int, j: int|
            0 <= i < self.entries@.len() && 0 <= j < self.entries@.len()
                && (#[trigger] self.entries@[i]).1.name@ == (#[trigger] self.entries@[j]).1.name@
                ==> i == j
    }

    /// Some user in the directory owns the named project.
    pub open spec fn project_taken(&self, name: Seq<char>) -> bool {
        exists|i: int| 0 <= i < self.entries@.len() && (#[trigger] self.entries@[i]).1.owns(name)
    }

    pub fn new() -> (r: Self)
        ensures
            r.wf(),
            r.entries@.len() == 0,
    {
        UserDirectory { entries: Vec::new() }
    }

    /// Finds the entry of the named user.
    fn find_user(&self, username: &String) -> (r: Option<usize>)
        ensures
            r matches Some(i) ==> i < self.entries@.len() && self.entries@[i as int].1.name@
                == username@,
            r is None ==> forall|i: int|
                0 <= i < self.entries@.len() ==> (#[trigger] self.entries@[i]).1.name@
                    != username@,
    {
        let n = self.entries.len();
        let mut i: usize = 0;
        while i < n
            invariant
                0 <= i <= n,
                n == self.entries@.len(),
                forall|k: int|
                    0 <= k < i ==> (#[trigger] self.entries@[k]).1.name@ != username@,
            decreases n - i,
        {
            if self.entries[i].1.name.eq(username) {
                return Some(i);
            }
            i += 1;
        }
        None
    }

    /// Returns the named user's API key; a user not yet in the directory is
    /// created, owning no projects, under the caller-supplied key.
    pub fn get_or_create_with_key(&mut self, username: &String, fresh_key: String) -> (r: String)
        requires
            old(self).wf(),
        ensures
            final(self).wf(),
            (exists|i: int|
                0 <= i < old(self).entries@.len() && (#[trigger] old(self).entries@[i]).1.name@
                    == username@) ==> (*final(self) == *old(self) && exists|i: int|
                0 <= i < old(self).entries@.len() && (#[trigger] old(self).entries@[i]).1.name@
                    == username@ && r == old(self).entries@[i].0),
            (forall|i: int|
                0 <= i < old(self).entries@.len() ==> (#[trigger] old(self).entries@[i]).1.name@
                    != username@) ==> (r == fresh_key && final(self).entries@.len() == old(self).entries@.len() + 1 && (forall|i: int|
                0 <= i < old(self).entries@.len() ==> final(self).entries@[i] == old(self).entries@[i]) && final(self).entries@.last().0 == fresh_key && final(self).entries@.last().1.name@ == username@ && final(self).entries@.last().1.projects@.len() == 0),
    {
        match self.find_user(username) {
            Some(i) => self.entries[i].0.clone(),
            None => {
                let key = fresh_key.clone();
                let user = User { name: username.clone(), projects: Vec::new() };
                self.entries.push((fresh_key, user));
                key
            },
        }
    }

    /// Returns the named user's stored API key, creating the user under a
    /// freshly generated key if need be. An existing user's key is returned
    /// as stored, so repeated calls return the same key; of a fresh key only
    /// this much is promised, since its value is random: it is the one stored
    /// with the new entry.
    pub fn get_or_create(&mut self, username: &String) -> (r: String)
        requires
            old(self).wf(),
        ensures
            final(self).wf(),
            (exists|i: int|
                0 <= i < old(self).entries@.len() && (#[trigger] old(self).entries@[i]).1.name@
                    == username@) ==> (*final(self) == *old(self) && exists|i: int|
                0 <= i < old(self).entries@.len() && (#[trigger] old(self).entries@[i]).1.name@
                    == username@ && r == old(self).entries@[i].0),
            (forall|i: int|
                0 <= i < old(self).entries@.len() ==> (#[trigger] old(self).entries@[i]).1.name@
                    != username@) ==> (final(self).entries@.len() == old(self).entries@.len() + 1
                && (forall|i: int|
                0 <= i < old(self).entries@.len() ==> final(self).entries@[i] == old(self).entries@[i]) && r == final(self).entries@.last().0 && final(self).entries@.last().1.name@ == username@ && final(self).entries@.last().1.projects@.len() == 0),
    {
        let key = crate::ext::fresh_api_key();
        self.get_or_create_with_key(username, key)
    }

    /// Admits a deploy into the named project: the user that owns it may use
    /// it; a project nobody owns is claimed for the user; one owned by
    /// another user is refused as already existing.
    pub fn validate_or_create_project(&mut self, username: &String, project_name: &String) -> (r:
        Result<(), DeploymentApiError>)
        requires
            old(self).wf(),
        ensures
            final(self).wf(),
            !(exists|i: int|
                0 <= i < old(self).entries@.len() && (#[trigger] old(self).entries@[i]).1.name@
                    == username@) ==> (*final(self) == *old(self) && (r matches Err(e) && e matches
                DeploymentApiError::NotFound(m) && m@ == "could not find user"@)),
            (exists|i: int|
                0 <= i < old(self).entries@.len() && (#[trigger] old(self).entries@[i]).1.name@
                    == username@) ==> {
                let i = choose|i: int|
                    0 <= i < old(self).entries@.len() && (#[trigger] old(self).entries@[i]).1.name@ == username@;
                if old(self).entries@[i].1.owns(project_name@) {
                    *final(self) == *old(self) && r is Ok
                } else if old(self).project_taken(project_name@) {
                    *final(self) == *old(self) && (r matches Err(e) && e matches
                        DeploymentApiError::ProjectAlreadyExists(m) && m@
                        == "project already exists"@)
                } else {
                    &&& r is Ok
                    &&& final(self).entries@.len() == old(self).entries@.len()
                    &&& forall|k: int|
                        0 <= k < old(self).entries@.len() && k != i ==> final(self).entries@[k]
                            == old(self).entries@[k]
                    &&& final(self).entries@[i].0 == old(self).entries@[i].0
                    &&& final(self).entries@[i].1.name == old(self).entries@[i].1.name
                    &&& final(self).entries@[i].1.projects@ == old(self).entries@[i].1.projects@.push(*project_name)
                }
            },
    {
        let i = match self.find_user(username) {
            Some(i) => i,
            None => {
                return Err(
                    DeploymentApiError::NotFound(String::from_str("could not find user")),
                );
            },
        };
        proof {
            let c = choose|k: int|
                0 <= k < self.entries@.len() && (#[trigger] self.entries@[k]).1.name@
                    == username@;
            assert(c == i as int);
        }
        if self.entries[i].1.owns_project(project_name) {
            return Ok(());
        }
        let n = self.entries.len();
        let mut k: usize = 0;
        while k < n
            invariant
                0 <= k <= n,
                n == self.entries@.len(),
                *self == *old(self),
                self.wf(),
                i < n,
                self.entries@[i as int].1.name@ == username@,
                !self.entries@[i as int].1.owns(project_name@),
                forall|l: int|
                    0 <= l < k ==> !(#[trigger] self.entries@[l]).1.owns(project_name@),
            decreases n - k,
        {
            if self.entries[k].1.owns_project(project_name) {
                return Err(
                    DeploymentApiError::ProjectAlreadyExists(
                        String::from_str("project already exists"),
                    ),
                );
            }
            k += 1;
        }
        self.entries[i].1.projects.push(project_name.clone());
        Ok(())
    }
}

/// Admits the request exactly when the user owns the project; otherwise the
/// project is reported as not found, so that a stranger cannot probe which
/// project names exist.
pub fn validate_user_for_project(user: &User, project_name: &String) -> (r: Result<
    (),
    DeploymentApiError,
>)
    ensures
        r is Ok <==> user.owns(project_name@),
        r matches Err(e) ==> e matches DeploymentApiError::NotFound(m) && m@
            == "could not find project `"@ + project_name@ + "`"@,
{
    if !user.owns_project(project_name) {
        let mut m = String::from_str("could not find project `");
        m.append(project_name.as_str());
        m.append("`");
        Err(DeploymentApiError::NotFound(m))
    } else {
        Ok(())
    }
}

/// Admits the request exactly when the user owns the project the deployment
/// belongs to; otherwise the deployment is reported as not found, so that a
/// stranger cannot probe which deployments exist.
pub fn validate_user_for_deployment(user: &User, meta: &DeploymentMeta) -> (r: Result<
    (),
    DeploymentApiError,
>)
    ensures
        r is Ok <==> user.owns(meta.config.name@),
        r matches Err(e) ==> e matches DeploymentApiError::NotFound(m) && m@
            == "could not find deployment `"@ + crate::render::uuid_hyphenated(meta.id as int)
            + "`"@,
{
    if !user.owns_project(&meta.config.name) {
        let mut m = String::from_str("could not find deployment `");
        let id_s = crate::render::uuid_string(meta.id);
        m.append(id_s.as_str());
        m.append("`");
        Err(DeploymentApiError::NotFound(m))
    } else {
        Ok(())
    }
}

} // verus!
