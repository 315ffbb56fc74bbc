//! The environment provisioner: the build-root directory tree and the
//! isolated build user.  What to create and in which order is decided
//! and verified here; the directory creation and the privileged user,
//! group and password commands are performed by the surrounding program.

use vstd::prelude::*;
use crate::profile::Profile;

verus! {

/// Provisioner of the build environment that a profile describes.
pub struct Prepare<'a> {
    pub profile: &'a Profile,
}

/// The directories one build root needs: the root itself and its fixed
/// subdirectories.
pub open spec fn spec_provision_paths(root: Seq<char>) -> Seq<Seq<char>> {
    seq![root, root + "/lfa"@, root + "/src"@, root + "/scripts"@]
}

/// A directory tree after the build tree was provisioned in it: every
/// directory of the plan is present, and everything already there is
/// kept, since creating an existing directory changes nothing.
pub open spec fn spec_provisioned_tree(tree: Set<Seq<char>>, root: Seq<char>) -> Set<Seq<char>> {
    tree.union(spec_provision_paths(root).to_set())
}

/// Provisioning the build tree is idempotent and loses nothing: doing it
/// a second time yields the same tree, and the original contents stay.
pub proof fn lemma_provision_idempotent(tree: Set<Seq<char>>, root: Seq<char>)
    ensures
        spec_provisioned_tree(spec_provisioned_tree(tree, root), root)
            == spec_provisioned_tree(tree, root),
        tree.subset_of(spec_provisioned_tree(tree, root)),
{
    assert(spec_provisioned_tree(spec_provisioned_tree(tree, root), root)
        =~= spec_provisioned_tree(tree, root));
}

/// One of the three privileged steps that create the isolated build
/// user.
#[derive(Clone, Copy, Debug, PartialEq, Eq, Structural)]
pub enum ProvisionStep {
    /// Create the system group named after the build user.
    Group,
    /// Create the system user itself.
    User,
    /// Set the new user's password.
    Password,
}

/// A failed provisioning step, with the step's operator-facing message.
pub struct ProvisionError {
    pub step: ProvisionStep,
    pub message: String,
}

/// The operator-facing message for a failed provisioning step on the
/// given user name.
pub fn provision_error(step: ProvisionStep, user: &str) -> (r: ProvisionError)
    ensures
        r.step == step,
        step == ProvisionStep::Group
            ==> r.message@ == "Failed to create group '"@ + user@ + "'"@,
        step == ProvisionStep::User
            ==> r.message@ == "Failed to create user '"@ + user@ + "'"@,
        step == ProvisionStep::Password
            ==> r.message@ == "Failed to set password for '"@ + user@ + "' user"@,
    {
    let mut message = match step {
        ProvisionStep::Group => String::from_str("Failed to create group '"),
        ProvisionStep::User => String::from_str("Failed to create user '"),
        ProvisionStep::Password => String::from_str("Failed to set password for '"),
    };
    message.append(user);
    match step {
        ProvisionStep::Password => message.append("' user"),
        _ => message.append("'"),
    }
    ProvisionError { step, message }
}

/// Where creating the build user stands: the three privileged steps run
/// in a fixed order, and the first failure stops everything after it.
#[derive(Clone, Copy, Debug, PartialEq, Eq, Structural)]
pub enum UserPhase {
    /// The group is still to be created.
    Group,
    /// The group exists; the user is still to be created.
    User,
    /// Group and user exist; the password is still to be set.
    Password,
    /// All three steps succeeded.
    Done,
    /// A step failed; nothing further was attempted.
    Failed(ProvisionStep),
}

/// The creation of the isolated build user, one privileged step at a
/// time.  The surrounding program runs the command of the current step
/// and reports whether it succeeded.
#[derive(Clone, Copy, Debug, PartialEq, Eq, Structural)]
pub struct UserProvision {
    pub phase: UserPhase,
}

impl UserProvision {
    /// Starts the sequence: the group comes first.
    pub fn new() -> (r: UserProvision)
        ensures
            r.phase == UserPhase::Group,
    {
        UserProvision { phase: UserPhase::Group }
    }

    /// The step to run next, or nothing once the sequence is over.
    pub fn current_step(&self) -> (r: Option<ProvisionStep>)
        ensures
            self.phase == UserPhase::Group ==> r == Some(ProvisionStep::Group),
            self.phase == UserPhase::User ==> r == Some(ProvisionStep::User),
            self.phase == UserPhase::Password ==> r == Some(ProvisionStep::Password),
            self.phase == UserPhase::Done ==> r is None,
            self.phase is Failed ==> r is None,
    {
        match self.phase {
            UserPhase::Group => Some(ProvisionStep::Group),
            UserPhase::User => Some(ProvisionStep::User),
            UserPhase::Password => Some(ProvisionStep::Password),
            UserPhase::Done => None,
            UserPhase::Failed(_) => None,
        }
    }

    /// Records the outcome of the current step.  Success moves on to the
    /// next step in the fixed order; failure ends the sequence at once,
    /// so no later step is ever attempted after a failed one.
    pub fn on_step_result(&mut self, ok: bool)
        requires
            old(self).phase == UserPhase::Group
                || old(self).phase == UserPhase::User
                || old(self).phase == UserPhase::Password,
        ensures
            old(self).phase == UserPhase::Group && ok ==> final(self).phase == UserPhase::User,
            old(self).phase == UserPhase::User && ok ==> final(self).phase == UserPhase::Password,
            old(self).phase == UserPhase::Password && ok ==> final(self).phase == UserPhase::Done,
            old(self).phase == UserPhase::Group && !ok
                ==> final(self).phase == UserPhase::Failed(ProvisionStep::Group),
            old(self).phase == UserPhase::User && !ok
                ==> final(self).phase == UserPhase::Failed(ProvisionStep::User),
            old(self).phase == UserPhase::Password && !ok
                ==> final(self).phase == UserPhase::Failed(ProvisionStep::Password),
    {
        self.phase = match self.phase {
            UserPhase::Group => if ok { UserPhase::User } else {
                UserPhase::Failed(ProvisionStep::Group)
            },
            UserPhase::User => if ok { UserPhase::Password } else {
                UserPhase::Failed(ProvisionStep::User)
            },
            UserPhase::Password => if ok { UserPhase::Done } else {
                UserPhase::Failed(ProvisionStep::Password)
            },
            _ => self.phase,
        };
    }
}

impl<'a> Prepare<'a> {
    /// The directories to create for this profile's build tree, in
    /// creation order: the build root, then its `lfa`, `src` and
    /// `scripts` subdirectories.
    pub fn alfa_dir_paths(&self) -> (r: Vec<String>)
        ensures
            r@.map_values(|s: String| s@) == spec_provision_paths(self.profile.build_dir@),
    {
        let root = &self.profile.build_dir;
        let mut lfa = root.clone();
        lfa.append("/lfa");
        let mut src = root.clone();
        src.append("/src");
        let mut scripts = root.clone();
        scripts.append("/scripts");
        let mut paths: Vec<String> = Vec::new();
        paths.push(root.clone());
        paths.push(lfa);
        paths.push(src);
        paths.push(scripts);
        proof {
            assert(paths@.map_values(|s: String| s@)
                =~= spec_provision_paths(self.profile.build_dir@));
        }
        paths
    }

    /// The command line of one privileged user-provisioning step: the
    /// program to invoke and its arguments, built around this profile's
    /// user name.
    pub fn step_command(&self, step: ProvisionStep) -> (r: (String, Vec<String>))
        ensures
            step == ProvisionStep::Group ==> {
                &&& r.0@ == "/sbin/groupadd"@
                &&& r.1@.map_values(|s: String| s@) == seq![self.profile.user_name@]
            },
            step == ProvisionStep::User ==> {
                &&& r.0@ == "/sbin/useradd"@
                &&& r.1@.map_values(|s: String| s@) == seq![
                    "-s"@, "/bin/bash"@, "-g"@, self.profile.user_name@,
                    "-m"@, "-k"@, "/dev/null"@, self.profile.user_name@,
                ]
            },
            step == ProvisionStep::Password ==> {
                &&& r.0@ == "/sbin/passwd"@
                &&& r.1@.map_values(|s: String| s@) == seq![self.profile.user_name@]
            },
    {
        let user = &self.profile.user_name;
        match step {
            ProvisionStep::Group => {
                let mut args: Vec<String> = Vec::new();
                args.push(user.clone());
                proof {
                    assert(args@.map_values(|s: String| s@) =~= seq![self.profile.user_name@]);
                }
                (String::from_str("/sbin/groupadd"), args)
            },
            ProvisionStep::User => {
                let mut args: Vec<String> = Vec::new();
                args.push(String::from_str("-s"));
                args.push(String::from_str("/bin/bash"));
                args.push(String::from_str("-g"));
                args.push(user.clone());
                args.push(String::from_str("-m"));
                args.push(String::from_str("-k"));
                args.push(String::from_str("/dev/null"));
                args.push(user.clone());
                proof {
                    assert(args@.map_values(|s: String| s@) =~= seq![
                        "-s"@, "/bin/bash"@, "-g"@, self.profile.user_name@,
                        "-m"@, "-k"@, "/dev/null"@, self.profile.user_name@,
                    ]);
                }
                (String::from_str("/sbin/useradd"), args)
            },
            ProvisionStep::Password => {
                let mut args: Vec<String> = Vec::new();
                args.push(user.clone());
                proof {
                    assert(args@.map_values(|s: String| s@) =~= seq![self.profile.user_name@]);
                }
                (String::from_str("/sbin/passwd"), args)
            },
        }
    }
}

} // verus!
