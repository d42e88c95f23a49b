//! Package-manager shim planning: which manager serves this host and
//! which command each operation runs.
//!
//! The library decides; running the subprocess and probing the
//! filesystem stay outside.  Each manager computes the exact argument
//! vector of its install, uninstall and query commands.

use vstd::prelude::*;

verus! {

#[derive(Debug)]
pub enum PkgWrapperError {
    NoSupportedPackageManagerFound,
    UserIsNotRoot,
}

/// Selection: managers are probed in preference order; the first one
/// whose executable is present on the host is chosen.  `present[i]`
/// reports the probe result for the `i`-th candidate.
pub fn select_pkg_manager(present: &Vec<bool>) -> (r: Result<usize, PkgWrapperError>)
    ensures
        match r {
            Ok(i) => {
                &&& 0 <= i < present@.len()
                &&& present@[i as int]
                &&& forall|j: int| 0 <= j < i ==> !present@[j]
            },
            Err(e) => {
                &&& e is NoSupportedPackageManagerFound
                &&& forall|j: int| 0 <= j < present@.len() ==> !present@[j]
            },
        },
{
    let mut i: usize = 0;
    while i < present.len()
        invariant
            0 <= i <= present@.len(),
            forall|j: int| 0 <= j < i ==> !present@[j],
        decreases present@.len() - i,
    {
        if present[i] {
            return Ok(i);
        }
        i = i + 1;
    }
    Err(PkgWrapperError::NoSupportedPackageManagerFound)
}

/// The path probed for a manager's executable: `/bin/<name>`.
pub fn probe_path(name: &String) -> (r: String)
    ensures
        r@ == "/bin/"@ + name@,
{
    let mut r = String::new();
    r.append("/bin/");
    r.append(name.as_str());
    r
}

/// The apt package manager (Debian-family hosts).
pub struct Apt {
    no_confirm: bool,
}

impl Apt {
    /// Whether commands are built to run without confirmation prompts.
    pub closed spec fn spec_no_confirm(self) -> bool {
        self.no_confirm
    }

    pub fn new() -> (r: Apt)
        ensures
            !r.spec_no_confirm(),
    {
        Apt { no_confirm: false }
    }

    pub fn no_confirm(&mut self, set: bool)
        ensures
            final(self).spec_no_confirm() == set,
    {
        self.no_confirm = set;
    }

    pub fn get_name(&self) -> (r: String)
        ensures
            r@ == "apt"@,
    {
        String::from_str("apt")
    }

    /// Arguments of the install command (run as `apt <args>`); the
    /// no-confirm flag appends `-y`.
    pub fn install_args(&self, pkg: String) -> (r: Vec<String>)
        ensures
            self.spec_no_confirm() ==> r@.len() == 3 && r@[0]@ == "install"@ && r@[1]@ == pkg@
                && r@[2]@ == "-y"@,
            !self.spec_no_confirm() ==> r@.len() == 2 && r@[0]@ == "install"@ && r@[1]@ == pkg@,
    {
        let mut args: Vec<String> = Vec::new();
        args.push(String::from_str("install"));
        args.push(pkg);
        if self.no_confirm {
            args.push(String::from_str("-y"));
        }
        args
    }

    /// Arguments of the uninstall command (run as `apt <args>`).
    pub fn uninstall_args(&self, pkg: String) -> (r: Vec<String>)
        ensures
            self.spec_no_confirm() ==> r@.len() == 3 && r@[0]@ == "remove"@ && r@[1]@ == pkg@
                && r@[2]@ == "-y"@,
            !self.spec_no_confirm() ==> r@.len() == 2 && r@[0]@ == "remove"@ && r@[1]@ == pkg@,
    {
        let mut args: Vec<String> = Vec::new();
        args.push(String::from_str("remove"));
        args.push(pkg);
        if self.no_confirm {
            args.push(String::from_str("-y"));
        }
        args
    }

    /// The query that tests whether `pkg` is installed:
    /// `dpkg -l <pkg>`.
    pub fn is_installed_command(&self, pkg: String) -> (r: (String, Vec<String>))
        ensures
            r.0@ == "dpkg"@,
            r.1@.len() == 2,
            r.1@[0]@ == "-l"@,
            r.1@[1]@ == pkg@,
    {
        let mut args: Vec<String> = Vec::new();
        args.push(String::from_str("-l"));
        args.push(pkg);
        (String::from_str("dpkg"), args)
    }
}

/// The pacman package manager (Arch-family hosts).
pub struct Pacman {
    no_confirm: bool,
}

impl Pacman {
    /// Whether commands are built to run without confirmation prompts.
    pub closed spec fn spec_no_confirm(self) -> bool {
        self.no_confirm
    }

    pub fn new() -> (r: Pacman)
        ensures
            !r.spec_no_confirm(),
    {
        Pacman { no_confirm: false }
    }

    pub fn no_confirm(&mut self, set: bool)
        ensures
            final(self).spec_no_confirm() == set,
    {
        self.no_confirm = set;
    }

    pub fn get_name(&self) -> (r: String)
        ensures
            r@ == "pacman"@,
    {
        String::from_str("pacman")
    }

    /// Arguments of the install command (run as `pacman <args>`); the
    /// no-confirm flag appends `--noconfirm`.
    pub fn install_args(&self, pkg: String) -> (r: Vec<String>)
        ensures
            self.spec_no_confirm() ==> r@.len() == 3 && r@[0]@ == "-Sy"@ && r@[1]@ == pkg@
                && r@[2]@ == "--noconfirm"@,
            !self.spec_no_confirm() ==> r@.len() == 2 && r@[0]@ == "-Sy"@ && r@[1]@ == pkg@,
    {
        let mut args: Vec<String> = Vec::new();
        args.push(String::from_str("-Sy"));
        args.push(pkg);
        if self.no_confirm {
            args.push(String::from_str("--noconfirm"));
        }
        args
    }

    /// Arguments of the uninstall command (run as `pacman <args>`).
    pub fn uninstall_args(&self, pkg: String) -> (r: Vec<String>)
        ensures
            self.spec_no_confirm() ==> r@.len() == 3 && r@[0]@ == "-Rns"@ && r@[1]@ == pkg@
                && r@[2]@ == "--noconfirm"@,
            !self.spec_no_confirm() ==> r@.len() == 2 && r@[0]@ == "-Rns"@ && r@[1]@ == pkg@,
    {
        let mut args: Vec<String> = Vec::new();
        args.push(String::from_str("-Rns"));
        args.push(pkg);
        if self.no_confirm {
            args.push(String::from_str("--noconfirm"));
        }
        args
    }

    /// The query that tests whether `pkg` is installed:
    /// `pacman -Q <pkg>`.
    pub fn is_installed_command(&self, pkg: String) -> (r: (String, Vec<String>))
        ensures
            r.0@ == "pacman"@,
            r.1@.len() == 2,
            r.1@[0]@ == "-Q"@,
            r.1@[1]@ == pkg@,
    {
        let mut args: Vec<String> = Vec::new();
        args.push(String::from_str("-Q"));
        args.push(pkg);
        (String::from_str("pacman"), args)
    }
}

} // verus!
