//! Database-server tooling: the argument lists handed to the server's own
//! utilities and the reading of their output.  Running the utilities is the
//! shell's work.

use vstd::prelude::*;
use crate::strutil::{contains_sub, has_sub};

verus! {

/// The data-directory argument of the database initialisation utility.
pub fn datadir_arg(data_dir: &str) -> (r: String)
    ensures
        r@ == "--datadir="@ + data_dir@,
{
    let mut s = String::from_str("--datadir=");
    s.append(data_dir);
    s
}

/// The argument list of a root-password change: the `-p` argument carrying
/// the current password appears exactly when one is set.
pub fn mysqladmin_password_args(old_pass: &str, new_pass: &str) -> (args: Vec<String>)
    ensures
        old_pass@.len() == 0 ==> args.deep_view() == seq![
            "-u"@,
            "root"@,
            "password"@,
            new_pass@,
        ],
        old_pass@.len() > 0 ==> args.deep_view() == seq![
            "-u"@,
            "root"@,
            "-p"@ + old_pass@,
            "password"@,
            new_pass@,
        ],
{
    let mut args: Vec<String> = Vec::new();
    args.push(String::from_str("-u"));
    args.push(String::from_str("root"));
    if !old_pass.is_empty() {
        let mut p = String::from_str("-p");
        p.append(old_pass);
        args.push(p);
    }
    args.push(String::from_str("password"));
    args.push(new_pass.to_owned());
    proof {
        if old_pass@.len() == 0 {
            assert(args.deep_view() =~= seq!["-u"@, "root"@, "password"@, new_pass@]);
        } else {
            assert(args.deep_view() =~= seq![
                "-u"@,
                "root"@,
                "-p"@ + old_pass@,
                "password"@,
                new_pass@,
            ]);
        }
    }
    args
}

/// Why a password change failed.
#[derive(Clone, Copy, Debug, PartialEq, Eq, Structural)]
pub enum DbPasswordError {
    /// The utility rejected the current password.
    AccessDenied,
    /// Any other failure; the caller reports the utility's own words.
    Other,
}

/// Read the failure kind out of the utility's error output.
pub fn classify_mysqladmin_failure(stderr_text: &str) -> (e: DbPasswordError)
    ensures
        has_sub(stderr_text@, "Access denied"@) ==> e == DbPasswordError::AccessDenied,
        !has_sub(stderr_text@, "Access denied"@) ==> e == DbPasswordError::Other,
{
    if contains_sub(stderr_text, "Access denied") {
        DbPasswordError::AccessDenied
    } else {
        DbPasswordError::Other
    }
}

} // verus!
