//! The fixed directory layout under the user's home, and small path
//! computations: every location the tooling touches hangs under
//! `~/.stackmanager`.  Finding the home directory itself is the shell's
//! work; these functions only build and dissect path strings.

use vstd::prelude::*;
use crate::strutil::{join_with, rfind_char, spec_join};

verus! {

/// `home/.stackmanager`.
pub fn stackmanager_root(home: &str) -> (r: String)
    ensures
        r@ == home@ + "/.stackmanager"@,
{
    let mut s = home.to_owned();
    s.append("/.stackmanager");
    s
}

/// `home/.stackmanager/services`: one directory per installed service
/// version.
pub fn services_dir(home: &str) -> (r: String)
    ensures
        r@ == home@ + "/.stackmanager/services"@,
{
    let mut s = home.to_owned();
    s.append("/.stackmanager/services");
    s
}

/// `home/.stackmanager/bin`: the shim entries.
pub fn bin_dir(home: &str) -> (r: String)
    ensures
        r@ == home@ + "/.stackmanager/bin"@,
{
    let mut s = home.to_owned();
    s.append("/.stackmanager/bin");
    s
}

/// `home/.stackmanager/projects.json`: the persisted project list.
pub fn store_path(home: &str) -> (r: String)
    ensures
        r@ == home@ + "/.stackmanager/projects.json"@,
{
    let mut s = home.to_owned();
    s.append("/.stackmanager/projects.json");
    s
}

/// `home/.stackmanager/data/mysql`: the database server's data directory.
pub fn mysql_data_dir(home: &str) -> (r: String)
    ensures
        r@ == home@ + "/.stackmanager/data/mysql"@,
{
    let mut s = home.to_owned();
    s.append("/.stackmanager/data/mysql");
    s
}

/// `home/.stackmanager/adminer`: downloaded database-administration files.
pub fn adminer_dir(home: &str) -> (r: String)
    ensures
        r@ == home@ + "/.stackmanager/adminer"@,
{
    let mut s = home.to_owned();
    s.append("/.stackmanager/adminer");
    s
}

/// The directory part of a path: everything before the last `/`, or nothing
/// when the path has no `/`.
pub fn parent_dir(path: &str) -> (r: Option<String>)
    ensures
        match r {
            Some(p) => exists|i: int|
                {
                    &&& 0 <= i < path@.len()
                    &&& path@[i] == '/'
                    &&& (forall|j: int| i < j < path@.len() ==> path@[j] != '/')
                    &&& #[trigger] p@ == path@.take(i)
                },
            None => forall|j: int| 0 <= j < path@.len() ==> path@[j] != '/',
        },
{
    match rfind_char(path, '/') {
        Some(i) => {
            let p = path.substring_char(0, i).to_owned();
            proof {
                assert(path@.take(i as int) =~= path@.subrange(0, i as int));
            }
            Some(p)
        },
        None => None,
    }
}

/// The `PATH` value a spawned service sees: the caller's extra entries
/// first, then the directory holding the service executable, then the
/// inherited value, joined with the platform's single-character list
/// separator.
pub fn build_path_env(extra: &Vec<String>, exe_dir: &Option<String>, inherited: &str, sep: &str)
    -> (r: String)
    requires
        sep@.len() == 1,
    ensures
        r@ == spec_join(
            extra.deep_view() + (match exe_dir {
                Some(d) => seq![d@],
                None => Seq::<Seq<char>>::empty(),
            }) + seq![inherited@],
            sep@[0],
        ),
{
    let n = extra.len();
    let mut parts: Vec<String> = Vec::new();
    let mut i: usize = 0;
    proof {
        assert(extra.deep_view().take(0) =~= Seq::<Seq<char>>::empty());
        assert(parts.deep_view() =~= Seq::<Seq<char>>::empty());
    }
    while i < n
        invariant
            n == extra@.len(),
            i <= n,
            parts.deep_view() == extra.deep_view().take(i as int),
        decreases n - i,
    {
        let ghost p0 = parts.deep_view();
        let piece = extra[i].clone();
        parts.push(piece);
        proof {
            assert(parts.deep_view() =~= p0.push(extra@[i as int]@));
            assert(extra.deep_view().take(i + 1) =~= extra.deep_view().take(i as int).push(
                extra@[i as int]@,
            ));
        }
        i = i + 1;
    }
    proof {
        assert(extra.deep_view().take(n as int) =~= extra.deep_view());
    }
    let ghost mid = extra.deep_view();
    match exe_dir {
        Some(d) => {
            let ghost p0 = parts.deep_view();
            let piece = d.clone();
            parts.push(piece);
            proof {
                assert(parts.deep_view() =~= p0.push(d@));
            }
        },
        None => {},
    }
    let ghost p1 = parts.deep_view();
    parts.push(inherited.to_owned());
    proof {
        assert(parts.deep_view() =~= p1.push(inherited@));
        assert(parts.deep_view() =~= extra.deep_view() + (match exe_dir {
            Some(d) => seq![d@],
            None => Seq::<Seq<char>>::empty(),
        }) + seq![inherited@]);
    }
    join_with(&parts, sep)
}

} // verus!
