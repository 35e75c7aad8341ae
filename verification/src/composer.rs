//! Dependency-manager tooling: the PHP-extension patch applied before
//! Composer runs, the fixed locations of the Composer archive, and the
//! argument list of a project-creation run.  Downloading Composer and
//! spawning it are the shell's work.

use vstd::prelude::*;
use crate::strutil::{
    contains_sub, has_sub, join_with, spec_join, spec_split, spec_trim, split_char,
    starts_with_str, trim,
};

verus! {

/// The trimmed line mentions one of the extensions Composer's projects
/// need.
pub open spec fn spec_mentions_needed_ext(t: Seq<char>) -> bool {
    ||| has_sub(t, "extension=openssl"@)
    ||| has_sub(t, "extension=mbstring"@)
    ||| has_sub(t, "extension=curl"@)
    ||| has_sub(t, "extension=fileinfo"@)
    ||| has_sub(t, "extension=pdo_mysql"@)
    ||| has_sub(t, "extension=mysqli"@)
    ||| has_sub(t, "extension=zip"@)
}

/// Whether one line is rewritten before a Composer run: the extension
/// directory is set, and a commented-out line mentioning one of the needed
/// extensions is uncommented.
pub open spec fn spec_ext_enable_line_changed(l: Seq<char>) -> bool {
    let t = spec_trim(l);
    ||| has_sub(t, ";extension_dir = \"ext\""@)
    ||| (";"@.is_prefix_of(t) && spec_mentions_needed_ext(t))
}

/// What one line becomes before a Composer run.
pub open spec fn spec_ext_enable_line(l: Seq<char>) -> Seq<char> {
    let t = spec_trim(l);
    if has_sub(t, ";extension_dir = \"ext\""@) {
        "extension_dir = \"ext\""@
    } else if ";"@.is_prefix_of(t) && spec_mentions_needed_ext(t) {
        t.skip(1)
    } else {
        l
    }
}

/// Every line, rewritten.
pub open spec fn spec_ext_enable_lines(ls: Seq<Seq<char>>) -> Seq<Seq<char>> {
    Seq::new(ls.len(), |i: int| spec_ext_enable_line(ls[i]))
}

/// Whether any line is rewritten.
pub open spec fn spec_ext_enable_changed(ls: Seq<Seq<char>>) -> bool {
    exists|i: int| 0 <= i < ls.len() && spec_ext_enable_line_changed(ls[i])
}

/// Rewrite one line.
fn ext_enable_line(line: &str) -> (r: (String, bool))
    ensures
        r.0@ == spec_ext_enable_line(line@),
        r.1 == spec_ext_enable_line_changed(line@),
{
    let t = trim(line);
    if contains_sub(t, ";extension_dir = \"ext\"") {
        (String::from_str("extension_dir = \"ext\""), true)
    } else if starts_with_str(t, ";") && (contains_sub(t, "extension=openssl") || contains_sub(
        t,
        "extension=mbstring",
    ) || contains_sub(t, "extension=curl") || contains_sub(t, "extension=fileinfo")
        || contains_sub(t, "extension=pdo_mysql") || contains_sub(t, "extension=mysqli")
        || contains_sub(t, "extension=zip")) {
        proof {
            reveal_strlit(";");
        }
        let m = t.unicode_len();
        proof {
            assert(t@.skip(1) =~= t@.subrange(1, t@.len() as int));
        }
        (t.substring_char(1, m).to_owned(), true)
    } else {
        (line.to_owned(), false)
    }
}

/// Enable the PHP extensions Composer and its projects need, line by line.
/// Returns the rewritten content and whether any line was rewritten.
pub fn ensure_php_extensions(content: &str) -> (r: (String, bool))
    ensures
        r.0@ == spec_join(spec_ext_enable_lines(spec_split(content@, '\n')), '\n'),
        r.1 == spec_ext_enable_changed(spec_split(content@, '\n')),
{
    let lines = split_char(content, '\n');
    let n = lines.len();
    let mut out: Vec<String> = Vec::new();
    let mut changed = false;
    let mut i: usize = 0;
    proof {
        assert(lines.deep_view().take(0) =~= Seq::<Seq<char>>::empty());
        assert(out.deep_view() =~= spec_ext_enable_lines(lines.deep_view().take(0)));
    }
    while i < n
        invariant
            n == lines@.len(),
            i <= n,
            out.deep_view() == spec_ext_enable_lines(lines.deep_view().take(i as int)),
            changed == spec_ext_enable_changed(lines.deep_view().take(i as int)),
        decreases n - i,
    {
        let ghost dvt = lines.deep_view().take(i as int);
        let ghost dv1 = lines.deep_view().take(i + 1);
        let ghost out0 = out.deep_view();
        let (nl, ch) = ext_enable_line(lines[i].as_str());
        out.push(nl);
        if ch {
            changed = true;
        }
        proof {
            assert(out.deep_view() =~= out0.push(spec_ext_enable_line(lines@[i as int]@)));
            assert(spec_ext_enable_lines(dv1) =~= out0.push(
                spec_ext_enable_line(lines@[i as int]@),
            ));
            if spec_ext_enable_changed(dv1) {
                let w = choose|w: int|
                    0 <= w < dv1.len() && spec_ext_enable_line_changed(dv1[w]);
                if w < i {
                    assert(dvt[w] == dv1[w]);
                    assert(spec_ext_enable_changed(dvt));
                }
            }
            if spec_ext_enable_changed(dvt) {
                let w = choose|w: int|
                    0 <= w < dvt.len() && spec_ext_enable_line_changed(dvt[w]);
                assert(dv1[w] == dvt[w]);
                assert(spec_ext_enable_changed(dv1));
            }
            if ch {
                assert(dv1[i as int] == lines@[i as int]@);
                assert(spec_ext_enable_changed(dv1));
            }
        }
        i = i + 1;
    }
    proof {
        assert(lines.deep_view().take(n as int) =~= lines.deep_view());
        reveal_strlit("\n");
    }
    let joined = join_with(&out, "\n");
    (joined, changed)
}

/// `bin/composer.phar`: where the Composer archive lives.
pub fn composer_phar_path(bin_dir: &str) -> (r: String)
    ensures
        r@ == bin_dir@ + "/composer.phar"@,
{
    let mut s = bin_dir.to_owned();
    s.append("/composer.phar");
    s
}

/// `bin/php`: where the PHP distribution selected for Composer lives.
pub fn composer_php_dir(bin_dir: &str) -> (r: String)
    ensures
        r@ == bin_dir@ + "/php"@,
{
    let mut s = bin_dir.to_owned();
    s.append("/php");
    s
}

/// The arguments of a Composer project-creation run (what follows the
/// interpreter and the archive on the command line).
pub fn composer_create_project_args(project_name: &str) -> (args: Vec<String>)
    ensures
        args.deep_view() == seq![
            "create-project"@,
            "laravel/laravel"@,
            project_name@,
            "--prefer-dist"@,
        ],
{
    let mut args: Vec<String> = Vec::new();
    args.push(String::from_str("create-project"));
    args.push(String::from_str("laravel/laravel"));
    args.push(project_name.to_owned());
    args.push(String::from_str("--prefer-dist"));
    proof {
        assert(args.deep_view() =~= seq![
            "create-project"@,
            "laravel/laravel"@,
            project_name@,
            "--prefer-dist"@,
        ]);
    }
    args
}

} // verus!
