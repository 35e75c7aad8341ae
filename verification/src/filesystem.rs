//! Pure text and decision logic of the filesystem-facing tooling: patching a
//! PHP configuration file, patching a Vite configuration file, recognising a
//! project's framework from marker files, and small helpers over directory
//! listings.  All actual reading, writing and probing of the filesystem is
//! the shell's work.

use vstd::prelude::*;
use crate::strutil::{
    contains_sub, find_sub, has_sub, join_with, spec_join, spec_split, spec_trim, split_char,
    starts_with_str, str_eq, sub_at, trim,
};

verus! {

/// One commented-out extension line that the patch enables (the leading `;`
/// is removed from the trimmed line).
pub open spec fn spec_ini_ext_enabled(t: Seq<char>) -> bool {
    ||| ";extension=curl"@.is_prefix_of(t)
    ||| ";extension=fileinfo"@.is_prefix_of(t)
    ||| ";extension=mbstring"@.is_prefix_of(t)
    ||| ";extension=openssl"@.is_prefix_of(t)
    ||| ";extension=pdo_mysql"@.is_prefix_of(t)
    ||| ";extension=mysqli"@.is_prefix_of(t)
    ||| ";extension=gd"@.is_prefix_of(t)
    ||| ";extension=intl"@.is_prefix_of(t)
    ||| ";extension=zip"@.is_prefix_of(t)
}

/// Whether one line of a PHP configuration file is rewritten by the patch.
pub open spec fn spec_php_ini_line_changed(l: Seq<char>) -> bool {
    let t = spec_trim(l);
    ||| spec_ini_ext_enabled(t)
    ||| ";extension_dir = \"ext\""@.is_prefix_of(t)
    ||| "; extension_dir = \"ext\""@.is_prefix_of(t)
    ||| "post_max_size ="@.is_prefix_of(t)
    ||| "upload_max_filesize ="@.is_prefix_of(t)
    ||| "memory_limit ="@.is_prefix_of(t)
}

/// What one line of a PHP configuration file becomes: needed extensions are
/// uncommented, the extension directory is set, and the three resource
/// limits are raised; every other line passes through unchanged.
pub open spec fn spec_php_ini_line(l: Seq<char>) -> Seq<char> {
    let t = spec_trim(l);
    if spec_ini_ext_enabled(t) {
        t.skip(1)
    } else if ";extension_dir = \"ext\""@.is_prefix_of(t) || "; extension_dir = \"ext\""@.is_prefix_of(
        t,
    ) {
        "extension_dir = \"ext\""@
    } else if "post_max_size ="@.is_prefix_of(t) {
        "post_max_size = 64M"@
    } else if "upload_max_filesize ="@.is_prefix_of(t) {
        "upload_max_filesize = 64M"@
    } else if "memory_limit ="@.is_prefix_of(t) {
        "memory_limit = 512M"@
    } else {
        l
    }
}

/// Every line of the file, rewritten.
pub open spec fn spec_php_ini_lines(ls: Seq<Seq<char>>) -> Seq<Seq<char>> {
    Seq::new(ls.len(), |i: int| spec_php_ini_line(ls[i]))
}

/// Whether any line of the file is rewritten.
pub open spec fn spec_php_ini_changed(ls: Seq<Seq<char>>) -> bool {
    exists|i: int| 0 <= i < ls.len() && spec_php_ini_line_changed(ls[i])
}

/// Rewrite one line of a PHP configuration file.
fn php_ini_line(line: &str) -> (r: (String, bool))
    ensures
        r.0@ == spec_php_ini_line(line@),
        r.1 == spec_php_ini_line_changed(line@),
{
    let t = trim(line);
    if starts_with_str(t, ";extension=curl") || starts_with_str(t, ";extension=fileinfo")
        || starts_with_str(t, ";extension=mbstring") || starts_with_str(t, ";extension=openssl")
        || starts_with_str(t, ";extension=pdo_mysql") || starts_with_str(t, ";extension=mysqli")
        || starts_with_str(t, ";extension=gd") || starts_with_str(t, ";extension=intl")
        || starts_with_str(t, ";extension=zip") {
        proof {
            reveal_strlit(";extension=curl");
            reveal_strlit(";extension=fileinfo");
            reveal_strlit(";extension=mbstring");
            reveal_strlit(";extension=openssl");
            reveal_strlit(";extension=pdo_mysql");
            reveal_strlit(";extension=mysqli");
            reveal_strlit(";extension=gd");
            reveal_strlit(";extension=intl");
            reveal_strlit(";extension=zip");
        }
        let m = t.unicode_len();
        proof {
            assert(t@.skip(1) =~= t@.subrange(1, t@.len() as int));
        }
        (t.substring_char(1, m).to_owned(), true)
    } else if starts_with_str(t, ";extension_dir = \"ext\"") || starts_with_str(
        t,
        "; extension_dir = \"ext\"",
    ) {
        (String::from_str("extension_dir = \"ext\""), true)
    } else if starts_with_str(t, "post_max_size =") {
        (String::from_str("post_max_size = 64M"), true)
    } else if starts_with_str(t, "upload_max_filesize =") {
        (String::from_str("upload_max_filesize = 64M"), true)
    } else if starts_with_str(t, "memory_limit =") {
        (String::from_str("memory_limit = 512M"), true)
    } else {
        (line.to_owned(), false)
    }
}

/// Patch PHP configuration content for web development: uncomment the
/// needed extensions, set the extension directory and raise the resource
/// limits, line by line.  Returns the rewritten content and whether any
/// line was rewritten (only then is writing the file back worthwhile).
pub fn prepare_php_ini(content: &str) -> (r: (String, bool))
    ensures
        r.0@ == spec_join(spec_php_ini_lines(spec_split(content@, '\n')), '\n'),
        r.1 == spec_php_ini_changed(spec_split(content@, '\n')),
{
    let lines = split_char(content, '\n');
    let n = lines.len();
    let mut out: Vec<String> = Vec::new();
    let mut changed = false;
    let mut i: usize = 0;
    proof {
        assert(lines.deep_view().take(0) =~= Seq::<Seq<char>>::empty());
        assert(out.deep_view() =~= spec_php_ini_lines(lines.deep_view().take(0)));
    }
    while i < n
        invariant
            n == lines@.len(),
            i <= n,
            out.deep_view() == spec_php_ini_lines(lines.deep_view().take(i as int)),
            changed == spec_php_ini_changed(lines.deep_view().take(i as int)),
        decreases n - i,
    {
        let ghost dvt = lines.deep_view().take(i as int);
        let ghost dv1 = lines.deep_view().take(i + 1);
        let ghost out0 = out.deep_view();
        let (nl, ch) = php_ini_line(lines[i].as_str());
        out.push(nl);
        if ch {
            changed = true;
        }
        proof {
            assert(dv1.len() == i + 1);
            assert forall|k: int| 0 <= k < i + 1 implies dv1[k] == lines.deep_view()[k] by {}
            assert(out.deep_view() =~= out0.push(spec_php_ini_line(lines@[i as int]@)));
            assert(spec_php_ini_lines(dv1) =~= out0.push(spec_php_ini_line(lines@[i as int]@)));
            if spec_php_ini_changed(dv1) {
                let w = choose|w: int| 0 <= w < dv1.len() && spec_php_ini_line_changed(dv1[w]);
                if w < i {
                    assert(dvt[w] == dv1[w]);
                    assert(spec_php_ini_changed(dvt));
                }
            }
            if spec_php_ini_changed(dvt) {
                let w = choose|w: int| 0 <= w < dvt.len() && spec_php_ini_line_changed(dvt[w]);
                assert(dv1[w] == dvt[w]);
                assert(spec_php_ini_changed(dv1));
            }
            if ch {
                assert(dv1[i as int] == lines@[i as int]@);
                assert(spec_php_ini_changed(dv1));
            }
        }
        i = i + 1;
    }
    proof {
        assert(lines.deep_view().take(n as int) =~= lines.deep_view());
        reveal_strlit("\n");
    }
    let joined = join_with(&out, "\n");
    (joined, changed)
}

/// The server block the Vite patch inserts: accept any host (the proxy's
/// virtual hosts) and pin hot-module reload to the loopback address.
pub open spec fn spec_vite_block() -> Seq<char> {
    "\n    server: {\n        allowedHosts: true,\n        hmr: {\n            host: '127.0.0.1',\n            protocol: 'ws'\n        }\n    },"@
}

/// The configuration already carries both halves of the patch.
pub open spec fn spec_vite_already(content: Seq<char>) -> bool {
    has_sub(content, "allowedHosts: true"@) && has_sub(content, "hmr: {"@)
}

/// How patching a Vite configuration ended.
#[derive(Debug)]
pub enum VitePatch {
    /// Both halves of the server block are already present.
    AlreadyPatched,
    /// The rewritten configuration.
    Patched(String),
    /// No known export form was found; the file must be patched by hand.
    Unparseable,
}

/// Patch Vite configuration content: insert the server block right after
/// the opening of the default export, preferring the `defineConfig({` form
/// over the bare object form.  Content that already carries the block is
/// left alone.
pub fn patch_vite_config(content: &str) -> (r: VitePatch)
    ensures
        spec_vite_already(content@) ==> r is AlreadyPatched,
        !spec_vite_already(content@) && has_sub(content@, "export default defineConfig({"@) ==> (
        r matches VitePatch::Patched(c) && exists|i: int|
            {
                &&& #[trigger] sub_at(content@, "export default defineConfig({"@, i)
                &&& forall|j: int| 0 <= j < i ==> !sub_at(content@, "export default defineConfig({"@, j)
                &&& c@ == content@.take(i + "export default defineConfig({"@.len() as int)
                    + spec_vite_block() + content@.skip(
                    i + "export default defineConfig({"@.len() as int,
                )
            }),
        !spec_vite_already(content@) && !has_sub(content@, "export default defineConfig({"@)
            && has_sub(content@, "export default {"@) ==> (r matches VitePatch::Patched(c)
            && exists|i: int|
            {
                &&& #[trigger] sub_at(content@, "export default {"@, i)
                &&& forall|j: int| 0 <= j < i ==> !sub_at(content@, "export default {"@, j)
                &&& c@ == content@.take(i + "export default {"@.len() as int) + spec_vite_block()
                    + content@.skip(i + "export default {"@.len() as int)
            }),
        !spec_vite_already(content@) && !has_sub(content@, "export default defineConfig({"@)
            && !has_sub(content@, "export default {"@) ==> r is Unparseable,
{
    if contains_sub(content, "allowedHosts: true") && contains_sub(content, "hmr: {") {
        return VitePatch::AlreadyPatched;
    }
    let n = content.unicode_len();
    match find_sub(content, "export default defineConfig({") {
        Some(i) => {
            let mlen = "export default defineConfig({".unicode_len();
            let pos = i + mlen;
            let mut out = content.substring_char(0, pos).to_owned();
            out.append(
                "\n    server: {\n        allowedHosts: true,\n        hmr: {\n            host: '127.0.0.1',\n            protocol: 'ws'\n        }\n    },",
            );
            out.append(content.substring_char(pos, n));
            proof {
                assert(content@.take(pos as int) =~= content@.subrange(0, pos as int));
                assert(content@.skip(pos as int) =~= content@.subrange(
                    pos as int,
                    content@.len() as int,
                ));
            }
            VitePatch::Patched(out)
        },
        None => {
            match find_sub(content, "export default {") {
                Some(i) => {
                    let mlen = "export default {".unicode_len();
                    let pos = i + mlen;
                    let mut out = content.substring_char(0, pos).to_owned();
                    out.append(
                        "\n    server: {\n        allowedHosts: true,\n        hmr: {\n            host: '127.0.0.1',\n            protocol: 'ws'\n        }\n    },",
                    );
                    out.append(content.substring_char(pos, n));
                    proof {
                        assert(content@.take(pos as int) =~= content@.subrange(0, pos as int));
                        assert(content@.skip(pos as int) =~= content@.subrange(
                            pos as int,
                            content@.len() as int,
                        ));
                    }
                    VitePatch::Patched(out)
                },
                None => VitePatch::Unparseable,
            }
        },
    }
}

/// The frameworks the tooling recognises.
#[derive(Clone, Copy, Debug, PartialEq, Eq, Structural)]
pub enum Framework {
    Laravel,
    Wordpress,
    Symfony,
    Svelte,
    React,
    Node,
    Custom,
}

/// Which marker files exist in a project directory.
#[derive(Clone, Copy, Debug, PartialEq, Eq, Structural)]
pub struct ProjectProbe {
    /// `artisan`
    pub artisan: bool,
    /// `wp-config.php`
    pub wp_config: bool,
    /// `wp-settings.php`
    pub wp_settings: bool,
    /// `bin/console`
    pub console: bool,
    /// `svelte.config.js`
    pub svelte_config: bool,
    /// `vite.config.js`
    pub vite_js: bool,
    /// `vite.config.ts`
    pub vite_ts: bool,
    /// `package.json`
    pub package_json: bool,
}

/// The framework a set of marker files identifies, PHP frameworks first,
/// then the more specific Node markers before the generic one.
pub open spec fn spec_detect_framework(p: ProjectProbe) -> Framework {
    if p.artisan {
        Framework::Laravel
    } else if p.wp_config || p.wp_settings {
        Framework::Wordpress
    } else if p.console {
        Framework::Symfony
    } else if p.svelte_config {
        Framework::Svelte
    } else if p.vite_js || p.vite_ts {
        Framework::React
    } else if p.package_json {
        Framework::Node
    } else {
        Framework::Custom
    }
}

/// Recognise a project's framework from its marker files.
pub fn detect_framework(p: &ProjectProbe) -> (f: Framework)
    ensures
        f == spec_detect_framework(*p),
{
    if p.artisan {
        Framework::Laravel
    } else if p.wp_config || p.wp_settings {
        Framework::Wordpress
    } else if p.console {
        Framework::Symfony
    } else if p.svelte_config {
        Framework::Svelte
    } else if p.vite_js || p.vite_ts {
        Framework::React
    } else if p.package_json {
        Framework::Node
    } else {
        Framework::Custom
    }
}

/// The label under which a framework is reported.
pub fn framework_label(f: Framework) -> (r: String)
    ensures
        f is Laravel ==> r@ == "laravel"@,
        f is Wordpress ==> r@ == "wordpress"@,
        f is Symfony ==> r@ == "symfony"@,
        f is Svelte ==> r@ == "svelte"@,
        f is React ==> r@ == "react"@,
        f is Node ==> r@ == "node"@,
        f is Custom ==> r@ == "custom"@,
{
    match f {
        Framework::Laravel => String::from_str("laravel"),
        Framework::Wordpress => String::from_str("wordpress"),
        Framework::Symfony => String::from_str("symfony"),
        Framework::Svelte => String::from_str("svelte"),
        Framework::React => String::from_str("react"),
        Framework::Node => String::from_str("node"),
        Framework::Custom => String::from_str("custom"),
    }
}

/// Index of the first candidate that exists, if any: the order in which the
/// shell probed the candidate locations is the order of preference.
pub fn pick_first_existing(exists_flags: &Vec<bool>) -> (r: Option<usize>)
    ensures
        match r {
            Some(i) => i < exists_flags@.len() && exists_flags@[i as int] && forall|j: int|
                0 <= j < i ==> !exists_flags@[j],
            None => forall|j: int| 0 <= j < exists_flags@.len() ==> !exists_flags@[j],
        },
{
    let n = exists_flags.len();
    let mut i: usize = 0;
    while i < n
        invariant
            n == exists_flags@.len(),
            i <= n,
            forall|j: int| 0 <= j < i ==> !exists_flags@[j],
        decreases n - i,
    {
        if exists_flags[i] {
            return Some(i);
        }
        i = i + 1;
    }
    None
}

/// Keep a directory name exactly when it names an installed Node version.
pub open spec fn spec_is_node_version() -> spec_fn(Seq<char>) -> bool {
    |s: Seq<char>| "node-"@.is_prefix_of(s)
}

/// The installed Node versions among the service directory names.
pub fn get_node_versions(services: &Vec<String>) -> (r: Vec<String>)
    ensures
        r.deep_view() == services.deep_view().filter(spec_is_node_version()),
{
    let n = services.len();
    let mut out: Vec<String> = Vec::new();
    let mut i: usize = 0;
    proof {
        reveal(Seq::filter);
        assert(services.deep_view().take(0) =~= Seq::<Seq<char>>::empty());
        assert(out.deep_view() =~= Seq::<Seq<char>>::empty());
        assert(Seq::<Seq<char>>::empty().filter(spec_is_node_version())
            =~= Seq::<Seq<char>>::empty());
    }
    while i < n
        invariant
            n == services@.len(),
            i <= n,
            out.deep_view() == services.deep_view().take(i as int).filter(spec_is_node_version()),
        decreases n - i,
    {
        let ghost dvt = services.deep_view().take(i as int);
        let ghost dv1 = services.deep_view().take(i + 1);
        let ghost out0 = out.deep_view();
        proof {
            reveal(Seq::filter);
            assert(dv1.drop_last() =~= dvt);
            assert(dv1.last() == services@[i as int]@);
        }
        if starts_with_str(services[i].as_str(), "node-") {
            let piece = services[i].clone();
            out.push(piece);
            proof {
                reveal(Seq::filter);
                assert(spec_is_node_version()(dv1.last()));
                assert(out.deep_view() =~= out0.push(services@[i as int]@));
                assert(dv1.filter(spec_is_node_version()) == dvt.filter(
                    spec_is_node_version(),
                ).push(dv1.last()));
            }
        } else {
            proof {
                reveal(Seq::filter);
                assert(!spec_is_node_version()(dv1.last()));
                assert(dv1.filter(spec_is_node_version()) == dvt.filter(spec_is_node_version()));
            }
        }
        i = i + 1;
    }
    proof {
        assert(services.deep_view().take(n as int) =~= services.deep_view());
    }
    out
}

/// Whether a project directory may be deleted, judged by its parent: the
/// path must have a parent, and that parent must have at least one
/// component, so a path right under the filesystem root is never deleted.
pub fn may_delete_project_dir(parent_components: Option<u64>) -> (b: bool)
    ensures
        b == (parent_components matches Some(n) && n >= 1),
{
    match parent_components {
        Some(n) => n >= 1,
        None => false,
    }
}

/// A directory name that is safe to delete under the services directory:
/// nonempty, no path separators, and not a relative reference.
pub fn is_safe_folder_name(name: &str) -> (b: bool)
    ensures
        b == (name@.len() > 0 && !has_sub(name@, "/"@) && !has_sub(name@, "\\"@) && name@ != "."@
            && name@ != ".."@),
{
    let n = name.unicode_len();
    if n == 0 {
        return false;
    }
    if contains_sub(name, "/") || contains_sub(name, "\\") {
        return false;
    }
    if str_eq(name, ".") || str_eq(name, "..") {
        return false;
    }
    true
}

} // verus!
