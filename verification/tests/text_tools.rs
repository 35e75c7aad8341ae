use stackmanager::composer::{
    composer_create_project_args, composer_phar_path, composer_php_dir, ensure_php_extensions,
};
use stackmanager::database::{
    classify_mysqladmin_failure, datadir_arg, mysqladmin_password_args, DbPasswordError,
};
use stackmanager::filesystem::{
    detect_framework, framework_label, get_node_versions, is_safe_folder_name,
    may_delete_project_dir, patch_vite_config, pick_first_existing, prepare_php_ini, Framework,
    ProjectProbe, VitePatch,
};
use stackmanager::hosts::{add_host_entry, get_hosts_path, host_entry_line, remove_host_entry};
use stackmanager::paths::{
    adminer_dir, bin_dir, build_path_env, mysql_data_dir, parent_dir, services_dir,
    stackmanager_root, store_path,
};
use stackmanager::store::load_projects;
use stackmanager::strutil::{
    contains_sub, find_char, find_sub, parse_dec, rfind_char, split_char, starts_with_str,
    str_eq, trim,
};
use stackmanager::table::Table;

#[test]
fn hosts_path_is_fixed() {
    assert_eq!(get_hosts_path(), "/etc/hosts");
}

#[test]
fn host_entry_is_appended_on_its_own_line() {
    assert_eq!(host_entry_line("a.test"), "127.0.0.1 a.test");
    let r = add_host_entry("127.0.0.1 localhost", "a.test");
    assert_eq!(r, Some("127.0.0.1 localhost\n127.0.0.1 a.test\n".to_string()));
}

#[test]
fn present_host_entry_is_not_appended_again() {
    let content = "127.0.0.1 localhost\n127.0.0.1 a.test\n";
    assert_eq!(add_host_entry(content, "a.test"), None);
}

#[test]
fn host_entry_lines_are_removed() {
    let content = "127.0.0.1 localhost\n127.0.0.1 a.test\nother line";
    assert_eq!(remove_host_entry(content, "a.test"), "127.0.0.1 localhost\nother line");
    // A trailing newline leaves a final empty line, which is kept.
    let content = "first\n127.0.0.1 a.test\n";
    assert_eq!(remove_host_entry(content, "a.test"), "first\n");
    // Nothing to remove leaves the content as it was.
    assert_eq!(remove_host_entry("first\nsecond", "a.test"), "first\nsecond");
}

#[test]
fn php_ini_extensions_are_uncommented_and_limits_raised() {
    let content = ";extension=curl\n;extension=intl\nmemory_limit = 128M\nkeep me";
    let (patched, changed) = prepare_php_ini(content);
    assert!(changed);
    assert_eq!(patched, "extension=curl\nextension=intl\nmemory_limit = 512M\nkeep me");
}

#[test]
fn php_ini_extension_dir_and_sizes_are_set() {
    let content = ";extension_dir = \"ext\"\npost_max_size = 8M\nupload_max_filesize = 2M";
    let (patched, changed) = prepare_php_ini(content);
    assert!(changed);
    assert_eq!(
        patched,
        "extension_dir = \"ext\"\npost_max_size = 64M\nupload_max_filesize = 64M"
    );
}

#[test]
fn untouched_php_ini_reports_no_change() {
    let content = "extension=curl\n; a comment\nmax_execution_time = 30";
    let (patched, changed) = prepare_php_ini(content);
    assert!(!changed);
    assert_eq!(patched, content);
}

#[test]
fn composer_extension_patch_uncomments_needed_lines() {
    let content = ";extension=openssl\n;extension=gd\nplain";
    let (patched, changed) = ensure_php_extensions(content);
    assert!(changed);
    // gd is not on the Composer list, so that line stays commented.
    assert_eq!(patched, "extension=openssl\n;extension=gd\nplain");
}

#[test]
fn composer_extension_patch_sets_the_extension_dir() {
    let content = ";extension_dir = \"ext\"";
    let (patched, changed) = ensure_php_extensions(content);
    assert!(changed);
    assert_eq!(patched, "extension_dir = \"ext\"");
    // Unlike the broader patch, this one matches only the spaceless form.
    let (patched, changed) = ensure_php_extensions("; extension_dir = \"ext\"");
    assert!(!changed);
    assert_eq!(patched, "; extension_dir = \"ext\"");
}

#[test]
fn vite_config_block_is_inserted_after_define_config() {
    let content = "import x\nexport default defineConfig({\n  plugins: []\n})\n";
    let block = "\n    server: {\n        allowedHosts: true,\n        hmr: {\n            host: '127.0.0.1',\n            protocol: 'ws'\n        }\n    },";
    match patch_vite_config(content) {
        VitePatch::Patched(c) => {
            let marker = "export default defineConfig({";
            let pos = content.find(marker).unwrap() + marker.len();
            let expected = format!("{}{}{}", &content[..pos], block, &content[pos..]);
            assert_eq!(c, expected);
        },
        other => panic!("expected a patched configuration, got {:?}", other),
    }
}

#[test]
fn vite_config_bare_export_form_is_patched_too() {
    let content = "export default {\n}\n";
    match patch_vite_config(content) {
        VitePatch::Patched(c) => {
            assert!(c.starts_with("export default {\n    server: {"));
            assert!(c.contains("allowedHosts: true"));
        },
        other => panic!("expected a patched configuration, got {:?}", other),
    }
}

#[test]
fn vite_config_already_patched_is_left_alone() {
    let content = "export default defineConfig({\n  server: { allowedHosts: true, hmr: {} }\n})";
    assert!(matches!(patch_vite_config(content), VitePatch::AlreadyPatched));
}

#[test]
fn vite_config_without_known_export_is_unparseable() {
    let content = "module.exports = {}";
    assert!(matches!(patch_vite_config(content), VitePatch::Unparseable));
}

#[test]
fn frameworks_are_detected_in_priority_order() {
    let none = ProjectProbe {
        artisan: false,
        wp_config: false,
        wp_settings: false,
        console: false,
        svelte_config: false,
        vite_js: false,
        vite_ts: false,
        package_json: false,
    };
    assert_eq!(detect_framework(&none), Framework::Custom);
    let laravel = ProjectProbe { artisan: true, package_json: true, ..none };
    assert_eq!(detect_framework(&laravel), Framework::Laravel);
    let wordpress = ProjectProbe { wp_settings: true, ..none };
    assert_eq!(detect_framework(&wordpress), Framework::Wordpress);
    let symfony = ProjectProbe { console: true, ..none };
    assert_eq!(detect_framework(&symfony), Framework::Symfony);
    let svelte = ProjectProbe { svelte_config: true, vite_ts: true, ..none };
    assert_eq!(detect_framework(&svelte), Framework::Svelte);
    let react = ProjectProbe { vite_ts: true, package_json: true, ..none };
    assert_eq!(detect_framework(&react), Framework::React);
    let node = ProjectProbe { package_json: true, ..none };
    assert_eq!(detect_framework(&node), Framework::Node);
}

#[test]
fn framework_labels_match_their_variants() {
    assert_eq!(framework_label(Framework::Laravel), "laravel");
    assert_eq!(framework_label(Framework::Wordpress), "wordpress");
    assert_eq!(framework_label(Framework::Symfony), "symfony");
    assert_eq!(framework_label(Framework::Svelte), "svelte");
    assert_eq!(framework_label(Framework::React), "react");
    assert_eq!(framework_label(Framework::Node), "node");
    assert_eq!(framework_label(Framework::Custom), "custom");
}

#[test]
fn first_existing_candidate_is_picked() {
    assert_eq!(pick_first_existing(&vec![false, true, true]), Some(1));
    assert_eq!(pick_first_existing(&vec![true]), Some(0));
    assert_eq!(pick_first_existing(&vec![false, false]), None);
    assert_eq!(pick_first_existing(&vec![]), None);
}

#[test]
fn node_versions_are_the_node_prefixed_services() {
    let services = vec![
        "node-20.1".to_string(),
        "php-8.3".to_string(),
        "node-18.19".to_string(),
        "mariadb-11".to_string(),
    ];
    assert_eq!(
        get_node_versions(&services),
        vec!["node-20.1".to_string(), "node-18.19".to_string()]
    );
}

#[test]
fn deletion_needs_a_parent_with_a_component() {
    assert!(may_delete_project_dir(Some(2)));
    assert!(may_delete_project_dir(Some(1)));
    assert!(!may_delete_project_dir(Some(0)));
    assert!(!may_delete_project_dir(None));
}

#[test]
fn unsafe_folder_names_are_refused() {
    assert!(is_safe_folder_name("php-8.3"));
    assert!(!is_safe_folder_name(""));
    assert!(!is_safe_folder_name("a/b"));
    assert!(!is_safe_folder_name("a\\b"));
    assert!(!is_safe_folder_name("."));
    assert!(!is_safe_folder_name(".."));
}

#[test]
fn fixed_layout_hangs_under_the_home_directory() {
    assert_eq!(stackmanager_root("/h"), "/h/.stackmanager");
    assert_eq!(services_dir("/h"), "/h/.stackmanager/services");
    assert_eq!(bin_dir("/h"), "/h/.stackmanager/bin");
    assert_eq!(store_path("/h"), "/h/.stackmanager/projects.json");
    assert_eq!(mysql_data_dir("/h"), "/h/.stackmanager/data/mysql");
    assert_eq!(adminer_dir("/h"), "/h/.stackmanager/adminer");
}

#[test]
fn parent_dir_is_everything_before_the_last_slash() {
    assert_eq!(parent_dir("/usr/local/bin/php"), Some("/usr/local/bin".to_string()));
    assert_eq!(parent_dir("/php"), Some("".to_string()));
    assert_eq!(parent_dir("php"), None);
}

#[test]
fn path_env_lists_extras_then_executable_dir_then_inherited() {
    let extra = vec!["/p1".to_string(), "/p2".to_string()];
    let r = build_path_env(&extra, &Some("/svc/bin".to_string()), "/usr/bin", ":");
    assert_eq!(r, "/p1:/p2:/svc/bin:/usr/bin");
    let r = build_path_env(&vec![], &None, "/usr/bin", ":");
    assert_eq!(r, "/usr/bin");
    let r = build_path_env(&vec!["C:\\x".to_string()], &None, "C:\\w", ";");
    assert_eq!(r, "C:\\x;C:\\w");
}

#[test]
fn database_argument_lists_are_exact() {
    assert_eq!(datadir_arg("/h/.stackmanager/data/mysql"), "--datadir=/h/.stackmanager/data/mysql");
    assert_eq!(
        mysqladmin_password_args("", "newpw"),
        vec!["-u".to_string(), "root".to_string(), "password".to_string(), "newpw".to_string()]
    );
    assert_eq!(
        mysqladmin_password_args("oldpw", "newpw"),
        vec![
            "-u".to_string(),
            "root".to_string(),
            "-poldpw".to_string(),
            "password".to_string(),
            "newpw".to_string()
        ]
    );
}

#[test]
fn access_denied_is_told_apart_from_other_failures() {
    assert_eq!(
        classify_mysqladmin_failure("ERROR: Access denied for user 'root'"),
        DbPasswordError::AccessDenied
    );
    assert_eq!(
        classify_mysqladmin_failure("could not connect to server"),
        DbPasswordError::Other
    );
}

#[test]
fn composer_paths_and_arguments_are_exact() {
    assert_eq!(composer_phar_path("/h/.stackmanager/bin"), "/h/.stackmanager/bin/composer.phar");
    assert_eq!(composer_php_dir("/h/.stackmanager/bin"), "/h/.stackmanager/bin/php");
    assert_eq!(
        composer_create_project_args("shop"),
        vec![
            "create-project".to_string(),
            "laravel/laravel".to_string(),
            "shop".to_string(),
            "--prefer-dist".to_string()
        ]
    );
}

#[test]
fn missing_store_file_loads_as_the_empty_list() {
    assert_eq!(load_projects(None), "[]");
    assert_eq!(load_projects(Some("[{\"name\":\"x\"}]".to_string())), "[{\"name\":\"x\"}]");
}

#[test]
fn string_helpers_behave_on_edge_cases() {
    assert_eq!(trim("  a b \r\n"), "a b");
    assert_eq!(trim(""), "");
    assert_eq!(trim(" \t "), "");
    assert!(str_eq("abc", "abc"));
    assert!(!str_eq("abc", "abd"));
    assert!(starts_with_str("node-20", "node-"));
    assert!(!starts_with_str("no", "node-"));
    assert!(contains_sub("hello world", "lo wo"));
    assert!(!contains_sub("hello", "world"));
    assert_eq!(find_sub("abcabc", "bc"), Some(1));
    assert_eq!(find_sub("abc", ""), Some(0));
    assert_eq!(find_sub("abc", "zzz"), None);
    assert_eq!(find_char("a:b:c", ':'), Some(1));
    assert_eq!(rfind_char("a:b:c", ':'), Some(3));
    assert_eq!(find_char("abc", ':'), None);
    let parts = split_char("a\nb\n", '\n');
    assert_eq!(parts, vec!["a".to_string(), "b".to_string(), "".to_string()]);
}

#[test]
fn decimal_parsing_is_exact_at_the_limits() {
    assert_eq!(parse_dec("0"), Some(0));
    assert_eq!(parse_dec("42"), Some(42));
    assert_eq!(parse_dec("18446744073709551615"), Some(u64::MAX));
    assert_eq!(parse_dec("18446744073709551616"), None);
    assert_eq!(parse_dec(""), None);
    assert_eq!(parse_dec("4a"), None);
    assert_eq!(parse_dec("-1"), None);
}

#[test]
fn table_keeps_one_value_per_key() {
    let mut t: Table<u32> = Table::new();
    assert!(!t.contains_key(&"a".to_string()));
    t.insert("a".to_string(), 1);
    t.insert("b".to_string(), 2);
    t.insert("a".to_string(), 3);
    assert_eq!(t.get(&"a".to_string()), Some(3));
    assert_eq!(t.get(&"b".to_string()), Some(2));
    assert_eq!(t.remove(&"a".to_string()), Some(3));
    assert_eq!(t.remove(&"a".to_string()), None);
    assert!(!t.contains_key(&"a".to_string()));
    t.insert("c".to_string(), 4);
    let drained = t.drain();
    assert_eq!(drained.len(), 2);
    assert!(!t.contains_key(&"b".to_string()));
    assert!(!t.contains_key(&"c".to_string()));
}
