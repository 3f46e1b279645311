use dprint_engine::paths::{get_file_paths_by_plugins, get_plugin_patterns, PluginNames, PluginPatterns};
use std::path::PathBuf;

fn strings(items: &[&str]) -> Vec<String> {
    items.iter().map(|item| item.to_string()).collect()
}

fn file(path: &str, plugins: &[&str]) -> (PathBuf, Vec<String>) {
    (PathBuf::from(path), strings(plugins))
}

fn plugin(associations: &[&str], names: &[&str], extensions: &[&str]) -> PluginPatterns {
    PluginPatterns {
        positive_associations: strings(associations),
        file_names: strings(names),
        file_extensions: strings(extensions),
    }
}

#[test]
fn plugin_names_are_joined_and_split_again() {
    let names = strings(&["typescript", "json", "markdown"]);
    let key = PluginNames::from_plugin_names(&names);
    assert_eq!(key.names(), names);
    assert_eq!(format!("{:?}", key), "PluginNames(\"typescript~~json~~markdown\")");
}

#[test]
fn plugin_names_of_one_plugin_are_its_name() {
    let key = PluginNames::from_plugin_names(&strings(&["json"]));
    assert_eq!(key.names(), strings(&["json"]));
    assert_eq!(key, PluginNames::from_plugin_names(&strings(&["json"])));
    assert_ne!(key, PluginNames::from_plugin_names(&strings(&["toml"])));
}

#[test]
fn plugin_names_of_no_plugin_split_into_one_empty_name() {
    let key = PluginNames::from_plugin_names(&[]);
    assert_eq!(key.names(), strings(&[""]));
}

#[test]
fn plugin_names_are_split_at_the_leftmost_separator() {
    // a name that ends in the separator's character moves the cut
    let key = PluginNames::from_plugin_names(&strings(&["a~", "b"]));
    assert_eq!(key.names(), strings(&["a", "~b"]));
    let key = PluginNames::from_plugin_names(&strings(&["a~~b", ""]));
    assert_eq!(key.names(), strings(&["a", "b", ""]));
}

#[test]
fn files_are_grouped_by_their_plugins_in_order() {
    let by_plugins = get_file_paths_by_plugins(vec![
        file("/a.ts", &["typescript"]),
        file("/b.json", &["json"]),
        file("/c.txt", &[]),
        file("/d.ts", &["typescript"]),
        file("/e.md", &["markdown", "typescript"]),
        file("/f.json", &["json"]),
    ]);
    assert!(!by_plugins.is_empty());
    assert!(by_plugins.ensure_not_empty(&PathBuf::from("/")).is_ok());
    let all: Vec<PathBuf> = by_plugins.all_file_paths().into_iter().cloned().collect();
    assert_eq!(
        all,
        vec![
            PathBuf::from("/a.ts"),
            PathBuf::from("/d.ts"),
            PathBuf::from("/b.json"),
            PathBuf::from("/f.json"),
            PathBuf::from("/e.md"),
        ]
    );
    let groups = by_plugins.into_vec();
    assert_eq!(groups.len(), 3);
    assert_eq!(groups[0].0.names(), strings(&["typescript"]));
    assert_eq!(groups[0].1, vec![PathBuf::from("/a.ts"), PathBuf::from("/d.ts")]);
    assert_eq!(groups[1].0.names(), strings(&["json"]));
    assert_eq!(groups[1].1, vec![PathBuf::from("/b.json"), PathBuf::from("/f.json")]);
    assert_eq!(groups[2].0.names(), strings(&["markdown", "typescript"]));
    assert_eq!(groups[2].1, vec![PathBuf::from("/e.md")]);
}

#[test]
fn no_files_with_plugins_is_reported_with_the_base_path() {
    let by_plugins = get_file_paths_by_plugins(vec![file("/c.txt", &[]), file("/d.txt", &[])]);
    assert!(by_plugins.is_empty());
    assert!(by_plugins.all_file_paths().is_empty());
    let error = by_plugins.ensure_not_empty(&PathBuf::from("/project")).unwrap_err();
    assert_eq!(error.base_path, PathBuf::from("/project"));
    assert!(get_file_paths_by_plugins(Vec::new()).is_empty());
}

#[test]
fn order_of_plugin_names_tells_groups_apart() {
    let groups = get_file_paths_by_plugins(vec![
        file("/a", &["x", "y"]),
        file("/b", &["y", "x"]),
        file("/c", &["x", "y"]),
    ])
    .into_vec();
    assert_eq!(groups.len(), 2);
    assert_eq!(groups[0].1, vec![PathBuf::from("/a"), PathBuf::from("/c")]);
    assert_eq!(groups[1].1, vec![PathBuf::from("/b")]);
}

#[test]
fn patterns_list_extensions_then_names_then_associations() {
    let plugins = vec![
        plugin(&[], &["package.json"], &["json", "jsonc"]),
        plugin(&["**/*.special", "docs/**"], &["ignored-name"], &["ignored-ext"]),
        plugin(&[], &["Dockerfile", "package.json"], &["ts", "json"]),
        plugin(&["**/*.last"], &[], &[]),
    ];
    assert_eq!(
        get_plugin_patterns(&plugins),
        strings(&[
            "**/*.{json,jsonc,ts}",
            "**/{package.json,Dockerfile}",
            "**/*.special",
            "docs/**",
            "**/*.last",
        ])
    );
}

#[test]
fn patterns_leave_out_what_is_empty() {
    assert_eq!(get_plugin_patterns(&[]), Vec::<String>::new());
    assert_eq!(get_plugin_patterns(&[plugin(&[], &[], &["rs"])]), strings(&["**/*.{rs}"]));
    assert_eq!(get_plugin_patterns(&[plugin(&[], &["Makefile"], &[])]), strings(&["**/{Makefile}"]));
    assert_eq!(get_plugin_patterns(&[plugin(&["a/**"], &["n"], &["e"])]), strings(&["a/**"]));
}

#[test]
fn association_patterns_are_kept_as_often_as_they_come() {
    let plugins = vec![plugin(&["a/**", "a/**"], &[], &[]), plugin(&["a/**"], &[], &[])];
    assert_eq!(get_plugin_patterns(&plugins), strings(&["a/**", "a/**", "a/**"]));
}
