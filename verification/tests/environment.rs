use dprint_engine::environment::{
    default_multi_selection, ensure_system_path, get_cache_dir_internal, is_ci, remove_system_path,
    resolve_max_threads, CacheDir, CacheDirError,
};
use std::num::NonZeroUsize;
use std::path::PathBuf;

fn available(count: usize) -> Option<usize> {
    NonZeroUsize::new(count).map(NonZeroUsize::get)
}

#[test]
fn should_resolve_num_threads() {
    assert_eq!(resolve_max_threads(None, None), 4);
    assert_eq!(resolve_max_threads(None, available(1)), 1);
    assert_eq!(resolve_max_threads(None, available(4)), 4);
    assert_eq!(resolve_max_threads(Some("2".to_string()), available(4)), 2);
    assert_eq!(resolve_max_threads(Some("0".to_string()), available(4)), 4);
    assert_eq!(resolve_max_threads(Some("5".to_string()), available(4)), 4);
    assert_eq!(resolve_max_threads(Some("4".to_string()), available(4)), 4);
}

#[test]
fn thread_setting_without_known_parallelism_is_taken_as_is() {
    assert_eq!(resolve_max_threads(Some("16".to_string()), None), 16);
    assert_eq!(resolve_max_threads(Some("0".to_string()), None), 4);
}

#[test]
fn thread_setting_that_is_no_number_is_ignored() {
    for text in ["", "+", "-1", "two", " 2", "2 ", "1_000", "0x10", "٣", "2.0"] {
        assert_eq!(resolve_max_threads(Some(text.to_string()), available(8)), 8, "{:?}", text);
        assert_eq!(resolve_max_threads(Some(text.to_string()), None), 4, "{:?}", text);
    }
}

#[test]
fn thread_setting_may_carry_a_plus_sign_and_leading_zeros() {
    assert_eq!(resolve_max_threads(Some("+3".to_string()), available(8)), 3);
    assert_eq!(resolve_max_threads(Some("007".to_string()), available(8)), 7);
    assert_eq!(resolve_max_threads(Some("+000".to_string()), available(8)), 8);
}

#[test]
fn thread_setting_too_large_for_the_machine_word_is_ignored() {
    let too_large = format!("{}0", usize::MAX);
    assert_eq!(resolve_max_threads(Some(too_large), available(8)), 8);
    let largest = format!("{}", usize::MAX);
    assert_eq!(resolve_max_threads(Some(largest.clone()), available(8)), 8);
    assert_eq!(resolve_max_threads(Some(largest), None), usize::MAX);
}

fn system_cache_dir() -> PathBuf {
    dirs::cache_dir().unwrap_or_else(|| PathBuf::from("/cache"))
}

/// Chooses the cache directory as the program does: reads whether the
/// setting is an absolute path, and turns the choice into a path.
fn cache_dir_for(setting: Option<String>) -> Result<PathBuf, CacheDirError> {
    let is_absolute = match &setting {
        Some(dir_path) => PathBuf::from(dir_path).is_absolute(),
        None => false,
    };
    match get_cache_dir_internal(setting, is_absolute, Some(system_cache_dir())) {
        Ok(CacheDir::Setting(dir_path)) => Ok(PathBuf::from(dir_path)),
        Ok(CacheDir::BelowSystemCacheDir(dir)) => Ok(dir.join("dprint").join("cache")),
        Err(error) => Err(error),
    }
}

#[test]
fn should_get_cache_dir_based_on_env_var() {
    let default_dir = system_cache_dir().join("dprint").join("cache");
    let value = if std::path::MAIN_SEPARATOR == '\\' {
        "C:/.dprint-cache"
    } else {
        "/home/david/.dprint-cache"
    };
    assert_eq!(cache_dir_for(Some(value.to_string())).unwrap().to_string_lossy(), value);
    assert_eq!(cache_dir_for(Some("".to_string())).unwrap(), default_dir);
    assert_eq!(cache_dir_for(Some("  ".to_string())).unwrap(), default_dir);
    assert_eq!(cache_dir_for(None).unwrap(), default_dir);
}

#[test]
fn should_error_when_cache_dir_env_var_relative() {
    let result = cache_dir_for(Some("./dir".to_string())).err();
    assert_eq!(
        result.unwrap().message(),
        "The DPRINT_CACHE_DIR environment variable must specify an absolute path."
    );
}

#[test]
fn cache_dir_needs_the_system_cache_dir_only_without_setting() {
    let chosen = get_cache_dir_internal(Some("/abs".to_string()), true, None);
    assert!(matches!(chosen, Ok(CacheDir::Setting(dir)) if dir == "/abs"));
    let chosen = get_cache_dir_internal(Some("rel".to_string()), false, None);
    assert_eq!(chosen.unwrap_err(), CacheDirError::RelativeSetting);
    let chosen = get_cache_dir_internal(None, false, None);
    assert_eq!(chosen.unwrap_err(), CacheDirError::NoSystemCacheDir);
    assert_eq!(CacheDirError::NoSystemCacheDir.message(), "Expected to find cache directory");
    let chosen = get_cache_dir_internal(Some(" \t\u{a0}\n".to_string()), false, None);
    assert_eq!(chosen.unwrap_err(), CacheDirError::NoSystemCacheDir);
    let chosen = get_cache_dir_internal(Some(" x ".to_string()), false, Some(PathBuf::from("/c")));
    assert_eq!(chosen.unwrap_err(), CacheDirError::RelativeSetting);
}

#[test]
fn ci_is_told_by_true_or_one() {
    assert!(is_ci(Some("true".to_string())));
    assert!(is_ci(Some("1".to_string())));
    assert!(!is_ci(Some("TRUE".to_string())));
    assert!(!is_ci(Some("yes".to_string())));
    assert!(!is_ci(Some("0".to_string())));
    assert!(!is_ci(Some("".to_string())));
    assert!(!is_ci(Some(" true".to_string())));
    assert!(!is_ci(None));
}

#[test]
fn system_path_gets_a_directory_once() {
    let dir = "C:\\dprint\\bin";
    assert_eq!(ensure_system_path("C:\\a;C:\\b".to_string(), dir), Some("C:\\a;C:\\b;C:\\dprint\\bin".to_string()));
    assert_eq!(ensure_system_path("C:\\a;".to_string(), dir), Some("C:\\a;C:\\dprint\\bin".to_string()));
    assert_eq!(ensure_system_path("".to_string(), dir), Some("C:\\dprint\\bin".to_string()));
    assert_eq!(ensure_system_path("C:\\a;C:\\dprint\\bin;C:\\b".to_string(), dir), None);
    assert_eq!(ensure_system_path("C:\\dprint\\bin".to_string(), dir), None);
    // an entry that only starts like the directory is another entry
    assert_eq!(
        ensure_system_path("C:\\dprint\\bin2".to_string(), dir),
        Some("C:\\dprint\\bin2;C:\\dprint\\bin".to_string())
    );
    assert_eq!(ensure_system_path("".to_string(), ""), None);
}

#[test]
fn system_path_loses_every_entry_of_a_directory() {
    let dir = "C:\\dprint\\bin";
    assert_eq!(remove_system_path("C:\\a;C:\\dprint\\bin;C:\\b", dir), Some("C:\\a;C:\\b".to_string()));
    assert_eq!(
        remove_system_path("C:\\dprint\\bin;C:\\a;C:\\dprint\\bin", dir),
        Some("C:\\a".to_string())
    );
    assert_eq!(remove_system_path("C:\\dprint\\bin", dir), Some("".to_string()));
    assert_eq!(remove_system_path("C:\\a;C:\\dprint\\bin;", dir), Some("C:\\a;".to_string()));
    assert_eq!(remove_system_path("C:\\a;C:\\b", dir), None);
    assert_eq!(remove_system_path("", dir), None);
    assert_eq!(remove_system_path("C:\\dprint\\bin2", dir), None);
}

#[test]
fn multi_selection_defaults_to_the_marked_items() {
    let items = vec![
        (true, "a".to_string()),
        (false, "b".to_string()),
        (true, "c".to_string()),
        (true, "d".to_string()),
    ];
    assert_eq!(default_multi_selection(&items), vec![0, 2, 3]);
    assert_eq!(default_multi_selection(&items[1..2]), Vec::<usize>::new());
    assert_eq!(default_multi_selection(&[]), Vec::<usize>::new());
}
