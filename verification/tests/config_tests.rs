use glacierdisk::config::{config_file, App, Config};
use glacierdisk::theme::{extract_theme_name, read_theme_data, theme_path};

#[test]
fn config_files_live_under_the_app_directory() {
    assert_eq!(
        config_file(&App::GlacierDiskInfo, "/home/u/.config"),
        "/home/u/.config/glacierdiskinfo/config.toml"
    );
    assert_eq!(
        config_file(&App::GlacierDiskMark, "/home/u/.config"),
        "/home/u/.config/glacierdiskmark/config.toml"
    );
}

#[test]
fn themes_live_under_the_app_directory() {
    assert_eq!(
        theme_path(&App::GlacierDiskInfo, "/home/u/.config"),
        "/home/u/.config/glacierdiskinfo/themes"
    );
    assert_eq!(
        theme_path(&App::GlacierDiskMark, "/home/u/.config"),
        "/home/u/.config/glacierdiskmark/themes"
    );
}

#[test]
fn app_labels() {
    assert_eq!(App::GlacierDiskInfo.label(), "glacierdiskinfo");
    assert_eq!(App::GlacierDiskMark.label(), "glacierdiskmark");
}

#[test]
fn default_config_has_no_theme_name() {
    let c = Config::default();
    assert_eq!(c.theme, "");
    assert!(matches!(c.app, App::GlacierDiskInfo));
}

#[test]
fn a_declared_name_is_extracted() {
    assert_eq!(extract_theme_name(b"/* ThemeName */\nbody {}\n"), Some(b"ThemeName ".to_vec()));
}

#[test]
fn the_last_comment_wins() {
    assert_eq!(
        extract_theme_name(b"/* One */\n.x{}\n/* Two */\n"),
        Some(b"Two ".to_vec())
    );
}

#[test]
fn comments_on_one_line_merge_greedily() {
    assert_eq!(
        extract_theme_name(b"/* A */ x /* B */"),
        Some(b"A */ x /* B ".to_vec())
    );
}

#[test]
fn a_file_without_comments_has_no_name() {
    assert_eq!(extract_theme_name(b"body {}\n"), None);
}

#[test]
fn an_unclosed_comment_has_no_name() {
    assert_eq!(extract_theme_name(b"/* dangling\nbody {}\n"), None);
}

#[test]
fn theme_data_takes_the_declared_name() {
    let t = read_theme_data("mytheme.css", b"/* Frost */\nbody {}\n", "/cfg/themes");
    assert_eq!(t.path, "/cfg/themes/mytheme.css");
    assert_eq!(t.name, "Frost ");
}

#[test]
fn theme_data_falls_back_to_the_file_name() {
    let t = read_theme_data("mytheme.css", b"body {}\n", "/cfg/themes");
    assert_eq!(t.name, "mytheme.css");
    let t = read_theme_data("mytheme.css", b"/**/\n", "/cfg/themes");
    assert_eq!(t.name, "mytheme.css");
}

#[test]
fn the_none_theme_resolves_to_nothing() {
    let c = Config { app: App::GlacierDiskInfo, theme: "none".to_string() };
    assert!(c.get_theme(Some(&b"/* X */".to_vec()), "/cfg/themes").is_none());
}

#[test]
fn an_unreadable_theme_resolves_to_nothing() {
    let c = Config { app: App::GlacierDiskInfo, theme: "frost.css".to_string() };
    assert!(c.get_theme(None, "/cfg/themes").is_none());
}

#[test]
fn a_set_theme_resolves() {
    let c = Config { app: App::GlacierDiskInfo, theme: "frost.css".to_string() };
    let t = c.get_theme(Some(&b"/* Frost */".to_vec()), "/cfg/themes").unwrap();
    assert_eq!(t.path, "/cfg/themes/frost.css");
    assert_eq!(t.name, "Frost ");
}
