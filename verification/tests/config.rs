use rust_iiif::config::{parse_size_string, Config, RemoteConfig, Settings, DEFAULT_MEMORY_LIMIT};
use rust_iiif::iiif::info::ImageInfo;

fn silent() -> Settings {
    Settings {
        port: None,
        host: None,
        source_dir: None,
        base_url: None,
        memory_limit: None,
        disk_cache_dir: None,
        disk_limit: None,
        remote: None,
    }
}

fn with_limit(text: &str) -> Config {
    let mut found = silent();
    found.memory_limit = Some(text.to_string());
    Config::load(found)
}

#[test]
fn silent_sources_give_the_defaults() {
    let c = Config::load(silent());
    assert_eq!(c.server.port, 8080);
    assert_eq!(c.server.host, "0.0.0.0");
    assert_eq!(c.iiif.source_dir, "./images");
    assert_eq!(c.iiif.base_url, "http://localhost:8080/iiif/3/");
    assert_eq!(c.cache.memory_limit, "512MB");
    assert_eq!(c.cache.disk_cache_dir, "./cache");
    assert_eq!(c.cache.disk_limit, "10GB");
    assert!(c.remote.is_none());
    assert_eq!(c.parse_memory_limit(), 512 * 1024 * 1024);
}

#[test]
fn what_was_found_wins_over_the_defaults() {
    let c = Config::load(Settings {
        port: Some(9000),
        host: Some("127.0.0.1".to_string()),
        source_dir: Some("/srv/images".to_string()),
        base_url: Some("https://iiif.example/".to_string()),
        memory_limit: Some("1GB".to_string()),
        disk_cache_dir: Some("/srv/cache".to_string()),
        disk_limit: Some("100GB".to_string()),
        remote: Some(RemoteConfig {
            base_url: "https://origin.example/".to_string(),
            local_proxy_dir: "/srv/proxy".to_string(),
        }),
    });
    assert_eq!(c.server.port, 9000);
    assert_eq!(c.server.host, "127.0.0.1");
    assert_eq!(c.iiif.source_dir, "/srv/images");
    assert_eq!(c.iiif.base_url, "https://iiif.example/");
    assert_eq!(c.cache.memory_limit, "1GB");
    assert_eq!(c.cache.disk_cache_dir, "/srv/cache");
    assert_eq!(c.cache.disk_limit, "100GB");
    let remote = c.remote.as_ref().expect("a remote origin");
    assert_eq!(remote.base_url, "https://origin.example/");
    assert_eq!(remote.local_proxy_dir, "/srv/proxy");
    assert_eq!(c.parse_memory_limit(), 1024 * 1024 * 1024);
}

#[test]
fn byte_counts_with_units() {
    assert_eq!(parse_size_string("512MB"), Some(512 * 1024 * 1024));
    assert_eq!(parse_size_string("10GB"), Some(10 * 1024 * 1024 * 1024));
    assert_eq!(parse_size_string("64KB"), Some(64 * 1024));
    assert_eq!(parse_size_string("100B"), Some(100));
    assert_eq!(parse_size_string("100"), Some(100));
    assert_eq!(parse_size_string("0GB"), Some(0));
    assert_eq!(parse_size_string("+5MB"), Some(5 * 1024 * 1024));
}

#[test]
fn byte_counts_in_any_case_and_with_spaces() {
    assert_eq!(parse_size_string("512mb"), Some(512 * 1024 * 1024));
    assert_eq!(parse_size_string("1Gb"), Some(1024 * 1024 * 1024));
    assert_eq!(parse_size_string("8kB"), Some(8192));
    assert_eq!(parse_size_string("7b"), Some(7));
    assert_eq!(parse_size_string("512 MB"), Some(512 * 1024 * 1024));
    assert_eq!(parse_size_string("  512\tMB"), Some(512 * 1024 * 1024));
    assert_eq!(parse_size_string("5GBGB"), Some(5 * 1024 * 1024 * 1024));
    assert_eq!(parse_size_string("5BB"), Some(5));
}

#[test]
fn texts_that_spell_no_byte_count() {
    for text in ["", "MB", "B", "GB", "lots", "1.5GB", "-1MB", "1TB", "512 ", " 512", "MB512", "5 M B", "1e3", "5MBB"] {
        assert_eq!(parse_size_string(text), None, "{:?}", text);
    }
}

#[test]
fn byte_counts_beyond_64_bits_spell_none() {
    assert_eq!(parse_size_string("18446744073709551615"), Some(u64::MAX));
    assert_eq!(parse_size_string("18446744073709551615B"), Some(u64::MAX));
    assert_eq!(parse_size_string("18446744073709551616"), None);
    assert_eq!(parse_size_string("17179869183GB"), Some(17179869183 * 1024 * 1024 * 1024));
    assert_eq!(parse_size_string("17179869184GB"), None);
    assert_eq!(parse_size_string("18014398509481984KB"), None);
}

#[test]
fn the_memory_limit_falls_back_to_512_mib() {
    assert_eq!(DEFAULT_MEMORY_LIMIT, 536870912);
    assert_eq!(with_limit("256MB").parse_memory_limit(), 256 * 1024 * 1024);
    assert_eq!(with_limit("2gb").parse_memory_limit(), 2 * 1024 * 1024 * 1024);
    assert_eq!(with_limit("plenty").parse_memory_limit(), DEFAULT_MEMORY_LIMIT);
    assert_eq!(with_limit("").parse_memory_limit(), DEFAULT_MEMORY_LIMIT);
    assert_eq!(with_limit("99999999999999GB").parse_memory_limit(), DEFAULT_MEMORY_LIMIT);
}

#[test]
fn a_descriptor_has_the_fixed_fields() {
    let info = ImageInfo::new("http://localhost:8080/iiif/3/photo.jpg".to_string(), 400, 300);
    assert_eq!(info.context, "http://iiif.io/api/image/3/context.json");
    assert_eq!(info.id, "http://localhost:8080/iiif/3/photo.jpg");
    assert_eq!(info.service_type, "ImageService3");
    assert_eq!(info.protocol, "http://iiif.io/api/image");
    assert_eq!(info.profile, "level2");
    assert_eq!(info.width, 400);
    assert_eq!(info.height, 300);
    assert_eq!(info.extra_features, vec!["rotationArbitrary", "mirroring", "regionSquare"]);
}

/// The byte count of a text whose number stays far from the bounds, by the
/// string functions of the standard library.
fn by_the_standard_library(s: &str) -> Option<u64> {
    let s = s.to_uppercase();
    if s.ends_with("GB") {
        s.trim_end_matches("GB").trim().parse::<u64>().ok().map(|v| v * 1024 * 1024 * 1024)
    } else if s.ends_with("MB") {
        s.trim_end_matches("MB").trim().parse::<u64>().ok().map(|v| v * 1024 * 1024)
    } else if s.ends_with("KB") {
        s.trim_end_matches("KB").trim().parse::<u64>().ok().map(|v| v * 1024)
    } else if s.ends_with('B') {
        s.trim_end_matches('B').trim().parse::<u64>().ok()
    } else {
        s.parse::<u64>().ok()
    }
}

#[test]
fn byte_counts_agree_with_the_standard_library() {
    let numbers = ["", "0", "7", "512", "+3", "-3", "1.5", " 12", "12 ", "\u{a0}12\u{2003}", "\t9\n", "1 2", "x"];
    let units = [
        "", "b", "B", "kb", "KB", "Kb", "mb", "MB", "gb", "GB", "gB", "tb", "bb", "GBGB", "MBKB", "KBMB", " GB",
        "GB ", "g", "\u{212a}B", "k\u{df}", "m\u{fb00}b", "\u{131}b", "GBB", "BGB", " B",
    ];
    for number in numbers {
        for unit in units {
            let text = format!("{}{}", number, unit);
            assert_eq!(parse_size_string(&text), by_the_standard_library(&text), "{:?}", text);
        }
    }
}
