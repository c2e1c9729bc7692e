use tarmac::catalog::{
    catalog_input, content_hash, nearest_rule, split_dpi_scale, ConfigRule, ScaledPath,
    DEFAULT_DPI_SCALE,
};
use tarmac::data::InputConfig;

fn fnv1a(contents: &[u8]) -> u64 {
    let mut state: u64 = 0xcbf29ce484222325;
    for byte in contents {
        state ^= u64::from(*byte);
        state = state.wrapping_mul(0x100000001b3);
    }
    state
}

#[test]
fn digest_is_the_state_in_decimal() {
    assert_eq!(content_hash(b""), "14695981039346656037");
    assert_eq!(content_hash(b"abc"), "16654208175385433931");
    for contents in [&b"a"[..], b"hello world", &[0, 255, 7, 7, 7], &[0; 64]] {
        assert_eq!(content_hash(contents), fnv1a(contents).to_string());
    }
}

#[test]
fn altering_one_byte_changes_the_digest() {
    let contents: Vec<u8> = (0..40).map(|i| (i * 7 + 3) as u8).collect();
    let hash = content_hash(&contents);
    for at in 0..contents.len() {
        for delta in [1u8, 2, 128, 255] {
            let mut altered = contents.clone();
            altered[at] = altered[at].wrapping_add(delta);
            assert_ne!(content_hash(&altered), hash);
        }
    }
    assert_eq!(content_hash(&contents), hash);
}

fn split(path: &str) -> (String, u32) {
    let ScaledPath { path_without_dpi_scale, dpi_scale } = split_dpi_scale(path);
    (path_without_dpi_scale, dpi_scale)
}

#[test]
fn scale_is_read_from_the_file_name() {
    assert_eq!(split("assets/logo@2x.png"), ("assets/logo.png".to_owned(), 200));
    assert_eq!(split("assets/logo@3x.png"), ("assets/logo.png".to_owned(), 300));
    assert_eq!(split("logo@10x"), ("logo".to_owned(), 1000));
    assert_eq!(split("a@b/logo@1x.png"), ("a@b/logo.png".to_owned(), 100));
    assert_eq!(split("logo@0x.png"), ("logo.png".to_owned(), 0));
    assert_eq!(split("logo@007x.tar.gz"), ("logo.tar.gz".to_owned(), 700));
    assert_eq!(split("@2x"), ("".to_owned(), 200));
    assert_eq!(split("logo@42949672x.png"), ("logo.png".to_owned(), 4294967200));
}

#[test]
fn names_without_a_scale_stand_for_themselves() {
    assert_eq!(DEFAULT_DPI_SCALE, 100);
    for path in [
        "assets/logo.png",
        "",
        "logo@.png",
        "logo@x.png",
        "logo@2.png",
        "logo@2xx.png",
        "logo@2x/inner.png",
        "logo@2x.d\\inner.png",
        "logo@2xpng",
        "logo@2y.png",
        "logo@-2x.png",
        "logo@2x@.png",
        "logo@42949673x.png",
        "logo@99999999999999999999999x.png",
        "logo@2x.png@",
    ] {
        assert_eq!(split(path), (path.to_owned(), 100));
    }
}

fn rule(directory: &str, packable: bool, codegen: bool) -> ConfigRule {
    ConfigRule {
        directory: directory.to_owned(),
        config: InputConfig {
            packable,
            codegen,
            codegen_base_path: directory.to_owned(),
        },
    }
}

#[test]
fn the_nearest_enclosing_rule_wins() {
    let rules = vec![
        rule("assets", false, true),
        rule("assets/ui", true, true),
        rule("assets/ui/icons", true, false),
        rule("other", false, false),
        rule("assets/ui", false, false),
    ];
    assert_eq!(nearest_rule(&rules, "assets/logo.png"), Some(0));
    assert_eq!(nearest_rule(&rules, "assets/ui/logo.png"), Some(4));
    assert_eq!(nearest_rule(&rules, "assets/ui/icons/star.png"), Some(2));
    assert_eq!(nearest_rule(&rules, "assets/uix/logo.png"), Some(0));
    assert_eq!(nearest_rule(&rules, "elsewhere/logo.png"), None);
    assert_eq!(nearest_rule(&Vec::new(), "assets/logo.png"), None);
}

#[test]
fn a_file_becomes_an_input_with_its_digest_scale_and_settings() {
    let rules = vec![rule("assets", false, true), rule("assets/ui", true, true)];
    let input = catalog_input(
        "logo".to_owned(),
        "assets/ui/logo@2x.png".to_owned(),
        vec![1, 2, 3],
        &rules,
    )
    .unwrap();
    assert_eq!(input.name.text, "logo");
    assert_eq!(input.path, "assets/ui/logo@2x.png");
    assert_eq!(input.path_without_dpi_scale, "assets/ui/logo.png");
    assert_eq!(input.dpi_scale, 200);
    assert_eq!(input.contents, vec![1, 2, 3]);
    assert_eq!(input.hash, content_hash(&[1, 2, 3]));
    assert!(input.config.packable);
    assert!(input.config.codegen);
    assert_eq!(input.config.codegen_base_path, "assets/ui");
    assert_eq!(input.id, None);
    assert_eq!(input.slice, None);
    assert_eq!(input.human_name(), "logo (200x)");

    assert!(catalog_input("x".to_owned(), "src/x.png".to_owned(), vec![], &rules).is_none());
}
