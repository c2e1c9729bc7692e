use tarmac::data::{
    local_uri, uri_kind, AssetId, AssetKind, AssetName, InputConfig, InputManifest, SyncInput,
};
use tarmac::path::{same_components, PathComponent};

fn input(path: &str, plain: &str, dpi_scale: u32) -> SyncInput {
    SyncInput {
        name: AssetName { text: plain.to_owned() },
        path: path.to_owned(),
        path_without_dpi_scale: plain.to_owned(),
        dpi_scale,
        config: InputConfig {
            packable: false,
            codegen: true,
            codegen_base_path: "assets".to_owned(),
        },
        contents: vec![1, 2, 3],
        hash: "abc".to_owned(),
        id: None,
        slice: None,
    }
}

#[test]
fn identifiers_render_with_their_scheme() {
    assert_eq!(AssetId::Id(0).to_string(), "remoteasset://0");
    assert_eq!(AssetId::Id(1234567890).to_string(), "remoteasset://1234567890");
    assert_eq!(AssetId::Id(u64::MAX).to_string(), "remoteasset://18446744073709551615");
    assert_eq!(
        AssetId::Path(".tarmac/ui/logo.png".to_owned()).to_string(),
        "localasset://.tarmac/ui/logo.png"
    );
    assert_eq!(local_uri("a/b"), "localasset://a/b");
}

#[test]
fn rendered_identifiers_are_read_back_as_their_kind() {
    let ids = [
        AssetId::Id(0),
        AssetId::Id(77),
        AssetId::Path("logo.png".to_owned()),
        AssetId::Path("remoteasset://5".to_owned()),
        AssetId::Path("id://5".to_owned()),
        AssetId::Path(String::new()),
    ];
    for id in &ids {
        assert_eq!(uri_kind(&id.to_string()), Some(id.kind()));
    }
    assert_eq!(AssetId::Id(1).kind(), AssetKind::Remote);
    assert_eq!(AssetId::Path("a".to_owned()).kind(), AssetKind::Local);
    assert_eq!(uri_kind("remoteasset:/5"), None);
    assert_eq!(uri_kind("http://example.com"), None);
    assert_eq!(uri_kind(""), None);
    assert_ne!(
        AssetId::Id(5).to_string(),
        AssetId::Path("5".to_owned()).to_string()
    );
}

#[test]
fn duplicate_is_equal() {
    let ids = [AssetId::Id(9), AssetId::Path("a/b.png".to_owned())];
    for id in &ids {
        assert_eq!(&id.duplicate(), id);
    }
}

#[test]
fn unchanged_needs_same_hash_and_same_packability() {
    let current = input("assets/logo.png", "assets/logo.png", 100);
    let entry = |hash: &str, packable: bool| InputManifest {
        hash: hash.to_owned(),
        packable,
        id: AssetId::Id(1),
    };
    assert!(current.is_unchanged_since_last_sync(&entry("abc", false)));
    assert!(!current.is_unchanged_since_last_sync(&entry("abd", false)));
    assert!(!current.is_unchanged_since_last_sync(&entry("abc", true)));
    assert!(!current.is_unchanged_since_last_sync(&entry("", true)));
}

#[test]
fn human_name_is_the_stem_and_the_scale_of_a_variant() {
    let plain = input("assets/ui/logo.png", "assets/ui/logo.png", 100);
    assert_eq!(plain.human_name(), "logo");
    assert_eq!(plain.try_human_name(), Some("logo".to_owned()));

    let scaled = input("assets/ui/logo@2x.png", "assets/ui/logo.png", 200);
    assert_eq!(scaled.human_name(), "logo (200x)");
    assert_eq!(scaled.try_human_name(), Some("logo (200x)".to_owned()));

    let same_file = input("assets/ui/./logo.png", "assets/ui/logo.png", 300);
    assert_eq!(same_file.human_name(), "logo");

    assert_eq!(scaled.human_name_from_stem("banner".to_owned()), "banner (200x)");
}

#[test]
fn human_name_needs_a_file_name() {
    let nameless = input("assets/..", "assets/..", 100);
    assert_eq!(nameless.try_human_name(), None);
    let empty = input("", "", 100);
    assert_eq!(empty.try_human_name(), None);
}

#[test]
fn components_are_compared_one_by_one() {
    let normal = |text: &str| PathComponent::Normal(text.to_owned());
    assert!(same_components(&vec![], &vec![]));
    assert!(same_components(
        &vec![normal("a"), PathComponent::ParentDir],
        &vec![normal("a"), PathComponent::ParentDir]
    ));
    assert!(!same_components(&vec![normal("a")], &vec![normal("b")]));
    assert!(!same_components(&vec![normal("a")], &vec![normal("a"), normal("b")]));
    assert!(!same_components(&vec![PathComponent::CurDir], &vec![PathComponent::ParentDir]));
    assert!(!same_components(
        &vec![PathComponent::RootDir("/".to_owned())],
        &vec![PathComponent::Prefix("/".to_owned())]
    ));
}
