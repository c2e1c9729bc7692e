use tarmac::bindings::{bindings_of_entries, AssetBinding};
use tarmac::codegen::{
    collapse_components, perform_codegen, segments_of_input, CodegenError, CodegenErrorKind,
    FolderEntry, GroupedItem,
};
use tarmac::data::{AssetId, AssetName, InputConfig, SyncInput};
use tarmac::path::PathComponent;

fn input(path: &str, dpi_scale: u32, id: Option<u64>) -> SyncInput {
    SyncInput {
        name: AssetName { text: path.to_owned() },
        path: path.to_owned(),
        path_without_dpi_scale: path.to_owned(),
        dpi_scale,
        config: InputConfig {
            packable: false,
            codegen: true,
            codegen_base_path: "assets".to_owned(),
        },
        contents: Vec::new(),
        hash: "hash".to_owned(),
        id: id.map(AssetId::Id),
        slice: None,
    }
}

fn names(entries: &[FolderEntry]) -> Vec<String> {
    entries.iter().map(|entry| entry.name.clone()).collect()
}

fn children<'a, 'b>(entries: &'b [FolderEntry<'a>], name: &str) -> &'b [FolderEntry<'a>] {
    match &entries.iter().find(|entry| entry.name == name).unwrap().item {
        GroupedItem::Folder { children_by_name } => children_by_name,
        GroupedItem::InputGroup { .. } => panic!("{} is no folder", name),
    }
}

fn scales(entries: &[FolderEntry], name: &str) -> Vec<(u32, String)> {
    match &entries.iter().find(|entry| entry.name == name).unwrap().item {
        GroupedItem::InputGroup { inputs_by_dpi_scale } => inputs_by_dpi_scale
            .iter()
            .map(|(dpi_scale, input)| (*dpi_scale, input.path.clone()))
            .collect(),
        GroupedItem::Folder { .. } => panic!("{} is no image", name),
    }
}

#[test]
fn inputs_are_grouped_by_folder_and_scale() {
    let logo = input("assets/ui/logo.png", 100, Some(1));
    let mut logo2 = input("assets/ui/logo.png", 200, Some(2));
    logo2.path = "assets/ui/logo@2x.png".to_owned();
    let button = input("assets/ui/button.png", 100, Some(3));
    let top = input("assets/top.png", 100, Some(4));
    let mut hidden = input("assets/hidden.png", 100, Some(5));
    hidden.config.codegen = false;
    let inputs = vec![&logo2, &top, &hidden, &button, &logo];

    let root = GroupedItem::parse_root_folder("out", &inputs).unwrap();
    assert_eq!(names(&root), vec!["top", "ui"]);
    assert_eq!(scales(&root, "top"), vec![(100, "assets/top.png".to_owned())]);
    let ui = children(&root, "ui");
    assert_eq!(names(ui), vec!["button", "logo"]);
    assert_eq!(
        scales(ui, "logo"),
        vec![
            (100, "assets/ui/logo.png".to_owned()),
            (200, "assets/ui/logo@2x.png".to_owned())
        ]
    );
}

#[test]
fn names_are_ordered_as_strings_are() {
    let paths = ["assets/b.png", "assets/a.png", "assets/B.png", "assets/ab.png", "assets/a1.png"];
    let all: Vec<SyncInput> = paths.iter().map(|path| input(path, 100, Some(1))).collect();
    let inputs: Vec<&SyncInput> = all.iter().collect();
    let root = GroupedItem::parse_root_folder("out", &inputs).unwrap();
    let mut expected = vec!["b", "a", "B", "ab", "a1"];
    expected.sort();
    assert_eq!(names(&root), expected);
}

#[test]
fn parent_segments_collapse() {
    let moved = input("assets/ui/../icons/./logo.png", 100, Some(1));
    assert_eq!(segments_of_input(&moved), Ok(vec!["icons".to_owned(), "logo".to_owned()]));
    let inputs = vec![&moved];
    let root = GroupedItem::parse_root_folder("out", &inputs).unwrap();
    assert_eq!(names(&root), vec!["icons"]);
    assert_eq!(names(children(&root, "icons")), vec!["logo"]);
}

#[test]
fn parent_segment_without_a_segment_before_it_is_an_error() {
    let escaped = input("assets/../logo.png", 100, Some(1));
    assert_eq!(segments_of_input(&escaped), Err(CodegenErrorKind::ParentUnderflow));
    let fine = input("assets/logo.png", 100, Some(1));
    let inputs = vec![&fine, &escaped];
    assert_eq!(
        GroupedItem::parse_root_folder("out", &inputs).unwrap_err(),
        CodegenError { input: 1, kind: CodegenErrorKind::ParentUnderflow }
    );
}

#[test]
fn collapse_works_on_components() {
    let normal = |text: &str| PathComponent::Normal(text.to_owned());
    assert_eq!(
        collapse_components(&vec![normal("a"), PathComponent::ParentDir, normal("b")]),
        Some(vec!["b".to_owned()])
    );
    assert_eq!(
        collapse_components(&vec![
            normal("a"),
            normal("b"),
            PathComponent::CurDir,
            PathComponent::ParentDir,
            PathComponent::ParentDir,
        ]),
        Some(vec![])
    );
    assert_eq!(
        collapse_components(&vec![PathComponent::RootDir("/".to_owned()), normal("a")]),
        Some(vec!["/".to_owned(), "a".to_owned()])
    );
    assert_eq!(collapse_components(&vec![PathComponent::ParentDir, normal("a")]), None);
    assert_eq!(
        collapse_components(&vec![normal("a"), PathComponent::ParentDir, PathComponent::ParentDir]),
        None
    );
    assert_eq!(collapse_components(&vec![]), Some(vec![]));
}

#[test]
fn input_outside_its_base_path_is_an_error() {
    let mut outside = input("elsewhere/logo.png", 100, Some(1));
    outside.config.codegen_base_path = "assets".to_owned();
    let inputs = vec![&outside];
    assert_eq!(
        GroupedItem::parse_root_folder("out", &inputs).unwrap_err(),
        CodegenError { input: 0, kind: CodegenErrorKind::NotUnderBasePath }
    );
}

#[test]
fn duplicate_path_and_scale_is_an_error() {
    let first = input("assets/logo.png", 100, Some(1));
    let second = input("assets/logo.png", 100, Some(2));
    let third = input("assets/logo.png", 200, Some(3));
    let inputs = vec![&first, &third, &second];
    assert_eq!(
        GroupedItem::parse_root_folder("out", &inputs).unwrap_err(),
        CodegenError { input: 2, kind: CodegenErrorKind::DuplicateVariant }
    );
}

#[test]
fn image_and_folder_of_one_name_collide() {
    let image = input("assets/ui.png", 100, Some(1));
    let below = input("assets/ui/logo.png", 100, Some(2));
    let inputs = vec![&image, &below];
    assert_eq!(
        GroupedItem::parse_root_folder("out", &inputs).unwrap_err(),
        CodegenError { input: 1, kind: CodegenErrorKind::NameCollision }
    );
    let inputs = vec![&below, &image];
    assert_eq!(
        GroupedItem::parse_root_folder("out", &inputs).unwrap_err(),
        CodegenError { input: 1, kind: CodegenErrorKind::NameCollision }
    );
}

#[test]
fn input_at_its_base_path_has_no_place() {
    let mut base = input("assets", 100, Some(1));
    base.config.codegen_base_path = "assets".to_owned();
    let inputs = vec![&base];
    assert!(GroupedItem::parse_root_folder("out", &inputs).unwrap().is_empty());
}

#[test]
fn bindings_follow_the_tree() {
    let logo = input("assets/ui/logo.png", 100, Some(1));
    let logo2 = input("assets/ui/logo.png", 200, Some(2));
    let pending = input("assets/ui/pending.png", 100, None);
    let inputs = vec![&logo2, &pending, &logo];
    let root = GroupedItem::parse_root_folder("out", &inputs).unwrap();
    let bindings = bindings_of_entries(&root);
    assert_eq!(bindings.len(), 1);
    assert_eq!(bindings[0].name, "ui");
    match &bindings[0].binding {
        AssetBinding::Group { entries } => {
            assert_eq!(entries.len(), 1);
            assert_eq!(entries[0].name, "logo");
            match &entries[0].binding {
                AssetBinding::Group { entries } => {
                    let pairs: Vec<(String, String)> = entries
                        .iter()
                        .map(|entry| match &entry.binding {
                            AssetBinding::Asset { uri } => (entry.name.clone(), uri.clone()),
                            AssetBinding::Group { .. } => panic!("a variant is no group"),
                        })
                        .collect();
                    assert_eq!(
                        pairs,
                        vec![
                            ("100".to_owned(), "remoteasset://1".to_owned()),
                            ("200".to_owned(), "remoteasset://2".to_owned())
                        ]
                    );
                }
                AssetBinding::Asset { .. } => panic!("two variants are a group"),
            }
        }
        AssetBinding::Asset { .. } => panic!("a folder is a group"),
    }
}

fn sample() -> Vec<SyncInput> {
    let mut dashed = input("assets/ui/close-button.png", 100, Some(7));
    dashed.id = Some(AssetId::Path(".tarmac/close-button.png".to_owned()));
    let mut hidden = input("assets/hidden.png", 100, Some(9));
    hidden.config.codegen = false;
    vec![
        input("assets/ui/logo.png", 200, Some(2)),
        input("assets/top.png", 100, Some(4)),
        dashed,
        hidden,
        input("assets/ui/logo.png", 100, Some(1)),
        input("assets/ui/pending.png", 100, None),
        input("assets/ui/icons/star.png", 100, Some(12)),
    ]
}

#[test]
fn generated_code_spells_out_the_bindings() {
    let all = sample();
    let inputs: Vec<&SyncInput> = all.iter().collect();
    let code = perform_codegen(&inputs).unwrap();
    assert_eq!(
        code.typescript,
        "declare const Assets: {\n\
         \ttop: \"remoteasset://4\";\n\
         \tui: {\n\
         \t\t[\"close-button\"]: \"localasset://.tarmac/close-button.png\";\n\
         \t\ticons: {\n\
         \t\t\tstar: \"remoteasset://12\";\n\
         \t\t};\n\
         \t\tlogo: {\n\
         \t\t\t[\"100\"]: \"remoteasset://1\";\n\
         \t\t\t[\"200\"]: \"remoteasset://2\";\n\
         \t\t};\n\
         \t};\n\
         };\n\
         export = Assets;\n"
    );
    assert_eq!(
        code.lua,
        "return {\n\
         \ttop = \"remoteasset://4\",\n\
         \tui = {\n\
         \t\t[\"close-button\"] = \"localasset://.tarmac/close-button.png\",\n\
         \t\ticons = {\n\
         \t\t\tstar = \"remoteasset://12\",\n\
         \t\t},\n\
         \t\tlogo = {\n\
         \t\t\t[\"100\"] = \"remoteasset://1\",\n\
         \t\t\t[\"200\"] = \"remoteasset://2\",\n\
         \t\t},\n\
         \t},\n\
         }\n"
    );
}

#[test]
fn generated_code_does_not_depend_on_the_order_of_the_inputs() {
    let all = sample();
    let inputs: Vec<&SyncInput> = all.iter().collect();
    let expected = perform_codegen(&inputs).unwrap();
    for rotation in 0..inputs.len() {
        let mut rotated = inputs.clone();
        rotated.rotate_left(rotation);
        let code = perform_codegen(&rotated).unwrap();
        assert_eq!(code.typescript, expected.typescript);
        assert_eq!(code.lua, expected.lua);
        rotated.reverse();
        let code = perform_codegen(&rotated).unwrap();
        assert_eq!(code.typescript, expected.typescript);
        assert_eq!(code.lua, expected.lua);
    }
}

#[test]
fn no_inputs_give_empty_bindings() {
    let code = perform_codegen(&[]).unwrap();
    assert_eq!(code.typescript, "declare const Assets: {\n};\nexport = Assets;\n");
    assert_eq!(code.lua, "return {\n}\n");
}

#[test]
fn codegen_reports_the_first_input_that_cannot_be_placed() {
    let fine = input("assets/logo.png", 100, Some(1));
    let escaped = input("assets/../../logo.png", 100, Some(2));
    let outside = input("other/logo.png", 100, Some(3));
    let inputs = vec![&fine, &escaped, &outside];
    assert_eq!(
        perform_codegen(&inputs).unwrap_err(),
        CodegenError { input: 1, kind: CodegenErrorKind::ParentUnderflow }
    );
}
