//! The tree that groups the inputs of a pass for code generation.
//!
//! An input's place in the tree is the path of its scale-free file, without
//! extension, relative to its base path: every segment but the last is a
//! folder, the last is a group of the scale variants of one image. The tree
//! is held with its names in order, so that what is generated from it does
//! not depend on the order in which the inputs came.

use vstd::prelude::*;
use std::collections::BTreeMap;
use crate::data::SyncInput;
use crate::path::{components, path_components, path_strip_prefix, path_without_extension,
    segments_of, strip_prefix, without_extension, PathComponent, Segment};
use crate::text::{chars_of, name_lt, order_of_names, NameOrder};

verus! {

/// A node of the tree, as a mathematical value.
pub enum Node {
    /// A folder: its children by name.
    Folder(Map<Seq<char>, Node>),
    /// The variants of one image by DPI scale.
    Leaf(Map<u32, SyncInput>),
}

/// Why an input cannot be added to a tree.
#[derive(Debug, Clone, Copy, PartialEq, Eq, Structural)]
pub enum CodegenErrorKind {
    /// The input's path does not lie below its base path.
    NotUnderBasePath,
    /// A `..` in the input's relative path has no segment before it to take
    /// back.
    ParentUnderflow,
    /// Another input has the same path and the same DPI scale.
    DuplicateVariant,
    /// The path names an image where another input needs a folder, or a
    /// folder where this input needs an image.
    NameCollision,
}

/// An input that cannot be added to the tree, by its index, and why.
#[derive(Debug, Clone, Copy, PartialEq, Eq, Structural)]
pub struct CodegenError {
    pub input: usize,
    pub kind: CodegenErrorKind,
}

/// The children of a folder after the input `input` with the scale `dpi`
/// is added below them at `path`, which is not empty.
pub open spec fn node_insert(
    children: Map<Seq<char>, Node>,
    path: Seq<Seq<char>>,
    dpi: u32,
    input: SyncInput,
) -> Result<Map<Seq<char>, Node>, CodegenErrorKind>
    decreases path.len(),
{
    if path.len() == 0 {
        Err(CodegenErrorKind::NameCollision)
    } else if path.len() == 1 {
        if children.dom().contains(path[0]) {
            match children[path[0]] {
                Node::Leaf(variants) => if variants.dom().contains(dpi) {
                    Err(CodegenErrorKind::DuplicateVariant)
                } else {
                    Ok(children.insert(path[0], Node::Leaf(variants.insert(dpi, input))))
                },
                Node::Folder(_) => Err(CodegenErrorKind::NameCollision),
            }
        } else {
            Ok(children.insert(path[0], Node::Leaf(Map::empty().insert(dpi, input))))
        }
    } else {
        let below = if children.dom().contains(path[0]) {
            children[path[0]]
        } else {
            Node::Folder(Map::empty())
        };
        match below {
            Node::Folder(inner) => match node_insert(inner, path.drop_first(), dpi, input) {
                Ok(grown) => Ok(children.insert(path[0], Node::Folder(grown))),
                Err(kind) => Err(kind),
            },
            Node::Leaf(_) => Err(CodegenErrorKind::NameCollision),
        }
    }
}

/// Two inputs that can be added one after the other can be added the other
/// way round, and the tree is the same.
pub proof fn lemma_insert_commutes(
    children: Map<Seq<char>, Node>,
    path1: Seq<Seq<char>>,
    dpi1: u32,
    input1: SyncInput,
    path2: Seq<Seq<char>>,
    dpi2: u32,
    input2: SyncInput,
)
    requires
        node_insert(children, path1, dpi1, input1) is Ok,
        node_insert(node_insert(children, path1, dpi1, input1)->Ok_0, path2, dpi2, input2) is Ok,
    ensures
        node_insert(children, path2, dpi2, input2) is Ok,
        node_insert(node_insert(children, path2, dpi2, input2)->Ok_0, path1, dpi1, input1)
            == node_insert(node_insert(children, path1, dpi1, input1)->Ok_0, path2, dpi2, input2),
    decreases path1.len(),
{
    let first = node_insert(children, path1, dpi1, input1)->Ok_0;
    let both = node_insert(first, path2, dpi2, input2)->Ok_0;
    let name1 = path1[0];
    let name2 = path2[0];
    if name1 != name2 {
        let second = node_insert(children, path2, dpi2, input2)->Ok_0;
        assert(node_insert(children, path2, dpi2, input2) is Ok);
        assert(node_insert(second, path1, dpi1, input1) is Ok);
        assert(node_insert(second, path1, dpi1, input1)->Ok_0 =~= both);
    } else if path1.len() == 1 && path2.len() == 1 {
        let second = node_insert(children, path2, dpi2, input2)->Ok_0;
        if children.dom().contains(name1) {
            let variants = children[name1]->Leaf_0;
            assert(variants.insert(dpi1, input1).insert(dpi2, input2) =~= variants.insert(
                dpi2,
                input2,
            ).insert(dpi1, input1));
        } else {
            let none = Map::<u32, SyncInput>::empty();
            assert(none.insert(dpi1, input1).insert(dpi2, input2) =~= none.insert(
                dpi2,
                input2,
            ).insert(dpi1, input1));
        }
        assert(node_insert(second, path1, dpi1, input1) is Ok);
        assert(node_insert(second, path1, dpi1, input1)->Ok_0 =~= both);
    } else if path1.len() > 1 && path2.len() > 1 {
        let inner = if children.dom().contains(name1) {
            children[name1]->Folder_0
        } else {
            Map::<Seq<char>, Node>::empty()
        };
        lemma_insert_commutes(
            inner,
            path1.drop_first(),
            dpi1,
            input1,
            path2.drop_first(),
            dpi2,
            input2,
        );
        let second = node_insert(children, path2, dpi2, input2)->Ok_0;
        assert(node_insert(second, path1, dpi1, input1) is Ok);
        assert(node_insert(second, path1, dpi1, input1)->Ok_0 =~= both);
    }
}

/// A child of a folder.
#[derive(Debug)]
pub struct FolderEntry<'a> {
    pub name: String,
    pub item: GroupedItem<'a>,
}

/// A node of the tree: a folder with its children in the order of their
/// names, or the variants of one image by their scales.
#[derive(Debug)]
pub enum GroupedItem<'a> {
    Folder { children_by_name: Vec<FolderEntry<'a>> },
    InputGroup { inputs_by_dpi_scale: BTreeMap<u32, &'a SyncInput> },
}

/// The variants by scale, each as the input that it is.
pub open spec fn variants_map(variants: Map<u32, &SyncInput>) -> Map<u32, SyncInput> {
    variants.map_values(|input: &SyncInput| *input)
}

/// The children by name; of two with one name the later counts.
pub open spec fn entries_map(entries: Seq<FolderEntry>) -> Map<Seq<char>, Node>
    decreases entries,
{
    if entries.len() == 0 {
        Map::empty()
    } else {
        entries_map(entries.drop_last()).insert(entries.last().name@, entries.last().item.view())
    }
}

/// The names ascend.
pub open spec fn entries_sorted(entries: Seq<FolderEntry>) -> bool {
    forall|i: int, j: int|
        0 <= i < j < entries.len() ==> name_lt(#[trigger] entries[i].name@, #[trigger] entries[j].name@)
}

/// The names ascend, here and in every folder below.
pub open spec fn entries_wf(entries: Seq<FolderEntry>) -> bool
    decreases entries,
{
    &&& entries_sorted(entries)
    &&& forall|i: int| 0 <= i < entries.len() ==> (#[trigger] entries[i]).item.wf()
}

impl<'a> GroupedItem<'a> {
    /// The node as a mathematical value.
    pub open spec fn view(self) -> Node
        decreases self,
    {
        match self {
            GroupedItem::Folder { children_by_name } => Node::Folder(entries_map(children_by_name@)),
            GroupedItem::InputGroup { inputs_by_dpi_scale } => Node::Leaf(
                variants_map(inputs_by_dpi_scale@),
            ),
        }
    }

    /// The names ascend everywhere in the node.
    pub open spec fn wf(self) -> bool
        decreases self,
    {
        match self {
            GroupedItem::Folder { children_by_name } => entries_wf(children_by_name@),
            GroupedItem::InputGroup { .. } => true,
        }
    }
}

/// A name is among the children exactly if an entry has it, and the maps
/// are finite.
pub proof fn lemma_entries_dom(entries: Seq<FolderEntry>, name: Seq<char>)
    ensures
        entries_map(entries).dom().finite(),
        entries_map(entries).dom().contains(name) <==> exists|i: int|
            0 <= i < entries.len() && #[trigger] entries[i].name@ == name,
    decreases entries.len(),
{
    if entries.len() > 0 {
        let front = entries.drop_last();
        lemma_entries_dom(front, name);
        if entries_map(entries).dom().contains(name) {
            if entries.last().name@ == name {
                assert(entries[entries.len() - 1].name@ == name);
            } else {
                let i = choose|i: int| 0 <= i < front.len() && #[trigger] front[i].name@ == name;
                assert(entries[i].name@ == name);
            }
        } else {
            assert forall|i: int| 0 <= i < entries.len() implies #[trigger] entries[i].name@
                != name by {
                if i < front.len() {
                    assert(front[i].name@ == entries[i].name@);
                }
            }
        }
    }
}

/// With ascending names, every entry is found under its name.
pub proof fn lemma_entries_lookup(entries: Seq<FolderEntry>, i: int)
    requires
        entries_sorted(entries),
        0 <= i < entries.len(),
    ensures
        entries_map(entries).dom().contains(entries[i].name@),
        entries_map(entries)[entries[i].name@] == entries[i].item.view(),
    decreases entries.len(),
{
    if i < entries.len() - 1 {
        let front = entries.drop_last();
        assert(entries_sorted(front)) by {
            assert forall|a: int, b: int| 0 <= a < b < front.len() implies name_lt(
                #[trigger] front[a].name@,
                #[trigger] front[b].name@,
            ) by {
                assert(name_lt(entries[a].name@, entries[b].name@));
            }
        }
        lemma_entries_lookup(front, i);
        assert(name_lt(entries[i].name@, entries[entries.len() - 1].name@));
        crate::text::lemma_name_lt_irreflexive(entries[i].name@);
    }
}

/// A new entry under a name that no entry has adds that name to the map,
/// wherever it is put.
pub proof fn lemma_entries_insert(entries: Seq<FolderEntry>, at: int, entry: FolderEntry)
    requires
        0 <= at <= entries.len(),
        forall|i: int| 0 <= i < entries.len() ==> #[trigger] entries[i].name@ != entry.name@,
    ensures
        entries_map(entries.insert(at, entry)) == entries_map(entries).insert(
            entry.name@,
            entry.item.view(),
        ),
    decreases entries.len(),
{
    let grown = entries.insert(at, entry);
    if at == entries.len() {
        assert(grown.drop_last() =~= entries);
    } else {
        let front = entries.drop_last();
        assert(grown.drop_last() =~= front.insert(at, entry));
        assert(grown.last() == entries.last());
        assert forall|i: int| 0 <= i < front.len() implies #[trigger] front[i].name@
            != entry.name@ by {
            assert(front[i].name@ == entries[i].name@);
        }
        lemma_entries_insert(front, at, entry);
        assert(entries[entries.len() - 1].name@ != entry.name@);
        assert(entries_map(front).insert(entry.name@, entry.item.view()).insert(
            entries.last().name@,
            entries.last().item.view(),
        ) =~= entries_map(front).insert(entries.last().name@, entries.last().item.view()).insert(
            entry.name@,
            entry.item.view(),
        ));
    }
}

/// With ascending names, another entry in the place of one with the same
/// name puts its item under that name.
pub proof fn lemma_entries_update(entries: Seq<FolderEntry>, at: int, entry: FolderEntry)
    requires
        entries_sorted(entries),
        0 <= at < entries.len(),
        entries[at].name@ == entry.name@,
    ensures
        entries_map(entries.update(at, entry)) == entries_map(entries).insert(
            entry.name@,
            entry.item.view(),
        ),
        entries_sorted(entries.update(at, entry)),
    decreases entries.len(),
{
    let changed = entries.update(at, entry);
    assert(entries_sorted(changed)) by {
        assert forall|a: int, b: int| 0 <= a < b < changed.len() implies name_lt(
            #[trigger] changed[a].name@,
            #[trigger] changed[b].name@,
        ) by {
            assert(name_lt(entries[a].name@, entries[b].name@));
        }
    }
    let front = entries.drop_last();
    if at == entries.len() - 1 {
        assert(changed.drop_last() =~= front);
        assert(entries_map(front).insert(entry.name@, entries.last().item.view()).insert(
            entry.name@,
            entry.item.view(),
        ) =~= entries_map(front).insert(entry.name@, entry.item.view()));
    } else {
        assert(changed.drop_last() =~= front.update(at, entry));
        assert(changed.last() == entries.last());
        assert(entries_sorted(front)) by {
            assert forall|a: int, b: int| 0 <= a < b < front.len() implies name_lt(
                #[trigger] front[a].name@,
                #[trigger] front[b].name@,
            ) by {
                assert(name_lt(entries[a].name@, entries[b].name@));
            }
        }
        assert(front[at].name@ == entries[at].name@);
        lemma_entries_update(front, at, entry);
        assert(name_lt(entries[at].name@, entries[entries.len() - 1].name@));
        crate::text::lemma_name_lt_irreflexive(entries[at].name@);
        assert(entries_map(front).insert(entry.name@, entry.item.view()).insert(
            entries.last().name@,
            entries.last().item.view(),
        ) =~= entries_map(front).insert(entries.last().name@, entries.last().item.view()).insert(
            entry.name@,
            entry.item.view(),
        ));
    }
}

/// The views of `segments`, in order.
pub open spec fn names_of(segments: Seq<String>) -> Seq<Seq<char>> {
    segments.map_values(|segment: String| segment@)
}

/// Where `name` stands among entries with ascending names: the index of the
/// entry with that name, or the index before which it belongs.
fn find_entry(entries: &Vec<FolderEntry>, name: &Vec<char>) -> (place: (usize, bool))
    requires
        entries_sorted(entries@),
    ensures
        place.0 <= entries.len(),
        place.1 ==> place.0 < entries.len() && entries@[place.0 as int].name@ == name@,
        !place.1 ==> forall|i: int| 0 <= i < entries.len() ==> #[trigger] entries@[i].name@ != name@,
        !place.1 ==> forall|i: int|
            0 <= i < place.0 ==> name_lt(#[trigger] entries@[i].name@, name@),
        !place.1 ==> forall|i: int|
            place.0 <= i < entries.len() ==> name_lt(name@, #[trigger] entries@[i].name@),
{
    let mut at: usize = 0;
    while at < entries.len()
        invariant
            at <= entries.len(),
            entries_sorted(entries@),
            forall|i: int| 0 <= i < at ==> name_lt(#[trigger] entries@[i].name@, name@),
        decreases entries.len() - at,
    {
        let own = chars_of(entries[at].name.as_str());
        match order_of_names(&own, name) {
            NameOrder::Before => {},
            NameOrder::Same => {
                return (at, true);
            },
            NameOrder::After => {
                proof {
                    assert forall|i: int| at <= i < entries.len() implies name_lt(
                        name@,
                        #[trigger] entries@[i].name@,
                    ) by {
                        if i > at {
                            assert(name_lt(entries@[at as int].name@, entries@[i].name@));
                            crate::text::lemma_name_lt_transitive(
                                name@,
                                entries@[at as int].name@,
                                entries@[i].name@,
                            );
                        }
                    }
                    assert forall|i: int| 0 <= i < entries.len() implies #[trigger] entries@[i].name@
                        != name@ by {
                        crate::text::lemma_name_lt_irreflexive(name@);
                    }
                }
                return (at, false);
            },
        }
        at += 1;
    }
    proof {
        assert forall|i: int| 0 <= i < entries.len() implies #[trigger] entries@[i].name@
            != name@ by {
            crate::text::lemma_name_lt_irreflexive(name@);
        }
    }
    (at, false)
}

/// The variants after `input` is added with its scale, which none of them
/// has yet.
fn insert_variant<'a>(variants: BTreeMap<u32, &'a SyncInput>, input: &'a SyncInput) -> (result:
    Result<BTreeMap<u32, &'a SyncInput>, CodegenErrorKind>)
    ensures
        match result {
            Ok(grown) => {
                &&& !variants_map(variants@).dom().contains(input.dpi_scale)
                &&& variants_map(grown@) == variants_map(variants@).insert(input.dpi_scale, *input)
            },
            Err(kind) => {
                &&& kind == CodegenErrorKind::DuplicateVariant
                &&& variants_map(variants@).dom().contains(input.dpi_scale)
            },
        },
{
    let mut variants = variants;
    if variants.contains_key(&input.dpi_scale) {
        return Err(CodegenErrorKind::DuplicateVariant);
    }
    let ghost before = variants@;
    variants.insert(input.dpi_scale, input);
    assert(variants_map(variants@) =~= variants_map(before).insert(input.dpi_scale, *input));
    Ok(variants)
}

/// The entries with `entry` put before the index `at`, where its name
/// belongs.
proof fn lemma_sorted_after_insert(entries: Seq<FolderEntry>, at: int, entry: FolderEntry)
    requires
        entries_wf(entries),
        entry.item.wf(),
        0 <= at <= entries.len(),
        forall|i: int| 0 <= i < at ==> name_lt(#[trigger] entries[i].name@, entry.name@),
        forall|i: int| at <= i < entries.len() ==> name_lt(entry.name@, #[trigger] entries[i].name@),
    ensures
        entries_wf(entries.insert(at, entry)),
{
    let grown = entries.insert(at, entry);
    assert forall|i: int, j: int| 0 <= i < j < grown.len() implies name_lt(
        #[trigger] grown[i].name@,
        #[trigger] grown[j].name@,
    ) by {
        if j < at {
            assert(name_lt(entries[i].name@, entries[j].name@));
        } else if j == at {
            assert(name_lt(entries[i].name@, entry.name@));
        } else if i < at {
            assert(name_lt(entries[i].name@, entries[j - 1].name@));
        } else if i == at {
            assert(name_lt(entry.name@, entries[j - 1].name@));
        } else {
            assert(name_lt(entries[i - 1].name@, entries[j - 1].name@));
        }
    }
    assert forall|i: int| 0 <= i < grown.len() implies (#[trigger] grown[i]).item.wf() by {
        if i < at {
            assert(entries[i].item.wf());
        } else if i > at {
            assert(entries[i - 1].item.wf());
        }
    }
}

/// The entries with the item of the entry at `at` replaced.
proof fn lemma_wf_after_update(entries: Seq<FolderEntry>, at: int, entry: FolderEntry)
    requires
        entries_wf(entries),
        entry.item.wf(),
        0 <= at < entries.len(),
        entries[at].name@ == entry.name@,
    ensures
        entries_wf(entries.update(at, entry)),
{
    lemma_entries_update(entries, at, entry);
    let changed = entries.update(at, entry);
    assert forall|i: int| 0 <= i < changed.len() implies (#[trigger] changed[i]).item.wf() by {
        if i != at {
            assert(entries[i].item.wf());
        }
    }
}

/// The children of a folder after `input` is added below them at the
/// segments from `depth` on.
pub fn insert_entries<'a>(
    children: Vec<FolderEntry<'a>>,
    segments: &Vec<String>,
    depth: usize,
    input: &'a SyncInput,
) -> (result: Result<Vec<FolderEntry<'a>>, CodegenErrorKind>)
    requires
        depth < segments.len(),
        entries_wf(children@),
    ensures
        match result {
            Ok(grown) => {
                &&& entries_wf(grown@)
                &&& node_insert(
                    entries_map(children@),
                    names_of(segments@).skip(depth as int),
                    input.dpi_scale,
                    *input,
                ) == Ok::<Map<Seq<char>, Node>, CodegenErrorKind>(entries_map(grown@))
            },
            Err(kind) => node_insert(
                entries_map(children@),
                names_of(segments@).skip(depth as int),
                input.dpi_scale,
                *input,
            ) == Err::<Map<Seq<char>, Node>, CodegenErrorKind>(kind),
        },
    decreases segments.len() - depth,
{
    let mut children = children;
    let ghost before = children@;
    let ghost path = names_of(segments@).skip(depth as int);
    let name = chars_of(segments[depth].as_str());
    let last = depth + 1 == segments.len();
    proof {
        assert(path[0] == segments@[depth as int]@);
        assert(path.drop_first() =~= names_of(segments@).skip(depth + 1));
        assert(path.len() == segments.len() - depth);
        lemma_entries_dom(before, path[0]);
    }
    let (at, found) = find_entry(&children, &name);
    if found {
        proof {
            lemma_entries_lookup(before, at as int);
        }
        let entry = children.remove(at);
        assert(entry == before[at as int]);
        let FolderEntry { name: entry_name, item } = entry;
        match item {
            GroupedItem::Folder { children_by_name } => {
                if last {
                    return Err(CodegenErrorKind::NameCollision);
                }
                assert(before[at as int].item.wf());
                match insert_entries(children_by_name, segments, depth + 1, input) {
                    Ok(grown) => {
                        let entry = FolderEntry {
                            name: entry_name,
                            item: GroupedItem::Folder { children_by_name: grown },
                        };
                        proof {
                            lemma_wf_after_update(before, at as int, entry);
                            lemma_entries_update(before, at as int, entry);
                            assert(before.remove(at as int).insert(at as int, entry)
                                =~= before.update(at as int, entry));
                        }
                        children.insert(at, entry);
                        Ok(children)
                    },
                    Err(kind) => Err(kind),
                }
            },
            GroupedItem::InputGroup { inputs_by_dpi_scale } => {
                if !last {
                    return Err(CodegenErrorKind::NameCollision);
                }
                assert(before[at as int].item.wf());
                match insert_variant(inputs_by_dpi_scale, input) {
                    Ok(grown) => {
                        let entry = FolderEntry {
                            name: entry_name,
                            item: GroupedItem::InputGroup { inputs_by_dpi_scale: grown },
                        };
                        proof {
                            lemma_wf_after_update(before, at as int, entry);
                            lemma_entries_update(before, at as int, entry);
                            assert(before.remove(at as int).insert(at as int, entry)
                                =~= before.update(at as int, entry));
                        }
                        children.insert(at, entry);
                        Ok(children)
                    },
                    Err(kind) => Err(kind),
                }
            },
        }
    } else {
        let item = if last {
            let mut variants: BTreeMap<u32, &'a SyncInput> = BTreeMap::new();
            variants.insert(input.dpi_scale, input);
            assert(variants_map(variants@) =~= Map::<u32, SyncInput>::empty().insert(
                input.dpi_scale,
                *input,
            ));
            GroupedItem::InputGroup { inputs_by_dpi_scale: variants }
        } else {
            let fresh: Vec<FolderEntry<'a>> = Vec::new();
            assert(entries_map(fresh@) =~= Map::<Seq<char>, Node>::empty());
            match insert_entries(fresh, segments, depth + 1, input) {
                Ok(grown) => GroupedItem::Folder { children_by_name: grown },
                Err(kind) => {
                    return Err(kind);
                },
            }
        };
        let entry = FolderEntry { name: segments[depth].clone(), item };
        proof {
            lemma_sorted_after_insert(before, at as int, entry);
            lemma_entries_insert(before, at as int, entry);
        }
        children.insert(at, entry);
        Ok(children)
    }
}

/// The segments that the components of a relative path come to: a name, a
/// prefix or a root adds its text, `.` adds nothing, and `..` takes back the
/// segment before it. There is no result where a `..` finds no segment to
/// take back.
pub open spec fn collapse(components: Seq<Segment>) -> Option<Seq<Seq<char>>>
    decreases components.len(),
{
    if components.len() == 0 {
        Some(Seq::empty())
    } else {
        match collapse(components.drop_last()) {
            None => None,
            Some(segments) => match components.last() {
                Segment::Prefix(text) => Some(segments.push(text)),
                Segment::RootDir(text) => Some(segments.push(text)),
                Segment::Normal(text) => Some(segments.push(text)),
                Segment::CurDir => Some(segments),
                Segment::ParentDir => if segments.len() > 0 {
                    Some(segments.drop_last())
                } else {
                    None
                },
            },
        }
    }
}

/// A `..` behind a name takes exactly that name back.
pub proof fn lemma_parent_takes_back(components: Seq<Segment>, name: Seq<char>)
    requires
        collapse(components) is Some,
    ensures
        collapse(components.push(Segment::Normal(name)).push(Segment::ParentDir)) == collapse(
            components,
        ),
{
    let named = components.push(Segment::Normal(name));
    let both = named.push(Segment::ParentDir);
    assert(named.drop_last() =~= components);
    assert(both.drop_last() =~= named);
    let segments = collapse(components)->0;
    assert(collapse(named) == Some(segments.push(name)));
    assert(segments.push(name).drop_last() =~= segments);
    assert(collapse(both) == Some(segments));
}

/// Once a `..` has found nothing to take back, no further component mends
/// it.
pub proof fn lemma_underflow_stays(components: Seq<Segment>, more: Seq<Segment>)
    requires
        collapse(components) is None,
    ensures
        collapse(components + more) is None,
    decreases more.len(),
{
    if more.len() == 0 {
        assert(components + more =~= components);
    } else {
        lemma_underflow_stays(components, more.drop_last());
        assert((components + more).drop_last() =~= components + more.drop_last());
    }
}

/// A `..` with no segment before it is never passed over: the path has no
/// segments, whatever follows. `before` holds what stands in front of the
/// `..` and comes to no segment.
pub proof fn lemma_parent_without_segment_fails(before: Seq<Segment>, more: Seq<Segment>)
    requires
        collapse(before) == Some(Seq::<Seq<char>>::empty()),
    ensures
        collapse(before.push(Segment::ParentDir) + more) is None,
{
    let failed = before.push(Segment::ParentDir);
    assert(failed.drop_last() =~= before);
    lemma_underflow_stays(failed, more);
}

/// The segments of `parts`, or nothing where a `..` has no segment to take
/// back.
pub fn collapse_components(parts: &Vec<PathComponent>) -> (segments: Option<Vec<String>>)
    ensures
        match segments {
            Some(segments) => collapse(segments_of(parts@)) == Some(names_of(segments@)),
            None => collapse(segments_of(parts@)) is None,
        },
{
    let mut segments: Vec<String> = Vec::new();
    let mut i: usize = 0;
    assert(segments_of(parts@).take(0) =~= Seq::<Segment>::empty());
    assert(names_of(segments@) =~= Seq::<Seq<char>>::empty());
    while i < parts.len()
        invariant
            i <= parts.len(),
            collapse(segments_of(parts@).take(i as int)) == Some(names_of(segments@)),
        decreases parts.len() - i,
    {
        let ghost before = names_of(segments@);
        proof {
            assert(segments_of(parts@).take(i + 1).drop_last() =~= segments_of(parts@).take(
                i as int,
            ));
            assert(segments_of(parts@).take(i + 1).last() == parts@[i as int]@);
        }
        match &parts[i] {
            PathComponent::Prefix(text) => {
                segments.push(text.clone());
                assert(names_of(segments@) =~= before.push(text@));
            },
            PathComponent::RootDir(text) => {
                segments.push(text.clone());
                assert(names_of(segments@) =~= before.push(text@));
            },
            PathComponent::Normal(text) => {
                segments.push(text.clone());
                assert(names_of(segments@) =~= before.push(text@));
            },
            PathComponent::CurDir => {},
            PathComponent::ParentDir => {
                if segments.len() == 0 {
                    proof {
                        let rest = segments_of(parts@).skip(i + 1);
                        assert(segments_of(parts@).take(i + 1) + rest =~= segments_of(parts@));
                        lemma_underflow_stays(segments_of(parts@).take(i + 1), rest);
                    }
                    return None;
                }
                segments.pop();
                assert(names_of(segments@) =~= before.drop_last());
            },
        }
        i += 1;
    }
    assert(segments_of(parts@).take(parts@.len() as int) =~= segments_of(parts@));
    Some(segments)
}

/// The place of an input in the tree: the segments of its scale-free path,
/// without extension, relative to its base path.
pub open spec fn input_segments(input: SyncInput) -> Result<Seq<Seq<char>>, CodegenErrorKind> {
    match path_strip_prefix(
        path_without_extension(input.path_without_dpi_scale@),
        input.config.codegen_base_path@,
    ) {
        None => Err(CodegenErrorKind::NotUnderBasePath),
        Some(relative) => match collapse(path_components(relative)) {
            None => Err(CodegenErrorKind::ParentUnderflow),
            Some(segments) => Ok(segments),
        },
    }
}

/// The root folder after `input` is taken in. An input that is not marked
/// for code generation leaves the tree as it is, and so does one whose
/// place has no segments.
pub open spec fn add_input(root: Map<Seq<char>, Node>, input: SyncInput) -> Result<
    Map<Seq<char>, Node>,
    CodegenErrorKind,
> {
    if !input.config.codegen {
        Ok(root)
    } else {
        match input_segments(input) {
            Err(kind) => Err(kind),
            Ok(segments) => if segments.len() == 0 {
                Ok(root)
            } else {
                node_insert(root, segments, input.dpi_scale, input)
            },
        }
    }
}

/// The root folder that `inputs` come to, taken in one after the other, or
/// the first input that cannot be taken in and why.
pub open spec fn build(inputs: Seq<&SyncInput>) -> Result<Map<Seq<char>, Node>, CodegenError>
    decreases inputs.len(),
{
    if inputs.len() == 0 {
        Ok(Map::empty())
    } else {
        match build(inputs.drop_last()) {
            Err(error) => Err(error),
            Ok(root) => match add_input(root, *inputs.last()) {
                Ok(grown) => Ok(grown),
                Err(kind) => Err(CodegenError { input: (inputs.len() - 1) as usize, kind }),
            },
        }
    }
}

/// The segments of the place of `input`.
pub fn segments_of_input(input: &SyncInput) -> (segments: Result<Vec<String>, CodegenErrorKind>)
    ensures
        match segments {
            Ok(segments) => input_segments(*input) == Ok::<Seq<Seq<char>>, CodegenErrorKind>(
                names_of(segments@),
            ),
            Err(kind) => input_segments(*input) == Err::<Seq<Seq<char>>, CodegenErrorKind>(kind),
        },
{
    let stripped = without_extension(input.path_without_dpi_scale.as_str());
    match strip_prefix(stripped.as_str(), input.config.codegen_base_path.as_str()) {
        None => Err(CodegenErrorKind::NotUnderBasePath),
        Some(relative) => {
            let parts = components(relative.as_str());
            match collapse_components(&parts) {
                None => Err(CodegenErrorKind::ParentUnderflow),
                Some(segments) => Ok(segments),
            }
        },
    }
}

impl<'a> GroupedItem<'a> {
    /// Groups the inputs that are marked for code generation into the root
    /// folder of a tree. `output_path` is where the bindings will be
    /// written; the tree does not depend on it.
    pub fn parse_root_folder(_output_path: &str, inputs: &[&'a SyncInput]) -> (result: Result<
        Vec<FolderEntry<'a>>,
        CodegenError,
    >)
        ensures
            match result {
                Ok(root) => {
                    &&& entries_wf(root@)
                    &&& build(inputs@) == Ok::<Map<Seq<char>, Node>, CodegenError>(
                        entries_map(root@),
                    )
                },
                Err(error) => build(inputs@) == Err::<Map<Seq<char>, Node>, CodegenError>(error),
            },
    {
        let mut root: Vec<FolderEntry<'a>> = Vec::new();
        let mut i: usize = 0;
        assert(inputs@.take(0) =~= Seq::<&SyncInput>::empty());
        assert(entries_map(root@) =~= Map::<Seq<char>, Node>::empty());
        while i < inputs.len()
            invariant
                i <= inputs.len(),
                entries_wf(root@),
                build(inputs@.take(i as int)) == Ok::<Map<Seq<char>, Node>, CodegenError>(
                    entries_map(root@),
                ),
            decreases inputs.len() - i,
        {
            let input: &'a SyncInput = inputs[i];
            proof {
                assert(inputs@.take(i + 1).drop_last() =~= inputs@.take(i as int));
                assert(inputs@.take(i + 1).last() == inputs@[i as int]);
            }
            if input.config.codegen {
                match segments_of_input(input) {
                    Err(kind) => {
                        proof {
                            lemma_build_error_stays(inputs@, i + 1);
                        }
                        return Err(CodegenError { input: i, kind });
                    },
                    Ok(segments) => {
                        if segments.len() > 0 {
                            assert(names_of(segments@).skip(0) =~= names_of(segments@));
                            match insert_entries(root, &segments, 0, input) {
                                Ok(grown) => {
                                    root = grown;
                                },
                                Err(kind) => {
                                    proof {
                                        lemma_build_error_stays(inputs@, i + 1);
                                    }
                                    return Err(CodegenError { input: i, kind });
                                },
                            }
                        }
                    },
                }
            }
            i += 1;
        }
        assert(inputs@.take(inputs@.len() as int) =~= inputs@);
        Ok(root)
    }
}

/// The first input that cannot be taken in decides: what follows it does
/// not change the error.
pub proof fn lemma_build_error_stays(inputs: Seq<&SyncInput>, upto: int)
    requires
        0 <= upto <= inputs.len(),
        build(inputs.take(upto)) is Err,
    ensures
        build(inputs) == build(inputs.take(upto)),
    decreases inputs.len(),
{
    if upto == inputs.len() {
        assert(inputs.take(upto) =~= inputs);
    } else {
        let front = inputs.drop_last();
        assert(front.take(upto) =~= inputs.take(upto));
        lemma_build_error_stays(front, upto);
    }
}

/// Two inputs that can be taken in one after the other can be taken in the
/// other way round, and the tree is the same.
pub proof fn lemma_add_commutes(root: Map<Seq<char>, Node>, first: SyncInput, second: SyncInput)
    requires
        add_input(root, first) is Ok,
        add_input(add_input(root, first)->Ok_0, second) is Ok,
    ensures
        add_input(root, second) is Ok,
        add_input(add_input(root, second)->Ok_0, first) == add_input(
            add_input(root, first)->Ok_0,
            second,
        ),
{
    let places_first = first.config.codegen && input_segments(first)->Ok_0.len() > 0;
    let places_second = second.config.codegen && input_segments(second)->Ok_0.len() > 0;
    if places_first && places_second {
        lemma_insert_commutes(
            root,
            input_segments(first)->Ok_0,
            first.dpi_scale,
            first,
            input_segments(second)->Ok_0,
            second.dpi_scale,
            second,
        );
    }
}

/// Taking in one of the inputs last instead of in its place gives the same
/// tree.
pub proof fn lemma_build_moved_to_end(inputs: Seq<&SyncInput>, at: int)
    requires
        0 <= at < inputs.len(),
        build(inputs) is Ok,
    ensures
        build(inputs.remove(at).push(inputs[at])) == build(inputs),
    decreases inputs.len(),
{
    let moved = inputs.remove(at).push(inputs[at]);
    if at == inputs.len() - 1 {
        assert(moved =~= inputs);
    } else {
        let front = inputs.drop_last();
        let last = inputs.last();
        lemma_build_moved_to_end(front, at);
        let rest = front.remove(at);
        let front_moved = rest.push(front[at]);
        assert(front_moved.drop_last() =~= rest);
        assert(front_moved.last() == inputs[at]);
        assert(build(front_moved) == build(front));
        let below = build(rest)->Ok_0;
        lemma_add_commutes(below, *inputs[at], *last);
        let swapped = rest.push(last);
        assert(swapped.drop_last() =~= rest);
        assert(swapped.last() == last);
        assert(moved.drop_last() =~= swapped);
        assert(moved.last() == inputs[at]);
        assert(build(swapped) is Ok);
        assert(build(swapped)->Ok_0 == add_input(below, *last)->Ok_0);
    }
}

/// The tree does not depend on the order of the inputs: the same inputs in
/// another order are taken in as well, and come to the same tree.
pub proof fn lemma_build_order_independent(inputs: Seq<&SyncInput>, reordered: Seq<&SyncInput>)
    requires
        inputs.to_multiset() == reordered.to_multiset(),
        build(inputs) is Ok,
    ensures
        build(reordered) == build(inputs),
    decreases reordered.len(),
{
    vstd::seq_lib::to_multiset_len(inputs);
    vstd::seq_lib::to_multiset_len(reordered);
    if reordered.len() == 0 {
        assert(inputs =~= reordered);
    } else {
        let last = reordered.last();
        let front = reordered.drop_last();
        assert(reordered =~= front.push(last));
        vstd::seq_lib::to_multiset_build(front, last);
        vstd::seq_lib::to_multiset_contains(inputs, last);
        assert(inputs.to_multiset().count(last) > 0);
        assert(inputs.contains(last));
        let at = choose|at: int| 0 <= at < inputs.len() && inputs[at] == last;
        lemma_build_moved_to_end(inputs, at);
        let rest = inputs.remove(at);
        vstd::seq_lib::to_multiset_remove(inputs, at);
        assert(rest.to_multiset() =~= front.to_multiset());
        let moved = rest.push(last);
        assert(moved.drop_last() =~= rest);
        assert(moved.last() == last);
        assert(build(rest) is Ok);
        lemma_build_order_independent(rest, front);
    }
}

/// The generated code, one text for each target language.
#[derive(Debug)]
pub struct GeneratedCode {
    pub lua: String,
    pub typescript: String,
}

/// The code that a root folder comes to.
pub open spec fn code_of(root: Map<Seq<char>, Node>, code: GeneratedCode) -> bool {
    &&& code.lua@ == crate::lua::lua_module(crate::bindings::root_bindings(root))
    &&& code.typescript@ == crate::typescript::codegen::ts_declaration(
        crate::bindings::root_bindings(root),
    )
}

/// Generates the bindings for the inputs that are marked for code
/// generation, in every target language.
pub fn perform_codegen(inputs: &[&SyncInput]) -> (result: Result<GeneratedCode, CodegenError>)
    ensures
        match result {
            Ok(code) => build(inputs@) is Ok && code_of(build(inputs@)->Ok_0, code),
            Err(error) => build(inputs@) == Err::<Map<Seq<char>, Node>, CodegenError>(error),
        },
{
    match GroupedItem::parse_root_folder("", inputs) {
        Ok(root) => {
            let bindings = crate::bindings::bindings_of_entries(&root);
            Ok(
                GeneratedCode {
                    lua: crate::lua::render_lua(&bindings),
                    typescript: crate::typescript::codegen::render_typescript(&bindings),
                },
            )
        },
        Err(error) => Err(error),
    }
}

/// The generated code does not depend on the order of the inputs: the
/// same inputs in any other order come to the same text, in every target
/// language.
pub proof fn lemma_codegen_order_independent(inputs: Seq<&SyncInput>, reordered: Seq<&SyncInput>)
    requires
        inputs.to_multiset() == reordered.to_multiset(),
        build(inputs) is Ok,
    ensures
        build(reordered) is Ok,
        crate::lua::lua_module(crate::bindings::root_bindings(build(reordered)->Ok_0))
            == crate::lua::lua_module(crate::bindings::root_bindings(build(inputs)->Ok_0)),
        crate::typescript::codegen::ts_declaration(
            crate::bindings::root_bindings(build(reordered)->Ok_0),
        ) == crate::typescript::codegen::ts_declaration(
            crate::bindings::root_bindings(build(inputs)->Ok_0),
        ),
{
    lemma_build_order_independent(inputs, reordered);
}

} // verus!
