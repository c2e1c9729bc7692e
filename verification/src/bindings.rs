//! What the generated code binds: for every image a name and the text of
//! its identifier, in folders as the tree has them and in the order of
//! their names.
//!
//! An image with one scale variant is bound to that variant's identifier.
//! An image with several is a group of its variants, each under its scale
//! in decimal. A variant that has no identifier is left out.

use vstd::prelude::*;
use vstd::std_specs::iter::IteratorSpec;
use std::collections::BTreeMap;
use crate::codegen::{entries_map, entries_sorted, entries_wf, lemma_entries_dom,
    lemma_entries_lookup, variants_map, FolderEntry, GroupedItem, Node};
use crate::data::SyncInput;
use crate::text::{decimal, decimal_string, lemma_name_lt_asymmetric, lemma_name_lt_irreflexive,
    name_lt};

verus! {

/// A binding, as a mathematical value.
pub enum Binding {
    /// An asset, by the text of its identifier.
    Asset(Seq<char>),
    /// A group of bindings, in order.
    Group(Seq<NamedView>),
}

/// A binding under a name, as a mathematical value.
pub struct NamedView {
    pub name: Seq<char>,
    pub binding: Binding,
}

/// A binding under a name.
#[derive(Debug)]
pub struct NamedBinding {
    pub name: String,
    pub binding: AssetBinding,
}

/// What the generated code holds in one place.
#[derive(Debug)]
pub enum AssetBinding {
    /// An asset, by the text of its identifier.
    Asset { uri: String },
    /// A group of bindings, in order.
    Group { entries: Vec<NamedBinding> },
}

/// The views of `entries`, in order.
pub open spec fn named_views(entries: Seq<NamedBinding>) -> Seq<NamedView>
    decreases entries,
{
    if entries.len() == 0 {
        Seq::empty()
    } else {
        named_views(entries.drop_last()).push(
            NamedView { name: entries.last().name@, binding: entries.last().binding.view() },
        )
    }
}

impl AssetBinding {
    /// The binding as a mathematical value.
    pub open spec fn view(self) -> Binding
        decreases self,
    {
        match self {
            AssetBinding::Asset { uri } => Binding::Asset(uri@),
            AssetBinding::Group { entries } => Binding::Group(named_views(entries@)),
        }
    }
}

/// The views have the length of the entries, and stand in their places.
pub proof fn lemma_named_views(entries: Seq<NamedBinding>)
    ensures
        named_views(entries).len() == entries.len(),
        forall|i: int|
            0 <= i < entries.len() ==> (#[trigger] named_views(entries)[i]) == (NamedView {
                name: entries[i].name@,
                binding: entries[i].binding.view(),
            }),
    decreases entries.len(),
{
    if entries.len() > 0 {
        lemma_named_views(entries.drop_last());
    }
}

/// The names ascend.
pub open spec fn ascending_names(names: Seq<Seq<char>>) -> bool {
    forall|i: int, j: int| 0 <= i < j < names.len() ==> name_lt(names[i], names[j])
}

/// The scales ascend.
pub open spec fn ascending_scales(scales: Seq<u32>) -> bool {
    forall|i: int, j: int| 0 <= i < j < scales.len() ==> scales[i] < scales[j]
}

/// The names of a finite set in ascending order.
pub open spec fn names_in_order(names: Set<Seq<char>>) -> Seq<Seq<char>> {
    choose|ordered: Seq<Seq<char>>|
        ascending_names(ordered) && forall|name: Seq<char>|
            ordered.contains(name) <==> names.contains(name)
}

/// The scales of a finite set in ascending order.
pub open spec fn scales_in_order(scales: Set<u32>) -> Seq<u32> {
    choose|ordered: Seq<u32>|
        ascending_scales(ordered) && forall|scale: u32|
            ordered.contains(scale) <==> scales.contains(scale)
}

/// Two ascending sequences of names with the same members are the same.
pub proof fn lemma_ascending_names_unique(x: Seq<Seq<char>>, y: Seq<Seq<char>>)
    requires
        ascending_names(x),
        ascending_names(y),
        forall|name: Seq<char>| x.contains(name) <==> y.contains(name),
    ensures
        x == y,
    decreases x.len(),
{
    if x.len() == 0 {
        if y.len() > 0 {
            assert(y.contains(y[0]));
        }
        assert(x =~= y);
    } else {
        let top = x.last();
        assert(x.contains(top));
        assert(y.contains(top));
        let other = y.last();
        assert(y.contains(other));
        assert(x.contains(other));
        let i = choose|i: int| 0 <= i < x.len() && x[i] == other;
        let j = choose|j: int| 0 <= j < y.len() && y[j] == top;
        if i < x.len() - 1 {
            assert(name_lt(x[i], x[x.len() - 1]));
        }
        if j < y.len() - 1 {
            assert(name_lt(y[j], y[y.len() - 1]));
        }
        if top != other {
            lemma_name_lt_asymmetric(other, top);
        }
        assert(top == other);
        let xs = x.drop_last();
        let ys = y.drop_last();
        assert forall|name: Seq<char>| xs.contains(name) <==> ys.contains(name) by {
            lemma_name_lt_irreflexive(top);
            if xs.contains(name) {
                let a = choose|a: int| 0 <= a < xs.len() && xs[a] == name;
                assert(name_lt(x[a], x[x.len() - 1]));
                assert(x.contains(name));
                let b = choose|b: int| 0 <= b < y.len() && y[b] == name;
                assert(ys[b] == name);
            }
            if ys.contains(name) {
                let b = choose|b: int| 0 <= b < ys.len() && ys[b] == name;
                assert(name_lt(y[b], y[y.len() - 1]));
                assert(y.contains(name));
                let a = choose|a: int| 0 <= a < x.len() && x[a] == name;
                assert(xs[a] == name);
            }
        }
        assert(ascending_names(xs)) by {
            assert forall|a: int, b: int| 0 <= a < b < xs.len() implies name_lt(xs[a], xs[b]) by {
                assert(name_lt(x[a], x[b]));
            }
        }
        assert(ascending_names(ys)) by {
            assert forall|a: int, b: int| 0 <= a < b < ys.len() implies name_lt(ys[a], ys[b]) by {
                assert(name_lt(y[a], y[b]));
            }
        }
        lemma_ascending_names_unique(xs, ys);
        assert(x =~= xs.push(top));
        assert(y =~= ys.push(other));
    }
}

/// Two ascending sequences of scales with the same members are the same.
pub proof fn lemma_ascending_scales_unique(x: Seq<u32>, y: Seq<u32>)
    requires
        ascending_scales(x),
        ascending_scales(y),
        forall|scale: u32| x.contains(scale) <==> y.contains(scale),
    ensures
        x == y,
    decreases x.len(),
{
    if x.len() == 0 {
        if y.len() > 0 {
            assert(y.contains(y[0]));
        }
        assert(x =~= y);
    } else {
        let top = x.last();
        assert(x.contains(top));
        assert(y.contains(top));
        let other = y.last();
        assert(y.contains(other));
        assert(x.contains(other));
        let i = choose|i: int| 0 <= i < x.len() && x[i] == other;
        let j = choose|j: int| 0 <= j < y.len() && y[j] == top;
        if i < x.len() - 1 {
            assert(x[i] < x[x.len() - 1]);
        }
        if j < y.len() - 1 {
            assert(y[j] < y[y.len() - 1]);
        }
        assert(top == other);
        let xs = x.drop_last();
        let ys = y.drop_last();
        assert forall|scale: u32| xs.contains(scale) <==> ys.contains(scale) by {
            if xs.contains(scale) {
                let a = choose|a: int| 0 <= a < xs.len() && xs[a] == scale;
                assert(x[a] < x[x.len() - 1]);
                assert(x.contains(scale));
                let b = choose|b: int| 0 <= b < y.len() && y[b] == scale;
                assert(ys[b] == scale);
            }
            if ys.contains(scale) {
                let b = choose|b: int| 0 <= b < ys.len() && ys[b] == scale;
                assert(y[b] < y[y.len() - 1]);
                assert(y.contains(scale));
                let a = choose|a: int| 0 <= a < x.len() && x[a] == scale;
                assert(xs[a] == scale);
            }
        }
        assert(ascending_scales(xs)) by {
            assert forall|a: int, b: int| 0 <= a < b < xs.len() implies xs[a] < xs[b] by {
                assert(x[a] < x[b]);
            }
        }
        assert(ascending_scales(ys)) by {
            assert forall|a: int, b: int| 0 <= a < b < ys.len() implies ys[a] < ys[b] by {
                assert(y[a] < y[b]);
            }
        }
        lemma_ascending_scales_unique(xs, ys);
        assert(x =~= xs.push(top));
        assert(y =~= ys.push(other));
    }
}

/// One scale variant of an image, as the variants are walked in the order
/// of their scales.
#[derive(Debug)]
pub struct ScaleVariant<'a> {
    pub dpi_scale: u32,
    pub input: &'a SyncInput,
}

/// The variants of a sequence by scale; of two with one scale the later
/// counts.
pub open spec fn ordered_map(variants: Seq<ScaleVariant>) -> Map<u32, SyncInput>
    decreases variants.len(),
{
    if variants.len() == 0 {
        Map::empty()
    } else {
        ordered_map(variants.drop_last()).insert(
            variants.last().dpi_scale,
            *variants.last().input,
        )
    }
}

/// The scales ascend.
pub open spec fn variants_sorted(variants: Seq<ScaleVariant>) -> bool {
    forall|i: int, j: int|
        0 <= i < j < variants.len() ==> variants[i].dpi_scale < variants[j].dpi_scale
}

/// A scale is among the variants exactly if a variant has it, and the maps
/// are finite.
pub proof fn lemma_variants_dom(variants: Seq<ScaleVariant>, dpi: u32)
    ensures
        ordered_map(variants).dom().finite(),
        ordered_map(variants).dom().contains(dpi) <==> exists|i: int|
            0 <= i < variants.len() && #[trigger] variants[i].dpi_scale == dpi,
    decreases variants.len(),
{
    if variants.len() > 0 {
        let front = variants.drop_last();
        lemma_variants_dom(front, dpi);
        if ordered_map(variants).dom().contains(dpi) {
            if variants.last().dpi_scale == dpi {
                assert(variants[variants.len() - 1].dpi_scale == dpi);
            } else {
                let i = choose|i: int| 0 <= i < front.len() && #[trigger] front[i].dpi_scale == dpi;
                assert(variants[i].dpi_scale == dpi);
            }
        } else {
            assert forall|i: int| 0 <= i < variants.len() implies #[trigger] variants[i].dpi_scale
                != dpi by {
                if i < front.len() {
                    assert(front[i].dpi_scale == variants[i].dpi_scale);
                }
            }
        }
    }
}

/// With ascending scales, every variant is found under its scale.
pub proof fn lemma_variants_lookup(variants: Seq<ScaleVariant>, i: int)
    requires
        variants_sorted(variants),
        0 <= i < variants.len(),
    ensures
        ordered_map(variants).dom().contains(variants[i].dpi_scale),
        ordered_map(variants)[variants[i].dpi_scale] == *variants[i].input,
    decreases variants.len(),
{
    if i < variants.len() - 1 {
        let front = variants.drop_last();
        assert(variants_sorted(front));
        lemma_variants_lookup(front, i);
    }
}

/// The bindings of the variants with the scales `scales`, in that order:
/// each variant that has an identifier, under its scale in decimal.
pub open spec fn variant_bindings(variants: Map<u32, SyncInput>, scales: Seq<u32>) -> Seq<
    NamedView,
>
    decreases scales.len(),
{
    if scales.len() == 0 {
        Seq::empty()
    } else {
        let front = variant_bindings(variants, scales.drop_last());
        match variants[scales.last()].id {
            Some(id) => front.push(
                NamedView {
                    name: decimal(scales.last() as nat),
                    binding: Binding::Asset(id.spec_uri()),
                },
            ),
            None => front,
        }
    }
}

/// The bindings of the children with the names `names`, in that order:
/// each child that has a binding, under its name.
pub open spec fn folder_bindings(children: Map<Seq<char>, Node>, names: Seq<Seq<char>>) -> Seq<
    NamedView,
>
    decreases children, names.len(),
{
    if names.len() == 0 {
        Seq::empty()
    } else {
        let front = folder_bindings(children, names.drop_last());
        if children.dom().finite() && children.dom().contains(names.last()) {
            match binding_of(children[names.last()]) {
                Some(binding) => front.push(NamedView { name: names.last(), binding }),
                None => front,
            }
        } else {
            front
        }
    }
}

/// The binding of a node. A folder is the group of its children's
/// bindings in the order of their names. An image with one variant is that
/// variant's identifier, and has no binding where the variant has no
/// identifier; an image with another number of variants is the group of
/// their bindings in the order of their scales.
pub open spec fn binding_of(node: Node) -> Option<Binding>
    decreases node, 0nat,
{
    match node {
        Node::Folder(children) => Some(
            Binding::Group(folder_bindings(children, names_in_order(children.dom()))),
        ),
        Node::Leaf(variants) => {
            let scales = scales_in_order(variants.dom());
            if scales.len() == 1 {
                match variants[scales[0]].id {
                    Some(id) => Some(Binding::Asset(id.spec_uri())),
                    None => None,
                }
            } else {
                Some(Binding::Group(variant_bindings(variants, scales)))
            }
        },
    }
}

/// The bindings at the top of a tree.
pub open spec fn root_bindings(root: Map<Seq<char>, Node>) -> Seq<NamedView> {
    folder_bindings(root, names_in_order(root.dom()))
}

/// The names of `entries`, in order.
pub open spec fn entry_names(entries: Seq<FolderEntry>) -> Seq<Seq<char>> {
    Seq::new(entries.len(), |i: int| entries[i].name@)
}

/// The scales of `variants`, in order.
pub open spec fn variant_scales(variants: Seq<ScaleVariant>) -> Seq<u32> {
    Seq::new(variants.len(), |i: int| variants[i].dpi_scale)
}

/// Entries with ascending names stand in the order of the names of their
/// map.
pub proof fn lemma_entry_names_in_order(entries: Seq<FolderEntry>)
    requires
        entries_sorted(entries),
    ensures
        names_in_order(entries_map(entries).dom()) == entry_names(entries),
{
    let own = entry_names(entries);
    let names = entries_map(entries).dom();
    assert(ascending_names(own)) by {
        assert forall|i: int, j: int| 0 <= i < j < own.len() implies name_lt(own[i], own[j]) by {
            assert(name_lt(entries[i].name@, entries[j].name@));
        }
    }
    assert forall|name: Seq<char>| own.contains(name) <==> names.contains(name) by {
        lemma_entries_dom(entries, name);
        if own.contains(name) {
            let i = choose|i: int| 0 <= i < own.len() && own[i] == name;
            assert(entries[i].name@ == name);
        }
        if names.contains(name) {
            let i = choose|i: int| 0 <= i < entries.len() && #[trigger] entries[i].name@ == name;
            assert(own[i] == name);
        }
    }
    let chosen = names_in_order(names);
    lemma_ascending_names_unique(chosen, own);
}

/// Variants with ascending scales stand in the order of the scales of
/// their map.
pub proof fn lemma_variant_scales_in_order(variants: Seq<ScaleVariant>)
    requires
        variants_sorted(variants),
    ensures
        scales_in_order(ordered_map(variants).dom()) == variant_scales(variants),
{
    let own = variant_scales(variants);
    let scales = ordered_map(variants).dom();
    assert(ascending_scales(own));
    assert forall|scale: u32| own.contains(scale) <==> scales.contains(scale) by {
        lemma_variants_dom(variants, scale);
        if own.contains(scale) {
            let i = choose|i: int| 0 <= i < own.len() && own[i] == scale;
            assert(variants[i].dpi_scale == scale);
        }
        if scales.contains(scale) {
            let i = choose|i: int|
                0 <= i < variants.len() && #[trigger] variants[i].dpi_scale == scale;
            assert(own[i] == scale);
        }
    }
    let chosen = scales_in_order(scales);
    lemma_ascending_scales_unique(chosen, own);
}

/// The scales of a walk through a map, which come in increasing order,
/// ascend.
proof fn lemma_walk_ascends(scales: Seq<u32>)
    requires
        vstd::std_specs::btree::increasing_seq(scales),
    ensures
        ascending_scales(scales),
{
    broadcast use vstd::laws_cmp::group_laws_cmp;

    assert(vstd::laws_cmp::obeys_cmp::<u32>());
    vstd::std_specs::btree::axiom_increasing_seq_meaning(scales);
    assert forall|i: int, j: int| 0 <= i < j < scales.len() implies scales[i] < scales[j] by {
        assert(vstd::std_specs::cmp::OrdSpec::cmp_spec(&scales[i], &scales[j]) is Less);
    }
}

/// The variants of a map, in the order of their scales.
fn variants_in_order<'a>(variants: &BTreeMap<u32, &'a SyncInput>) -> (ordered: Vec<
    ScaleVariant<'a>,
>)
    ensures
        variants_sorted(ordered@),
        ordered_map(ordered@) == variants_map(variants@),
{
    let mut ordered: Vec<ScaleVariant<'a>> = Vec::new();
    let ghost walk = variants.iter().remaining();
    for pair in it: variants.iter()
        invariant
            it.seq() == walk,
            ordered@.len() == it.index(),
            forall|j: int|
                0 <= j < it.index() ==> (#[trigger] ordered@[j]).dpi_scale == *walk[j].0
                    && ordered@[j].input == *walk[j].1,
    {
        ordered.push(ScaleVariant { dpi_scale: *pair.0, input: *pair.1 });
    }
    proof {
        let scales = walk.map_values(|kv: (&u32, &&SyncInput)| *kv.0);
        lemma_walk_ascends(scales);
        assert forall|i: int, j: int| 0 <= i < j < ordered@.len() implies ordered@[i].dpi_scale
            < ordered@[j].dpi_scale by {
            assert(scales[i] == ordered@[i].dpi_scale);
            assert(scales[j] == ordered@[j].dpi_scale);
        }
        let map = variants_map(variants@);
        assert forall|scale: u32| ordered_map(ordered@).dom().contains(scale)
            <==> map.dom().contains(scale) by {
            lemma_variants_dom(ordered@, scale);
            if ordered_map(ordered@).dom().contains(scale) {
                let i = choose|i: int|
                    0 <= i < ordered@.len() && #[trigger] ordered@[i].dpi_scale == scale;
                assert(variants@.contains_key(*walk[i].0));
            }
            if map.dom().contains(scale) {
                assert(variants@.contains_key(scale));
                let pair = (&scale, &variants@[scale]);
                assert(walk.contains(pair));
                let i = choose|i: int| 0 <= i < walk.len() && walk[i] == pair;
                assert(ordered@[i].dpi_scale == scale);
            }
        }
        assert forall|scale: u32| ordered_map(ordered@).dom().contains(scale) implies ordered_map(
            ordered@,
        )[scale] == map[scale] by {
            lemma_variants_dom(ordered@, scale);
            let i = choose|i: int|
                0 <= i < ordered@.len() && #[trigger] ordered@[i].dpi_scale == scale;
            lemma_variants_lookup(ordered@, i);
            assert(variants@[*walk[i].0] == *walk[i].1);
        }
        assert(ordered_map(ordered@) =~= map);
    }
    ordered
}

/// The binding of the variants of one image.
fn binding_of_variants(by_scale: &BTreeMap<u32, &SyncInput>) -> (binding: Option<AssetBinding>)
    ensures
        match binding {
            Some(binding) => binding_of(Node::Leaf(variants_map(by_scale@))) == Some(
                binding.view(),
            ),
            None => binding_of(Node::Leaf(variants_map(by_scale@))) is None,
        },
{
    let variants = variants_in_order(by_scale);
    let ghost map = ordered_map(variants@);
    let ghost scales = variant_scales(variants@);
    proof {
        lemma_variant_scales_in_order(variants@);
    }
    if variants.len() == 1 {
        proof {
            lemma_variants_lookup(variants@, 0);
        }
        return match &variants[0].input.id {
            Some(id) => Some(AssetBinding::Asset { uri: id.to_string() }),
            None => None,
        };
    }
    let mut entries: Vec<NamedBinding> = Vec::new();
    let mut i: usize = 0;
    assert(scales.take(0) =~= Seq::<u32>::empty());
    while i < variants.len()
        invariant
            i <= variants.len(),
            variants_sorted(variants@),
            map == ordered_map(variants@),
            scales == variant_scales(variants@),
            named_views(entries@) == variant_bindings(map, scales.take(i as int)),
        decreases variants.len() - i,
    {
        proof {
            assert(scales.take(i + 1).drop_last() =~= scales.take(i as int));
            assert(scales.take(i + 1).last() == variants@[i as int].dpi_scale);
            lemma_variants_lookup(variants@, i as int);
        }
        match &variants[i].input.id {
            Some(id) => {
                let ghost before = entries@;
                entries.push(
                    NamedBinding {
                        name: decimal_string(variants[i].dpi_scale as u64),
                        binding: AssetBinding::Asset { uri: id.to_string() },
                    },
                );
                assert(entries@.drop_last() =~= before);
                assert(entries@.last().binding.view() == Binding::Asset(id.spec_uri()));
                assert(map[scales.take(i + 1).last()].id == Some(*id));
            },
            None => {
                assert(map[scales.take(i + 1).last()].id is None);
            },
        }
        i += 1;
    }
    assert(scales.take(scales.len() as int) =~= scales);
    Some(AssetBinding::Group { entries })
}

/// The binding of a node of the tree.
pub fn binding_of_item(item: &GroupedItem) -> (binding: Option<AssetBinding>)
    requires
        item.wf(),
    ensures
        match binding {
            Some(binding) => binding_of(item.view()) == Some(binding.view()),
            None => binding_of(item.view()) is None,
        },
    decreases item, 0nat,
{
    match item {
        GroupedItem::Folder { children_by_name } => Some(
            AssetBinding::Group { entries: bindings_of_entries(children_by_name) },
        ),
        GroupedItem::InputGroup { inputs_by_dpi_scale } => binding_of_variants(inputs_by_dpi_scale),
    }
}

/// The bindings of the children of a folder, in the order of their names.
pub fn bindings_of_entries(entries: &Vec<FolderEntry>) -> (bindings: Vec<NamedBinding>)
    requires
        entries_wf(entries@),
    ensures
        named_views(bindings@) == root_bindings(entries_map(entries@)),
    decreases entries, 1nat,
{
    let ghost map = entries_map(entries@);
    let ghost names = entry_names(entries@);
    proof {
        lemma_entry_names_in_order(entries@);
    }
    let mut bindings: Vec<NamedBinding> = Vec::new();
    let mut i: usize = 0;
    assert(names.take(0) =~= Seq::<Seq<char>>::empty());
    while i < entries.len()
        invariant
            i <= entries.len(),
            entries_wf(entries@),
            map == entries_map(entries@),
            names == entry_names(entries@),
            named_views(bindings@) == folder_bindings(map, names.take(i as int)),
        decreases entries.len() - i,
    {
        proof {
            assert(names.take(i + 1).drop_last() =~= names.take(i as int));
            assert(names.take(i + 1).last() == entries@[i as int].name@);
            lemma_entries_lookup(entries@, i as int);
            lemma_entries_dom(entries@, entries@[i as int].name@);
            assert(entries@[i as int].item.wf());
        }
        match binding_of_item(&entries[i].item) {
            Some(binding) => {
                let ghost before = bindings@;
                bindings.push(NamedBinding { name: entries[i].name.clone(), binding });
                assert(bindings@.drop_last() =~= before);
            },
            None => {},
        }
        i += 1;
    }
    assert(names.take(names.len() as int) =~= names);
    bindings
}

} // verus!
