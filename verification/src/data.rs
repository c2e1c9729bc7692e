//! The records of a synchronisation pass: asset identifiers, inputs, and
//! the manifest that remembers how the last pass ended.

use vstd::prelude::*;
use crate::path::{components, file_stem, path_components, path_file_stem, same_components,
    slash_form, to_slash};
use crate::text::{decimal, lemma_decimal_injective, push_decimal, spec_strip_prefix,
    strip_text_prefix};

verus! {

/// What the hosting side knows an asset by.
#[derive(Debug, Clone, PartialEq, Eq, PartialOrd, Ord)]
pub enum AssetId {
    /// A number that the hosting service assigned.
    Id(u64),
    /// A relative path below a local content directory.
    Path(String),
}

impl AssetId {
    /// The identifier as it is embedded in generated code:
    /// `remoteasset://` and the number in decimal, or `localasset://` and
    /// the path with `/` between its components.
    pub open spec fn spec_uri(self) -> Seq<char> {
        match self {
            AssetId::Id(id) => "remoteasset://"@ + decimal(id as nat),
            AssetId::Path(path) => "localasset://"@ + slash_form(path@),
        }
    }

    /// The identifier as it is embedded in generated code.
    pub fn to_string(&self) -> (uri: String)
        ensures
            uri@ == self.spec_uri(),
    {
        match self {
            AssetId::Id(id) => {
                let mut uri = String::from_str("remoteasset://");
                push_decimal(&mut uri, *id);
                uri
            },
            AssetId::Path(path) => {
                let slashed = to_slash(path.as_str()).unwrap();
                local_uri(slashed.as_str())
            },
        }
    }

    /// A copy of the identifier.
    pub fn duplicate(&self) -> (copy: AssetId)
        ensures
            copy == *self,
    {
        match self {
            AssetId::Id(id) => AssetId::Id(*id),
            AssetId::Path(path) => AssetId::Path(path.clone()),
        }
    }
}

/// The text of a local identifier whose path, written with `/`, is
/// `slashed`.
pub fn local_uri(slashed: &str) -> (uri: String)
    ensures
        uri@ == "localasset://"@ + slashed@,
{
    let mut uri = String::from_str("localasset://");
    uri.append(slashed);
    uri
}

/// The two kinds of identifier.
#[derive(Debug, Clone, Copy, PartialEq, Eq, Structural)]
pub enum AssetKind {
    /// A number that the hosting service assigned.
    Remote,
    /// A path below a local content directory.
    Local,
}

impl AssetId {
    /// The kind of the identifier.
    pub open spec fn spec_kind(self) -> AssetKind {
        match self {
            AssetId::Id(_) => AssetKind::Remote,
            AssetId::Path(_) => AssetKind::Local,
        }
    }

    /// The kind of the identifier.
    pub fn kind(&self) -> (kind: AssetKind)
        ensures
            kind == self.spec_kind(),
    {
        match self {
            AssetId::Id(_) => AssetKind::Remote,
            AssetId::Path(_) => AssetKind::Local,
        }
    }
}

/// The kind of identifier that a text spells, by its scheme.
pub open spec fn spec_uri_kind(uri: Seq<char>) -> Option<AssetKind> {
    if spec_strip_prefix(uri, "remoteasset://"@) is Some {
        Some(AssetKind::Remote)
    } else if spec_strip_prefix(uri, "localasset://"@) is Some {
        Some(AssetKind::Local)
    } else {
        None
    }
}

/// The kind of identifier that `uri` spells, if it spells one.
pub fn uri_kind(uri: &str) -> (kind: Option<AssetKind>)
    ensures
        kind == spec_uri_kind(uri@),
{
    if strip_text_prefix(uri, "remoteasset://").is_some() {
        Some(AssetKind::Remote)
    } else if strip_text_prefix(uri, "localasset://").is_some() {
        Some(AssetKind::Local)
    } else {
        None
    }
}

/// The text of an identifier is read back as the kind of the identifier,
/// and never as the other kind.
pub proof fn lemma_uri_tells_kind(id: AssetId)
    ensures
        spec_uri_kind(id.spec_uri()) == Some(id.spec_kind()),
{
    reveal_strlit("remoteasset://");
    reveal_strlit("localasset://");
    let uri = id.spec_uri();
    match id {
        AssetId::Id(number) => {
            let scheme = "remoteasset://"@;
            assert(uri.subrange(0, scheme.len() as int) =~= scheme);
        },
        AssetId::Path(path) => {
            let scheme = "localasset://"@;
            assert(uri.subrange(0, scheme.len() as int) =~= scheme);
            let other = "remoteasset://"@;
            if other.len() <= uri.len() {
                assert(uri.subrange(0, other.len() as int)[0] == 'l');
                assert(other[0] == 'r');
            }
        },
    }
}

/// A remote and a local identifier never have the same text.
pub proof fn lemma_uri_kinds_differ(remote: AssetId, local: AssetId)
    requires
        remote is Id,
        local is Path,
    ensures
        remote.spec_uri() != local.spec_uri(),
{
    lemma_uri_tells_kind(remote);
    lemma_uri_tells_kind(local);
}

/// Two remote identifiers with the same text hold the same number.
pub proof fn lemma_remote_uri_injective(a: u64, b: u64)
    requires
        AssetId::Id(a).spec_uri() == AssetId::Id(b).spec_uri(),
    ensures
        a == b,
{
    let scheme = "remoteasset://"@;
    let x = scheme + decimal(a as nat);
    let y = scheme + decimal(b as nat);
    assert(x.subrange(scheme.len() as int, x.len() as int) =~= decimal(a as nat));
    assert(y.subrange(scheme.len() as int, y.len() as int) =~= decimal(b as nat));
    lemma_decimal_injective(a as nat, b as nat);
}

/// The name that a project declares for an asset, unique within the project.
#[derive(Debug, Clone, PartialEq, Eq, PartialOrd, Ord)]
pub struct AssetName {
    pub text: String,
}

/// The part of a packed sheet that belongs to one input, in pixels.
#[derive(Debug, Clone, Copy, PartialEq, Eq, Structural)]
pub struct ImageSlice {
    pub min_x: u32,
    pub min_y: u32,
    pub max_x: u32,
    pub max_y: u32,
}

/// The settings that applied to an input when it was discovered.
#[derive(Debug, Clone)]
pub struct InputConfig {
    /// The input may share a packed sheet with others.
    pub packable: bool,
    /// The input appears in the generated bindings.
    pub codegen: bool,
    /// The directory against which the input's binding is named.
    pub codegen_base_path: String,
}

/// What the manifest remembers of one asset.
#[derive(Debug, Clone)]
pub struct InputManifest {
    /// The hash of the contents that were uploaded.
    pub hash: String,
    /// Whether the input was packable then.
    pub packable: bool,
    /// The identifier that the upload gave.
    pub id: AssetId,
}

/// One input of a synchronisation pass.
#[derive(Debug)]
pub struct SyncInput {
    /// The asset's unique name in the project.
    pub name: AssetName,
    /// The file that the input was read from.
    pub path: String,
    /// `path` without the marks of its DPI scale; the variants of one image
    /// share it.
    pub path_without_dpi_scale: String,
    /// The DPI scale in percent; 100 where the file name gives none.
    pub dpi_scale: u32,
    /// The settings that applied when the input was discovered.
    pub config: InputConfig,
    /// The encoded contents.
    pub contents: Vec<u8>,
    /// A digest of `contents`.
    pub hash: String,
    /// The identifier, once an upload or the manifest has given one.
    pub id: Option<AssetId>,
    /// The part of a packed sheet that holds the input, if it was packed.
    pub slice: Option<ImageSlice>,
}

impl SyncInput {
    /// The input is unchanged since the manifest entry was written: the
    /// contents hash to the same value, and the input is packable as it was.
    pub open spec fn spec_is_unchanged(self, old_manifest: InputManifest) -> bool {
        self.hash@ == old_manifest.hash@ && self.config.packable == old_manifest.packable
    }

    /// Whether the input is unchanged since `old_manifest` was written.
    pub fn is_unchanged_since_last_sync(&self, old_manifest: &InputManifest) -> (unchanged: bool)
        ensures
            unchanged == self.spec_is_unchanged(*old_manifest),
    {
        self.hash == old_manifest.hash && self.config.packable == old_manifest.packable
    }

    /// Whether the input's file is the one that its scale-free path names.
    pub open spec fn has_plain_path(self) -> bool {
        path_components(self.path@) == path_components(self.path_without_dpi_scale@)
    }

    /// The name for an input whose scale-free path has the file stem `stem`:
    /// the stem alone, or the stem and the scale in percent, as in
    /// `logo (200x)`, where the file carries a scale.
    pub open spec fn spec_human_name(self, stem: Seq<char>) -> Seq<char> {
        if self.has_plain_path() {
            stem
        } else {
            stem + " ("@ + decimal(self.dpi_scale as nat) + "x)"@
        }
    }

    /// A name for people, not unique: the file stem, with the scale where
    /// the file carries one.
    pub fn human_name(&self) -> (name: String)
        requires
            path_file_stem(self.path_without_dpi_scale@) is Some,
        ensures
            name@ == self.spec_human_name(path_file_stem(self.path_without_dpi_scale@)->0),
    {
        let stem = file_stem(self.path_without_dpi_scale.as_str()).unwrap();
        self.human_name_from_stem(stem)
    }

    /// `human_name`, or nothing where the scale-free path has no file name.
    pub fn try_human_name(&self) -> (name: Option<String>)
        ensures
            match name {
                Some(text) => {
                    &&& path_file_stem(self.path_without_dpi_scale@) is Some
                    &&& text@ == self.spec_human_name(
                        path_file_stem(self.path_without_dpi_scale@)->0,
                    )
                },
                None => path_file_stem(self.path_without_dpi_scale@) is None,
            },
    {
        match file_stem(self.path_without_dpi_scale.as_str()) {
            Some(_) => Some(self.human_name()),
            None => None,
        }
    }

    /// The name for people, given the file stem of the scale-free path.
    pub fn human_name_from_stem(&self, stem: String) -> (name: String)
        ensures
            name@ == self.spec_human_name(stem@),
    {
        let own = components(self.path.as_str());
        let plain = components(self.path_without_dpi_scale.as_str());
        if same_components(&own, &plain) {
            stem
        } else {
            let mut name = stem;
            name.append(" (");
            push_decimal(&mut name, self.dpi_scale as u64);
            name.append("x)");
            name
        }
    }
}

} // verus!
