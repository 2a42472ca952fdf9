//! A loaded map: the parsed file, its layout, and what is known of its
//! textures.

use vstd::prelude::*;
use vstd::string::StringExecFns;
use vstd::utf8::{decode_utf8, valid_utf8};
use crate::layout::{entity_views, list_views, EntityLayout, MapLayout, MapLayoutView};
use crate::text::views;
use crate::string_map::{lookup, StringMap};

verus! {

/// Trusted: the type `shalrath::repr::Map`, a parsed map file. Nothing is
/// claimed of what it holds.
#[verifier::external_type_specification]
#[verifier::external_body]
pub struct ExMap(shalrath::repr::Map);

/// Trusted: the type `shalrath::repr::Entity`, one entity of a parsed map
/// file. A parsed map dereferences to a list of these, so the type has to
/// be known wherever the map is; nothing is claimed of what it holds.
#[verifier::external_type_specification]
#[verifier::external_body]
pub struct ExEntity(shalrath::repr::Entity);

/// Trusted: the type `shambler::GeoMap`, a parsed map regrouped into tables
/// by entity, brush and face. Nothing is claimed of what it holds.
#[verifier::external_type_specification]
#[verifier::external_body]
pub struct ExGeoMap(shambler::GeoMap);

/// The map that the parser reads from a text, if it accepts the text.
pub uninterp spec fn parsed_map(text: Seq<char>) -> Option<shalrath::repr::Map>;

/// The tables into which a parsed map is regrouped.
pub uninterp spec fn regrouped(map: shalrath::repr::Map) -> shambler::GeoMap;

/// What the tables of a regrouped map hold, but for the numbers of its
/// planes and textures: entities, brushes, faces and texture names.
pub uninterp spec fn geomap_layout(geomap: shambler::GeoMap) -> MapLayoutView;

/// Trusted: `core::str::from_utf8` from the standard library. It gives the
/// text that the bytes encode, exactly if they are valid UTF-8.
#[verifier::external_body]
fn from_utf8(bytes: &[u8]) -> (text: Option<&str>)
    ensures
        text.is_some() == valid_utf8(bytes@),
        text.is_some() ==> text.unwrap()@ == decode_utf8(bytes@),
{
    core::str::from_utf8(bytes).ok()
}

/// Trusted: `str::parse::<shalrath::repr::Map>`, the parser for map files.
/// What it gives depends on the text alone.
#[verifier::external_body]
fn parse_map(text: &str) -> (parsed: Option<shalrath::repr::Map>)
    ensures
        parsed == parsed_map(text@),
{
    text.parse::<shalrath::repr::Map>().ok()
}

/// Trusted: `shambler::GeoMap::new`, which numbers the entities, brushes,
/// faces and textures of a parsed map from 0, in the order in which it
/// meets them, and files them in tables. Every number that it files was
/// given out before, so what the tables hold is well formed.
#[verifier::external_body]
fn regroup(map: shalrath::repr::Map) -> (geomap: shambler::GeoMap)
    ensures
        geomap == regrouped(map),
        geomap_layout(geomap).well_formed(),
{
    shambler::GeoMap::new(map)
}

/// Trusted: reads the public tables `entities`, `entity_properties` and
/// `entity_brushes` of a `shambler::GeoMap` into a list with one item for
/// each entity, in the order of `entities`: its properties, and the
/// numbers of its brushes.
#[verifier::external_body]
fn read_entities(geomap: &shambler::GeoMap) -> (entities: Vec<EntityLayout>)
    ensures
        entity_views(entities@) == geomap_layout(*geomap).entities,
{
    let properties = |e| geomap.entity_properties.get(e).into_iter().flat_map(|ps| ps.iter());
    let brushes = |e| geomap.entity_brushes.get(e).into_iter().flat_map(|bs| bs.iter());
    geomap.entities.iter().map(|e| EntityLayout {
        properties: properties(e).map(|p| (p.key.clone(), p.value.clone())).collect(),
        brushes: brushes(e).map(|b| b.0).collect(),
    }).collect()
}

/// Trusted: reads the public tables `brushes`, `brush_faces`,
/// `face_textures` and `textures` of a `shambler::GeoMap` into three
/// lists: for each brush, in the order of `brushes`, the numbers of its
/// faces; for each face, by number, the number of its texture; and the
/// texture names, by number.
#[verifier::external_body]
fn read_faces(geomap: &shambler::GeoMap) -> (read: (Vec<Vec<usize>>, Vec<usize>, Vec<String>))
    ensures
        list_views(read.0@) == geomap_layout(*geomap).brush_faces,
        read.1@ == geomap_layout(*geomap).face_textures,
        views(read.2@) == geomap_layout(*geomap).textures,
{
    let faces = |b| geomap.brush_faces.get(b).into_iter().flat_map(|fs| fs.iter());
    let brush_faces = geomap.brushes.iter().map(|b| faces(b).map(|f| f.0).collect());
    let face_textures = geomap.face_textures.values().map(|t| t.0);
    (brush_faces.collect(), face_textures.collect(), geomap.textures.values().cloned().collect())
}

/// Trusted: `shambler::texture::texture_sizes`, which finds the size of
/// each texture by its name. For each texture, in order, the result holds
/// the size that the table gives for its name, or nothing if the table has
/// no such name. The table holds no name twice.
#[verifier::external_body]
fn texture_sizes(textures: &Vec<String>, sizes: &StringMap<(u32, u32)>) -> (found: Vec<
    Option<(u32, u32)>,
>)
    requires
        sizes.well_formed(),
    ensures
        found@.len() == textures@.len(),
        forall|t: int|
            0 <= t < textures@.len() ==> #[trigger] found@[t] == lookup(sizes@, textures@[t]@),
{
    let by_id = textures.iter().cloned().enumerate().map(|(t, n)| (shambler::texture::TextureId(t), n));
    let by_name = sizes.entries.iter().map(|e| (e.0.as_str(), e.1)).collect();
    let sized = shambler::texture::texture_sizes(&by_id.collect(), by_name);
    (0..textures.len()).map(|t| sized.get(&shambler::texture::TextureId(t)).copied()).collect()
}

/// Why a map could not be loaded.
#[derive(Debug, PartialEq, Eq, Structural, Clone, Copy)]
pub enum MapAssetLoaderError {
    /// The bytes are not valid UTF-8.
    InvalidUtf8,
    /// The text is no map file.
    InvalidMap,
    /// The tables of the parsed map name a brush, a face or a texture that
    /// they do not hold.
    InconsistentMap,
}

/// A loaded map.
pub struct MapAsset {
    /// The parsed map, from which the geometry is solved.
    pub geomap: shambler::GeoMap,
    /// What the parsed map holds, but for its geometry.
    pub layout: MapLayout,
    /// Width and height in pixels of each texture that has been read, by
    /// name. A texture has a material exactly if it has a size here.
    pub texture_sizes: StringMap<(u32, u32)>,
}

/// The extensions of the files that hold maps.
pub const EXTENSIONS: [&'static str; 1] = ["map"];

/// Returns the extensions of the files that hold maps: `map`, and no
/// other.
pub fn extensions() -> (list: &'static [&'static str])
    ensures
        list@.len() == 1,
        list@[0]@ == "map"@,
{
    &EXTENSIONS
}

/// Where the picture of a texture lies among the assets.
pub open spec fn texture_file_of(name: Seq<char>) -> Seq<char> {
    "textures/"@ + name + ".png"@
}

/// The label under which the picture of a texture is kept.
pub open spec fn texture_label_of(name: Seq<char>) -> Seq<char> {
    "textures/"@ + name
}

/// The label under which the material of a texture is kept.
pub open spec fn material_label_of(name: Seq<char>) -> Seq<char> {
    "materials/"@ + name
}

/// Returns where the picture of the texture `name` lies among the assets.
pub fn texture_file(name: &str) -> (path: String)
    ensures
        path@ == texture_file_of(name@),
{
    let mut path = String::from_str("textures/");
    path.append(name);
    path.append(".png");
    path
}

/// Returns the label under which the picture of the texture `name` is
/// kept.
pub fn texture_label(name: &str) -> (label: String)
    ensures
        label@ == texture_label_of(name@),
{
    let mut label = String::from_str("textures/");
    label.append(name);
    label
}

/// Returns the label under which the material of the texture `name` is
/// kept.
pub fn material_label(name: &str) -> (label: String)
    ensures
        label@ == material_label_of(name@),
{
    let mut label = String::from_str("materials/");
    label.append(name);
    label
}

impl MapAsset {
    /// Makes a loaded map of a parsed map and its layout, with no texture
    /// known yet. Fails exactly if the layout names something that it does
    /// not hold.
    pub fn new(geomap: shambler::GeoMap, layout: MapLayout) -> (made: Result<
        MapAsset,
        MapAssetLoaderError,
    >)
        ensures
            layout.well_formed() ==> made.is_ok() && made.unwrap().layout == layout
                && made.unwrap().geomap == geomap && made.unwrap().texture_sizes@ == Map::<
                Seq<char>,
                (u32, u32),
            >::empty(),
            !layout.well_formed() ==> made == Err::<MapAsset, MapAssetLoaderError>(
                MapAssetLoaderError::InconsistentMap,
            ),
    {
        if layout.is_well_formed() {
            Ok(MapAsset { geomap, layout, texture_sizes: StringMap::new() })
        } else {
            Err(MapAssetLoaderError::InconsistentMap)
        }
    }

    /// Records that the texture `name` has been read, with its size in
    /// pixels. A size recorded earlier for the name is replaced.
    pub fn record_texture(&mut self, name: String, width: u32, height: u32)
        ensures
            final(self).texture_sizes@ == old(self).texture_sizes@.insert(name@, (width, height)),
            final(self).layout == old(self).layout,
            final(self).geomap == old(self).geomap,
    {
        self.texture_sizes.insert(name, (width, height));
    }

    /// Returns the size of each texture that has been read, by name.
    pub fn get_texture_names_with_size(&self) -> (sizes: &StringMap<(u32, u32)>)
        ensures
            sizes@ == self.texture_sizes@,
    {
        &self.texture_sizes
    }

    /// Returns, for each texture of the map in order, its size if it has
    /// been read.
    pub fn sizes_by_texture(&self) -> (found: Vec<Option<(u32, u32)>>)
        ensures
            found@.len() == self.layout.textures@.len(),
            forall|t: int|
                0 <= t < found@.len() ==> #[trigger] found@[t] == lookup(
                    self.texture_sizes@,
                    self.layout.textures@[t]@,
                ),
    {
        proof {
            use_type_invariant(&self.texture_sizes);
        }
        texture_sizes(&self.layout.textures, &self.texture_sizes)
    }
}

/// What loading gives for the bytes of a file: an error for bytes that are
/// not valid UTF-8, and for a text that the parser does not accept; else
/// the parsed map, regrouped into tables.
pub open spec fn loaded_map(bytes: Seq<u8>) -> Result<shambler::GeoMap, MapAssetLoaderError> {
    if !valid_utf8(bytes) {
        Err(MapAssetLoaderError::InvalidUtf8)
    } else {
        match parsed_map(decode_utf8(bytes)) {
            Some(map) => Ok(regrouped(map)),
            None => Err(MapAssetLoaderError::InvalidMap),
        }
    }
}

/// Reads the bytes of a map file, parses them and files what they hold.
/// Bytes that are not valid UTF-8 give `InvalidUtf8`, a text that the
/// parser does not accept gives `InvalidMap`, and no part of a map is
/// returned then. Every other file is loaded: the map holds the tables
/// that the text is regrouped into and the layout read from them, which is
/// well formed, and no texture is known yet.
pub fn load(bytes: &[u8]) -> (loaded: Result<MapAsset, MapAssetLoaderError>)
    ensures
        match loaded_map(bytes@) {
            Ok(geomap) => loaded.is_ok() && loaded.unwrap().geomap == geomap
                && loaded.unwrap().layout@ == geomap_layout(geomap)
                && loaded.unwrap().layout.well_formed() && loaded.unwrap().texture_sizes@
                == Map::<Seq<char>, (u32, u32)>::empty(),
            Err(error) => loaded == Err::<MapAsset, MapAssetLoaderError>(error),
        },
{
    let text = match from_utf8(bytes) {
        Some(text) => text,
        None => {
            return Err(MapAssetLoaderError::InvalidUtf8);
        },
    };
    match parse_map(text) {
        Some(map) => {
            let geomap = regroup(map);
            let entities = read_entities(&geomap);
            let (brush_faces, face_textures, textures) = read_faces(&geomap);
            let layout = MapLayout { entities, brush_faces, face_textures, textures };
            proof {
                layout.lemma_well_formed_by_view();
            }
            MapAsset::new(geomap, layout)
        },
        None => Err(MapAssetLoaderError::InvalidMap),
    }
}

} // verus!
