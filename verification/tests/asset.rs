use qevy::asset::{load, material_label, texture_file, texture_label, MapAssetLoaderError};

const BOX_MAP: &str = "{\n\"classname\" \"worldspawn\"\n\"wad\" \"\"\n{\n( -64 -64 -16 ) ( -64 -63 -16 ) ( -64 -64 -15 ) stone 0 0 0 1 1\n( -64 -64 -16 ) ( -64 -64 -15 ) ( -63 -64 -16 ) stone 0 0 0 1 1\n( -64 -64 -16 ) ( -63 -64 -16 ) ( -64 -63 -16 ) clip 0 0 0 1 1\n( 64 64 16 ) ( 64 65 16 ) ( 65 64 16 ) brick 0 0 0 1 1\n( 64 64 16 ) ( 65 64 16 ) ( 64 64 17 ) stone 0 0 0 1 1\n( 64 64 16 ) ( 64 64 17 ) ( 64 65 16 ) stone 0 0 0 1 1\n}\n}\n{\n\"classname\" \"light\"\n\"origin\" \"8 16 24\"\n}\n";

#[test]
fn load_files_entities_brushes_faces_and_textures() {
    let asset = load(BOX_MAP.as_bytes()).expect("the map is well formed");
    let layout = &asset.layout;
    assert!(layout.is_well_formed());
    assert_eq!(layout.entities.len(), 2);
    assert_eq!(layout.entities[0].brushes, vec![0]);
    assert!(layout.entities[1].brushes.is_empty());
    assert_eq!(
        layout.entities[0].properties,
        vec![
            ("classname".to_string(), "worldspawn".to_string()),
            ("wad".to_string(), "".to_string()),
        ]
    );
    assert_eq!(
        layout.entities[1].properties,
        vec![
            ("classname".to_string(), "light".to_string()),
            ("origin".to_string(), "8 16 24".to_string()),
        ]
    );
    assert_eq!(layout.brush_faces, vec![vec![0, 1, 2, 3, 4, 5]]);
    assert_eq!(layout.face_textures, vec![0, 0, 1, 2, 0, 0]);
    assert_eq!(layout.textures, vec!["stone".to_string(), "clip".to_string(), "brick".to_string()]);
    assert!(asset.texture_sizes.entries().is_empty());
}

#[test]
fn load_rejects_text_that_is_no_map() {
    assert_eq!(load(b"this is not a map").err(), Some(MapAssetLoaderError::InvalidMap));
    assert_eq!(load(b"{ \"classname\" ").err(), Some(MapAssetLoaderError::InvalidMap));
    assert_eq!(load(b"").err(), Some(MapAssetLoaderError::InvalidMap));
}

#[test]
fn load_rejects_bytes_that_are_no_text() {
    assert_eq!(load(&[0xff, 0xfe, 0x00]).err(), Some(MapAssetLoaderError::InvalidUtf8));
    assert_eq!(load(&[b'{', 0xc3, b'}']).err(), Some(MapAssetLoaderError::InvalidUtf8));
    let mut cut_short = BOX_MAP.as_bytes().to_vec();
    cut_short.push(0xe2);
    assert_eq!(load(&cut_short).err(), Some(MapAssetLoaderError::InvalidUtf8));
}

#[test]
fn load_reads_text_beyond_ascii() {
    let text = "{\n\"classname\" \"light\"\n\"message\" \"gr\u{fc}\u{df} dich\"\n}\n";
    let asset = load(text.as_bytes()).expect("the map is well formed");
    assert_eq!(asset.layout.entities[0].properties[1].1, "gr\u{fc}\u{df} dich");
}

#[test]
fn every_accepted_text_is_loaded() {
    let texts = [
        "{\n\"classname\" \"worldspawn\"\n}\n",
        "{\n\"classname\" \"worldspawn\"\n{\n}\n}\n",
        "// only a comment",
        BOX_MAP,
    ];
    for text in texts {
        let accepted = text.parse::<shalrath::repr::Map>().is_ok();
        let loaded = load(text.as_bytes());
        assert_eq!(loaded.is_ok(), accepted, "loading {:?}", text);
        if let Ok(asset) = loaded {
            assert!(asset.layout.is_well_formed());
        }
    }
}

#[test]
fn sizes_are_found_by_texture_name() {
    let mut asset = load(BOX_MAP.as_bytes()).expect("the map is well formed");
    assert_eq!(asset.sizes_by_texture(), vec![None, None, None]);
    asset.record_texture("brick".to_string(), 64, 32);
    asset.record_texture("stone".to_string(), 128, 128);
    asset.record_texture("unused".to_string(), 1, 1);
    assert_eq!(asset.sizes_by_texture(), vec![Some((128, 128)), None, Some((64, 32))]);
    asset.record_texture("stone".to_string(), 16, 8);
    assert_eq!(asset.sizes_by_texture(), vec![Some((16, 8)), None, Some((64, 32))]);
    assert_eq!(asset.get_texture_names_with_size().get("stone"), Some(&(16, 8)));
    assert_eq!(asset.get_texture_names_with_size().get("clip"), None);
}

#[test]
fn asset_paths_and_labels() {
    assert_eq!(texture_file("common/brick"), "textures/common/brick.png");
    assert_eq!(texture_label("common/brick"), "textures/common/brick");
    assert_eq!(material_label("common/brick"), "materials/common/brick");
}
