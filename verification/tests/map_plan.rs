use qevy::asset::{load, MapAsset, MapAssetLoaderError};
use qevy::layout::{EntityLayout, MapLayout};
use qevy::map_plan::{
    build_map, hidden_texture, plan_face, BrushOutcome, Diagnostic, EntityOutcome, FaceOutcome,
    MIN_BRUSH_FACES,
};
use shambler::face::{FaceNormals, FaceVertices, FaceWinding};
use shambler::Vector3;

const EPSILON: f32 = 0.001;

const CUBE: &str = "{\n\"classname\" \"worldspawn\"\n{\n\
( 0 0 0 ) ( 0 1 0 ) ( 0 0 1 ) stone 0 0 0 1 1\n\
( 1 0 0 ) ( 1 0 1 ) ( 1 1 0 ) stone 0 0 0 1 1\n\
( 0 0 0 ) ( 0 0 1 ) ( 1 0 0 ) stone 0 0 0 1 1\n\
( 0 1 0 ) ( 1 1 0 ) ( 0 1 1 ) stone 0 0 0 1 1\n\
( 0 0 0 ) ( 1 0 0 ) ( 0 1 0 ) stone 0 0 0 1 1\n\
( 0 0 1 ) ( 0 1 1 ) ( 1 0 1 ) stone 0 0 0 1 1\n\
}\n}\n";

const PRISM: &str = "{\n\"classname\" \"worldspawn\"\n{\n\
( 0 0 0 ) ( 1 0 0 ) ( 0 1 0 ) stone 0 0 0 1 1\n\
( 0 0 32 ) ( 0 1 32 ) ( 1 0 32 ) stone 0 0 0 1 1\n\
( 0 0 0 ) ( 0 0 1 ) ( 1 0 0 ) stone 0 0 0 1 1\n\
( 0 0 0 ) ( 0 1 0 ) ( 0 0 1 ) stone 0 0 0 1 1\n\
( 64 0 0 ) ( 65 -1 0 ) ( 64 0 1 ) stone 0 0 0 1 1\n\
}\n}\n";

const PARALLEL: &str = "{\n\"classname\" \"worldspawn\"\n{\n\
( 0 0 0 ) ( 1 0 0 ) ( 0 1 0 ) stone 0 0 0 1 1\n\
( 0 0 32 ) ( 0 1 32 ) ( 1 0 32 ) stone 0 0 0 1 1\n\
( 0 0 64 ) ( 0 1 64 ) ( 1 0 64 ) stone 0 0 0 1 1\n\
}\n}\n";

const MIXED: &str = "{\n\"classname\" \"trigger_once\"\n\"target\" \"gate\"\n{\n\
( 0 0 0 ) ( 0 1 0 ) ( 0 0 1 ) trigger 0 0 0 1 1\n\
( 1 0 0 ) ( 1 0 1 ) ( 1 1 0 ) common/clip 0 0 0 1 1\n\
( 0 0 0 ) ( 0 0 1 ) ( 1 0 0 ) stone 0 0 0 1 1\n\
( 0 1 0 ) ( 1 1 0 ) ( 0 1 1 ) brick 0 0 0 1 1\n\
( 0 0 0 ) ( 1 0 0 ) ( 0 1 0 ) clip 0 0 0 1 1\n\
( 0 0 1 ) ( 0 1 1 ) ( 1 0 1 ) common/trigger 0 0 0 1 1\n\
}\n{\n\
( 0 0 0 ) ( 1 0 0 ) ( 0 1 0 ) stone 0 0 0 1 1\n\
( 0 0 32 ) ( 0 1 32 ) ( 1 0 32 ) stone 0 0 0 1 1\n\
( 0 0 64 ) ( 0 1 64 ) ( 1 0 64 ) stone 0 0 0 1 1\n\
}\n}\n{\n\"classname\" \"light\"\n\"origin\" \"8 16 24\"\n}\n";

struct Solved {
    vertices: FaceVertices,
    normals: FaceNormals,
    windings: Vec<Vec<usize>>,
}

fn solve(asset: &MapAsset) -> Solved {
    let geomap = &asset.geomap;
    let planes = shambler::face::face_planes(&geomap.face_planes);
    let hulls = shambler::brush::brush_hulls(&geomap.brush_faces, &planes);
    let (vertices, _) = shambler::face::face_vertices(&geomap.brush_faces, &planes, &hulls);
    let centers = shambler::face::face_centers(&vertices);
    let indices = shambler::face::face_indices(
        &geomap.face_planes,
        &planes,
        &vertices,
        &centers,
        FaceWinding::Clockwise,
    );
    let normals = shambler::face::normals_flat(&vertices, &planes);
    let windings =
        geomap.faces.iter().map(|face| indices.get(face).cloned().unwrap_or_default()).collect();
    Solved { vertices, normals, windings }
}

fn distinct_points(vertices: &FaceVertices) -> Vec<Vector3> {
    let mut points: Vec<Vector3> = Vec::new();
    for face in vertices.values() {
        for vertex in face {
            if !points.iter().any(|seen| (seen - vertex).norm() < EPSILON) {
                points.push(*vertex);
            }
        }
    }
    points
}

fn faces_of(plan: &[EntityOutcome], entity: usize, brush: usize) -> &Vec<FaceOutcome> {
    match &plan[entity] {
        EntityOutcome::Solid { brushes } => match &brushes[brush] {
            BrushOutcome::Solid { faces } => faces,
            BrushOutcome::Degenerate => panic!("brush {} is degenerate", brush),
        },
        EntityOutcome::Point => panic!("entity {} has no brushes", entity),
    }
}

fn triangle_counts(faces: &[FaceOutcome]) -> Vec<usize> {
    faces
        .iter()
        .map(|face| match face {
            FaceOutcome::Rendered { indices } => indices.len() / 3,
            _ => 0,
        })
        .collect()
}

fn loaded(text: &str, textures: &[(&str, u32, u32)]) -> MapAsset {
    let mut asset = load(text.as_bytes()).expect("the map is well formed");
    for (name, width, height) in textures {
        asset.record_texture(name.to_string(), *width, *height);
    }
    asset
}

#[test]
fn hidden_textures() {
    for name in ["trigger", "clip", "common/trigger", "common/clip"] {
        assert!(hidden_texture(name), "{} is hidden", name);
    }
    for name in ["", "Trigger", "clip ", "common", "common/", "stone", "trigger/clip"] {
        assert!(!hidden_texture(name), "{} is drawn", name);
    }
}

#[test]
fn what_becomes_of_a_face() {
    let square = vec![0, 1, 2, 3];
    let size = Some((64, 64));
    assert_eq!(
        plan_face(&square, "stone", size, false),
        FaceOutcome::Rendered { indices: vec![0, 1, 2, 0, 2, 3] }
    );
    assert_eq!(plan_face(&square, "stone", None, false), FaceOutcome::MissingTexture);
    assert_eq!(plan_face(&square, "clip", size, false), FaceOutcome::CollisionOnly);
    assert_eq!(plan_face(&square, "clip", None, false), FaceOutcome::CollisionOnly);
    assert_eq!(plan_face(&square, "stone", size, true), FaceOutcome::CollisionOnly);
    assert_eq!(plan_face(&square, "stone", None, true), FaceOutcome::CollisionOnly);
    assert_eq!(plan_face(&vec![0, 1], "stone", size, false), FaceOutcome::Degenerate);
    assert_eq!(plan_face(&vec![], "clip", None, true), FaceOutcome::Degenerate);
}

#[test]
fn a_cube_has_six_square_faces_and_eight_corners() {
    let asset = loaded(CUBE, &[("stone", 64, 64)]);
    let solved = solve(&asset);
    assert_eq!(solved.windings.iter().map(|w| w.len()).collect::<Vec<_>>(), vec![4; 6]);
    assert_eq!(distinct_points(&solved.vertices).len(), 8);

    let plan = build_map(&asset, &solved.windings, false);
    assert_eq!(plan.entities.len(), 1);
    assert!(plan.diagnostics.is_empty());
    let faces = faces_of(&plan.entities, 0, 0);
    assert_eq!(triangle_counts(faces), vec![2; 6]);
    for (face, outcome) in faces.iter().enumerate() {
        match outcome {
            FaceOutcome::Rendered { indices } => {
                let winding = &solved.windings[face];
                assert_eq!(
                    indices.iter().map(|&i| i as usize).collect::<Vec<_>>(),
                    vec![winding[0], winding[1], winding[2], winding[0], winding[2], winding[3]]
                );
            }
            other => panic!("face {} is {:?}", face, other),
        }
    }
}

#[test]
fn solved_corners_lie_inside_every_plane() {
    for text in [CUBE, PRISM] {
        let asset = loaded(text, &[]);
        let solved = solve(&asset);
        let planes = shambler::face::face_planes(&asset.geomap.face_planes);
        let points = distinct_points(&solved.vertices);
        assert!(!points.is_empty());
        for point in &points {
            for plane in planes.values() {
                assert!(plane.normal().dot(point) <= plane.distance() + EPSILON);
            }
        }
    }
}

#[test]
fn every_triangle_has_an_area_and_faces_the_same_way() {
    for text in [CUBE, PRISM] {
        let asset = loaded(text, &[("stone", 64, 64)]);
        let solved = solve(&asset);
        let plan = build_map(&asset, &solved.windings, false);
        let centers = shambler::face::face_centers(&solved.vertices);
        let brush_centers = shambler::brush::brush_centers(&asset.geomap.brush_faces, &centers);
        let brush_center = brush_centers.values().next().expect("one brush");
        let mut facings: Vec<f32> = Vec::new();
        for (face, outcome) in faces_of(&plan.entities, 0, 0).iter().enumerate() {
            let id = asset.geomap.faces[face];
            let normal = solved.normals[&id][0];
            assert!(normal.dot(&(centers[&id] - brush_center)) > 0.0);
            let corners = &solved.vertices[&id];
            let indices = match outcome {
                FaceOutcome::Rendered { indices } => indices,
                other => panic!("face {} is {:?}", face, other),
            };
            for triangle in indices.chunks(3) {
                let a = corners[triangle[0] as usize];
                let b = corners[triangle[1] as usize];
                let c = corners[triangle[2] as usize];
                let doubled = (b - a).cross(&(c - a));
                assert!(doubled.norm() / 2.0 > EPSILON);
                facings.push(doubled.dot(&normal));
            }
        }
        assert!(facings.iter().all(|f| *f > 0.0) || facings.iter().all(|f| *f < 0.0));
    }
}

#[test]
fn a_cube_is_textured_in_pixels() {
    let asset = loaded(CUBE, &[("stone", 64, 32)]);
    let solved = solve(&asset);
    let geomap = &asset.geomap;
    let planes = shambler::face::face_planes(&geomap.face_planes);
    let sizes: shambler::texture::TextureSizes = asset
        .sizes_by_texture()
        .into_iter()
        .enumerate()
        .filter_map(|(t, size)| size.map(|s| (shambler::texture::TextureId(t), s)))
        .collect();
    assert_eq!(sizes.len(), 1);
    let uvs = shambler::face::new(
        &geomap.faces,
        &geomap.textures,
        &geomap.face_textures,
        &solved.vertices,
        &planes,
        &geomap.face_offsets,
        &geomap.face_angles,
        &geomap.face_scales,
        &sizes,
    );
    assert_eq!(uvs.values().map(|face| face.len()).sum::<usize>(), 24);
    for (face, id) in geomap.faces.iter().enumerate() {
        for (vertex, uv) in solved.vertices[id].iter().zip(uvs[id].iter()) {
            let expected = match face {
                0 | 1 => (vertex.y, -vertex.z),
                2 | 3 => (vertex.x, -vertex.z),
                _ => (vertex.x, -vertex.y),
            };
            assert!((uv.x * 64.0 - expected.0).abs() < EPSILON);
            assert!((uv.y * 32.0 - expected.1).abs() < EPSILON);
        }
    }
}

#[test]
fn a_prism_has_two_triangles_and_three_rectangles() {
    let asset = loaded(PRISM, &[("stone", 64, 64)]);
    let solved = solve(&asset);
    assert_eq!(solved.windings.iter().map(|w| w.len()).collect::<Vec<_>>(), vec![3, 3, 4, 4, 4]);
    assert_eq!(distinct_points(&solved.vertices).len(), 6);

    let plan = build_map(&asset, &solved.windings, false);
    assert!(plan.diagnostics.is_empty());
    let faces = faces_of(&plan.entities, 0, 0);
    assert_eq!(faces.len(), 5);
    assert_eq!(triangle_counts(faces), vec![1, 1, 2, 2, 2]);
}

#[test]
fn parallel_planes_enclose_nothing() {
    let asset = loaded(PARALLEL, &[("stone", 64, 64)]);
    let solved = solve(&asset);
    assert!(solved.windings.iter().all(|w| w.is_empty()));
    assert!(distinct_points(&solved.vertices).is_empty());

    let plan = build_map(&asset, &solved.windings, false);
    assert_eq!(
        plan.entities,
        vec![EntityOutcome::Solid { brushes: vec![BrushOutcome::Degenerate] }]
    );
    assert_eq!(plan.diagnostics, vec![Diagnostic::DegenerateBrush { brush: 0 }]);
}

#[test]
fn hidden_and_unread_textures_are_not_drawn() {
    let asset = loaded(MIXED, &[("stone", 64, 64), ("clip", 16, 16)]);
    let solved = solve(&asset);
    let plan = build_map(&asset, &solved.windings, false);
    assert_eq!(plan.entities.len(), 2);
    assert_eq!(plan.entities[1], EntityOutcome::Point);
    let faces = faces_of(&plan.entities, 0, 0);
    assert_eq!(faces[0], FaceOutcome::CollisionOnly);
    assert_eq!(faces[1], FaceOutcome::CollisionOnly);
    assert!(matches!(faces[2], FaceOutcome::Rendered { .. }));
    assert_eq!(faces[3], FaceOutcome::MissingTexture);
    assert_eq!(faces[4], FaceOutcome::CollisionOnly);
    assert_eq!(faces[5], FaceOutcome::CollisionOnly);
    match &plan.entities[0] {
        EntityOutcome::Solid { brushes } => assert_eq!(brushes[1], BrushOutcome::Degenerate),
        EntityOutcome::Point => panic!("the first entity has brushes"),
    }
    assert_eq!(
        plan.diagnostics,
        vec![Diagnostic::MissingTexture { face: 3 }, Diagnostic::DegenerateBrush { brush: 1 }]
    );
}

#[test]
fn headless_draws_nothing_and_misses_no_texture() {
    let asset = loaded(MIXED, &[]);
    let solved = solve(&asset);
    let plan = build_map(&asset, &solved.windings, true);
    let faces = faces_of(&plan.entities, 0, 0);
    assert_eq!(faces.len(), 6);
    assert!(faces.iter().all(|face| *face == FaceOutcome::CollisionOnly));
    assert_eq!(plan.diagnostics, vec![Diagnostic::DegenerateBrush { brush: 1 }]);
}

fn hand_made(brush_faces: Vec<Vec<usize>>, faces: usize) -> MapAsset {
    let layout = MapLayout {
        entities: vec![EntityLayout {
            properties: vec![],
            brushes: (0..brush_faces.len()).collect(),
        }],
        brush_faces,
        face_textures: vec![0; faces],
        textures: vec!["stone".to_string()],
    };
    let mut asset = MapAsset::new(shambler::GeoMap::default(), layout).expect("well formed");
    asset.record_texture("stone".to_string(), 8, 8);
    asset
}

#[test]
fn a_degenerate_face_is_left_out_of_a_sound_brush() {
    let asset = hand_made(vec![vec![0, 1, 2, 3, 4]], 5);
    let windings = vec![vec![0, 1, 2], vec![0, 1], vec![2, 1, 0], vec![0, 2, 1], vec![1, 0, 2, 3]];
    let plan = build_map(&asset, &windings, false);
    assert_eq!(
        faces_of(&plan.entities, 0, 0),
        &vec![
            FaceOutcome::Rendered { indices: vec![0, 1, 2] },
            FaceOutcome::Degenerate,
            FaceOutcome::Rendered { indices: vec![2, 1, 0] },
            FaceOutcome::Rendered { indices: vec![0, 2, 1] },
            FaceOutcome::Rendered { indices: vec![1, 0, 2, 1, 2, 3] },
        ]
    );
    assert_eq!(plan.diagnostics, vec![Diagnostic::DegenerateFace { face: 1 }]);
}

#[test]
fn a_brush_needs_four_proper_faces() {
    assert_eq!(MIN_BRUSH_FACES, 4);
    let asset = hand_made(vec![vec![0, 1, 2, 3], vec![4, 5, 6], vec![], vec![7, 8, 9, 10]], 11);
    let mut windings = vec![vec![0, 1, 2]; 11];
    windings[3] = vec![0, 1];
    let plan = build_map(&asset, &windings, false);
    match &plan.entities[0] {
        EntityOutcome::Solid { brushes } => {
            assert_eq!(brushes[0], BrushOutcome::Degenerate);
            assert_eq!(brushes[1], BrushOutcome::Degenerate);
            assert_eq!(brushes[2], BrushOutcome::Degenerate);
            assert!(matches!(brushes[3], BrushOutcome::Solid { .. }));
        }
        EntityOutcome::Point => panic!("the entity has brushes"),
    }
    assert_eq!(
        plan.diagnostics,
        vec![
            Diagnostic::DegenerateBrush { brush: 0 },
            Diagnostic::DegenerateBrush { brush: 1 },
            Diagnostic::DegenerateBrush { brush: 2 },
        ]
    );
}

#[test]
fn a_layout_that_names_what_it_lacks_is_refused() {
    let layout = |brushes: Vec<usize>, faces: Vec<usize>, textures: Vec<usize>| MapLayout {
        entities: vec![EntityLayout { properties: vec![], brushes }],
        brush_faces: vec![faces],
        face_textures: textures,
        textures: vec!["stone".to_string()],
    };
    assert!(layout(vec![0], vec![0, 1], vec![0, 0]).is_well_formed());
    assert!(!layout(vec![1], vec![0, 1], vec![0, 0]).is_well_formed());
    assert!(!layout(vec![0], vec![0, 2], vec![0, 0]).is_well_formed());
    assert!(!layout(vec![0], vec![0, 1], vec![0, 1]).is_well_formed());
    assert_eq!(
        MapAsset::new(shambler::GeoMap::default(), layout(vec![0], vec![2], vec![0])).err(),
        Some(MapAssetLoaderError::InconsistentMap)
    );
}
