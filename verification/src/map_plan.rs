//! What is built of a loaded map: for each entity, whether it is placed at
//! a point or made of brushes; for each brush, whether it encloses a
//! volume; and for each face, whether it is drawn, only collided with, or
//! left out.

use vstd::prelude::*;
use crate::asset::MapAsset;
use crate::layout::MapLayout;
use crate::string_map::lookup;
use crate::text::str_eq;
use crate::triangulation::{
    lemma_triangle_list_in_range, triangle_list, triangulate, winding_in_range,
};

verus! {

/// The fewest faces that can enclose a volume.
pub const MIN_BRUSH_FACES: usize = 4;

/// Whether a texture name marks a face that is never drawn: the faces of
/// triggers and of clipping volumes.
pub open spec fn is_hidden_texture(name: Seq<char>) -> bool {
    ||| name == "trigger"@
    ||| name == "clip"@
    ||| name == "common/trigger"@
    ||| name == "common/clip"@
}

/// Tells whether a texture name marks a face that is never drawn.
pub fn hidden_texture(name: &str) -> (yes: bool)
    ensures
        yes == is_hidden_texture(name@),
{
    str_eq(name, "trigger") || str_eq(name, "clip") || str_eq(name, "common/trigger") || str_eq(
        name,
        "common/clip",
    )
}

/// What becomes of one face of a brush.
#[derive(Debug, PartialEq, Eq)]
pub enum FaceOutcome {
    /// The face has fewer than three corners: it is left out of mesh and
    /// collider, and reported.
    Degenerate,
    /// The face bounds the collider and is not drawn: its texture is one of
    /// the hidden ones, or nothing is drawn at all.
    CollisionOnly,
    /// The face bounds the collider and cannot be drawn, because its
    /// texture has not been read: reported.
    MissingTexture,
    /// The face bounds the collider and is drawn with these triangles.
    Rendered { indices: Vec<u32> },
}

/// Whether `outcome` is what becomes of a face with the corners `winding`
/// and the texture `texture`, of which `size` is known. The tests are made
/// in this order: too few corners, nothing to draw, no texture.
pub open spec fn is_face_outcome(
    outcome: FaceOutcome,
    winding: Seq<usize>,
    texture: Seq<char>,
    size: Option<(u32, u32)>,
    headless: bool,
) -> bool {
    if winding.len() < 3 {
        outcome is Degenerate
    } else if headless || is_hidden_texture(texture) {
        outcome is CollisionOnly
    } else if size is None {
        outcome is MissingTexture
    } else {
        outcome matches FaceOutcome::Rendered { indices } && Some(indices@) == triangle_list(
            winding,
        )
    }
}

/// Decides what becomes of one face, from its corners in winding order,
/// the name of its texture and the texture's size, if that is known.
/// Without `headless`, a face with a texture that is read and not hidden is
/// drawn as a fan of triangles.
pub fn plan_face(winding: &Vec<usize>, texture: &str, size: Option<(u32, u32)>, headless: bool) -> (outcome:
    FaceOutcome)
    ensures
        is_face_outcome(outcome, winding@, texture@, size, headless),
{
    match triangulate(winding) {
        None => FaceOutcome::Degenerate,
        Some(indices) => {
            if headless || hidden_texture(texture) {
                FaceOutcome::CollisionOnly
            } else if size.is_none() {
                FaceOutcome::MissingTexture
            } else {
                FaceOutcome::Rendered { indices }
            }
        },
    }
}

/// What becomes of one brush.
#[derive(Debug, PartialEq, Eq)]
pub enum BrushOutcome {
    /// Fewer than four faces of the brush have three corners or more: it
    /// encloses no volume, is left out altogether, and reported.
    Degenerate,
    /// The brush gets a collider, a convex hull of the corners of all its
    /// faces that are not degenerate. `faces` tells, for each of the
    /// brush's faces in order, what becomes of it.
    Solid { faces: Vec<FaceOutcome> },
}

/// How many of the first `n` faces of `faces` have three corners or more.
pub open spec fn proper_faces(windings: Seq<Vec<usize>>, faces: Seq<usize>, n: nat) -> nat
    recommends
        n <= faces.len(),
    decreases n,
{
    if n == 0 {
        0
    } else {
        proper_faces(windings, faces, (n - 1) as nat) + if windings[faces[n - 1] as int]@.len()
            >= 3 {
            1nat
        } else {
            0nat
        }
    }
}

/// Whether `outcome` is what becomes of brush `b` of the map.
pub open spec fn is_brush_outcome(
    outcome: BrushOutcome,
    asset: MapAsset,
    windings: Seq<Vec<usize>>,
    b: int,
    headless: bool,
) -> bool {
    let faces = asset.layout.brush_faces@[b]@;
    if proper_faces(windings, faces, faces.len()) < MIN_BRUSH_FACES {
        outcome is Degenerate
    } else {
        outcome matches BrushOutcome::Solid { faces: outcomes } && outcomes@.len() == faces.len()
            && forall|k: int|
            0 <= k < faces.len() ==> is_face_outcome(
                #[trigger] outcomes@[k],
                windings[faces[k] as int]@,
                asset.layout.texture_of(faces[k] as int),
                lookup(asset.texture_sizes@, asset.layout.texture_of(faces[k] as int)),
                headless,
            )
    }
}

fn count_proper_faces(windings: &Vec<Vec<usize>>, faces: &Vec<usize>) -> (count: usize)
    requires
        forall|k: int| 0 <= k < faces@.len() ==> #[trigger] faces@[k] < windings@.len(),
    ensures
        count == proper_faces(windings@, faces@, faces@.len()),
{
    let mut count: usize = 0;
    let mut k: usize = 0;
    while k < faces.len()
        invariant
            k <= faces.len(),
            count <= k,
            count == proper_faces(windings@, faces@, k as nat),
            forall|j: int| 0 <= j < faces@.len() ==> #[trigger] faces@[j] < windings@.len(),
        decreases faces.len() - k,
    {
        if windings[faces[k]].len() >= 3 {
            count += 1;
        }
        k += 1;
    }
    count
}

fn plan_brush(
    asset: &MapAsset,
    windings: &Vec<Vec<usize>>,
    sizes: &Vec<Option<(u32, u32)>>,
    b: usize,
    headless: bool,
    diagnostics: &mut Vec<Diagnostic>,
) -> (outcome: BrushOutcome)
    requires
        asset.layout.well_formed(),
        windings@.len() == asset.layout.face_textures@.len(),
        b < asset.layout.brush_faces@.len(),
        sizes@.len() == asset.layout.textures@.len(),
        forall|t: int|
            0 <= t < sizes@.len() ==> #[trigger] sizes@[t] == lookup(
                asset.texture_sizes@,
                asset.layout.textures@[t]@,
            ),
    ensures
        is_brush_outcome(outcome, *asset, windings@, b as int, headless),
        final(diagnostics)@ == old(diagnostics)@ + brush_diagnostics(
            outcome,
            b,
            asset.layout.brush_faces@[b as int]@,
        ),
{
    let layout = &asset.layout;
    let faces = &layout.brush_faces[b];
    assert(layout.brush_in_range(b as int));
    if count_proper_faces(windings, faces) < MIN_BRUSH_FACES {
        diagnostics.push(Diagnostic::DegenerateBrush { brush: b });
        return BrushOutcome::Degenerate;
    }
    let mut outcomes: Vec<FaceOutcome> = Vec::new();
    let mut k: usize = 0;
    proof {
        assert(diagnostics@ =~= old(diagnostics)@ + face_diagnostics(outcomes@, faces@, 0));
    }
    while k < faces.len()
        invariant
            k <= faces.len(),
            layout == &asset.layout,
            faces == &layout.brush_faces@[b as int],
            asset.layout.well_formed(),
            layout.brush_in_range(b as int),
            windings@.len() == layout.face_textures@.len(),
            sizes@.len() == layout.textures@.len(),
            forall|t: int|
                0 <= t < sizes@.len() ==> #[trigger] sizes@[t] == lookup(
                    asset.texture_sizes@,
                    layout.textures@[t]@,
                ),
            outcomes@.len() == k,
            forall|j: int|
                0 <= j < k ==> is_face_outcome(
                    #[trigger] outcomes@[j],
                    windings@[faces@[j] as int]@,
                    layout.texture_of(faces@[j] as int),
                    lookup(asset.texture_sizes@, layout.texture_of(faces@[j] as int)),
                    headless,
                ),
            diagnostics@ == old(diagnostics)@ + face_diagnostics(outcomes@, faces@, k as nat),
        decreases faces.len() - k,
    {
        let face = faces[k];
        assert(face < layout.face_textures@.len());
        let texture = layout.face_textures[face];
        assert(texture < layout.textures@.len());
        let outcome = plan_face(
            &windings[face],
            layout.textures[texture].as_str(),
            sizes[texture],
            headless,
        );
        let ghost reported = diagnostics@;
        let ghost planned = outcomes@;
        match &outcome {
            FaceOutcome::Degenerate => {
                diagnostics.push(Diagnostic::DegenerateFace { face });
            },
            FaceOutcome::MissingTexture => {
                diagnostics.push(Diagnostic::MissingTexture { face });
            },
            _ => {},
        }
        assert(diagnostics@ =~= reported + face_diagnostic(outcome, face));
        outcomes.push(outcome);
        proof {
            lemma_face_diagnostics_extend(planned, outcomes@, faces@, k as nat);
            assert(diagnostics@ =~= old(diagnostics)@ + face_diagnostics(
                outcomes@,
                faces@,
                (k + 1) as nat,
            ));
        }
        k += 1;
    }
    BrushOutcome::Solid { faces: outcomes }
}

/// What is reported of the first `n` faces does not depend on the outcomes
/// that follow them.
proof fn lemma_face_diagnostics_extend(
    shorter: Seq<FaceOutcome>,
    longer: Seq<FaceOutcome>,
    faces: Seq<usize>,
    n: nat,
)
    requires
        n <= shorter.len() <= longer.len(),
        forall|j: int| 0 <= j < shorter.len() ==> shorter[j] == longer[j],
    ensures
        face_diagnostics(shorter, faces, n) == face_diagnostics(longer, faces, n),
    decreases n,
{
    if n > 0 {
        lemma_face_diagnostics_extend(shorter, longer, faces, (n - 1) as nat);
    }
}

/// What is reported of the first `n` brushes does not depend on the
/// outcomes that follow them.
proof fn lemma_brushes_diagnostics_extend(
    shorter: Seq<BrushOutcome>,
    longer: Seq<BrushOutcome>,
    brushes: Seq<usize>,
    layout: MapLayout,
    n: nat,
)
    requires
        n <= shorter.len() <= longer.len(),
        forall|j: int| 0 <= j < shorter.len() ==> shorter[j] == longer[j],
    ensures
        brushes_diagnostics(shorter, brushes, layout, n) == brushes_diagnostics(
            longer,
            brushes,
            layout,
            n,
        ),
    decreases n,
{
    if n > 0 {
        lemma_brushes_diagnostics_extend(shorter, longer, brushes, layout, (n - 1) as nat);
    }
}

/// What is reported of the first `n` entities does not depend on the
/// outcomes that follow them.
proof fn lemma_map_diagnostics_extend(
    shorter: Seq<EntityOutcome>,
    longer: Seq<EntityOutcome>,
    layout: MapLayout,
    n: nat,
)
    requires
        n <= shorter.len() <= longer.len(),
        forall|j: int| 0 <= j < shorter.len() ==> shorter[j] == longer[j],
    ensures
        map_diagnostics(shorter, layout, n) == map_diagnostics(longer, layout, n),
    decreases n,
{
    if n > 0 {
        lemma_map_diagnostics_extend(shorter, longer, layout, (n - 1) as nat);
    }
}

/// What becomes of one entity.
#[derive(Debug, PartialEq, Eq)]
pub enum EntityOutcome {
    /// The entity has no brushes: it is placed at a point.
    Point,
    /// The entity is made of brushes. `brushes` tells, for each of them in
    /// order, what becomes of it.
    Solid { brushes: Vec<BrushOutcome> },
}

/// Whether `outcome` is what becomes of entity `e` of the map.
pub open spec fn is_entity_outcome(
    outcome: EntityOutcome,
    asset: MapAsset,
    windings: Seq<Vec<usize>>,
    e: int,
    headless: bool,
) -> bool {
    let brushes = asset.layout.entities@[e].brushes@;
    if brushes.len() == 0 {
        outcome is Point
    } else {
        outcome matches EntityOutcome::Solid { brushes: outcomes } && outcomes@.len()
            == brushes.len() && forall|k: int|
            0 <= k < brushes.len() ==> is_brush_outcome(
                #[trigger] outcomes@[k],
                asset,
                windings,
                brushes[k] as int,
                headless,
            )
    }
}

fn plan_entity(
    asset: &MapAsset,
    windings: &Vec<Vec<usize>>,
    sizes: &Vec<Option<(u32, u32)>>,
    e: usize,
    headless: bool,
    diagnostics: &mut Vec<Diagnostic>,
) -> (outcome: EntityOutcome)
    requires
        asset.layout.well_formed(),
        windings@.len() == asset.layout.face_textures@.len(),
        e < asset.layout.entities@.len(),
        sizes@.len() == asset.layout.textures@.len(),
        forall|t: int|
            0 <= t < sizes@.len() ==> #[trigger] sizes@[t] == lookup(
                asset.texture_sizes@,
                asset.layout.textures@[t]@,
            ),
    ensures
        is_entity_outcome(outcome, *asset, windings@, e as int, headless),
        final(diagnostics)@ == old(diagnostics)@ + entity_diagnostics(
            outcome,
            asset.layout,
            e as int,
        ),
{
    let brushes = &asset.layout.entities[e].brushes;
    assert(asset.layout.entity_in_range(e as int));
    if brushes.len() == 0 {
        assert(diagnostics@ =~= old(diagnostics)@ + Seq::<Diagnostic>::empty());
        return EntityOutcome::Point;
    }
    let mut outcomes: Vec<BrushOutcome> = Vec::new();
    let mut k: usize = 0;
    proof {
        assert(diagnostics@ =~= old(diagnostics)@ + brushes_diagnostics(
            outcomes@,
            brushes@,
            asset.layout,
            0,
        ));
    }
    while k < brushes.len()
        invariant
            k <= brushes.len(),
            brushes == &asset.layout.entities@[e as int].brushes,
            asset.layout.well_formed(),
            asset.layout.entity_in_range(e as int),
            windings@.len() == asset.layout.face_textures@.len(),
            sizes@.len() == asset.layout.textures@.len(),
            forall|t: int|
                0 <= t < sizes@.len() ==> #[trigger] sizes@[t] == lookup(
                    asset.texture_sizes@,
                    asset.layout.textures@[t]@,
                ),
            outcomes@.len() == k,
            forall|j: int|
                0 <= j < k ==> is_brush_outcome(
                    #[trigger] outcomes@[j],
                    *asset,
                    windings@,
                    brushes@[j] as int,
                    headless,
                ),
            diagnostics@ == old(diagnostics)@ + brushes_diagnostics(
                outcomes@,
                brushes@,
                asset.layout,
                k as nat,
            ),
        decreases brushes.len() - k,
    {
        let ghost planned = outcomes@;
        let outcome = plan_brush(asset, windings, sizes, brushes[k], headless, diagnostics);
        outcomes.push(outcome);
        proof {
            lemma_brushes_diagnostics_extend(planned, outcomes@, brushes@, asset.layout, k as nat);
            assert(diagnostics@ =~= old(diagnostics)@ + brushes_diagnostics(
                outcomes@,
                brushes@,
                asset.layout,
                (k + 1) as nat,
            ));
        }
        k += 1;
    }
    EntityOutcome::Solid { brushes: outcomes }
}

/// Something in a map that was left out of what is built, or could not be
/// drawn. None of them stops the build.
#[derive(Debug, PartialEq, Eq, Structural, Clone, Copy)]
pub enum Diagnostic {
    /// The brush with this number encloses no volume and was left out.
    DegenerateBrush { brush: usize },
    /// The face with this number has fewer than three corners and was left
    /// out.
    DegenerateFace { face: usize },
    /// The face with this number is not drawn, because its texture has not
    /// been read.
    MissingTexture { face: usize },
}

/// What is reported of one face.
pub open spec fn face_diagnostic(outcome: FaceOutcome, face: usize) -> Seq<Diagnostic> {
    match outcome {
        FaceOutcome::Degenerate => seq![Diagnostic::DegenerateFace { face }],
        FaceOutcome::MissingTexture => seq![Diagnostic::MissingTexture { face }],
        _ => Seq::<Diagnostic>::empty(),
    }
}

/// What is reported of the first `n` faces of a brush, in order.
pub open spec fn face_diagnostics(outcomes: Seq<FaceOutcome>, faces: Seq<usize>, n: nat) -> Seq<
    Diagnostic,
>
    recommends
        n <= outcomes.len(),
        n <= faces.len(),
    decreases n,
{
    if n == 0 {
        Seq::<Diagnostic>::empty()
    } else {
        face_diagnostics(outcomes, faces, (n - 1) as nat) + face_diagnostic(
            outcomes[n - 1],
            faces[n - 1],
        )
    }
}

/// What is reported of the brush with the number `brush` and the faces
/// `faces`: that it is degenerate, or else what is reported of its faces.
pub open spec fn brush_diagnostics(outcome: BrushOutcome, brush: usize, faces: Seq<usize>) -> Seq<
    Diagnostic,
> {
    match outcome {
        BrushOutcome::Degenerate => seq![Diagnostic::DegenerateBrush { brush }],
        BrushOutcome::Solid { faces: outcomes } => face_diagnostics(outcomes@, faces, faces.len()),
    }
}

/// What is reported of the first `n` brushes of an entity, in order.
pub open spec fn brushes_diagnostics(
    outcomes: Seq<BrushOutcome>,
    brushes: Seq<usize>,
    layout: MapLayout,
    n: nat,
) -> Seq<Diagnostic>
    recommends
        n <= outcomes.len(),
        n <= brushes.len(),
    decreases n,
{
    if n == 0 {
        Seq::<Diagnostic>::empty()
    } else {
        brushes_diagnostics(outcomes, brushes, layout, (n - 1) as nat) + brush_diagnostics(
            outcomes[n - 1],
            brushes[n - 1],
            layout.brush_faces@[brushes[n - 1] as int]@,
        )
    }
}

/// What is reported of entity `e`: nothing of a point entity.
pub open spec fn entity_diagnostics(outcome: EntityOutcome, layout: MapLayout, e: int) -> Seq<
    Diagnostic,
> {
    match outcome {
        EntityOutcome::Point => Seq::<Diagnostic>::empty(),
        EntityOutcome::Solid { brushes: outcomes } => brushes_diagnostics(
            outcomes@,
            layout.entities@[e].brushes@,
            layout,
            layout.entities@[e].brushes@.len(),
        ),
    }
}

/// What is reported of the first `n` entities of a map, in order.
pub open spec fn map_diagnostics(plan: Seq<EntityOutcome>, layout: MapLayout, n: nat) -> Seq<
    Diagnostic,
>
    recommends
        n <= plan.len(),
        n <= layout.entities@.len(),
    decreases n,
{
    if n == 0 {
        Seq::<Diagnostic>::empty()
    } else {
        map_diagnostics(plan, layout, (n - 1) as nat) + entity_diagnostics(
            plan[n - 1],
            layout,
            n - 1,
        )
    }
}

/// Whether `plan` tells, for each entity of the map in order, what becomes
/// of it.
pub open spec fn is_map_plan(
    plan: Seq<EntityOutcome>,
    asset: MapAsset,
    windings: Seq<Vec<usize>>,
    headless: bool,
) -> bool {
    &&& plan.len() == asset.layout.entities@.len()
    &&& forall|e: int|
        0 <= e < plan.len() ==> is_entity_outcome(#[trigger] plan[e], asset, windings, e, headless)
}

/// What is built of a map, and what was left out of it.
pub struct MapPlan {
    /// For each entity of the map, by number, what becomes of it.
    pub entities: Vec<EntityOutcome>,
    /// What was left out or could not be drawn, in the order of the map.
    pub diagnostics: Vec<Diagnostic>,
}

/// Decides what is built of a loaded map, given for each face, by number,
/// its corners in winding order. With `headless` nothing is drawn, and
/// faces only bound colliders. Degenerate brushes and faces and textures
/// that were not read are left out and reported; none of them stops the
/// build.
pub fn build_map(asset: &MapAsset, windings: &Vec<Vec<usize>>, headless: bool) -> (plan: MapPlan)
    requires
        asset.layout.well_formed(),
        windings@.len() == asset.layout.face_textures@.len(),
    ensures
        is_map_plan(plan.entities@, *asset, windings@, headless),
        plan.diagnostics@ == map_diagnostics(
            plan.entities@,
            asset.layout,
            asset.layout.entities@.len(),
        ),
{
    let sizes = asset.sizes_by_texture();
    let mut entities: Vec<EntityOutcome> = Vec::new();
    let mut diagnostics: Vec<Diagnostic> = Vec::new();
    let mut e: usize = 0;
    while e < asset.layout.entities.len()
        invariant
            e <= asset.layout.entities@.len(),
            asset.layout.well_formed(),
            windings@.len() == asset.layout.face_textures@.len(),
            sizes@.len() == asset.layout.textures@.len(),
            forall|t: int|
                0 <= t < sizes@.len() ==> #[trigger] sizes@[t] == lookup(
                    asset.texture_sizes@,
                    asset.layout.textures@[t]@,
                ),
            entities@.len() == e,
            forall|j: int|
                0 <= j < e ==> is_entity_outcome(
                    #[trigger] entities@[j],
                    *asset,
                    windings@,
                    j,
                    headless,
                ),
            diagnostics@ == map_diagnostics(entities@, asset.layout, e as nat),
        decreases asset.layout.entities@.len() - e,
    {
        let ghost planned = entities@;
        let outcome = plan_entity(asset, windings, &sizes, e, headless, &mut diagnostics);
        entities.push(outcome);
        proof {
            lemma_map_diagnostics_extend(planned, entities@, asset.layout, e as nat);
        }
        e += 1;
    }
    MapPlan { entities, diagnostics }
}

/// A face that is drawn has two triangles fewer than corners, and where
/// its winding order names corners of its own polygon, so does every index
/// of its triangles.
pub proof fn lemma_rendered_face_is_a_fan(
    outcome: FaceOutcome,
    winding: Seq<usize>,
    texture: Seq<char>,
    size: Option<(u32, u32)>,
    headless: bool,
)
    requires
        is_face_outcome(outcome, winding, texture, size, headless),
        outcome is Rendered,
    ensures
        winding.len() >= 3,
        outcome->indices@.len() == 3 * (winding.len() - 2),
        winding_in_range(winding) ==> forall|k: int|
            0 <= k < outcome->indices@.len() ==> #[trigger] outcome->indices@[k] < winding.len(),
{
    if winding_in_range(winding) {
        assert forall|k: int| 0 <= k < outcome->indices@.len() implies #[trigger] outcome->indices@[k]
            < winding.len() by {
            lemma_triangle_list_in_range(winding, k);
        }
    }
}

/// A face is drawn only if nothing forbids it: never with `headless`,
/// never with a hidden texture, never without its texture's size.
pub proof fn lemma_rendered_face_is_visible(
    outcome: FaceOutcome,
    winding: Seq<usize>,
    texture: Seq<char>,
    size: Option<(u32, u32)>,
    headless: bool,
)
    requires
        is_face_outcome(outcome, winding, texture, size, headless),
    ensures
        outcome is Rendered <==> winding.len() >= 3 && !headless && !is_hidden_texture(texture)
            && size is Some,
        outcome is Degenerate <==> winding.len() < 3,
        headless ==> !(outcome is MissingTexture),
{
}

/// Among the first `n` faces of a brush, at most `n` have three corners or
/// more.
pub proof fn lemma_proper_faces_bound(windings: Seq<Vec<usize>>, faces: Seq<usize>, n: nat)
    ensures
        proper_faces(windings, faces, n) <= n,
    decreases n,
{
    if n > 0 {
        lemma_proper_faces_bound(windings, faces, (n - 1) as nat);
    }
}

/// A brush of which no face has three corners has no proper face.
pub proof fn lemma_no_proper_faces(windings: Seq<Vec<usize>>, faces: Seq<usize>, n: nat)
    requires
        n <= faces.len(),
        forall|k: int| 0 <= k < faces.len() ==> (#[trigger] windings[faces[k] as int])@.len() < 3,
    ensures
        proper_faces(windings, faces, n) == 0,
    decreases n,
{
    if n > 0 {
        lemma_no_proper_faces(windings, faces, (n - 1) as nat);
    }
}

/// A brush with fewer than four faces, or of which no face has three
/// corners (as when its planes are parallel and meet nowhere), is
/// degenerate: it is left out, and exactly that is reported of it.
pub proof fn lemma_flat_brush_is_degenerate(
    outcome: BrushOutcome,
    asset: MapAsset,
    windings: Seq<Vec<usize>>,
    b: int,
    headless: bool,
)
    requires
        0 <= b < asset.layout.brush_faces@.len(),
        is_brush_outcome(outcome, asset, windings, b, headless),
        asset.layout.brush_faces@[b]@.len() < MIN_BRUSH_FACES || forall|k: int|
            0 <= k < asset.layout.brush_faces@[b]@.len() ==> (#[trigger] windings[asset.layout.brush_faces@[b]@[k] as int])@.len()
                < 3,
    ensures
        outcome is Degenerate,
        brush_diagnostics(outcome, b as usize, asset.layout.brush_faces@[b]@) == seq![
            Diagnostic::DegenerateBrush { brush: b as usize },
        ],
{
    let faces = asset.layout.brush_faces@[b]@;
    lemma_proper_faces_bound(windings, faces, faces.len());
    if faces.len() >= MIN_BRUSH_FACES {
        lemma_no_proper_faces(windings, faces, faces.len());
    }
}

proof fn lemma_proper_faces_local(
    windings: Seq<Vec<usize>>,
    others: Seq<Vec<usize>>,
    faces: Seq<usize>,
    n: nat,
)
    requires
        n <= faces.len(),
        forall|k: int|
            0 <= k < faces.len() ==> (#[trigger] windings[faces[k] as int])@ == others[faces[k] as int]@,
    ensures
        proper_faces(windings, faces, n) == proper_faces(others, faces, n),
    decreases n,
{
    if n > 0 {
        lemma_proper_faces_local(windings, others, faces, (n - 1) as nat);
        assert(windings[faces[n - 1] as int]@ == others[faces[n - 1] as int]@);
    }
}

/// What becomes of a brush depends on its own faces only: whatever is
/// wrong with the other brushes of a map, a brush whose faces are given
/// the same corners gets the same outcome.
pub proof fn lemma_brush_outcome_is_local(
    outcome: BrushOutcome,
    asset: MapAsset,
    windings: Seq<Vec<usize>>,
    others: Seq<Vec<usize>>,
    b: int,
    headless: bool,
)
    requires
        0 <= b < asset.layout.brush_faces@.len(),
        is_brush_outcome(outcome, asset, windings, b, headless),
        forall|k: int|
            0 <= k < asset.layout.brush_faces@[b]@.len() ==> (#[trigger] windings[asset.layout.brush_faces@[b]@[k] as int])@
                == others[asset.layout.brush_faces@[b]@[k] as int]@,
    ensures
        is_brush_outcome(outcome, asset, others, b, headless),
{
    let faces = asset.layout.brush_faces@[b]@;
    lemma_proper_faces_local(windings, others, faces, faces.len());
    if proper_faces(windings, faces, faces.len()) >= MIN_BRUSH_FACES {
        let outcomes = outcome->faces;
        assert forall|k: int| 0 <= k < faces.len() implies is_face_outcome(
            #[trigger] outcomes@[k],
            others[faces[k] as int]@,
            asset.layout.texture_of(faces[k] as int),
            lookup(asset.texture_sizes@, asset.layout.texture_of(faces[k] as int)),
            headless,
        ) by {
            assert(windings[faces[k] as int]@ == others[faces[k] as int]@);
        }
    }
}

} // verus!
