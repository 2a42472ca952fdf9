//! How a map is laid out: which entity owns which brushes, which brush is
//! bounded by which faces, and which texture each face shows. Entities,
//! brushes, faces and textures are numbered from 0 in the order in which
//! the map file first names them.

use vstd::prelude::*;
use crate::text::views;

verus! {

/// What an [`EntityLayout`] holds.
pub struct EntityLayoutView {
    /// The pairs of key and value, in the map's order.
    pub properties: Seq<(Seq<char>, Seq<char>)>,
    /// The numbers of the entity's brushes.
    pub brushes: Seq<usize>,
}

/// What a [`MapLayout`] holds.
pub struct MapLayoutView {
    /// The entities, by number.
    pub entities: Seq<EntityLayoutView>,
    /// For each brush, by number, the numbers of its faces.
    pub brush_faces: Seq<Seq<usize>>,
    /// For each face, by number, the number of its texture.
    pub face_textures: Seq<usize>,
    /// The names of the textures, by number.
    pub textures: Seq<Seq<char>>,
}

/// One entity of a map.
pub struct EntityLayout {
    /// The pairs of key and value that the map lists for the entity, in its
    /// order.
    pub properties: Vec<(String, String)>,
    /// The numbers of the entity's brushes; empty for a point entity.
    pub brushes: Vec<usize>,
}

/// The layout of a whole map.
pub struct MapLayout {
    /// The entities, by number.
    pub entities: Vec<EntityLayout>,
    /// For each brush, by number, the numbers of its faces.
    pub brush_faces: Vec<Vec<usize>>,
    /// For each face, by number, the number of its texture.
    pub face_textures: Vec<usize>,
    /// The names of the textures, by number.
    pub textures: Vec<String>,
}

impl View for EntityLayout {
    type V = EntityLayoutView;

    open spec fn view(&self) -> EntityLayoutView {
        EntityLayoutView {
            properties: Seq::new(
                self.properties@.len(),
                |i: int| (self.properties@[i].0@, self.properties@[i].1@),
            ),
            brushes: self.brushes@,
        }
    }
}

/// What each entity of a list holds.
pub open spec fn entity_views(entities: Seq<EntityLayout>) -> Seq<EntityLayoutView> {
    Seq::new(entities.len(), |e: int| entities[e]@)
}

/// What each list of a list of lists holds.
pub open spec fn list_views(lists: Seq<Vec<usize>>) -> Seq<Seq<usize>> {
    Seq::new(lists.len(), |b: int| lists[b]@)
}

impl View for MapLayout {
    type V = MapLayoutView;

    open spec fn view(&self) -> MapLayoutView {
        MapLayoutView {
            entities: entity_views(self.entities@),
            brush_faces: list_views(self.brush_faces@),
            face_textures: self.face_textures@,
            textures: views(self.textures@),
        }
    }
}

impl MapLayoutView {
    /// Whether every number names something that exists: each brush of an
    /// entity, each face of a brush, the texture of each face.
    pub open spec fn well_formed(self) -> bool {
        &&& forall|e: int, k: int|
            0 <= e < self.entities.len() && 0 <= k < self.entities[e].brushes.len()
                ==> #[trigger] self.entities[e].brushes[k] < self.brush_faces.len()
        &&& forall|b: int, k: int|
            0 <= b < self.brush_faces.len() && 0 <= k < self.brush_faces[b].len()
                ==> #[trigger] self.brush_faces[b][k] < self.face_textures.len()
        &&& forall|f: int|
            0 <= f < self.face_textures.len() ==> #[trigger] self.face_textures[f]
                < self.textures.len()
    }
}

impl MapLayout {
    /// Whether every brush named by entity `e` exists.
    pub open spec fn entity_in_range(self, e: int) -> bool {
        forall|k: int|
            0 <= k < self.entities@[e].brushes@.len() ==> #[trigger] self.entities@[e].brushes@[k]
                < self.brush_faces@.len()
    }

    /// Whether every face named by brush `b` exists.
    pub open spec fn brush_in_range(self, b: int) -> bool {
        forall|k: int|
            0 <= k < self.brush_faces@[b]@.len() ==> #[trigger] self.brush_faces@[b]@[k]
                < self.face_textures@.len()
    }

    /// Whether every number in the layout names something that exists.
    pub open spec fn well_formed(self) -> bool {
        &&& forall|e: int| 0 <= e < self.entities@.len() ==> #[trigger] self.entity_in_range(e)
        &&& forall|b: int| 0 <= b < self.brush_faces@.len() ==> #[trigger] self.brush_in_range(b)
        &&& forall|f: int|
            0 <= f < self.face_textures@.len() ==> #[trigger] self.face_textures@[f]
                < self.textures@.len()
    }

    /// A layout is well formed if what it holds is.
    pub proof fn lemma_well_formed_by_view(self)
        requires
            self@.well_formed(),
        ensures
            self.well_formed(),
    {
        let v = self@;
        assert(v.entities.len() == self.entities@.len());
        assert(v.brush_faces.len() == self.brush_faces@.len());
        assert(v.textures.len() == self.textures@.len());
        assert forall|e: int| 0 <= e < self.entities@.len() implies #[trigger] self.entity_in_range(
            e,
        ) by {
            assert(v.entities[e] == self.entities@[e]@);
            assert forall|k: int|
                0 <= k < self.entities@[e].brushes@.len() implies #[trigger] self.entities@[e].brushes@[k]
                < self.brush_faces@.len() by {
                assert(v.entities[e].brushes[k] < v.brush_faces.len());
            }
        }
        assert forall|b: int| 0 <= b < self.brush_faces@.len() implies #[trigger] self.brush_in_range(
            b,
        ) by {
            assert(v.brush_faces[b] == self.brush_faces@[b]@);
            assert forall|k: int|
                0 <= k < self.brush_faces@[b]@.len() implies #[trigger] self.brush_faces@[b]@[k]
                < self.face_textures@.len() by {
                assert(v.brush_faces[b][k] < v.face_textures.len());
            }
        }
        assert forall|f: int| 0 <= f < self.face_textures@.len() implies #[trigger] self.face_textures@[f]
            < self.textures@.len() by {
            assert(v.face_textures[f] < v.textures.len());
        }
    }

    /// The name of the texture that face `f` shows.
    pub open spec fn texture_of(self, f: int) -> Seq<char>
        recommends
            self.well_formed(),
            0 <= f < self.face_textures@.len(),
    {
        self.textures@[self.face_textures@[f] as int]@
    }

    /// Tells whether every number in the layout names something that
    /// exists.
    pub fn is_well_formed(&self) -> (yes: bool)
        ensures
            yes == self.well_formed(),
    {
        let mut e: usize = 0;
        while e < self.entities.len()
            invariant
                e <= self.entities.len(),
                forall|i: int| 0 <= i < e ==> #[trigger] self.entity_in_range(i),
            decreases self.entities.len() - e,
        {
            if !all_below(&self.entities[e].brushes, self.brush_faces.len()) {
                assert(!self.entity_in_range(e as int));
                return false;
            }
            assert(self.entity_in_range(e as int));
            e += 1;
        }
        let mut b: usize = 0;
        while b < self.brush_faces.len()
            invariant
                b <= self.brush_faces.len(),
                forall|i: int| 0 <= i < self.entities@.len() ==> #[trigger] self.entity_in_range(i),
                forall|i: int| 0 <= i < b ==> #[trigger] self.brush_in_range(i),
            decreases self.brush_faces.len() - b,
        {
            if !all_below(&self.brush_faces[b], self.face_textures.len()) {
                assert(!self.brush_in_range(b as int));
                return false;
            }
            assert(self.brush_in_range(b as int));
            b += 1;
        }
        all_below(&self.face_textures, self.textures.len())
    }
}

/// Whether every number of `numbers` is below `bound`.
pub open spec fn below(numbers: Seq<usize>, bound: int) -> bool {
    forall|k: int| 0 <= k < numbers.len() ==> #[trigger] numbers[k] < bound
}

fn all_below(numbers: &Vec<usize>, bound: usize) -> (yes: bool)
    ensures
        yes == below(numbers@, bound as int),
{
    let mut k: usize = 0;
    while k < numbers.len()
        invariant
            k <= numbers.len(),
            forall|j: int| 0 <= j < k ==> #[trigger] numbers@[j] < bound,
        decreases numbers.len() - k,
    {
        if numbers[k] >= bound {
            return false;
        }
        k += 1;
    }
    true
}

} // verus!
