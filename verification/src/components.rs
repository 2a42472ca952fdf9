//! What a map says of one entity: its class name and its properties, and
//! the values that are read out of them.

use vstd::prelude::*;
use vstd::string::StringExecFns;
use crate::string_map::{lookup, map_of, StringMap};
use crate::text::{parse_i32, parsed_i32, split, split_on, str_eq, trim, trimmed, views};

verus! {

/// Marks a volume that reports, once, who entered it.
pub struct TriggerOnce {
    /// The name of the entities that the report goes to.
    pub target: String,
}

/// Marks a volume that reports, each time, who is inside it.
pub struct TriggerMultiple {
    /// The name of the entities that the report goes to.
    pub target: String,
}

/// Marks an entity that reports can be sent to.
pub struct TriggerTarget {
    /// The name under which the entity is reached.
    pub target_name: String,
}

/// Marks a mover that opens like a door.
pub struct Door {
    /// The key needed to open the door, if one is needed.
    pub key: Option<String>,
    /// Whether the door, once open, stays open.
    pub open_once: bool,
}

/// What becomes of the collider of a brush, by the class of its entity.
pub enum ColliderRole {
    /// A sensor that reports whenever something is inside it.
    TriggerMultiple(TriggerMultiple),
    /// A sensor that reports the first entry only.
    TriggerOnce(TriggerOnce),
    /// Solid, unmoving geometry.
    Static,
}

/// The classes of point entity that the importer itself gives a meaning.
#[derive(Debug, PartialEq, Eq, Structural, Clone, Copy)]
pub enum EntityRole {
    /// Class `light`: a point light.
    Light,
    /// Class `directional_light`: a light from one direction.
    DirectionalLight,
    /// Class `mover`: geometry that travels between two places.
    Mover,
    /// Any other class: left to the game.
    Other,
}

/// The role that a class name stands for.
pub open spec fn role_of(classname: Seq<char>) -> EntityRole {
    if classname == "light"@ {
        EntityRole::Light
    } else if classname == "directional_light"@ {
        EntityRole::DirectionalLight
    } else if classname == "mover"@ {
        EntityRole::Mover
    } else {
        EntityRole::Other
    }
}

/// The three parts of a text that holds exactly two spaces; `None` for a
/// text with fewer or more.
pub open spec fn triple_of(value: Seq<char>) -> Option<(Seq<char>, Seq<char>, Seq<char>)> {
    let pieces = split_on(value, ' ');
    if pieces.len() == 3 {
        Some((pieces[0], pieces[1], pieces[2]))
    } else {
        None
    }
}

/// Whether `found` holds the three parts that `expected` names.
pub open spec fn is_triple(
    found: Option<(String, String, String)>,
    expected: Option<(Seq<char>, Seq<char>, Seq<char>)>,
) -> bool {
    match (found, expected) {
        (Some(f), Some(e)) => f.0@ == e.0 && f.1@ == e.1 && f.2@ == e.2,
        (None, None) => true,
        _ => false,
    }
}

/// Splits a text at its spaces, if that gives exactly three parts.
pub fn triple(value: &str) -> (parts: Option<(String, String, String)>)
    ensures
        is_triple(parts, triple_of(value@)),
{
    let pieces = split(value, ' ');
    if pieces.len() == 3 {
        proof {
            assert(views(pieces@)[0] == pieces@[0]@);
            assert(views(pieces@)[1] == pieces@[1]@);
            assert(views(pieces@)[2] == pieces@[2]@);
        }
        Some((pieces[0].clone(), pieces[1].clone(), pieces[2].clone()))
    } else {
        None
    }
}

/// The class name and the properties of one entity of a map.
pub struct MapEntityProperties {
    /// The value of the property `classname`, empty if there is none.
    pub classname: String,
    /// All properties, `classname` among them.
    pub properties: StringMap<String>,
}

impl MapEntityProperties {
    /// The value of the property `key` as text, if the entity has it.
    pub open spec fn text_of(self, key: Seq<char>) -> Option<Seq<char>> {
        match lookup(self.properties@, key) {
            Some(value) => Some(value@),
            None => None,
        }
    }

    /// The value of the property `key` as a 32-bit integer, if the entity
    /// has the property and its value writes one.
    pub open spec fn number_of(self, key: Seq<char>) -> Option<i32> {
        match self.text_of(key) {
            Some(value) => parsed_i32(value),
            None => None,
        }
    }

    /// The three parts of the property `key`, or of `"0 0 0"` where the
    /// entity has no such property.
    pub open spec fn placement_of(self, key: Seq<char>) -> Option<
        (Seq<char>, Seq<char>, Seq<char>),
    > {
        match self.text_of(key) {
            Some(value) => triple_of(value),
            None => triple_of("0 0 0"@),
        }
    }

    /// Collects the properties of an entity from the pairs of key and value
    /// that the map lists for it. Of two pairs with one key the later one
    /// counts.
    pub fn from_pairs(pairs: &Vec<(String, String)>) -> (made: MapEntityProperties)
        ensures
            made.properties@ == map_of(pairs@),
            made.classname@ == match lookup(map_of(pairs@), "classname"@) {
                Some(name) => name@,
                None => Seq::<char>::empty(),
            },
    {
        let mut properties: StringMap<String> = StringMap::new();
        let mut i: usize = 0;
        while i < pairs.len()
            invariant
                i <= pairs.len(),
                properties@ == map_of(pairs@.take(i as int)),
            decreases pairs.len() - i,
        {
            properties.insert(pairs[i].0.clone(), pairs[i].1.clone());
            proof {
                assert(pairs@.take(i + 1).drop_last() =~= pairs@.take(i as int));
                assert(pairs@.take(i + 1).last() == pairs@[i as int]);
            }
            i += 1;
        }
        proof {
            assert(pairs@.take(pairs.len() as int) =~= pairs@);
        }
        let classname = match properties.get("classname") {
            Some(name) => name.clone(),
            None => String::new(),
        };
        MapEntityProperties { classname, properties }
    }

    /// Returns the value of the property `key`, or else `default`.
    pub fn get_property_as_string(&self, key: &str, default: Option<&String>) -> (value: Option<
        String,
    >)
        ensures
            value == match lookup(self.properties@, key@) {
                Some(found) => Some(found),
                None => match default {
                    Some(text) => Some(*text),
                    None => None,
                },
            },
    {
        match self.properties.get(key) {
            Some(found) => Some(found.clone()),
            None => match default {
                Some(text) => Some(text.clone()),
                None => None,
            },
        }
    }

    /// Returns the value of the property `key` as a 32-bit integer, or
    /// `default` where the entity has no such property or its value writes
    /// no such number.
    pub fn get_property_as_i32(&self, key: &str, default: i32) -> (value: i32)
        ensures
            value == match self.number_of(key@) {
                Some(number) => number,
                None => default,
            },
    {
        match self.properties.get(key) {
            Some(found) => match parse_i32(found.as_str()) {
                Some(number) => number,
                None => default,
            },
            None => default,
        }
    }

    /// Returns whether the property `key` is the number 1, or `default`
    /// where the entity has no such property or its value writes no
    /// 32-bit integer.
    pub fn get_property_as_bool(&self, key: &str, default: bool) -> (value: bool)
        ensures
            value == match self.number_of(key@) {
                Some(number) => number == 1,
                None => default,
            },
    {
        match self.properties.get(key) {
            Some(found) => match parse_i32(found.as_str()) {
                Some(number) => number == 1,
                None => default,
            },
            None => default,
        }
    }

    /// Returns the three parts of the property `key`, read without the
    /// white space around the value: the components of a colour or of a
    /// vector. `None` where the entity has no such property, or its value
    /// has not exactly three parts.
    pub fn get_property_components(&self, key: &str) -> (parts: Option<(String, String, String)>)
        ensures
            is_triple(
                parts,
                match self.text_of(key@) {
                    Some(value) => triple_of(trimmed(value)),
                    None => None,
                },
            ),
    {
        match self.properties.get(key) {
            Some(found) => triple(trim(found.as_str())),
            None => None,
        }
    }

    /// Returns the three parts of the property `key`, which places the
    /// entity (`origin`) or turns it (`angles`); an entity without the
    /// property is placed by `"0 0 0"`. `None` where the value has not
    /// exactly three parts: the entity then stays at the origin, unturned.
    pub fn placement_components(&self, key: &str) -> (parts: Option<(String, String, String)>)
        ensures
            is_triple(parts, self.placement_of(key@)),
    {
        match self.properties.get(key) {
            Some(found) => triple(found.as_str()),
            None => triple("0 0 0"),
        }
    }

    /// Returns the name under which reports reach the entity: its property
    /// `targetname`, if it has one.
    pub fn trigger_target(&self) -> (target: Option<TriggerTarget>)
        ensures
            target == match lookup(self.properties@, "targetname"@) {
                Some(name) => Some(TriggerTarget { target_name: name }),
                None => None,
            },
    {
        match self.properties.get("targetname") {
            Some(name) => Some(TriggerTarget { target_name: name.clone() }),
            None => None,
        }
    }

    /// Returns the role that the entity's class name stands for.
    pub fn role(&self) -> (role: EntityRole)
        ensures
            role == role_of(self.classname@),
    {
        let name = self.classname.as_str();
        if str_eq(name, "light") {
            EntityRole::Light
        } else if str_eq(name, "directional_light") {
            EntityRole::DirectionalLight
        } else if str_eq(name, "mover") {
            EntityRole::Mover
        } else {
            EntityRole::Other
        }
    }

    /// The door that a mover is, if its property `mover_kind` says `door`:
    /// with the key named by the property `key`, and staying open if the
    /// property `open_once` is 1.
    pub open spec fn door_of(self) -> Option<Door> {
        if self.text_of("mover_kind"@) == Some("door"@) {
            Some(
                Door {
                    key: lookup(self.properties@, "key"@),
                    open_once: self.number_of("open_once"@) == Some(1i32),
                },
            )
        } else {
            None
        }
    }

    /// Returns the door that a mover is, if it is one.
    pub fn door(&self) -> (door: Option<Door>)
        ensures
            door == self.door_of(),
    {
        match self.properties.get("mover_kind") {
            Some(kind) => {
                if str_eq(kind.as_str(), "door") {
                    Some(
                        Door {
                            key: self.get_property_as_string("key", None),
                            open_once: self.get_property_as_bool("open_once", false),
                        },
                    )
                } else {
                    None
                }
            },
            None => None,
        }
    }

    /// What becomes of the colliders of the entity's brushes: a sensor for
    /// the classes `trigger_multiple` and `trigger_once`, which report to
    /// the entities named by the property `target`, and solid geometry for
    /// every other class. `None` for a trigger without a target.
    pub open spec fn collider_role_of(self) -> Option<ColliderRole> {
        if self.classname@ == "trigger_multiple"@ {
            match lookup(self.properties@, "target"@) {
                Some(target) => Some(ColliderRole::TriggerMultiple(TriggerMultiple { target })),
                None => None,
            }
        } else if self.classname@ == "trigger_once"@ {
            match lookup(self.properties@, "target"@) {
                Some(target) => Some(ColliderRole::TriggerOnce(TriggerOnce { target })),
                None => None,
            }
        } else {
            Some(ColliderRole::Static)
        }
    }

    /// Returns what becomes of the colliders of the entity's brushes.
    pub fn collider_role(&self) -> (role: Option<ColliderRole>)
        ensures
            role == self.collider_role_of(),
    {
        let name = self.classname.as_str();
        if str_eq(name, "trigger_multiple") {
            match self.properties.get("target") {
                Some(target) => Some(
                    ColliderRole::TriggerMultiple(TriggerMultiple { target: target.clone() }),
                ),
                None => None,
            }
        } else if str_eq(name, "trigger_once") {
            match self.properties.get("target") {
                Some(target) => Some(
                    ColliderRole::TriggerOnce(TriggerOnce { target: target.clone() }),
                ),
                None => None,
            }
        } else {
            Some(ColliderRole::Static)
        }
    }
}

} // verus!
