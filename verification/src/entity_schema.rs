//! The declaration of an entity class in a Forge Game Data file, built from
//! what an annotated structure says of itself.

use vstd::prelude::*;
use vstd::string::StringExecFns;
use crate::entity_type::QevyEntityType;
use crate::property_schema::{push_quoted, quoted, spaced};
use crate::text::{decimal, join, joined, push_decimal, str_eq, trim, trimmed, views};

verus! {

/// Why an annotated structure cannot be declared as an entity class.
#[derive(Debug, PartialEq, Eq, Structural, Clone, Copy)]
pub enum SchemaError {
    /// The annotation names a class other than `Base`, `Solid` or `Point`.
    InvalidEntityType,
    /// A field is marked as a base class with an empty name.
    EmptyBaseClassName,
}

/// The model that an editor shows for a point entity.
pub struct ModelAttribute {
    /// Where the model file lies.
    pub path: String,
    /// The frame to show; 0 if not given.
    pub frame: Option<u32>,
    /// The skin to show; 0 if not given.
    pub skin: Option<u32>,
    /// The scale to show it at; 32 if not given.
    pub scale: Option<u32>,
}

/// One field of an annotated structure.
pub struct EntityField {
    /// The field's name, which is the property's key.
    pub name: String,
    /// The field's documentation, which is the property's description.
    pub comment: String,
    /// The base class that the field stands for, if it stands for one; such
    /// a field is inherited, not declared as a property.
    pub base_class: Option<String>,
}

/// What a Forge Game Data file says of one entity class, but for the lines
/// of its properties.
pub struct EntityDeclaration {
    /// Base, solid or point class.
    pub entity_type: QevyEntityType,
    /// The class name that maps use.
    pub name: String,
    /// The text shown for the class in an editor.
    pub description: String,
    /// The model shown for the class, if any.
    pub model: Option<ModelAttribute>,
    /// The bounding box: how far it reaches below the origin in x, y and z,
    /// then how far above.
    pub size: Option<(u32, u32, u32, u32, u32, u32)>,
    /// The colour of the bounding box: red, green, blue.
    pub color: Option<(u32, u32, u32)>,
    /// The structure's fields, in the order of their declaration.
    pub fields: Vec<EntityField>,
}

/// The `model(..)` clause of a declaration, empty without a model.
pub open spec fn model_text(model: Option<ModelAttribute>) -> Seq<char> {
    match model {
        Some(m) => "model({\n\t\"path\" : "@ + quoted(m.path@) + ",\n\t\"frame\" : "@ + decimal(
            m.frame.unwrap_or(0) as nat,
        ) + ",\n\t\"skin\" : "@ + decimal(m.skin.unwrap_or(0) as nat) + ",\n\t\"scale\" : "@
            + decimal(m.scale.unwrap_or(32) as nat) + "\n})"@,
        None => Seq::<char>::empty(),
    }
}

/// The `size(..)` clause of a declaration, empty without a size. The first
/// three numbers are written with a minus sign before them.
pub open spec fn size_text(size: Option<(u32, u32, u32, u32, u32, u32)>) -> Seq<char> {
    match size {
        Some(s) => "size(-"@ + decimal(s.0 as nat) + " -"@ + decimal(s.1 as nat) + " -"@
            + decimal(s.2 as nat) + ", "@ + spaced(
            decimal(s.3 as nat),
            decimal(s.4 as nat),
            decimal(s.5 as nat),
        ) + ")"@,
        None => Seq::<char>::empty(),
    }
}

/// The `color(..)` clause of a declaration, empty without a colour.
pub open spec fn color_text(color: Option<(u32, u32, u32)>) -> Seq<char> {
    match color {
        Some(c) => "color("@ + spaced(decimal(c.0 as nat), decimal(c.1 as nat), decimal(c.2 as nat))
            + ")"@,
        None => Seq::<char>::empty(),
    }
}

/// The base classes that the first `n` fields stand for, in order.
pub open spec fn base_class_names(fields: Seq<EntityField>, n: nat) -> Seq<Seq<char>>
    recommends
        n <= fields.len(),
    decreases n,
{
    if n == 0 {
        Seq::<Seq<char>>::empty()
    } else {
        let before = base_class_names(fields, (n - 1) as nat);
        match fields[n - 1].base_class {
            Some(base) => before.push(base@),
            None => before,
        }
    }
}

/// Whether the field at position `i` is declared as a property: it is, unless
/// it stands for a base class.
pub open spec fn is_property_position(fields: Seq<EntityField>, i: int) -> bool {
    0 <= i < fields.len() && fields[i].base_class.is_none()
}

/// The positions, among the first `n` fields, of those that are declared as
/// properties, in order.
pub open spec fn property_positions(fields: Seq<EntityField>, n: nat) -> Seq<usize>
    recommends
        n <= fields.len(),
    decreases n,
{
    if n == 0 {
        Seq::<usize>::empty()
    } else {
        let before = property_positions(fields, (n - 1) as nat);
        if is_property_position(fields, n - 1) {
            before.push((n - 1) as usize)
        } else {
            before
        }
    }
}

/// Whether `i` is the position of the first field named `name`.
pub open spec fn is_field_position(fields: Seq<EntityField>, name: Seq<char>, i: int) -> bool {
    &&& 0 <= i < fields.len()
    &&& fields[i].name@ == name
    &&& forall|j: int| 0 <= j < i ==> (#[trigger] fields[j]).name@ != name
}

/// Whether some field is named `name`.
pub open spec fn has_field(fields: Seq<EntityField>, name: Seq<char>) -> bool {
    exists|i: int| 0 <= i < fields.len() && (#[trigger] fields[i]).name@ == name
}

/// The `base(..)` clause of a declaration: the base classes separated by a
/// comma and a space, or nothing where that list is empty.
pub open spec fn base_class_text(names: Seq<Seq<char>>) -> Seq<char> {
    let list = joined(names, ", "@);
    if list.len() == 0 {
        Seq::<char>::empty()
    } else {
        "base("@ + list + ")"@
    }
}

/// Whether some field is marked as a base class with an empty name.
pub open spec fn has_empty_base_class(fields: Seq<EntityField>) -> bool {
    exists|i: int|
        0 <= i < fields.len() && (#[trigger] fields[i]).base_class.is_some()
            && fields[i].base_class.unwrap()@.len() == 0
}

/// The documentation of an item: its lines, each without the white space
/// around it, one below the other.
pub open spec fn comment_text(docs: Seq<Seq<char>>) -> Seq<char> {
    joined(Seq::new(docs.len(), |i: int| trimmed(docs[i])), "\n"@)
}

/// Joins the lines of an item's documentation, trimming each.
pub fn get_comments(docs: &Vec<String>) -> (out: String)
    ensures
        out@ == comment_text(views(docs@)),
{
    let mut lines: Vec<String> = Vec::new();
    let mut i: usize = 0;
    while i < docs.len()
        invariant
            i <= docs.len(),
            lines@.len() == i,
            forall|j: int| 0 <= j < i ==> (#[trigger] lines@[j])@ == trimmed(docs@[j]@),
        decreases docs.len() - i,
    {
        lines.push(String::from_str(trim(docs[i].as_str())));
        i += 1;
    }
    proof {
        assert(views(lines@) =~= Seq::new(
            views(docs@).len(),
            |i: int| trimmed(views(docs@)[i]),
        ));
    }
    join(&lines, "\n")
}

impl EntityDeclaration {
    /// The declaration without the lines of its properties, which stand
    /// between the brackets one below the other.
    pub open spec fn export_text(self, property_lines: Seq<Seq<char>>) -> Seq<char> {
        self.entity_type.fgd_keyword() + " "@ + base_class_text(
            base_class_names(self.fields@, self.fields@.len()),
        ) + " "@ + size_text(self.size) + " "@ + color_text(self.color) + " "@ + model_text(
            self.model,
        ) + " = "@ + self.name@ + " : "@ + quoted(self.description@) + " [\n"@ + joined(
            property_lines,
            "\n"@,
        ) + "\n]\n"@
    }

    /// Builds a declaration from what the annotations of a structure give:
    /// the short name of the class, the class name if one is given, else the
    /// structure's own name, and the rest as it stands. Fails on an unknown
    /// class, and otherwise on a base class with an empty name.
    pub fn new(
        entity_type: &str,
        entity_name: Option<String>,
        struct_name: String,
        description: String,
        model: Option<ModelAttribute>,
        size: Option<(u32, u32, u32, u32, u32, u32)>,
        color: Option<(u32, u32, u32)>,
        fields: Vec<EntityField>,
    ) -> (made: Result<EntityDeclaration, SchemaError>)
        ensures
            QevyEntityType::of_short_name(entity_type@).is_none() ==> made == Err::<
                EntityDeclaration,
                SchemaError,
            >(SchemaError::InvalidEntityType),
            QevyEntityType::of_short_name(entity_type@).is_some() && has_empty_base_class(fields@)
                ==> made == Err::<EntityDeclaration, SchemaError>(SchemaError::EmptyBaseClassName),
            QevyEntityType::of_short_name(entity_type@).is_some() && !has_empty_base_class(fields@)
                ==> made == Ok::<EntityDeclaration, SchemaError>(
                (EntityDeclaration {
                    entity_type: QevyEntityType::of_short_name(entity_type@).unwrap(),
                    name: entity_name.unwrap_or(struct_name),
                    description,
                    model,
                    size,
                    color,
                    fields,
                }),
            ),
    {
        let class = match QevyEntityType::from_short_string(entity_type) {
            Some(class) => class,
            None => {
                return Err(SchemaError::InvalidEntityType);
            },
        };
        let mut i: usize = 0;
        while i < fields.len()
            invariant
                i <= fields.len(),
                QevyEntityType::of_short_name(entity_type@) == Some(class),
                forall|j: int|
                    0 <= j < i ==> !((#[trigger] fields@[j]).base_class.is_some()
                        && fields@[j].base_class.unwrap()@.len() == 0),
            decreases fields.len() - i,
        {
            match &fields[i].base_class {
                Some(base) => {
                    if base.as_str().is_empty() {
                        return Err(SchemaError::EmptyBaseClassName);
                    }
                },
                None => {},
            }
            i += 1;
        }
        let name = match entity_name {
            Some(name) => name,
            None => struct_name,
        };
        Ok(EntityDeclaration { entity_type: class, name, description, model, size, color, fields })
    }

    /// Tells whether the field at `position` is declared as a property, with
    /// a line of its own between the brackets: every field is, but those
    /// that stand for a base class, which are named in the `base(..)`
    /// clause instead.
    pub fn is_property_field(&self, position: usize) -> (yes: bool)
        ensures
            yes == is_property_position(self.fields@, position as int),
    {
        position < self.fields.len() && self.fields[position].base_class.is_none()
    }

    /// Lists the positions of the fields that are declared as properties,
    /// in the order of their declaration: a declaration has one line for
    /// each of them, in this order.
    pub fn property_fields(&self) -> (positions: Vec<usize>)
        ensures
            positions@ == property_positions(self.fields@, self.fields@.len()),
    {
        let mut positions: Vec<usize> = Vec::new();
        let mut i: usize = 0;
        while i < self.fields.len()
            invariant
                i <= self.fields.len(),
                positions@ == property_positions(self.fields@, i as nat),
            decreases self.fields.len() - i,
        {
            if self.is_property_field(i) {
                positions.push(i);
            }
            i += 1;
        }
        positions
    }

    /// Finds the first field named `name`: its comment describes the
    /// property of that name, unless the field stands for a base class.
    pub fn find_field(&self, name: &str) -> (position: Option<usize>)
        ensures
            match position {
                Some(i) => is_field_position(self.fields@, name@, i as int),
                None => !has_field(self.fields@, name@),
            },
    {
        let mut i: usize = 0;
        while i < self.fields.len()
            invariant
                i <= self.fields.len(),
                forall|j: int| 0 <= j < i ==> (#[trigger] self.fields@[j]).name@ != name@,
            decreases self.fields.len() - i,
        {
            if str_eq(self.fields[i].name.as_str(), name) {
                return Some(i);
            }
            i += 1;
        }
        None
    }

    /// Writes the declaration, with `property_lines` between its brackets.
    pub fn get_export_string(&self, property_lines: &Vec<String>) -> (out: String)
        ensures
            out@ == self.export_text(views(property_lines@)),
    {
        let mut out = String::from_str(self.entity_type.to_fgd_string());
        out.append(" ");
        push_base_classes(&mut out, &self.fields);
        out.append(" ");
        push_size(&mut out, &self.size);
        out.append(" ");
        push_color(&mut out, &self.color);
        out.append(" ");
        push_model(&mut out, &self.model);
        out.append(" = ");
        out.append(self.name.as_str());
        out.append(" : ");
        push_quoted(&mut out, self.description.as_str());
        out.append(" [\n");
        let lines = join(property_lines, "\n");
        out.append(lines.as_str());
        out.append("\n]\n");
        assert(out@ =~= self.export_text(views(property_lines@)));
        out
    }
}

fn push_base_classes(out: &mut String, fields: &Vec<EntityField>)
    ensures
        final(out)@ == old(out)@ + base_class_text(base_class_names(fields@, fields@.len())),
{
    let mut names: Vec<String> = Vec::new();
    let mut i: usize = 0;
    while i < fields.len()
        invariant
            i <= fields.len(),
            views(names@) == base_class_names(fields@, i as nat),
        decreases fields.len() - i,
    {
        let ghost before = views(names@);
        match &fields[i].base_class {
            Some(base) => {
                names.push(base.clone());
                assert(views(names@) =~= before.push(base@));
            },
            None => {},
        }
        i += 1;
    }
    let list = join(&names, ", ");
    if !list.as_str().is_empty() {
        out.append("base(");
        out.append(list.as_str());
        out.append(")");
    }
    assert(final(out)@ =~= old(out)@ + base_class_text(base_class_names(fields@, fields@.len())));
}

fn push_size(out: &mut String, size: &Option<(u32, u32, u32, u32, u32, u32)>)
    ensures
        final(out)@ == old(out)@ + size_text(*size),
{
    match size {
        Some(s) => {
            out.append("size(-");
            push_decimal(out, s.0 as u128);
            out.append(" -");
            push_decimal(out, s.1 as u128);
            out.append(" -");
            push_decimal(out, s.2 as u128);
            out.append(", ");
            push_decimal(out, s.3 as u128);
            out.append(" ");
            push_decimal(out, s.4 as u128);
            out.append(" ");
            push_decimal(out, s.5 as u128);
            out.append(")");
        },
        None => {},
    }
    assert(final(out)@ =~= old(out)@ + size_text(*size));
}

fn push_color(out: &mut String, color: &Option<(u32, u32, u32)>)
    ensures
        final(out)@ == old(out)@ + color_text(*color),
{
    match color {
        Some(c) => {
            out.append("color(");
            push_decimal(out, c.0 as u128);
            out.append(" ");
            push_decimal(out, c.1 as u128);
            out.append(" ");
            push_decimal(out, c.2 as u128);
            out.append(")");
        },
        None => {},
    }
    assert(final(out)@ =~= old(out)@ + color_text(*color));
}

fn number_or(value: &Option<u32>, fallback: u32) -> (n: u32)
    ensures
        n == value.unwrap_or(fallback),
{
    match value {
        Some(n) => *n,
        None => fallback,
    }
}

fn push_model(out: &mut String, model: &Option<ModelAttribute>)
    ensures
        final(out)@ == old(out)@ + model_text(*model),
{
    match model {
        Some(m) => {
            out.append("model({\n\t\"path\" : ");
            push_quoted(out, m.path.as_str());
            out.append(",\n\t\"frame\" : ");
            push_decimal(out, number_or(&m.frame, 0) as u128);
            out.append(",\n\t\"skin\" : ");
            push_decimal(out, number_or(&m.skin, 0) as u128);
            out.append(",\n\t\"scale\" : ");
            push_decimal(out, number_or(&m.scale, 32) as u128);
            out.append("\n})");
        },
        None => {},
    }
    assert(final(out)@ =~= old(out)@ + model_text(*model));
}

} // verus!
