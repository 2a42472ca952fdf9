//! The lines by which a Forge Game Data file declares the properties of an
//! entity class: one line for a plain value, a bracketed list for flags and
//! choices.

use vstd::prelude::*;
use vstd::string::StringExecFns;
use crate::text::{decimal, push_decimal, push_signed_decimal, replace, replaced, signed_decimal, str_eq};

verus! {

/// `s` between double quotes.
pub open spec fn quoted(s: Seq<char>) -> Seq<char> {
    "\""@ + s + "\""@
}

/// Three texts with one space between neighbours.
pub open spec fn spaced(a: Seq<char>, b: Seq<char>, c: Seq<char>) -> Seq<char> {
    a + " "@ + b + " "@ + c
}

/// The line that declares one property: a tab, the key with its kind in
/// brackets, then title, default and description, separated by colons.
pub open spec fn property_line(
    name: Seq<char>,
    kind: Seq<char>,
    title: Seq<char>,
    default_text: Seq<char>,
    description: Seq<char>,
) -> Seq<char> {
    "\t"@ + name + "("@ + kind + ") : "@ + quoted(title) + " : "@ + default_text + " : "@ + quoted(
        description,
    )
}

/// The list of the two choices of a boolean property.
pub open spec fn bool_choices() -> Seq<char> {
    " =\n\t[\n\t\t0 : \"False\"\n\t\t1 : \"True\"\n\t]"@
}

/// The default value of a property, of one of the kinds that a schema can
/// declare directly.
pub enum PropertyValue {
    /// A signed whole number.
    Integer(i128),
    /// An unsigned whole number.
    Unsigned(u128),
    /// A number with a fraction, as the text that writes it.
    Float(String),
    /// A text.
    Text(String),
    /// A switch, offered as the choices `0` and `1`.
    Bool(bool),
    /// A colour, each channel from 0 to 255.
    Color { red: u8, green: u8, blue: u8 },
    /// Three angles in degrees, each as the text that writes it.
    Angles { pitch: String, yaw: String, roll: String },
}

impl PropertyValue {
    /// The declaration of a property with this default value.
    pub open spec fn fgd_text(self, field_name: Seq<char>, field_description: Seq<char>) -> Seq<
        char,
    > {
        match self {
            PropertyValue::Integer(value) => property_line(
                field_name,
                "integer"@,
                field_name,
                signed_decimal(value as int),
                field_description,
            ),
            PropertyValue::Unsigned(value) => property_line(
                field_name,
                "integer"@,
                field_name,
                decimal(value as nat),
                field_description,
            ),
            PropertyValue::Float(value) => property_line(
                field_name,
                "float"@,
                field_name,
                quoted(value@),
                field_description,
            ),
            PropertyValue::Text(value) => property_line(
                field_name,
                "string"@,
                field_name,
                quoted(value@),
                field_description,
            ),
            PropertyValue::Bool(value) => property_line(
                field_name,
                "choices"@,
                field_name,
                if value {
                    "1"@
                } else {
                    "0"@
                },
                field_description,
            ) + bool_choices(),
            PropertyValue::Color { red, green, blue } => property_line(
                field_name,
                "color"@,
                field_name,
                quoted(spaced(decimal(red as nat), decimal(green as nat), decimal(blue as nat))),
                field_description,
            ),
            PropertyValue::Angles { pitch, yaw, roll } => property_line(
                "angles"@,
                "string"@,
                "Angles (x y z)"@,
                quoted(spaced(pitch@, yaw@, roll@)),
                field_description,
            ),
        }
    }

    /// Writes the declaration of a property named `field_name` whose default
    /// is this value. Angles are always declared under the key `angles`.
    pub fn get_fgd_string(&self, field_name: &str, field_description: &str) -> (out: String)
        ensures
            out@ == self.fgd_text(field_name@, field_description@),
    {
        let mut default_text = String::new();
        match self {
            PropertyValue::Integer(value) => {
                push_signed_decimal(&mut default_text, *value);
                line(field_name, "integer", field_name, default_text.as_str(), field_description)
            },
            PropertyValue::Unsigned(value) => {
                push_decimal(&mut default_text, *value);
                line(field_name, "integer", field_name, default_text.as_str(), field_description)
            },
            PropertyValue::Float(value) => {
                push_quoted(&mut default_text, value.as_str());
                line(field_name, "float", field_name, default_text.as_str(), field_description)
            },
            PropertyValue::Text(value) => {
                push_quoted(&mut default_text, value.as_str());
                line(field_name, "string", field_name, default_text.as_str(), field_description)
            },
            PropertyValue::Bool(value) => {
                let digit = if *value {
                    "1"
                } else {
                    "0"
                };
                let mut out = line(field_name, "choices", field_name, digit, field_description);
                out.append(" =\n\t[\n\t\t0 : \"False\"\n\t\t1 : \"True\"\n\t]");
                out
            },
            PropertyValue::Color { red, green, blue } => {
                let mut channels = String::new();
                push_decimal(&mut channels, *red as u128);
                channels.append(" ");
                push_decimal(&mut channels, *green as u128);
                channels.append(" ");
                push_decimal(&mut channels, *blue as u128);
                push_quoted(&mut default_text, channels.as_str());
                line(field_name, "color", field_name, default_text.as_str(), field_description)
            },
            PropertyValue::Angles { pitch, yaw, roll } => {
                let mut angles = String::new();
                angles.append(pitch.as_str());
                angles.append(" ");
                angles.append(yaw.as_str());
                angles.append(" ");
                angles.append(roll.as_str());
                push_quoted(&mut default_text, angles.as_str());
                line("angles", "string", "Angles (x y z)", default_text.as_str(), field_description)
            },
        }
    }
}

/// Appends `s` between double quotes.
pub(crate) fn push_quoted(out: &mut String, s: &str)
    ensures
        final(out)@ == old(out)@ + quoted(s@),
{
    out.append("\"");
    out.append(s);
    out.append("\"");
    assert(final(out)@ =~= old(out)@ + quoted(s@));
}

fn line(name: &str, kind: &str, title: &str, default_text: &str, description: &str) -> (out: String)
    ensures
        out@ == property_line(name@, kind@, title@, default_text@, description@),
{
    let mut out = String::new();
    out.append("\t");
    out.append(name);
    out.append("(");
    out.append(kind);
    out.append(") : ");
    push_quoted(&mut out, title);
    out.append(" : ");
    out.append(default_text);
    out.append(" : ");
    push_quoted(&mut out, description);
    assert(out@ =~= property_line(name@, kind@, title@, default_text@, description@));
    out
}

/// The two kinds of property that are declared as a list of variants.
#[derive(Debug, PartialEq, Eq, Structural, Clone, Copy)]
pub enum PropertyType {
    /// Any number of the variants may be set; each owns one bit.
    Flags,
    /// Exactly one of the variants is chosen.
    Choices,
}

impl PropertyType {
    /// The word that names this kind in a declaration.
    pub open spec fn keyword(self) -> Seq<char> {
        match self {
            PropertyType::Flags => "flags"@,
            PropertyType::Choices => "choices"@,
        }
    }

    /// The kind that a word names, if it names one.
    pub open spec fn of_keyword(name: Seq<char>) -> Option<PropertyType> {
        if name == "flags"@ {
            Some(PropertyType::Flags)
        } else if name == "choices"@ {
            Some(PropertyType::Choices)
        } else {
            None
        }
    }

    /// Returns the word that names this kind in a declaration.
    pub fn name(&self) -> (word: &'static str)
        ensures
            word@ == self.keyword(),
    {
        match self {
            PropertyType::Flags => "flags",
            PropertyType::Choices => "choices",
        }
    }

    /// Reads a kind from its word; any other word gives `None`.
    pub fn from_name(name: &str) -> (kind: Option<PropertyType>)
        ensures
            kind == Self::of_keyword(name@),
    {
        if str_eq(name, "flags") {
            Some(PropertyType::Flags)
        } else if str_eq(name, "choices") {
            Some(PropertyType::Choices)
        } else {
            None
        }
    }
}

/// One variant of a flags or choices property.
pub struct PropertyVariant {
    /// The name shown for the variant.
    pub name: String,
    /// Whether the variant is set, or chosen, by default.
    pub selected_by_default: bool,
    /// The key written for a choice in place of its position.
    pub key_override: Option<String>,
}

/// The most variants that a flags property can have: each owns one bit of a
/// signed 32-bit number, and the sign bit is not used.
pub const MAX_FLAGS: usize = 31;

/// The value of the bit that the flag at position `i` owns.
pub open spec fn flag_bit(i: nat) -> nat
    decreases i,
{
    if i == 0 {
        1
    } else {
        2 * flag_bit((i - 1) as nat)
    }
}

/// The line of the flag at position `i`.
pub open spec fn flag_line(i: nat, variant: PropertyVariant) -> Seq<char> {
    "\t\t"@ + decimal(flag_bit(i)) + " : "@ + quoted(variant.name@) + " : "@ + (if variant.selected_by_default {
        "1"@
    } else {
        "0"@
    }) + "\n"@
}

/// The lines of the first `n` flags.
pub open spec fn flag_lines(variants: Seq<PropertyVariant>, n: nat) -> Seq<char>
    recommends
        n <= variants.len(),
    decreases n,
{
    if n == 0 {
        Seq::<char>::empty()
    } else {
        flag_lines(variants, (n - 1) as nat) + flag_line((n - 1) as nat, variants[n - 1])
    }
}

/// The key of the choice at position `i`: its override between quotes, or
/// else its position.
pub open spec fn choice_key(i: nat, variant: PropertyVariant) -> Seq<char> {
    match variant.key_override {
        Some(key) => quoted(key@),
        None => decimal(i),
    }
}

/// The line of the choice at position `i`.
pub open spec fn choice_line(i: nat, variant: PropertyVariant) -> Seq<char> {
    "\t\t"@ + choice_key(i, variant) + " : "@ + quoted(variant.name@) + "\n"@
}

/// The lines of the first `n` choices.
pub open spec fn choice_lines(variants: Seq<PropertyVariant>, n: nat) -> Seq<char>
    recommends
        n <= variants.len(),
    decreases n,
{
    if n == 0 {
        Seq::<char>::empty()
    } else {
        choice_lines(variants, (n - 1) as nat) + choice_line((n - 1) as nat, variants[n - 1])
    }
}

/// Whether `i` is the position of the first variant selected by default.
pub open spec fn is_default_choice(variants: Seq<PropertyVariant>, i: int) -> bool {
    &&& 0 <= i < variants.len()
    &&& variants[i].selected_by_default
    &&& forall|j: int| 0 <= j < i ==> !(#[trigger] variants[j]).selected_by_default
}

/// Whether some variant is selected by default.
pub open spec fn has_default(variants: Seq<PropertyVariant>) -> bool {
    exists|i: int| 0 <= i < variants.len() && (#[trigger] variants[i]).selected_by_default
}

/// The part of a flags declaration that follows the key and the kind.
pub open spec fn flags_body(variants: Seq<PropertyVariant>) -> Seq<char> {
    " =\n\t[\n"@ + flag_lines(variants, variants.len())
}

/// The part of a choices declaration that follows the key and the kind,
/// with `selected` the position of the default choice. Title and
/// description are left as the marks `:fieldname:` and `:description:`.
pub open spec fn choices_body(variants: Seq<PropertyVariant>, selected: int) -> Seq<char> {
    " : \":fieldname:\" : "@ + choice_key(selected as nat, variants[selected])
        + " : \":description:\" =\n\t[\n"@ + choice_lines(variants, variants.len())
}

/// Whether a property of kind `property_type` can be declared with these
/// variants: flags need a bit each, choices need a default.
pub open spec fn variants_fit(property_type: PropertyType, variants: Seq<PropertyVariant>) -> bool {
    match property_type {
        PropertyType::Flags => variants.len() <= MAX_FLAGS,
        PropertyType::Choices => has_default(variants),
    }
}

/// Whether `body` is the part of the declaration that follows the key and
/// the kind, for a property of kind `property_type` with these variants.
pub open spec fn is_variants_body(
    property_type: PropertyType,
    variants: Seq<PropertyVariant>,
    body: Seq<char>,
) -> bool {
    match property_type {
        PropertyType::Flags => body == flags_body(variants),
        PropertyType::Choices => exists|selected: int|
            is_default_choice(variants, selected) && body == choices_body(variants, selected),
    }
}

/// The first variant selected by default is the only default choice.
pub proof fn lemma_default_choice_unique(variants: Seq<PropertyVariant>, a: int, b: int)
    requires
        is_default_choice(variants, a),
        is_default_choice(variants, b),
    ensures
        a == b,
{
    if a < b {
        assert(!variants[a].selected_by_default);
    } else if b < a {
        assert(!variants[b].selected_by_default);
    }
}

fn find_default(variants: &Vec<PropertyVariant>) -> (found: Option<usize>)
    ensures
        match found {
            Some(i) => is_default_choice(variants@, i as int),
            None => !has_default(variants@),
        },
{
    let mut i: usize = 0;
    while i < variants.len()
        invariant
            i <= variants.len(),
            forall|j: int| 0 <= j < i ==> !(#[trigger] variants@[j]).selected_by_default,
        decreases variants.len() - i,
    {
        if variants[i].selected_by_default {
            return Some(i);
        }
        i += 1;
    }
    None
}

fn push_choice_key(out: &mut String, i: usize, variant: &PropertyVariant)
    ensures
        final(out)@ == old(out)@ + choice_key(i as nat, *variant),
{
    match &variant.key_override {
        Some(key) => push_quoted(out, key.as_str()),
        None => push_decimal(out, i as u128),
    }
}

fn flags_text(variants: &Vec<PropertyVariant>) -> (out: String)
    requires
        variants@.len() <= MAX_FLAGS,
    ensures
        out@ == flags_body(variants@),
{
    let mut out = String::new();
    out.append(" =\n\t[\n");
    let mut bit: u64 = 1;
    let mut i: usize = 0;
    proof {
        assert(out@ =~= " =\n\t[\n"@ + flag_lines(variants@, 0));
    }
    while i < variants.len()
        invariant
            i <= variants.len() <= MAX_FLAGS,
            bit == flag_bit(i as nat),
            out@ == " =\n\t[\n"@ + flag_lines(variants@, i as nat),
        decreases variants.len() - i,
    {
        let ghost before = out@;
        out.append("\t\t");
        push_decimal(&mut out, bit as u128);
        out.append(" : ");
        push_quoted(&mut out, variants[i].name.as_str());
        out.append(" : ");
        out.append(
            if variants[i].selected_by_default {
                "1"
            } else {
                "0"
            },
        );
        out.append("\n");
        proof {
            assert(out@ =~= before + flag_line(i as nat, variants@[i as int]));
            assert(out@ =~= " =\n\t[\n"@ + flag_lines(variants@, (i + 1) as nat));
            lemma_flag_bit_bound(i as nat);
        }
        bit = bit * 2;
        i += 1;
    }
    out
}

proof fn lemma_flag_bit_bound(i: nat)
    requires
        i < MAX_FLAGS,
    ensures
        flag_bit(i) <= 0x4000_0000,
{
    reveal_with_fuel(flag_bit, 32);
}

fn choices_text(variants: &Vec<PropertyVariant>, selected: usize) -> (out: String)
    requires
        selected < variants@.len(),
    ensures
        out@ == choices_body(variants@, selected as int),
{
    let mut out = String::new();
    out.append(" : \":fieldname:\" : ");
    push_choice_key(&mut out, selected, &variants[selected]);
    out.append(" : \":description:\" =\n\t[\n");
    let ghost head = out@;
    let mut i: usize = 0;
    proof {
        assert(out@ =~= head + choice_lines(variants@, 0));
    }
    while i < variants.len()
        invariant
            i <= variants.len(),
            out@ == head + choice_lines(variants@, i as nat),
        decreases variants.len() - i,
    {
        let ghost before = out@;
        out.append("\t\t");
        push_choice_key(&mut out, i, &variants[i]);
        out.append(" : ");
        push_quoted(&mut out, variants[i].name.as_str());
        out.append("\n");
        proof {
            assert(out@ =~= before + choice_line(i as nat, variants@[i as int]));
            assert(out@ =~= head + choice_lines(variants@, (i + 1) as nat));
        }
        i += 1;
    }
    proof {
        assert(head =~= " : \":fieldname:\" : "@ + choice_key(
            selected as nat,
            variants@[selected as int],
        ) + " : \":description:\" =\n\t[\n"@);
    }
    out
}

/// Writes the part of a flags or choices declaration that follows the key
/// and the kind: for flags, one line for each variant with its bit and
/// whether it is set by default; for choices, the key of the default choice
/// and one line for each variant. Gives `None` where the property cannot be
/// declared: more flags than there are bits, or choices without a default.
pub fn formatted_field_strings(property_type: PropertyType, variants: &Vec<PropertyVariant>) -> (out:
    Option<String>)
    ensures
        out.is_some() == variants_fit(property_type, variants@),
        out.is_some() ==> is_variants_body(property_type, variants@, out.unwrap()@),
{
    match property_type {
        PropertyType::Flags => {
            if variants.len() <= MAX_FLAGS {
                Some(flags_text(variants))
            } else {
                None
            }
        },
        PropertyType::Choices => {
            match find_default(variants) {
                Some(selected) => Some(choices_text(variants, selected)),
                None => None,
            }
        },
    }
}

/// The declaration of a flags or choices property before its marks are
/// filled in.
pub open spec fn variants_template(
    field_name: Seq<char>,
    property_type: Seq<char>,
    body: Seq<char>,
) -> Seq<char> {
    "\t"@ + field_name + "("@ + property_type + ")"@ + body + "\t]"@
}

/// The declaration of a flags or choices property: the template, with every
/// mark `:fieldname:` replaced by the key and then every mark
/// `:description:` replaced by the description.
pub open spec fn variants_text(
    field_name: Seq<char>,
    field_description: Seq<char>,
    property_type: Seq<char>,
    body: Seq<char>,
) -> Seq<char> {
    replaced(
        replaced(variants_template(field_name, property_type, body), ":fieldname:"@, field_name),
        ":description:"@,
        field_description,
    )
}

/// Writes the declaration of a flags or choices property named
/// `field_name`, from the word for its kind and the body that
/// `formatted_field_strings` wrote.
pub fn derived_fgd_string(
    field_name: &str,
    field_description: &str,
    property_type: &str,
    body: &str,
) -> (out: String)
    ensures
        out@ == variants_text(field_name@, field_description@, property_type@, body@),
{
    let mut template = String::new();
    template.append("\t");
    template.append(field_name);
    template.append("(");
    template.append(property_type);
    template.append(")");
    template.append(body);
    template.append("\t]");
    assert(template@ =~= variants_template(field_name@, property_type@, body@));
    let named = replace(template.as_str(), ":fieldname:", field_name);
    replace(named.as_str(), ":description:", field_description)
}

} // verus!
