//! The Forge Game Data file of a game: the declarations of its entity
//! classes, base classes first, in the order in which they were
//! registered.

use vstd::prelude::*;
use vstd::string::StringExecFns;

verus! {

/// The name of the file that the declarations are written to, unless the
/// host names another.
pub open spec fn default_save_path_text() -> Seq<char> {
    "game_entities.fgd"@
}

/// Returns the name of the file that the declarations are written to,
/// unless the host names another.
pub fn default_save_path() -> (path: &'static str)
    ensures
        path@ == default_save_path_text(),
{
    "game_entities.fgd"
}

/// The declaration of the world itself, which every file starts with.
pub open spec fn world_declaration() -> Seq<char> {
    "@SolidClass = worldspawn : \"World Entity\" []\n\n"@
}

/// The first `n` declarations of `classes`, each followed by a line break.
pub open spec fn declarations(classes: Seq<(String, String)>, n: nat) -> Seq<char>
    recommends
        n <= classes.len(),
    decreases n,
{
    if n == 0 {
        Seq::<char>::empty()
    } else {
        declarations(classes, (n - 1) as nat) + classes[n - 1].1@ + "\n"@
    }
}

/// The entity classes of a game, each with its name and its declaration.
pub struct QevyRegistry {
    /// The classes placed in maps, in the order of their registration.
    pub qevy_entities: Vec<(String, String)>,
    /// The classes that others inherit from, in the order of their
    /// registration.
    pub base_classes: Vec<(String, String)>,
}

impl QevyRegistry {
    /// The text of the file: the world's declaration, then the base
    /// classes, then the other classes.
    pub open spec fn config_text(self) -> Seq<char> {
        world_declaration() + declarations(self.base_classes@, self.base_classes@.len())
            + declarations(self.qevy_entities@, self.qevy_entities@.len())
    }

    /// Makes a registry without classes.
    pub fn new() -> (registry: QevyRegistry)
        ensures
            registry.qevy_entities@.len() == 0,
            registry.base_classes@.len() == 0,
    {
        QevyRegistry { qevy_entities: Vec::new(), base_classes: Vec::new() }
    }

    /// Registers a class that others inherit from, after those registered
    /// before.
    pub fn register_qevy_base_class(&mut self, name: String, declaration: String)
        ensures
            final(self).base_classes@ == old(self).base_classes@.push((name, declaration)),
            final(self).qevy_entities@ == old(self).qevy_entities@,
    {
        self.base_classes.push((name, declaration));
    }

    /// Registers a class that is placed in maps, after those registered
    /// before.
    pub fn register_qevy_entity(&mut self, name: String, declaration: String)
        ensures
            final(self).qevy_entities@ == old(self).qevy_entities@.push((name, declaration)),
            final(self).base_classes@ == old(self).base_classes@,
    {
        self.qevy_entities.push((name, declaration));
    }

    /// Writes the text of the file.
    pub fn create_config(&self) -> (text: String)
        ensures
            text@ == self.config_text(),
    {
        let mut text = String::from_str("@SolidClass = worldspawn : \"World Entity\" []\n\n");
        push_declarations(&mut text, &self.base_classes);
        push_declarations(&mut text, &self.qevy_entities);
        assert(text@ =~= self.config_text());
        text
    }
}

fn push_declarations(out: &mut String, classes: &Vec<(String, String)>)
    ensures
        final(out)@ == old(out)@ + declarations(classes@, classes@.len()),
{
    let mut i: usize = 0;
    assert(out@ =~= old(out)@ + declarations(classes@, 0));
    while i < classes.len()
        invariant
            i <= classes.len(),
            out@ == old(out)@ + declarations(classes@, i as nat),
        decreases classes.len() - i,
    {
        out.append(classes[i].1.as_str());
        out.append("\n");
        assert(out@ =~= old(out)@ + declarations(classes@, (i + 1) as nat));
        i += 1;
    }
}

/// Registering a class adds its declaration at the end of its group and
/// leaves every other declaration where it was.
pub proof fn lemma_declarations_push(classes: Seq<(String, String)>, class: (String, String))
    ensures
        declarations(classes.push(class), classes.len() + 1) == declarations(
            classes,
            classes.len(),
        ) + class.1@ + "\n"@,
{
    lemma_declarations_prefix(classes, classes.push(class), classes.len());
}

proof fn lemma_declarations_prefix(
    shorter: Seq<(String, String)>,
    longer: Seq<(String, String)>,
    n: nat,
)
    requires
        n <= shorter.len() <= longer.len(),
        forall|j: int| 0 <= j < shorter.len() ==> shorter[j] == longer[j],
    ensures
        declarations(shorter, n) == declarations(longer, n),
    decreases n,
{
    if n > 0 {
        lemma_declarations_prefix(shorter, longer, (n - 1) as nat);
    }
}

} // verus!
