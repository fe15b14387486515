use vstd::prelude::*;
use crate::color::Color;
use crate::styles::{ColorProperty, CssClass, CssClassView};
use crate::text::same_text;
use crate::parser::{bare_hex_color, parse_hex_color};
use crate::watcher::class_with_color;
use vstd::string::StringSliceAdditionalSpecFns;

verus! {

/// Why the style layer could not do its work.
#[derive(Debug, Clone)]
pub enum StyleError {
    CssParseError(String),
    ColorNotFound(String),
    DomAccessFailed,
}

/// The colour that `registry` gives `name` for one slot: none when the class
/// is unknown, else the class's own slot, with no fallback between slots.
pub open spec fn resolve(
    registry: Map<Seq<char>, CssClassView>,
    name: Seq<char>,
    property: ColorProperty,
) -> Option<Color> {
    if registry.contains_key(name) {
        registry[name].slot(property)
    } else {
        None
    }
}

/// Upserting replaces: right after `class` is upserted, every slot resolves
/// to what `class` itself holds, whatever the registry held for that name
/// before (a slot left empty resolves to none; nothing is merged).
pub proof fn lemma_upsert_replaces(
    registry: Map<Seq<char>, CssClassView>,
    class: CssClassView,
    property: ColorProperty,
)
    ensures
        resolve(registry.insert(class.name, class), class.name, property) == class.slot(property),
{
}

/// Upserting one class leaves every other name's resolution as it was.
pub proof fn lemma_upsert_keeps_others(
    registry: Map<Seq<char>, CssClassView>,
    class: CssClassView,
    name: Seq<char>,
    property: ColorProperty,
)
    requires
        name != class.name,
    ensures
        resolve(registry.insert(class.name, class), name, property) == resolve(registry, name, property),
{
}

/// The registry of style classes, at most one per name.
pub struct ClassMapper {
    classes: Vec<CssClass>,
}

impl ClassMapper {
    /// Well-formedness: no two classes share a name.
    pub closed spec fn wf(&self) -> bool {
        forall|i: int, j: int|
            0 <= i < self.classes.len() && 0 <= j < self.classes.len() && #[trigger] self.classes@[i].name@
                == #[trigger] self.classes@[j].name@ ==> i == j
    }

    spec fn holds(&self, name: Seq<char>) -> bool {
        exists|i: int| 0 <= i < self.classes.len() && #[trigger] self.classes@[i].name@ == name
    }

    spec fn index_of(&self, name: Seq<char>) -> int {
        choose|i: int| 0 <= i < self.classes.len() && #[trigger] self.classes@[i].name@ == name
    }

    /// The classes by name.
    pub closed spec fn view(&self) -> Map<Seq<char>, CssClassView> {
        Map::new(|n: Seq<char>| self.holds(n), |n: Seq<char>| self.classes@[self.index_of(n)]@)
    }

    proof fn lemma_entry(&self, i: int)
        requires
            self.wf(),
            0 <= i < self.classes.len(),
        ensures
            self@.contains_key(self.classes@[i].name@),
            self@[self.classes@[i].name@] == self.classes@[i]@,
    {
        let n = self.classes@[i].name@;
        assert(self.holds(n));
        let j = self.index_of(n);
        assert(self.classes@[j].name@ == n);
    }

    /// An empty registry.
    pub fn new() -> (m: ClassMapper)
        ensures
            m.wf(),
            m@ == Map::<Seq<char>, CssClassView>::empty(),
    {
        let m = ClassMapper { classes: Vec::new() };
        assert(m@ =~= Map::<Seq<char>, CssClassView>::empty());
        m
    }

    /// The position of the class called `name`, if there is one.
    fn find(&self, name: &str) -> (r: Option<usize>)
        ensures
            r matches Some(i) ==> i < self.classes@.len() && self.classes@[i as int].name@ == name@,
            r is None ==> !self.holds(name@),
    {
        let mut i: usize = 0;
        while i < self.classes.len()
            invariant
                i <= self.classes@.len(),
                forall|k: int| 0 <= k < i ==> #[trigger] self.classes@[k].name@ != name@,
            decreases self.classes@.len() - i,
        {
            if same_text(self.classes[i].name.as_str(), name) {
                return Some(i);
            }
            i = i + 1;
        }
        None
    }

    /// Inserts `class`, or replaces whole the class of the same name: slots
    /// that the new value leaves empty are not kept from the old one.
    pub fn add_class(&mut self, class: CssClass)
        requires
            old(self).wf(),
        ensures
            final(self).wf(),
            final(self)@ == old(self)@.insert(class@.name, class@),
    {
        let ghost before = *self;
        let ghost name = class@.name;
        let ghost cv = class@;
        let ghost mut pos: int = 0;
        match self.find(class.name.as_str()) {
            Some(i) => {
                self.classes.set(i, class);
                proof {
                    pos = i as int;
                    assert forall|a: int, b: int|
                        0 <= a < self.classes.len() && 0 <= b < self.classes.len()
                            && #[trigger] self.classes@[a].name@ == #[trigger] self.classes@[b].name@ implies a
                        == b by {
                        assert(before.classes@[a].name@ == self.classes@[a].name@);
                        assert(before.classes@[b].name@ == self.classes@[b].name@);
                    }
                }
            },
            None => {
                self.classes.push(class);
                proof {
                    pos = before.classes.len() as int;
                    let len = before.classes.len() as int;
                    assert forall|a: int, b: int|
                        0 <= a < self.classes.len() && 0 <= b < self.classes.len()
                            && #[trigger] self.classes@[a].name@ == #[trigger] self.classes@[b].name@ implies a
                        == b by {
                        if a < len && b == len {
                            assert(before.classes@[a].name@ == name);
                        }
                        if b < len && a == len {
                            assert(before.classes@[b].name@ == name);
                        }
                        if a < len && b < len {
                            assert(before.classes@[a] == self.classes@[a]);
                            assert(before.classes@[b] == self.classes@[b]);
                        }
                    }
                }
            },
        }
        proof {
            assert forall|n: Seq<char>| #[trigger] self@.contains_key(n) == before@.insert(
                name,
                cv,
            ).contains_key(n) && (self@.contains_key(n) ==> self@[n] == before@.insert(
                name,
                cv,
            )[n]) by {
                if n == name {
                    assert(self.classes@[pos]@ == cv);
                    self.lemma_entry(pos);
                } else {
                    if self.holds(n) {
                        let i = self.index_of(n);
                        self.lemma_entry(i);
                        assert(i != pos);
                        assert(before.classes@[i] == self.classes@[i]);
                        before.lemma_entry(i);
                    }
                    if before.holds(n) {
                        let i = before.index_of(n);
                        before.lemma_entry(i);
                        assert(i != pos);
                        assert(before.classes@[i] == self.classes@[i]);
                        self.lemma_entry(i);
                    }
                }
            }
            assert(self@ =~= before@.insert(name, cv));
        }
    }

    /// Reading class definitions from the document's style sheets is not
    /// supported: the registry is left as it is and no error is raised.
    pub fn load_from_dom(&mut self) -> (r: Result<(), StyleError>)
        requires
            old(self).wf(),
        ensures
            final(self).wf(),
            final(self)@ == old(self)@,
            r is Ok,
    {
        Ok(())
    }

    /// The class called `class_name`, if the registry holds one.
    pub fn get_class(&self, class_name: &str) -> (r: Option<&CssClass>)
        requires
            self.wf(),
        ensures
            r is Some <==> self@.contains_key(class_name@),
            r matches Some(c) ==> c@ == self@[class_name@],
    {
        match self.find(class_name) {
            Some(i) => {
                proof {
                    self.lemma_entry(i as int);
                }
                Some(&self.classes[i])
            },
            None => None,
        }
    }

    /// The override that the class called `class_name` holds for `property`.
    pub fn get_color_for_class(&self, class_name: &str, property: ColorProperty) -> (r: Option<
        Color,
    >)
        requires
            self.wf(),
        ensures
            r == resolve(self@, class_name@, property),
    {
        match self.get_class(class_name) {
            Some(class) => match property {
                ColorProperty::Color => class.color,
                ColorProperty::BackgroundColor => class.background_color,
                ColorProperty::BorderColor => class.border_color,
            },
            None => None,
        }
    }
}

/// `registry` after the class `name` takes the colour written by `text` as
/// bare hex (see `bare_hex_color`); text that does not parse changes nothing.
pub open spec fn with_hex_color(
    registry: Map<Seq<char>, CssClassView>,
    name: Seq<char>,
    text: Seq<u8>,
) -> Map<Seq<char>, CssClassView> {
    match bare_hex_color(text) {
        Some(c) => registry.insert(name, class_with_color(name, c)),
        None => registry,
    }
}

fn install_hex_color(registry: &mut ClassMapper, name: &str, text: &str)
    requires
        old(registry).wf(),
    ensures
        final(registry).wf(),
        final(registry)@ == with_hex_color(old(registry)@, name@, text.spec_bytes()),
{
    broadcast use vstd::string::to_string_from_display_ensures_for_str;

    if let Some(color) = parse_hex_color(text) {
        registry.add_class(CssClass::new(name.to_string()).with_color(color));
    }
}

/// Installs the three button colours given as hex text, in order; a colour
/// that does not parse leaves its class as it was.
pub fn update_css_colors(registry: &mut ClassMapper, primary: &str, secondary: &str, accent: &str)
    requires
        old(registry).wf(),
    ensures
        final(registry).wf(),
        final(registry)@ == with_hex_color(
            with_hex_color(
                with_hex_color(old(registry)@, "primary-button"@, primary.spec_bytes()),
                "secondary-button"@,
                secondary.spec_bytes(),
            ),
            "accent-button"@,
            accent.spec_bytes(),
        ),
{
    install_hex_color(registry, "primary-button", primary);
    install_hex_color(registry, "secondary-button", secondary);
    install_hex_color(registry, "accent-button", accent);
}

} // verus!
