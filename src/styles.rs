use vstd::prelude::*;
use crate::color::Color;

verus! {

/// The three colour slots that a style class may override.
#[derive(Clone, Copy, Debug, PartialEq, Eq, Structural)]
pub enum ColorProperty {
    Color,
    BackgroundColor,
    BorderColor,
}

/// A named bundle of optional colour overrides.
#[derive(Debug, Clone)]
pub struct CssClass {
    pub name: String,
    pub color: Option<Color>,
    pub background_color: Option<Color>,
    pub border_color: Option<Color>,
}

/// What a style class holds: its name as characters and its three slots.
pub struct CssClassView {
    pub name: Seq<char>,
    pub color: Option<Color>,
    pub background_color: Option<Color>,
    pub border_color: Option<Color>,
}

impl View for CssClass {
    type V = CssClassView;

    open spec fn view(&self) -> CssClassView {
        CssClassView {
            name: self.name@,
            color: self.color,
            background_color: self.background_color,
            border_color: self.border_color,
        }
    }
}

impl CssClassView {
    /// The override that the class holds for one slot.
    pub open spec fn slot(self, property: ColorProperty) -> Option<Color> {
        match property {
            ColorProperty::Color => self.color,
            ColorProperty::BackgroundColor => self.background_color,
            ColorProperty::BorderColor => self.border_color,
        }
    }
}

impl CssClass {
    /// A class with no overrides.
    pub fn new(name: String) -> (c: CssClass)
        ensures
            c@ == (CssClassView { name: name@, color: None, background_color: None, border_color: None }),
    {
        CssClass { name, color: None, background_color: None, border_color: None }
    }

    pub fn with_color(self, color: Color) -> (c: CssClass)
        ensures
            c@ == (CssClassView { color: Some(color), ..self@ }),
    {
        let mut c = self;
        c.color = Some(color);
        c
    }

    pub fn with_background_color(self, color: Color) -> (c: CssClass)
        ensures
            c@ == (CssClassView { background_color: Some(color), ..self@ }),
    {
        let mut c = self;
        c.background_color = Some(color);
        c
    }

    pub fn with_border_color(self, color: Color) -> (c: CssClass)
        ensures
            c@ == (CssClassView { border_color: Some(color), ..self@ }),
    {
        let mut c = self;
        c.border_color = Some(color);
        c
    }
}

} // verus!
