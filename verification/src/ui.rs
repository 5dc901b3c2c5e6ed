//! What the engine asks the render backend to show on top of the scene.

use vstd::prelude::*;

verus! {

/// The point of a text that sits at its position.
#[derive(Clone, Copy, Debug, PartialEq, Eq, Structural)]
pub enum TextOrigin {
    Center,
    Left,
    Right,
}

/// A line of text on the screen.
#[derive(Clone, Debug)]
pub struct Text {
    pub content: String,
    pub position: [i32; 2],
    pub color: [i32; 4],
    pub origin: TextOrigin,
}

/// An element of the user interface.
#[derive(Clone, Debug)]
pub enum UIElement {
    Text(Text),
}

/// The elements that wait to be drawn in this frame.
pub struct UIRenderer {
    elements: Vec<UIElement>,
}

impl View for UIRenderer {
    type V = Seq<UIElement>;

    closed spec fn view(&self) -> Seq<UIElement> {
        self.elements@
    }
}

impl UIRenderer {
    pub fn new() -> (r: Self)
        ensures
            r@ == Seq::<UIElement>::empty(),
    {
        Self { elements: Vec::new() }
    }

    pub fn queue(&mut self, element: UIElement)
        ensures
            final(self)@ == old(self)@.push(element),
    {
        self.elements.push(element);
    }

    pub fn clear(&mut self)
        ensures
            final(self)@ == Seq::<UIElement>::empty(),
    {
        self.elements.clear();
    }

    /// The elements that wait, in the order in which they were queued.
    pub fn elements(&self) -> (r: &Vec<UIElement>)
        ensures
            r@ == self@,
    {
        &self.elements
    }
}

} // verus!
