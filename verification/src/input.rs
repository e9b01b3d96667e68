//! The pointer as the simulation sees it: where it is, whether it is pressed,
//! and which material it places.
use crate::cells::CellType;
use vstd::prelude::*;

verus! {

/// The mathematical state of an [`InputTracker`].
pub struct Pointer {
    pub down: bool,
    pub x: i32,
    pub y: i32,
    pub selected_type: CellType,
}

/// Tracks the pointer between two ticks.
pub struct InputTracker {
    down: bool,
    x: i32,
    y: i32,
    selected_type: CellType,
}

impl View for InputTracker {
    type V = Pointer;

    closed spec fn view(&self) -> Pointer {
        Pointer { down: self.down, x: self.x, y: self.y, selected_type: self.selected_type }
    }
}

impl InputTracker {
    /// A released pointer at the origin that places Sand.
    pub fn new() -> (tracker: InputTracker)
        ensures
            tracker@ == (Pointer { down: false, x: 0, y: 0, selected_type: CellType::Sand }),
    {
        InputTracker { down: false, x: 0, y: 0, selected_type: CellType::Sand }
    }

    /// Records whether the pointer is pressed.
    pub fn update_down(&mut self, down: bool)
        ensures
            final(self)@ == (Pointer { down, ..old(self)@ }),
    {
        self.down = down;
    }

    /// Records the cell that the pointer is over.
    pub fn update_pos(&mut self, x: i32, y: i32)
        ensures
            final(self)@ == (Pointer { x, y, ..old(self)@ }),
    {
        self.x = x;
        self.y = y;
    }

    /// Records the material that the pointer places.
    pub fn update_selected_type(&mut self, cell_type: CellType)
        ensures
            final(self)@ == (Pointer { selected_type: cell_type, ..old(self)@ }),
    {
        self.selected_type = cell_type;
    }

    /// Whether the pointer is pressed.
    pub fn is_down(&self) -> (down: bool)
        ensures
            down == self@.down,
    {
        self.down
    }

    /// The cell that the pointer is over, while it is pressed.
    pub fn get_pos(&self) -> (pos: Option<(i32, i32)>)
        ensures
            pos == if self@.down {
                Some((self@.x, self@.y))
            } else {
                None
            },
    {
        match self.down {
            true => Some((self.x, self.y)),
            false => None,
        }
    }

    /// The material that the pointer places.
    pub fn get_selected_type(&self) -> (cell_type: CellType)
        ensures
            cell_type == self@.selected_type,
    {
        self.selected_type
    }
}

} // verus!
