//! Pure data shared with the display layer's table widget: the row
//! capability it reads and the plain records of its user interactions. The
//! widget's rendering, hit testing and scrolling live with the display
//! collaborator; the routing core never looks inside these values.

use vstd::prelude::*;

verus! {

/// Implemented by every row type a table can show: a pure projection from a
/// column name to the cell text.
pub trait TableRow {
    /// The cell text of this row under the named column.
    fn get_value(&self, field_name: &str) -> String;
}

/// What kind of column a table head describes.
#[derive(Debug, Clone, Copy, PartialEq, Eq, Structural)]
pub enum TableHeadType {
    /// An ordinary data column.
    Normal,
    /// A column showing the row index, starting from 1.
    Index,
}

/// The record of one row having been dragged to a new position.
#[derive(Debug, Clone, Copy, PartialEq, Eq, Structural)]
pub struct RowMovedData {
    /// The index of the row before the move.
    pub src_row_index: i32,
    /// The index of the row after the move.
    pub dst_row_index: i32,
}

/// The record of one column having been dragged to a new position.
#[derive(Debug, Clone, Copy, PartialEq)]
pub struct ColMovedData<'a> {
    /// The index of the column before the move.
    pub src_col_index: i32,
    /// The index of the column after the move.
    pub dst_col_index: i32,
    /// The name of the moved column.
    pub src_col_name: &'a str,
    /// The name of the column it now stands at.
    pub dst_col_name: &'a str,
}

/// The interaction state of a table, as the display layer reports it.
#[derive(Debug, Clone, Copy, PartialEq, Eq, Structural)]
pub enum Status {
    /// The table can be pressed.
    Active,
    /// The table can be pressed and is being hovered.
    Hovered,
    /// The table is being pressed.
    Pressed,
    /// The table cannot be pressed.
    Disabled,
}

} // verus!
