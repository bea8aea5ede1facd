//! Reusable components of the player's e-ink user interface: buttons,
//! labels and icons. Each says what it draws as a list of shapes in
//! display coordinates, for a drawing backend to paint in that order.
pub mod draw;
pub mod icon;
pub mod label;
pub mod button;
