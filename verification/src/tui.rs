//! A terminal user interface on top of the world: colours, keys, shapes and
//! widgets, drawn as escape sequences into an output buffer.

pub mod app;
pub mod colour;
pub mod events;
pub mod input;
pub mod msg;
pub mod runloop;
pub mod shapes;
pub mod terminal;
pub mod text_style;
pub mod widgets;

pub use app::{App, TuiPlugin};
pub use colour::Colour;
pub use input::{Key, ModifierKeys, ScrollDirection};
pub use msg::{tui_msg_handler, TuiMsg};
pub use runloop::TuiRunloop;
pub use shapes::{Border, BorderStyle, RawString, Rect};
pub use terminal::Terminal;
pub use widgets::{Button, ButtonState, Checkbox, Frame, HAlign, Text, TextInput, VAlign};
pub use text_style::{TextStyle, TextStyleFlags};
