use vstd::prelude::*;

use crate::model::Color;

verus! {

/// Which screen the editor shows.
#[derive(Debug, Clone, Copy, PartialEq, Eq, Structural)]
pub enum Screen {
    Welcome,
    Editor,
}

/// The painting tools.
#[derive(Debug, Clone, Copy, PartialEq, Eq, Structural)]
pub enum Tool {
    Pencil,
    Eraser,
    Eyedropper,
    Fill,
    Selection,
    Stamp,
    Text,
    Line,
    Rectangle,
}

/// What the tool does, for the status line.
pub open spec fn tool_description(tool: Tool) -> Seq<char> {
    match tool {
        Tool::Pencil => "Paint selected character and style"@,
        Tool::Eraser => "Clear cells to transparent"@,
        Tool::Eyedropper => "Pick character and style from a cell"@,
        Tool::Fill => "Flood-fill matching neighboring cells"@,
        Tool::Selection => "Drag, move, copy, cut, or stamp a region"@,
        Tool::Stamp => "Paste the current stamp"@,
        Tool::Text => "Place a typed string on the canvas"@,
        Tool::Line => "Drag to draw a straight line"@,
        Tool::Rectangle => "Drag to draw a rectangle outline"@,
    }
}

/// The tool's name on its button.
pub open spec fn tool_label(tool: Tool) -> Seq<char> {
    match tool {
        Tool::Pencil => "Pencil"@,
        Tool::Eraser => "Eraser"@,
        Tool::Eyedropper => "Eyedropper"@,
        Tool::Fill => "Fill"@,
        Tool::Selection => "Select"@,
        Tool::Stamp => "Stamp"@,
        Tool::Text => "Text"@,
        Tool::Line => "Line"@,
        Tool::Rectangle => "Rect"@,
    }
}

impl Tool {
    /// The tool's name on its button.
    pub fn label(self) -> (r: &'static str)
        ensures
            r@ == tool_label(self),
    {
        match self {
            Tool::Pencil => "Pencil",
            Tool::Eraser => "Eraser",
            Tool::Eyedropper => "Eyedropper",
            Tool::Fill => "Fill",
            Tool::Selection => "Select",
            Tool::Stamp => "Stamp",
            Tool::Text => "Text",
            Tool::Line => "Line",
            Tool::Rectangle => "Rect",
        }
    }

    /// The letter the tool menu shows beside the tool.
    pub fn shortcut(self) -> (r: &'static str)
        ensures
            r@ == match self {
                Tool::Pencil => "P"@,
                Tool::Eraser => "E"@,
                Tool::Eyedropper => "I"@,
                Tool::Fill => "F"@,
                Tool::Selection => "V"@,
                Tool::Stamp => "S"@,
                Tool::Text => "T"@,
                Tool::Line => "L"@,
                Tool::Rectangle => "H"@,
            },
    {
        match self {
            Tool::Pencil => "P",
            Tool::Eraser => "E",
            Tool::Eyedropper => "I",
            Tool::Fill => "F",
            Tool::Selection => "V",
            Tool::Stamp => "S",
            Tool::Text => "T",
            Tool::Line => "L",
            Tool::Rectangle => "H",
        }
    }

    /// The tool's name in lower case.
    pub fn lower_label(self) -> (r: &'static str)
        ensures
            r@ == match self {
                Tool::Pencil => "pencil"@,
                Tool::Eraser => "eraser"@,
                Tool::Eyedropper => "eyedropper"@,
                Tool::Fill => "fill"@,
                Tool::Selection => "select"@,
                Tool::Stamp => "stamp"@,
                Tool::Text => "text"@,
                Tool::Line => "line"@,
                Tool::Rectangle => "rect"@,
            },
    {
        match self {
            Tool::Pencil => "pencil",
            Tool::Eraser => "eraser",
            Tool::Eyedropper => "eyedropper",
            Tool::Fill => "fill",
            Tool::Selection => "select",
            Tool::Stamp => "stamp",
            Tool::Text => "text",
            Tool::Line => "line",
            Tool::Rectangle => "rect",
        }
    }

    /// What the tool does, for the status line.
    pub fn description(self) -> (r: &'static str)
        ensures
            r@ == tool_description(self),
            r@ == match self {
                Tool::Pencil => "Paint selected character and style"@,
                Tool::Eraser => "Clear cells to transparent"@,
                Tool::Eyedropper => "Pick character and style from a cell"@,
                Tool::Fill => "Flood-fill matching neighboring cells"@,
                Tool::Selection => "Drag, move, copy, cut, or stamp a region"@,
                Tool::Stamp => "Paste the current stamp"@,
                Tool::Text => "Place a typed string on the canvas"@,
                Tool::Line => "Drag to draw a straight line"@,
                Tool::Rectangle => "Drag to draw a rectangle outline"@,
            },
    {
        match self {
            Tool::Pencil => "Paint selected character and style",
            Tool::Eraser => "Clear cells to transparent",
            Tool::Eyedropper => "Pick character and style from a cell",
            Tool::Fill => "Flood-fill matching neighboring cells",
            Tool::Selection => "Drag, move, copy, cut, or stamp a region",
            Tool::Stamp => "Paste the current stamp",
            Tool::Text => "Place a typed string on the canvas",
            Tool::Line => "Drag to draw a straight line",
            Tool::Rectangle => "Drag to draw a rectangle outline",
        }
    }
}

/// The tools in menu order.
pub open spec fn tool_choices_seq() -> Seq<Tool> {
    seq![
        Tool::Pencil,
        Tool::Eraser,
        Tool::Eyedropper,
        Tool::Fill,
        Tool::Selection,
        Tool::Stamp,
        Tool::Text,
        Tool::Line,
        Tool::Rectangle,
    ]
}

/// The tools in menu order.
pub fn tool_choices() -> (r: Vec<Tool>)
    ensures
        r@ == tool_choices_seq(),
{
    let mut v = Vec::new();
    v.push(Tool::Pencil);
    v.push(Tool::Eraser);
    v.push(Tool::Eyedropper);
    v.push(Tool::Fill);
    v.push(Tool::Selection);
    v.push(Tool::Stamp);
    v.push(Tool::Text);
    v.push(Tool::Line);
    v.push(Tool::Rectangle);
    v
}

/// The buttons of the top bar.
#[derive(Debug, Clone, Copy, PartialEq, Eq, Structural)]
pub enum TopAction {
    PreviousFrame,
    NextFrame,
    DuplicateFrame,
    BlankFrame,
    ToggleOnionSkin,
    Save,
    SaveAs,
    ExportText,
    Quit,
}

impl TopAction {
    /// The button's caption.
    pub fn label(self) -> (r: &'static str)
        ensures
            r@ == match self {
                TopAction::PreviousFrame => "Prev"@,
                TopAction::NextFrame => "Next"@,
                TopAction::DuplicateFrame => "Dup"@,
                TopAction::BlankFrame => "Blank"@,
                TopAction::ToggleOnionSkin => "Onion"@,
                TopAction::Save => "Save"@,
                TopAction::SaveAs => "Save As"@,
                TopAction::ExportText => "Export"@,
                TopAction::Quit => "Quit"@,
            },
    {
        match self {
            TopAction::PreviousFrame => "Prev",
            TopAction::NextFrame => "Next",
            TopAction::DuplicateFrame => "Dup",
            TopAction::BlankFrame => "Blank",
            TopAction::ToggleOnionSkin => "Onion",
            TopAction::Save => "Save",
            TopAction::SaveAs => "Save As",
            TopAction::ExportText => "Export",
            TopAction::Quit => "Quit",
        }
    }
}

/// The top-bar buttons in order.
pub fn top_actions() -> (r: Vec<TopAction>)
    ensures
        r@ == seq![
            TopAction::PreviousFrame,
            TopAction::NextFrame,
            TopAction::DuplicateFrame,
            TopAction::BlankFrame,
            TopAction::ToggleOnionSkin,
            TopAction::Save,
            TopAction::SaveAs,
            TopAction::ExportText,
            TopAction::Quit,
        ],
{
    let mut v = Vec::new();
    v.push(TopAction::PreviousFrame);
    v.push(TopAction::NextFrame);
    v.push(TopAction::DuplicateFrame);
    v.push(TopAction::BlankFrame);
    v.push(TopAction::ToggleOnionSkin);
    v.push(TopAction::Save);
    v.push(TopAction::SaveAs);
    v.push(TopAction::ExportText);
    v.push(TopAction::Quit);
    v
}

/// The buttons of the welcome screen.
#[derive(Debug, Clone, Copy, PartialEq, Eq, Structural)]
pub enum WelcomeAction {
    NewImage,
    NewAnimation,
    OpenFile,
    Quit,
}

impl WelcomeAction {
    /// The button's caption.
    pub fn label(self) -> (r: &'static str)
        ensures
            r@ == match self {
                WelcomeAction::NewImage => "New Image"@,
                WelcomeAction::NewAnimation => "New Animation"@,
                WelcomeAction::OpenFile => "Open File"@,
                WelcomeAction::Quit => "Quit"@,
            },
    {
        match self {
            WelcomeAction::NewImage => "New Image",
            WelcomeAction::NewAnimation => "New Animation",
            WelcomeAction::OpenFile => "Open File",
            WelcomeAction::Quit => "Quit",
        }
    }
}

/// The welcome-screen buttons in order.
pub fn welcome_actions() -> (r: Vec<WelcomeAction>)
    ensures
        r@ == seq![WelcomeAction::NewImage, WelcomeAction::NewAnimation, WelcomeAction::OpenFile, WelcomeAction::Quit],
{
    let mut v = Vec::new();
    v.push(WelcomeAction::NewImage);
    v.push(WelcomeAction::NewAnimation);
    v.push(WelcomeAction::OpenFile);
    v.push(WelcomeAction::Quit);
    v
}

/// The buttons a dialog can show.
#[derive(Debug, Clone, Copy, PartialEq, Eq, Structural)]
pub enum ModalAction {
    Confirm,
    Cancel,
    RgbInput,
    ExportText,
    ExportAnsi,
    SaveAndQuit,
    Discard,
}

impl ModalAction {
    /// The button's caption.
    pub fn label(self) -> (r: &'static str)
        ensures
            r@ == match self {
                ModalAction::Confirm => "OK"@,
                ModalAction::Cancel => "Cancel"@,
                ModalAction::RgbInput => "RGB"@,
                ModalAction::ExportText => "Text"@,
                ModalAction::ExportAnsi => "ANSI"@,
                ModalAction::SaveAndQuit => "Save"@,
                ModalAction::Discard => "Discard"@,
            },
    {
        match self {
            ModalAction::Confirm => "OK",
            ModalAction::Cancel => "Cancel",
            ModalAction::RgbInput => "RGB",
            ModalAction::ExportText => "Text",
            ModalAction::ExportAnsi => "ANSI",
            ModalAction::SaveAndQuit => "Save",
            ModalAction::Discard => "Discard",
        }
    }
}

/// A channel of an RGB color.
#[derive(Debug, Clone, Copy, PartialEq, Eq, Structural)]
pub enum RgbChannel {
    Red,
    Green,
    Blue,
}

/// The value of `channel` in `color`.
pub open spec fn channel_value(channel: RgbChannel, color: Color) -> u8 {
    match channel {
        RgbChannel::Red => color.r,
        RgbChannel::Green => color.g,
        RgbChannel::Blue => color.b,
    }
}

/// `color` with `channel` set to `value`.
pub open spec fn with_channel(channel: RgbChannel, color: Color, value: u8) -> Color {
    match channel {
        RgbChannel::Red => Color { r: value, ..color },
        RgbChannel::Green => Color { g: value, ..color },
        RgbChannel::Blue => Color { b: value, ..color },
    }
}

impl RgbChannel {
    /// The channel's one-letter caption.
    pub fn short_label(self) -> (r: &'static str)
        ensures
            r@ == match self {
                RgbChannel::Red => "R"@,
                RgbChannel::Green => "G"@,
                RgbChannel::Blue => "B"@,
            },
    {
        match self {
            RgbChannel::Red => "R",
            RgbChannel::Green => "G",
            RgbChannel::Blue => "B",
        }
    }

    /// The value of this channel in `color`.
    pub fn value(self, color: Color) -> (r: u8)
        ensures
            r == channel_value(self, color),
    {
        match self {
            RgbChannel::Red => color.r,
            RgbChannel::Green => color.g,
            RgbChannel::Blue => color.b,
        }
    }

    /// Sets this channel of `color` to `value`.
    pub fn set_value(self, color: &mut Color, value: u8)
        ensures
            *final(color) == with_channel(self, *old(color), value),
    {
        match self {
            RgbChannel::Red => color.r = value,
            RgbChannel::Green => color.g = value,
            RgbChannel::Blue => color.b = value,
        }
    }
}

/// The channels in slider order.
pub fn rgb_channels() -> (r: Vec<RgbChannel>)
    ensures
        r@ == seq![RgbChannel::Red, RgbChannel::Green, RgbChannel::Blue],
{
    let mut v = Vec::new();
    v.push(RgbChannel::Red);
    v.push(RgbChannel::Green);
    v.push(RgbChannel::Blue);
    v
}

/// A control of the RGB dialog: step a channel down, drag its slider, or
/// step it up.
#[derive(Debug, Clone, Copy, PartialEq, Eq, Structural)]
pub enum RgbControl {
    Decrement(RgbChannel),
    Slider(RgbChannel),
    Increment(RgbChannel),
}

/// Which color of the current style palette picks edit.
#[derive(Debug, Clone, Copy, PartialEq, Eq, Structural)]
pub enum ColorTarget {
    Foreground,
    Background,
}

impl ColorTarget {
    /// The target's caption.
    pub fn label(self) -> (r: &'static str)
        ensures
            r@ == match self {
                ColorTarget::Foreground => "Foreground"@,
                ColorTarget::Background => "Background"@,
            },
    {
        match self {
            ColorTarget::Foreground => "Foreground",
            ColorTarget::Background => "Background",
        }
    }

    /// The target's caption in lower case.
    pub fn lower_label(self) -> (r: &'static str)
        ensures
            r@ == match self {
                ColorTarget::Foreground => "foreground"@,
                ColorTarget::Background => "background"@,
            },
    {
        match self {
            ColorTarget::Foreground => "foreground",
            ColorTarget::Background => "background",
        }
    }
}

/// A sidebar color control: choose the target, or clear the background.
#[derive(Debug, Clone, Copy, PartialEq, Eq, Structural)]
pub enum ColorControl {
    Target(ColorTarget),
    TransparentBackground,
}

/// The sidebar buttons that act on the selection.
#[derive(Debug, Clone, Copy, PartialEq, Eq, Structural)]
pub enum SelectionAction {
    Copy,
    Cut,
    Delete,
    Stamp,
    Clear,
}

impl SelectionAction {
    /// The button's caption.
    pub fn label(self) -> (r: &'static str)
        ensures
            r@ == match self {
                SelectionAction::Copy => "Copy"@,
                SelectionAction::Cut => "Cut"@,
                SelectionAction::Delete => "Delete"@,
                SelectionAction::Stamp => "Stamp"@,
                SelectionAction::Clear => "Clear"@,
            },
    {
        match self {
            SelectionAction::Copy => "Copy",
            SelectionAction::Cut => "Cut",
            SelectionAction::Delete => "Delete",
            SelectionAction::Stamp => "Stamp",
            SelectionAction::Clear => "Clear",
        }
    }
}

/// The palette item under the mouse.
#[derive(Debug, Clone, Copy, PartialEq, Eq, Structural)]
pub enum PaletteHover {
    Color(usize),
    Character(usize),
}

} // verus!
