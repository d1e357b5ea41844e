//! The editor's view of interface components: icons, inspector entries and
//! canvas fields.

use vstd::prelude::*;

use crate::scalar::{Scalar, ONE_BITS};
use crate::ui::heal::{Length, RootGeometry};

verus! {

/// What a widget is.
#[derive(Clone, Copy, Debug, PartialEq, Eq, Structural)]
pub enum UiWidgetType {
    Container,
    Panel,
    ScrollView,
    Text,
    Image,
    Button,
    Slider,
    Checkbox,
    Toggle,
    RadioButton,
    Dropdown,
    TextInput,
    BarFill,
    Tooltip,
    Modal,
    DraggableWindow,
    KeybindRow,
    SettingsRow,
    Separator,
    NumberInput,
    Scrollbar,
    Circle,
    Arc,
    RadialProgress,
    Line,
    Triangle,
    Polygon,
    Rectangle,
    Wedge,
}

/// The name of a widget's icon.
pub open spec fn icon_of(widget: UiWidgetType) -> Seq<char> {
    match widget {
        UiWidgetType::Container => "squares-four"@,
        UiWidgetType::Panel => "rectangle"@,
        UiWidgetType::ScrollView => "scroll"@,
        UiWidgetType::Text => "text-aa"@,
        UiWidgetType::Image => "image"@,
        UiWidgetType::Button => "cursor-click"@,
        UiWidgetType::Slider => "sliders-horizontal"@,
        UiWidgetType::Checkbox => "check-square"@,
        UiWidgetType::Toggle => "toggle-right"@,
        UiWidgetType::RadioButton => "radio-button"@,
        UiWidgetType::Dropdown => "caret-circle-down"@,
        UiWidgetType::TextInput => "text-t"@,
        UiWidgetType::BarFill => "battery-medium"@,
        UiWidgetType::Tooltip => "chat-circle-text"@,
        UiWidgetType::Modal => "browsers"@,
        UiWidgetType::DraggableWindow => "app-window"@,
        UiWidgetType::KeybindRow => "keyboard"@,
        UiWidgetType::SettingsRow => "gear"@,
        UiWidgetType::Separator => "minus"@,
        UiWidgetType::NumberInput => "calculator"@,
        UiWidgetType::Scrollbar => "arrows-down-up"@,
        UiWidgetType::Circle => "circle"@,
        UiWidgetType::Arc => "circle-dashed"@,
        UiWidgetType::RadialProgress => "circle-notch"@,
        UiWidgetType::Line => "line-segment"@,
        UiWidgetType::Triangle => "triangle"@,
        UiWidgetType::Polygon => "hexagon"@,
        UiWidgetType::Rectangle => "rectangle"@,
        UiWidgetType::Wedge => "chart-pie-slice"@,
    }
}

/// The name of a widget's icon.
pub fn widget_icon(widget: &UiWidgetType) -> (r: &'static str)
    ensures
        r@ == icon_of(*widget),
{
    match widget {
        UiWidgetType::Container => "squares-four",
        UiWidgetType::Panel => "rectangle",
        UiWidgetType::ScrollView => "scroll",
        UiWidgetType::Text => "text-aa",
        UiWidgetType::Image => "image",
        UiWidgetType::Button => "cursor-click",
        UiWidgetType::Slider => "sliders-horizontal",
        UiWidgetType::Checkbox => "check-square",
        UiWidgetType::Toggle => "toggle-right",
        UiWidgetType::RadioButton => "radio-button",
        UiWidgetType::Dropdown => "caret-circle-down",
        UiWidgetType::TextInput => "text-t",
        UiWidgetType::BarFill => "battery-medium",
        UiWidgetType::Tooltip => "chat-circle-text",
        UiWidgetType::Modal => "browsers",
        UiWidgetType::DraggableWindow => "app-window",
        UiWidgetType::KeybindRow => "keyboard",
        UiWidgetType::SettingsRow => "gear",
        UiWidgetType::Separator => "minus",
        UiWidgetType::NumberInput => "calculator",
        UiWidgetType::Scrollbar => "arrows-down-up",
        UiWidgetType::Circle => "circle",
        UiWidgetType::Arc => "circle-dashed",
        UiWidgetType::RadialProgress => "circle-notch",
        UiWidgetType::Line => "line-segment",
        UiWidgetType::Triangle => "triangle",
        UiWidgetType::Polygon => "hexagon",
        UiWidgetType::Rectangle => "rectangle",
        UiWidgetType::Wedge => "chart-pie-slice",
    }
}

/// A component with an entry of its own in the inspector.
#[derive(Clone, Copy, Debug, PartialEq, Eq, Structural)]
pub enum UiComponent {
    Canvas,
    Widget,
    Layout,
    Fill,
    Stroke,
    BorderRadius,
    Text,
    Padding,
    Opacity,
    Shadow,
    Clip,
    Cursor,
    Interaction,
    Slider,
    Checkbox,
    Toggle,
    Radio,
    Dropdown,
    TextInput,
    ScrollView,
    Tooltip,
    Modal,
    DraggableWindow,
}

/// An inspector entry.
pub struct InspectorEntry {
    pub type_id: &'static str,
    pub display_name: &'static str,
    pub icon: &'static str,
    pub category: &'static str,
    /// Can be added from the overlay of components.
    pub addable: bool,
    /// Can be removed again.
    pub removable: bool,
    /// Can be switched off without being removed.
    pub switchable: bool,
    /// Has a list of fields; a bare entry only says that the component is there.
    pub has_fields: bool,
}

/// What identifies a component's entry.
pub open spec fn type_id_of(c: UiComponent) -> Seq<char> {
    match c {
        UiComponent::Canvas => "ui_canvas"@,
        UiComponent::Widget => "ui_widget"@,
        UiComponent::Layout => "ui_layout"@,
        UiComponent::Fill => "ui_fill"@,
        UiComponent::Stroke => "ui_stroke"@,
        UiComponent::BorderRadius => "ui_border_radius"@,
        UiComponent::Text => "ui_text"@,
        UiComponent::Padding => "ui_padding"@,
        UiComponent::Opacity => "ui_opacity"@,
        UiComponent::Shadow => "ui_shadow"@,
        UiComponent::Clip => "ui_clip"@,
        UiComponent::Cursor => "ui_cursor"@,
        UiComponent::Interaction => "ui_interaction"@,
        UiComponent::Slider => "ui_slider_data"@,
        UiComponent::Checkbox => "ui_checkbox_data"@,
        UiComponent::Toggle => "ui_toggle_data"@,
        UiComponent::Radio => "ui_radio_data"@,
        UiComponent::Dropdown => "ui_dropdown_data"@,
        UiComponent::TextInput => "ui_text_input_data"@,
        UiComponent::ScrollView => "ui_scroll_view_data"@,
        UiComponent::Tooltip => "ui_tooltip_data"@,
        UiComponent::Modal => "ui_modal_data"@,
        UiComponent::DraggableWindow => "ui_draggable_window_data"@,
    }
}

/// What a component's entry is called.
pub open spec fn display_name_of(c: UiComponent) -> Seq<char> {
    match c {
        UiComponent::Canvas => "UI Canvas"@,
        UiComponent::Widget => "UI Widget"@,
        UiComponent::Layout => "Layout"@,
        UiComponent::Fill => "UI Fill"@,
        UiComponent::Stroke => "UI Border"@,
        UiComponent::BorderRadius => "UI Border Radius"@,
        UiComponent::Text => "UI Text"@,
        UiComponent::Padding => "UI Padding"@,
        UiComponent::Opacity => "UI Opacity"@,
        UiComponent::Shadow => "UI Shadow"@,
        UiComponent::Clip => "UI Clip Content"@,
        UiComponent::Cursor => "UI Cursor"@,
        UiComponent::Interaction => "UI Interaction States"@,
        UiComponent::Slider => "Slider"@,
        UiComponent::Checkbox => "Checkbox"@,
        UiComponent::Toggle => "Toggle"@,
        UiComponent::Radio => "Radio Button"@,
        UiComponent::Dropdown => "Dropdown"@,
        UiComponent::TextInput => "Text Input"@,
        UiComponent::ScrollView => "Scroll View"@,
        UiComponent::Tooltip => "Tooltip"@,
        UiComponent::Modal => "Modal"@,
        UiComponent::DraggableWindow => "Draggable Window"@,
    }
}

/// The icon of a component's entry.
pub open spec fn entry_icon_of(c: UiComponent) -> Seq<char> {
    match c {
        UiComponent::Canvas => "frame-corners"@,
        UiComponent::Widget => "squares-four"@,
        UiComponent::Layout => "square-half"@,
        UiComponent::Fill => "drop-half"@,
        UiComponent::Stroke => "bounding-box"@,
        UiComponent::BorderRadius => "frame-corners"@,
        UiComponent::Text => "text-aa"@,
        UiComponent::Padding => "columns"@,
        UiComponent::Opacity => "circle-half"@,
        UiComponent::Shadow => "sun-dim"@,
        UiComponent::Clip => "crop"@,
        UiComponent::Cursor => "cursor"@,
        UiComponent::Interaction => "cursor-click"@,
        UiComponent::Slider => "sliders-horizontal"@,
        UiComponent::Checkbox => "check-square"@,
        UiComponent::Toggle => "toggle-left"@,
        UiComponent::Radio => "radio-button"@,
        UiComponent::Dropdown => "caret-circle-down"@,
        UiComponent::TextInput => "textbox"@,
        UiComponent::ScrollView => "scroll"@,
        UiComponent::Tooltip => "chat-circle"@,
        UiComponent::Modal => "browser"@,
        UiComponent::DraggableWindow => "app-window"@,
    }
}

/// Style and data components can be added and removed at will. The marks of a
/// widget and its layout are structural. A canvas can be added but not removed:
/// without its mark the full-size node would stay behind, invisible.
pub open spec fn can_add(c: UiComponent) -> bool {
    c != UiComponent::Widget && c != UiComponent::Layout
}

/// Whether a component can be removed in the inspector.
pub open spec fn can_remove(c: UiComponent) -> bool {
    c != UiComponent::Canvas && c != UiComponent::Widget && c != UiComponent::Layout
}

/// Whether a component's entry has no fields.
pub open spec fn is_bare(c: UiComponent) -> bool {
    c == UiComponent::Fill || c == UiComponent::Stroke || c == UiComponent::Interaction || c
        == UiComponent::Dropdown
}

/// The inspector entry of a component.
pub fn inspector_entry(c: UiComponent) -> (r: InspectorEntry)
    ensures
        r.type_id@ == type_id_of(c),
        r.display_name@ == display_name_of(c),
        r.icon@ == entry_icon_of(c),
        r.category@ == "ui"@,
        r.addable == can_add(c),
        r.removable == can_remove(c),
        !r.switchable,
        r.has_fields == !is_bare(c),
{
    let (type_id, display_name, icon) = match c {
        UiComponent::Canvas => ("ui_canvas", "UI Canvas", "frame-corners"),
        UiComponent::Widget => ("ui_widget", "UI Widget", "squares-four"),
        UiComponent::Layout => ("ui_layout", "Layout", "square-half"),
        UiComponent::Fill => ("ui_fill", "UI Fill", "drop-half"),
        UiComponent::Stroke => ("ui_stroke", "UI Border", "bounding-box"),
        UiComponent::BorderRadius => ("ui_border_radius", "UI Border Radius", "frame-corners"),
        UiComponent::Text => ("ui_text", "UI Text", "text-aa"),
        UiComponent::Padding => ("ui_padding", "UI Padding", "columns"),
        UiComponent::Opacity => ("ui_opacity", "UI Opacity", "circle-half"),
        UiComponent::Shadow => ("ui_shadow", "UI Shadow", "sun-dim"),
        UiComponent::Clip => ("ui_clip", "UI Clip Content", "crop"),
        UiComponent::Cursor => ("ui_cursor", "UI Cursor", "cursor"),
        UiComponent::Interaction => ("ui_interaction", "UI Interaction States", "cursor-click"),
        UiComponent::Slider => ("ui_slider_data", "Slider", "sliders-horizontal"),
        UiComponent::Checkbox => ("ui_checkbox_data", "Checkbox", "check-square"),
        UiComponent::Toggle => ("ui_toggle_data", "Toggle", "toggle-left"),
        UiComponent::Radio => ("ui_radio_data", "Radio Button", "radio-button"),
        UiComponent::Dropdown => ("ui_dropdown_data", "Dropdown", "caret-circle-down"),
        UiComponent::TextInput => ("ui_text_input_data", "Text Input", "textbox"),
        UiComponent::ScrollView => ("ui_scroll_view_data", "Scroll View", "scroll"),
        UiComponent::Tooltip => ("ui_tooltip_data", "Tooltip", "chat-circle"),
        UiComponent::Modal => ("ui_modal_data", "Modal", "browser"),
        UiComponent::DraggableWindow => ("ui_draggable_window_data", "Draggable Window", "app-window"),
    };
    InspectorEntry {
        type_id,
        display_name,
        icon,
        category: "ui",
        addable: c != UiComponent::Widget && c != UiComponent::Layout,
        removable: c != UiComponent::Canvas && c != UiComponent::Widget && c
            != UiComponent::Layout,
        switchable: false,
        has_fields: c != UiComponent::Fill && c != UiComponent::Stroke && c
            != UiComponent::Interaction && c != UiComponent::Dropdown,
    }
}

/// The components with an entry, in the order they are registered in.
pub open spec fn entry_order() -> Seq<UiComponent> {
    seq![
        UiComponent::Canvas,
        UiComponent::Widget,
        UiComponent::Layout,
        UiComponent::Fill,
        UiComponent::Stroke,
        UiComponent::BorderRadius,
        UiComponent::Text,
        UiComponent::Padding,
        UiComponent::Opacity,
        UiComponent::Shadow,
        UiComponent::Clip,
        UiComponent::Cursor,
        UiComponent::Interaction,
        UiComponent::Slider,
        UiComponent::Checkbox,
        UiComponent::Toggle,
        UiComponent::Radio,
        UiComponent::Dropdown,
        UiComponent::TextInput,
        UiComponent::ScrollView,
        UiComponent::Tooltip,
        UiComponent::Modal,
        UiComponent::DraggableWindow,
    ]
}

/// The components with an entry, in the order they are registered in.
pub fn inspector_components() -> (r: Vec<UiComponent>)
    ensures
        r@ == entry_order(),
{
    let out: Vec<UiComponent> = vec![
        UiComponent::Canvas,
        UiComponent::Widget,
        UiComponent::Layout,
        UiComponent::Fill,
        UiComponent::Stroke,
        UiComponent::BorderRadius,
        UiComponent::Text,
        UiComponent::Padding,
        UiComponent::Opacity,
        UiComponent::Shadow,
        UiComponent::Clip,
        UiComponent::Cursor,
        UiComponent::Interaction,
        UiComponent::Slider,
        UiComponent::Checkbox,
        UiComponent::Toggle,
        UiComponent::Radio,
        UiComponent::Dropdown,
        UiComponent::TextInput,
        UiComponent::ScrollView,
        UiComponent::Tooltip,
        UiComponent::Modal,
        UiComponent::DraggableWindow,
    ];
    assert(out@ =~= entry_order());
    out
}

/// The place of a component among the entries.
pub open spec fn entry_place(c: UiComponent) -> int {
    match c {
        UiComponent::Canvas => 0,
        UiComponent::Widget => 1,
        UiComponent::Layout => 2,
        UiComponent::Fill => 3,
        UiComponent::Stroke => 4,
        UiComponent::BorderRadius => 5,
        UiComponent::Text => 6,
        UiComponent::Padding => 7,
        UiComponent::Opacity => 8,
        UiComponent::Shadow => 9,
        UiComponent::Clip => 10,
        UiComponent::Cursor => 11,
        UiComponent::Interaction => 12,
        UiComponent::Slider => 13,
        UiComponent::Checkbox => 14,
        UiComponent::Toggle => 15,
        UiComponent::Radio => 16,
        UiComponent::Dropdown => 17,
        UiComponent::TextInput => 18,
        UiComponent::ScrollView => 19,
        UiComponent::Tooltip => 20,
        UiComponent::Modal => 21,
        UiComponent::DraggableWindow => 22,
    }
}

/// Every component has an entry, and only one.
pub proof fn every_component_has_one_entry(c: UiComponent)
    ensures
        0 <= entry_place(c) < entry_order().len(),
        entry_order()[entry_place(c)] == c,
        forall|i: int|
            0 <= i < entry_order().len() && #[trigger] entry_order()[i] == c ==> i == entry_place(
                c,
            ),
{
    assert forall|i: int| 0 <= i < entry_order().len() implies entry_place(
        #[trigger] entry_order()[i],
    ) == i by {}
}

// ── What adding inserts ──

/// A colour and how opaque it is.
#[derive(Clone, Copy, Debug, PartialEq, Eq, Structural)]
pub struct Rgba {
    pub red: Scalar,
    pub green: Scalar,
    pub blue: Scalar,
    pub alpha: Scalar,
}

/// The grey of a new fill: `0.2`.
pub const FILL_GREY_BITS: u32 = 0x3E4C_CCCD;

/// The grey of a new border: `0.4`.
pub const BORDER_GREY_BITS: u32 = 0x3ECC_CCCD;

/// All of the parent, in percent: `100.0`.
pub const FULL_PERCENT_BITS: u32 = 0x42C8_0000;

/// An opaque grey.
pub open spec fn opaque_grey(bits: u32) -> Rgba {
    Rgba {
        red: Scalar { bits },
        green: Scalar { bits },
        blue: Scalar { bits },
        alpha: Scalar { bits: ONE_BITS },
    }
}

fn grey(bits: u32) -> (r: Rgba)
    ensures
        r == opaque_grey(bits),
{
    Rgba {
        red: Scalar { bits },
        green: Scalar { bits },
        blue: Scalar { bits },
        alpha: Scalar { bits: ONE_BITS },
    }
}

/// What adding a component puts on an entity.
#[derive(Clone, Copy, Debug, PartialEq, Eq, Structural)]
pub enum AddedValue {
    /// Structural: it cannot be added.
    Nothing,
    /// A canvas with its defaults, on this node.
    Canvas(RootGeometry),
    /// A solid fill.
    Fill(Rgba),
    /// A border of this width.
    Border { color: Rgba, width: Scalar },
    Opacity(Scalar),
    Clip(bool),
    /// The pointing cursor.
    PointerCursor,
    /// The component's own default.
    OwnDefault,
}

/// The node of a canvas: absolute, and as large as what it is drawn on.
pub open spec fn full_node() -> RootGeometry {
    RootGeometry {
        absolute: true,
        left: Length::Auto,
        top: Length::Auto,
        width: Length::Percent(Scalar { bits: FULL_PERCENT_BITS }),
        height: Length::Percent(Scalar { bits: FULL_PERCENT_BITS }),
    }
}

/// What adding a component puts on an entity.
pub open spec fn added_of(c: UiComponent) -> AddedValue {
    match c {
        UiComponent::Canvas => AddedValue::Canvas(full_node()),
        UiComponent::Widget | UiComponent::Layout => AddedValue::Nothing,
        UiComponent::Fill => AddedValue::Fill(opaque_grey(FILL_GREY_BITS)),
        UiComponent::Stroke => AddedValue::Border {
            color: opaque_grey(BORDER_GREY_BITS),
            width: Scalar { bits: ONE_BITS },
        },
        UiComponent::Opacity => AddedValue::Opacity(Scalar { bits: ONE_BITS }),
        UiComponent::Clip => AddedValue::Clip(true),
        UiComponent::Cursor => AddedValue::PointerCursor,
        _ => AddedValue::OwnDefault,
    }
}

/// What adding a component puts on an entity. A canvas comes with a full-size
/// node, so that it renders like one spawned the normal way.
pub fn added_value(c: UiComponent) -> (r: AddedValue)
    ensures
        r == added_of(c),
        r == AddedValue::Nothing <==> !can_add(c),
{
    match c {
        UiComponent::Canvas => AddedValue::Canvas(
            RootGeometry {
                absolute: true,
                left: Length::Auto,
                top: Length::Auto,
                width: Length::Percent(Scalar { bits: FULL_PERCENT_BITS }),
                height: Length::Percent(Scalar { bits: FULL_PERCENT_BITS }),
            },
        ),
        UiComponent::Widget | UiComponent::Layout => AddedValue::Nothing,
        UiComponent::Fill => AddedValue::Fill(grey(FILL_GREY_BITS)),
        UiComponent::Stroke => AddedValue::Border {
            color: grey(BORDER_GREY_BITS),
            width: Scalar { bits: ONE_BITS },
        },
        UiComponent::Opacity => AddedValue::Opacity(Scalar { bits: ONE_BITS }),
        UiComponent::Clip => AddedValue::Clip(true),
        UiComponent::Cursor => AddedValue::PointerCursor,
        _ => AddedValue::OwnDefault,
    }
}

/// How an id goes on after its prefix, and how long it is.
spec fn stem_of(c: UiComponent) -> (int, char, char, char) {
    match c {
        UiComponent::Canvas => (9, 'c', 'a', 'n'),
        UiComponent::Widget => (9, 'w', 'i', 'd'),
        UiComponent::Layout => (9, 'l', 'a', 'y'),
        UiComponent::Fill => (7, 'f', 'i', 'l'),
        UiComponent::Stroke => (9, 's', 't', 'r'),
        UiComponent::BorderRadius => (16, 'b', 'o', 'r'),
        UiComponent::Text => (7, 't', 'e', 'x'),
        UiComponent::Padding => (10, 'p', 'a', 'd'),
        UiComponent::Opacity => (10, 'o', 'p', 'a'),
        UiComponent::Shadow => (9, 's', 'h', 'a'),
        UiComponent::Clip => (7, 'c', 'l', 'i'),
        UiComponent::Cursor => (9, 'c', 'u', 'r'),
        UiComponent::Interaction => (14, 'i', 'n', 't'),
        UiComponent::Slider => (14, 's', 'l', 'i'),
        UiComponent::Checkbox => (16, 'c', 'h', 'e'),
        UiComponent::Toggle => (14, 't', 'o', 'g'),
        UiComponent::Radio => (13, 'r', 'a', 'd'),
        UiComponent::Dropdown => (16, 'd', 'r', 'o'),
        UiComponent::TextInput => (18, 't', 'e', 'x'),
        UiComponent::ScrollView => (19, 's', 'c', 'r'),
        UiComponent::Tooltip => (15, 't', 'o', 'o'),
        UiComponent::Modal => (13, 'm', 'o', 'd'),
        UiComponent::DraggableWindow => (24, 'd', 'r', 'a'),
    }
}

proof fn ids_go_on_as_told(c: UiComponent)
    ensures
        ({
            let id = type_id_of(c);
            (id.len() as int, id[3], id[4], id[5]) == stem_of(c)
        }),
{
    match c {
        UiComponent::Canvas => {
            reveal_strlit("ui_canvas");
        },
        UiComponent::Widget => {
            reveal_strlit("ui_widget");
        },
        UiComponent::Layout => {
            reveal_strlit("ui_layout");
        },
        UiComponent::Fill => {
            reveal_strlit("ui_fill");
        },
        UiComponent::Stroke => {
            reveal_strlit("ui_stroke");
        },
        UiComponent::BorderRadius => {
            reveal_strlit("ui_border_radius");
        },
        UiComponent::Text => {
            reveal_strlit("ui_text");
        },
        UiComponent::Padding => {
            reveal_strlit("ui_padding");
        },
        UiComponent::Opacity => {
            reveal_strlit("ui_opacity");
        },
        UiComponent::Shadow => {
            reveal_strlit("ui_shadow");
        },
        UiComponent::Clip => {
            reveal_strlit("ui_clip");
        },
        UiComponent::Cursor => {
            reveal_strlit("ui_cursor");
        },
        UiComponent::Interaction => {
            reveal_strlit("ui_interaction");
        },
        UiComponent::Slider => {
            reveal_strlit("ui_slider_data");
        },
        UiComponent::Checkbox => {
            reveal_strlit("ui_checkbox_data");
        },
        UiComponent::Toggle => {
            reveal_strlit("ui_toggle_data");
        },
        UiComponent::Radio => {
            reveal_strlit("ui_radio_data");
        },
        UiComponent::Dropdown => {
            reveal_strlit("ui_dropdown_data");
        },
        UiComponent::TextInput => {
            reveal_strlit("ui_text_input_data");
        },
        UiComponent::ScrollView => {
            reveal_strlit("ui_scroll_view_data");
        },
        UiComponent::Tooltip => {
            reveal_strlit("ui_tooltip_data");
        },
        UiComponent::Modal => {
            reveal_strlit("ui_modal_data");
        },
        UiComponent::DraggableWindow => {
            reveal_strlit("ui_draggable_window_data");
        },
    }
}

proof fn stems_differ(a: UiComponent, b: UiComponent)
    requires
        stem_of(a) == stem_of(b),
    ensures
        a == b,
{
}

/// No two entries share an id.
pub proof fn entries_are_told_apart(a: UiComponent, b: UiComponent)
    requires
        type_id_of(a) == type_id_of(b),
    ensures
        a == b,
{
    ids_go_on_as_told(a);
    ids_go_on_as_told(b);
    stems_differ(a, b);
}

/// Whether an entity offers layout fields: widgets with a node, but never a
/// canvas, whose node is structural.
pub fn has_layout(node: bool, canvas: bool, widget: bool) -> (r: bool)
    ensures
        r == (node && !canvas && widget),
{
    node && !canvas && widget
}

// ── Canvas fields ──

/// The inspectable part of a canvas.
pub struct UiCanvas {
    pub sort_order: i32,
    pub visibility_mode: String,
    pub reference_width: Scalar,
    pub reference_height: Scalar,
    pub render_space: String,
    pub render_mode: String,
}

/// What a canvas holds.
pub struct CanvasModel {
    pub sort_order: i32,
    pub visibility_mode: Seq<char>,
    pub reference_width: Scalar,
    pub reference_height: Scalar,
    pub render_space: Seq<char>,
    pub render_mode: Seq<char>,
}

impl View for UiCanvas {
    type V = CanvasModel;

    open spec fn view(&self) -> CanvasModel {
        CanvasModel {
            sort_order: self.sort_order,
            visibility_mode: self.visibility_mode@,
            reference_width: self.reference_width,
            reference_height: self.reference_height,
            render_space: self.render_space@,
            render_mode: self.render_mode@,
        }
    }
}

/// A field of a canvas that is one of several words.
#[derive(Clone, Copy, Debug, PartialEq, Eq, Structural)]
pub enum CanvasChoice {
    Visibility,
    RenderSpace,
    RenderMode,
}

/// A value edited in the inspector.
pub enum FieldValue {
    Enum(String),
    Int(i64),
    Float(Scalar),
    Bool(bool),
}

/// The words a choice offers.
pub fn choice_options(choice: CanvasChoice) -> (r: Vec<&'static str>)
    ensures
        crate::text::str_texts(r@) == (match choice {
            CanvasChoice::Visibility => seq!["always"@, "play_only"@, "editor_only"@],
            CanvasChoice::RenderSpace => seq!["screen"@, "world"@],
            CanvasChoice::RenderMode => seq!["texture"@, "mesh"@],
        }),
{
    let mut out: Vec<&'static str> = Vec::new();
    match choice {
        CanvasChoice::Visibility => {
            out.push("always");
            out.push("play_only");
            out.push("editor_only");
        },
        CanvasChoice::RenderSpace => {
            out.push("screen");
            out.push("world");
        },
        CanvasChoice::RenderMode => {
            out.push("texture");
            out.push("mesh");
        },
    }
    out
}

impl CanvasModel {
    /// The word a choice holds.
    pub open spec fn choice(self, choice: CanvasChoice) -> Seq<char> {
        match choice {
            CanvasChoice::Visibility => self.visibility_mode,
            CanvasChoice::RenderSpace => self.render_space,
            CanvasChoice::RenderMode => self.render_mode,
        }
    }

    /// With a choice set.
    pub open spec fn with_choice(self, choice: CanvasChoice, word: Seq<char>) -> CanvasModel {
        match choice {
            CanvasChoice::Visibility => CanvasModel { visibility_mode: word, ..self },
            CanvasChoice::RenderSpace => CanvasModel { render_space: word, ..self },
            CanvasChoice::RenderMode => CanvasModel { render_mode: word, ..self },
        }
    }
}

impl UiCanvas {
    /// The value of a choice.
    pub fn get_choice(&self, choice: CanvasChoice) -> (r: FieldValue)
        ensures
            r matches FieldValue::Enum(word) && word@ == self@.choice(choice),
    {
        match choice {
            CanvasChoice::Visibility => FieldValue::Enum(self.visibility_mode.clone()),
            CanvasChoice::RenderSpace => FieldValue::Enum(self.render_space.clone()),
            CanvasChoice::RenderMode => FieldValue::Enum(self.render_mode.clone()),
        }
    }

    /// Set a choice. A value of another sort is ignored.
    pub fn set_choice(&mut self, choice: CanvasChoice, value: FieldValue)
        ensures
            final(self)@ == (match value {
                FieldValue::Enum(word) => old(self)@.with_choice(choice, word@),
                _ => old(self)@,
            }),
    {
        if let FieldValue::Enum(word) = value {
            match choice {
                CanvasChoice::Visibility => {
                    self.visibility_mode = word;
                },
                CanvasChoice::RenderSpace => {
                    self.render_space = word;
                },
                CanvasChoice::RenderMode => {
                    self.render_mode = word;
                },
            }
        }
    }
}

/// What is set is what is read back, and no other choice changes.
pub proof fn set_is_read_back(
    canvas: CanvasModel,
    choice: CanvasChoice,
    other: CanvasChoice,
    word: Seq<char>,
)
    ensures
        canvas.with_choice(choice, word).choice(choice) == word,
        other != choice ==> canvas.with_choice(choice, word).choice(other) == canvas.choice(other),
        canvas.with_choice(choice, canvas.choice(choice)) == canvas,
{
}

/// How a field of a canvas is edited. Ranges hold whole numbers.
#[derive(Clone, Copy, Debug, PartialEq, Eq, Structural)]
pub enum CanvasField {
    SortOrder { min: i32, max: i32 },
    Choice(CanvasChoice),
    ReferenceWidth { min: i32, max: i32 },
    ReferenceHeight { min: i32, max: i32 },
}

/// The fields of a canvas, in the order the inspector shows them.
pub fn canvas_fields() -> (r: Vec<CanvasField>)
    ensures
        r@ == seq![
            CanvasField::SortOrder { min: (-100) as i32, max: 100 },
            CanvasField::Choice(CanvasChoice::Visibility),
            CanvasField::ReferenceWidth { min: 1, max: 7680 },
            CanvasField::ReferenceHeight { min: 1, max: 4320 },
            CanvasField::Choice(CanvasChoice::RenderSpace),
            CanvasField::Choice(CanvasChoice::RenderMode),
        ],
{
    let out: Vec<CanvasField> = vec![
        CanvasField::SortOrder { min: -100, max: 100 },
        CanvasField::Choice(CanvasChoice::Visibility),
        CanvasField::ReferenceWidth { min: 1, max: 7680 },
        CanvasField::ReferenceHeight { min: 1, max: 4320 },
        CanvasField::Choice(CanvasChoice::RenderSpace),
        CanvasField::Choice(CanvasChoice::RenderMode),
    ];
    assert(out@ =~= seq![
        CanvasField::SortOrder { min: (-100) as i32, max: 100 },
        CanvasField::Choice(CanvasChoice::Visibility),
        CanvasField::ReferenceWidth { min: 1, max: 7680 },
        CanvasField::ReferenceHeight { min: 1, max: 4320 },
        CanvasField::Choice(CanvasChoice::RenderSpace),
        CanvasField::Choice(CanvasChoice::RenderMode),
    ]);
    out
}

/// What a field is called.
pub fn field_name(field: CanvasField) -> (r: &'static str)
    ensures
        r@ == (match field {
            CanvasField::SortOrder { .. } => "Sort Order"@,
            CanvasField::Choice(CanvasChoice::Visibility) => "Visibility"@,
            CanvasField::ReferenceWidth { .. } => "Ref Width"@,
            CanvasField::ReferenceHeight { .. } => "Ref Height"@,
            CanvasField::Choice(CanvasChoice::RenderSpace) => "Render Space"@,
            CanvasField::Choice(CanvasChoice::RenderMode) => "Render Mode"@,
        }),
{
    match field {
        CanvasField::SortOrder { .. } => "Sort Order",
        CanvasField::Choice(CanvasChoice::Visibility) => "Visibility",
        CanvasField::ReferenceWidth { .. } => "Ref Width",
        CanvasField::ReferenceHeight { .. } => "Ref Height",
        CanvasField::Choice(CanvasChoice::RenderSpace) => "Render Space",
        CanvasField::Choice(CanvasChoice::RenderMode) => "Render Mode",
    }
}

/// How much a drag changes a number: one at a time. A choice has no step.
pub fn field_step(field: CanvasField) -> (r: Option<Scalar>)
    ensures
        r == (match field {
            CanvasField::Choice(_) => None,
            _ => Some(Scalar { bits: ONE_BITS }),
        }),
{
    match field {
        CanvasField::Choice(_) => None,
        _ => Some(Scalar { bits: ONE_BITS }),
    }
}

// ── Hierarchy icons ──

/// An interface component with an icon in the hierarchy.
#[derive(Clone, Copy, Debug, PartialEq, Eq, Structural)]
pub enum IconOwner {
    Canvas,
    Widget,
}

/// How interface entities show in the hierarchy.
pub struct HierarchyIcon {
    pub name: &'static str,
    pub icon: &'static str,
    /// Red, green and blue.
    pub color: (u8, u8, u8),
    /// Which of several icons of one entity shows: the one with the highest.
    pub priority: u32,
    /// Told by the entity itself rather than by its type alone.
    pub entity_local: bool,
}

/// The name that an icon is registered under.
pub open spec fn icon_name(owner: IconOwner) -> Seq<char> {
    match owner {
        IconOwner::Canvas => "UI Canvas"@,
        IconOwner::Widget => "UI Widget"@,
    }
}

/// The icon that is registered for a component. A canvas comes first.
pub fn component_icon(owner: IconOwner) -> (r: HierarchyIcon)
    ensures
        r.name@ == icon_name(owner),
        r.icon@ == (match owner {
            IconOwner::Canvas => "frame-corners"@,
            IconOwner::Widget => "squares-four"@,
        }),
        r.color == (130u8, 200u8, 255u8),
        r.priority == (match owner {
            IconOwner::Canvas => 70u32,
            IconOwner::Widget => 60u32,
        }),
        r.entity_local == (owner == IconOwner::Widget),
{
    match owner {
        IconOwner::Canvas => HierarchyIcon {
            name: "UI Canvas",
            icon: "frame-corners",
            color: (130, 200, 255),
            priority: 70,
            entity_local: false,
        },
        IconOwner::Widget => HierarchyIcon {
            name: "UI Widget",
            icon: "squares-four",
            color: (130, 200, 255),
            priority: 60,
            entity_local: true,
        },
    }
}

/// The icon of a canvas, or of a widget by what it is.
pub fn hierarchy_icon(widget: Option<UiWidgetType>) -> (r: HierarchyIcon)
    ensures
        r.icon@ == (match widget {
            Some(widget) => icon_of(widget),
            None => "frame-corners"@,
        }),
        r.name@ == icon_name(
            if widget is Some {
                IconOwner::Widget
            } else {
                IconOwner::Canvas
            },
        ),
        r.color == (130u8, 200u8, 255u8),
        r.priority == (if widget is Some {
            60u32
        } else {
            70u32
        }),
        r.entity_local == (widget is Some),
{
    match widget {
        Some(widget) => HierarchyIcon {
            icon: widget_icon(&widget),
            ..component_icon(IconOwner::Widget)
        },
        None => component_icon(IconOwner::Canvas),
    }
}

// ── Presets ──

/// An entity that can be added from the menu.
pub struct EntityPreset {
    pub id: &'static str,
    pub display_name: &'static str,
    pub icon: &'static str,
    pub category: &'static str,
}

/// What an empty scene can be started with.
pub struct SceneStarter {
    pub id: &'static str,
    pub title: &'static str,
    pub description: &'static str,
    pub icon: &'static str,
    /// The component that the starter brings.
    pub produces: &'static str,
}

/// The preset of a canvas, which is always spawned at the root.
pub fn canvas_preset() -> (r: EntityPreset)
    ensures
        r.id@ == "ui_canvas"@,
        r.display_name@ == "UI Canvas"@,
        r.icon@ == "frame-corners"@,
        r.category@ == "ui"@,
{
    EntityPreset {
        id: "ui_canvas",
        display_name: "UI Canvas",
        icon: "frame-corners",
        category: "ui",
    }
}

/// The starter that spawns a canvas and selects it.
pub fn canvas_starter() -> (r: SceneStarter)
    ensures
        r.id@ == "ui"@,
        r.title@ == "New UI Canvas"@,
        r.description@ == "A canvas to mount a UI template on"@,
        r.icon@ == "frame-corners"@,
        r.produces@ == "UiCanvas"@,
{
    SceneStarter {
        id: "ui",
        title: "New UI Canvas",
        description: "A canvas to mount a UI template on",
        icon: "frame-corners",
        produces: "UiCanvas",
    }
}

} // verus!
