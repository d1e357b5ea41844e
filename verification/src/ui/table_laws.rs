//! The tables of the inspector and of the hierarchy, word by word.

use vstd::prelude::*;

use crate::scalar::Scalar;
use crate::ui::heal::{Length, RootGeometry};
use crate::ui::inspector::{
    added_of, can_add, can_remove, display_name_of, entry_icon_of, icon_name, icon_of, is_bare,
    type_id_of, AddedValue, IconOwner, Rgba, UiComponent, UiWidgetType,
};

verus! {

/// The icon of every widget.
pub proof fn widgets_have_their_icons()
    ensures
        icon_of(UiWidgetType::Container) == "squares-four"@,
        icon_of(UiWidgetType::Panel) == "rectangle"@,
        icon_of(UiWidgetType::ScrollView) == "scroll"@,
        icon_of(UiWidgetType::Text) == "text-aa"@,
        icon_of(UiWidgetType::Image) == "image"@,
        icon_of(UiWidgetType::Button) == "cursor-click"@,
        icon_of(UiWidgetType::Slider) == "sliders-horizontal"@,
        icon_of(UiWidgetType::Checkbox) == "check-square"@,
        icon_of(UiWidgetType::Toggle) == "toggle-right"@,
        icon_of(UiWidgetType::RadioButton) == "radio-button"@,
        icon_of(UiWidgetType::Dropdown) == "caret-circle-down"@,
        icon_of(UiWidgetType::TextInput) == "text-t"@,
        icon_of(UiWidgetType::BarFill) == "battery-medium"@,
        icon_of(UiWidgetType::Tooltip) == "chat-circle-text"@,
        icon_of(UiWidgetType::Modal) == "browsers"@,
        icon_of(UiWidgetType::DraggableWindow) == "app-window"@,
        icon_of(UiWidgetType::KeybindRow) == "keyboard"@,
        icon_of(UiWidgetType::SettingsRow) == "gear"@,
        icon_of(UiWidgetType::Separator) == "minus"@,
        icon_of(UiWidgetType::NumberInput) == "calculator"@,
        icon_of(UiWidgetType::Scrollbar) == "arrows-down-up"@,
        icon_of(UiWidgetType::Circle) == "circle"@,
        icon_of(UiWidgetType::Arc) == "circle-dashed"@,
        icon_of(UiWidgetType::RadialProgress) == "circle-notch"@,
        icon_of(UiWidgetType::Line) == "line-segment"@,
        icon_of(UiWidgetType::Triangle) == "triangle"@,
        icon_of(UiWidgetType::Polygon) == "hexagon"@,
        icon_of(UiWidgetType::Rectangle) == "rectangle"@,
        icon_of(UiWidgetType::Wedge) == "chart-pie-slice"@,
{
}

/// The id that every component is registered under.
pub proof fn components_have_their_ids()
    ensures
        type_id_of(UiComponent::Canvas) == "ui_canvas"@,
        type_id_of(UiComponent::Widget) == "ui_widget"@,
        type_id_of(UiComponent::Layout) == "ui_layout"@,
        type_id_of(UiComponent::Fill) == "ui_fill"@,
        type_id_of(UiComponent::Stroke) == "ui_stroke"@,
        type_id_of(UiComponent::BorderRadius) == "ui_border_radius"@,
        type_id_of(UiComponent::Text) == "ui_text"@,
        type_id_of(UiComponent::Padding) == "ui_padding"@,
        type_id_of(UiComponent::Opacity) == "ui_opacity"@,
        type_id_of(UiComponent::Shadow) == "ui_shadow"@,
        type_id_of(UiComponent::Clip) == "ui_clip"@,
        type_id_of(UiComponent::Cursor) == "ui_cursor"@,
        type_id_of(UiComponent::Interaction) == "ui_interaction"@,
        type_id_of(UiComponent::Slider) == "ui_slider_data"@,
        type_id_of(UiComponent::Checkbox) == "ui_checkbox_data"@,
        type_id_of(UiComponent::Toggle) == "ui_toggle_data"@,
        type_id_of(UiComponent::Radio) == "ui_radio_data"@,
        type_id_of(UiComponent::Dropdown) == "ui_dropdown_data"@,
        type_id_of(UiComponent::TextInput) == "ui_text_input_data"@,
        type_id_of(UiComponent::ScrollView) == "ui_scroll_view_data"@,
        type_id_of(UiComponent::Tooltip) == "ui_tooltip_data"@,
        type_id_of(UiComponent::Modal) == "ui_modal_data"@,
        type_id_of(UiComponent::DraggableWindow) == "ui_draggable_window_data"@,
{
}

/// The name of every component's entry.
pub proof fn components_have_their_names()
    ensures
        display_name_of(UiComponent::Canvas) == "UI Canvas"@,
        display_name_of(UiComponent::Widget) == "UI Widget"@,
        display_name_of(UiComponent::Layout) == "Layout"@,
        display_name_of(UiComponent::Fill) == "UI Fill"@,
        display_name_of(UiComponent::Stroke) == "UI Border"@,
        display_name_of(UiComponent::BorderRadius) == "UI Border Radius"@,
        display_name_of(UiComponent::Text) == "UI Text"@,
        display_name_of(UiComponent::Padding) == "UI Padding"@,
        display_name_of(UiComponent::Opacity) == "UI Opacity"@,
        display_name_of(UiComponent::Shadow) == "UI Shadow"@,
        display_name_of(UiComponent::Clip) == "UI Clip Content"@,
        display_name_of(UiComponent::Cursor) == "UI Cursor"@,
        display_name_of(UiComponent::Interaction) == "UI Interaction States"@,
        display_name_of(UiComponent::Slider) == "Slider"@,
        display_name_of(UiComponent::Checkbox) == "Checkbox"@,
        display_name_of(UiComponent::Toggle) == "Toggle"@,
        display_name_of(UiComponent::Radio) == "Radio Button"@,
        display_name_of(UiComponent::Dropdown) == "Dropdown"@,
        display_name_of(UiComponent::TextInput) == "Text Input"@,
        display_name_of(UiComponent::ScrollView) == "Scroll View"@,
        display_name_of(UiComponent::Tooltip) == "Tooltip"@,
        display_name_of(UiComponent::Modal) == "Modal"@,
        display_name_of(UiComponent::DraggableWindow) == "Draggable Window"@,
{
}

/// The icon of every component's entry.
pub proof fn components_have_their_icons()
    ensures
        entry_icon_of(UiComponent::Canvas) == "frame-corners"@,
        entry_icon_of(UiComponent::Widget) == "squares-four"@,
        entry_icon_of(UiComponent::Layout) == "square-half"@,
        entry_icon_of(UiComponent::Fill) == "drop-half"@,
        entry_icon_of(UiComponent::Stroke) == "bounding-box"@,
        entry_icon_of(UiComponent::BorderRadius) == "frame-corners"@,
        entry_icon_of(UiComponent::Text) == "text-aa"@,
        entry_icon_of(UiComponent::Padding) == "columns"@,
        entry_icon_of(UiComponent::Opacity) == "circle-half"@,
        entry_icon_of(UiComponent::Shadow) == "sun-dim"@,
        entry_icon_of(UiComponent::Clip) == "crop"@,
        entry_icon_of(UiComponent::Cursor) == "cursor"@,
        entry_icon_of(UiComponent::Interaction) == "cursor-click"@,
        entry_icon_of(UiComponent::Slider) == "sliders-horizontal"@,
        entry_icon_of(UiComponent::Checkbox) == "check-square"@,
        entry_icon_of(UiComponent::Toggle) == "toggle-left"@,
        entry_icon_of(UiComponent::Radio) == "radio-button"@,
        entry_icon_of(UiComponent::Dropdown) == "caret-circle-down"@,
        entry_icon_of(UiComponent::TextInput) == "textbox"@,
        entry_icon_of(UiComponent::ScrollView) == "scroll"@,
        entry_icon_of(UiComponent::Tooltip) == "chat-circle"@,
        entry_icon_of(UiComponent::Modal) == "browser"@,
        entry_icon_of(UiComponent::DraggableWindow) == "app-window"@,
{
}

/// A grey, by the number of all its channels.
pub open spec fn grey_of(bits: u32) -> Rgba {
    Rgba {
        red: Scalar { bits },
        green: Scalar { bits },
        blue: Scalar { bits },
        alpha: Scalar { bits: 0x3F80_0000 },
    }
}

/// What can be added, what can be removed again, what has no fields, and what
/// adding inserts. What can be removed can be added, and what cannot be added
/// inserts nothing.
pub proof fn components_come_and_go(c: UiComponent)
    ensures
        can_add(c) <==> c != UiComponent::Widget && c != UiComponent::Layout,
        can_remove(c) <==> can_add(c) && c != UiComponent::Canvas,
        added_of(c) == AddedValue::Nothing <==> !can_add(c),
        is_bare(c) <==> c == UiComponent::Fill || c == UiComponent::Stroke || c
            == UiComponent::Interaction || c == UiComponent::Dropdown,
        added_of(UiComponent::Canvas) == AddedValue::Canvas(
            RootGeometry {
                absolute: true,
                left: Length::Auto,
                top: Length::Auto,
                width: Length::Percent(Scalar { bits: 0x42C8_0000 }),
                height: Length::Percent(Scalar { bits: 0x42C8_0000 }),
            },
        ),
        added_of(UiComponent::Fill) == AddedValue::Fill(grey_of(0x3E4C_CCCD)),
        added_of(UiComponent::Stroke) == (AddedValue::Border {
            color: grey_of(0x3ECC_CCCD),
            width: Scalar { bits: 0x3F80_0000 },
        }),
        added_of(UiComponent::Opacity) == AddedValue::Opacity(Scalar { bits: 0x3F80_0000 }),
        added_of(UiComponent::Clip) == AddedValue::Clip(true),
        added_of(UiComponent::Cursor) == AddedValue::PointerCursor,
        added_of(c) == AddedValue::OwnDefault <==> can_add(c) && c != UiComponent::Canvas && c
            != UiComponent::Fill && c != UiComponent::Stroke && c != UiComponent::Opacity && c
            != UiComponent::Clip && c != UiComponent::Cursor,
        icon_name(IconOwner::Canvas) == "UI Canvas"@,
        icon_name(IconOwner::Widget) == "UI Widget"@,
{
}

} // verus!
