//! The mouse cursor that a page asks for, and the one the window shows.
use vstd::prelude::*;

verus! {

/// A cursor as a page asks for it, after CSS.
#[derive(Debug, Clone, Copy, PartialEq, Eq, Structural)]
pub enum PageCursor {
    /// No cursor at all.
    Hidden,
    Default,
    Pointer,
    ContextMenu,
    Help,
    Progress,
    Wait,
    Cell,
    Crosshair,
    Text,
    VerticalText,
    Alias,
    Copy,
    Move,
    NoDrop,
    NotAllowed,
    Grab,
    Grabbing,
    EResize,
    NResize,
    NeResize,
    NwResize,
    SResize,
    SeResize,
    SwResize,
    WResize,
    EwResize,
    NsResize,
    NeswResize,
    NwseResize,
    ColResize,
    RowResize,
    AllScroll,
    ZoomIn,
    ZoomOut,
}

/// A cursor as the window shows it.
#[derive(Debug, Clone, Copy, PartialEq, Eq, Structural)]
pub enum CursorIcon {
    /// No cursor at all.
    Hidden,
    Default,
    PointingHand,
    ContextMenu,
    Help,
    Progress,
    Wait,
    Cell,
    Crosshair,
    Text,
    VerticalText,
    Alias,
    Copy,
    Move,
    NoDrop,
    NotAllowed,
    Grab,
    Grabbing,
    ResizeEast,
    ResizeNorth,
    ResizeNorthEast,
    ResizeNorthWest,
    ResizeSouth,
    ResizeSouthEast,
    ResizeSouthWest,
    ResizeWest,
    ResizeHorizontal,
    ResizeVertical,
    ResizeNeSw,
    ResizeNwSe,
    ResizeColumn,
    ResizeRow,
    AllScroll,
    ZoomIn,
    ZoomOut,
}

/// The cursor that the window shows for the one a page asks for.
pub open spec fn icon_of(cursor: PageCursor) -> CursorIcon {
    match cursor {
        PageCursor::Hidden => CursorIcon::Hidden,
        PageCursor::Default => CursorIcon::Default,
        PageCursor::Pointer => CursorIcon::PointingHand,
        PageCursor::ContextMenu => CursorIcon::ContextMenu,
        PageCursor::Help => CursorIcon::Help,
        PageCursor::Progress => CursorIcon::Progress,
        PageCursor::Wait => CursorIcon::Wait,
        PageCursor::Cell => CursorIcon::Cell,
        PageCursor::Crosshair => CursorIcon::Crosshair,
        PageCursor::Text => CursorIcon::Text,
        PageCursor::VerticalText => CursorIcon::VerticalText,
        PageCursor::Alias => CursorIcon::Alias,
        PageCursor::Copy => CursorIcon::Copy,
        PageCursor::Move => CursorIcon::Move,
        PageCursor::NoDrop => CursorIcon::NoDrop,
        PageCursor::NotAllowed => CursorIcon::NotAllowed,
        PageCursor::Grab => CursorIcon::Grab,
        PageCursor::Grabbing => CursorIcon::Grabbing,
        PageCursor::EResize => CursorIcon::ResizeEast,
        PageCursor::NResize => CursorIcon::ResizeNorth,
        PageCursor::NeResize => CursorIcon::ResizeNorthEast,
        PageCursor::NwResize => CursorIcon::ResizeNorthWest,
        PageCursor::SResize => CursorIcon::ResizeSouth,
        PageCursor::SeResize => CursorIcon::ResizeSouthEast,
        PageCursor::SwResize => CursorIcon::ResizeSouthWest,
        PageCursor::WResize => CursorIcon::ResizeWest,
        PageCursor::EwResize => CursorIcon::ResizeHorizontal,
        PageCursor::NsResize => CursorIcon::ResizeVertical,
        PageCursor::NeswResize => CursorIcon::ResizeNeSw,
        PageCursor::NwseResize => CursorIcon::ResizeNwSe,
        PageCursor::ColResize => CursorIcon::ResizeColumn,
        PageCursor::RowResize => CursorIcon::ResizeRow,
        PageCursor::AllScroll => CursorIcon::AllScroll,
        PageCursor::ZoomIn => CursorIcon::ZoomIn,
        PageCursor::ZoomOut => CursorIcon::ZoomOut,
    }
}

/// The cursor that the window shows for the one a page asks for.
pub fn servo_cursor_to_egui_cursor_icon(cursor: PageCursor) -> (r: CursorIcon)
    ensures
        r == icon_of(cursor),
{
    match cursor {
        PageCursor::Hidden => CursorIcon::Hidden,
        PageCursor::Default => CursorIcon::Default,
        PageCursor::Pointer => CursorIcon::PointingHand,
        PageCursor::ContextMenu => CursorIcon::ContextMenu,
        PageCursor::Help => CursorIcon::Help,
        PageCursor::Progress => CursorIcon::Progress,
        PageCursor::Wait => CursorIcon::Wait,
        PageCursor::Cell => CursorIcon::Cell,
        PageCursor::Crosshair => CursorIcon::Crosshair,
        PageCursor::Text => CursorIcon::Text,
        PageCursor::VerticalText => CursorIcon::VerticalText,
        PageCursor::Alias => CursorIcon::Alias,
        PageCursor::Copy => CursorIcon::Copy,
        PageCursor::Move => CursorIcon::Move,
        PageCursor::NoDrop => CursorIcon::NoDrop,
        PageCursor::NotAllowed => CursorIcon::NotAllowed,
        PageCursor::Grab => CursorIcon::Grab,
        PageCursor::Grabbing => CursorIcon::Grabbing,
        PageCursor::EResize => CursorIcon::ResizeEast,
        PageCursor::NResize => CursorIcon::ResizeNorth,
        PageCursor::NeResize => CursorIcon::ResizeNorthEast,
        PageCursor::NwResize => CursorIcon::ResizeNorthWest,
        PageCursor::SResize => CursorIcon::ResizeSouth,
        PageCursor::SeResize => CursorIcon::ResizeSouthEast,
        PageCursor::SwResize => CursorIcon::ResizeSouthWest,
        PageCursor::WResize => CursorIcon::ResizeWest,
        PageCursor::EwResize => CursorIcon::ResizeHorizontal,
        PageCursor::NsResize => CursorIcon::ResizeVertical,
        PageCursor::NeswResize => CursorIcon::ResizeNeSw,
        PageCursor::NwseResize => CursorIcon::ResizeNwSe,
        PageCursor::ColResize => CursorIcon::ResizeColumn,
        PageCursor::RowResize => CursorIcon::ResizeRow,
        PageCursor::AllScroll => CursorIcon::AllScroll,
        PageCursor::ZoomIn => CursorIcon::ZoomIn,
        PageCursor::ZoomOut => CursorIcon::ZoomOut,
    }
}

/// No two cursors of a page look the same in the window.
pub proof fn cursors_stay_distinct(a: PageCursor, b: PageCursor)
    requires
        a != b,
    ensures
        icon_of(a) != icon_of(b),
{
}

/// The edge or corner that a cursor of a page resizes: east and north count as
/// positive.
pub open spec fn page_direction(cursor: PageCursor) -> Option<(int, int)> {
    match cursor {
        PageCursor::EResize => Some((1int, 0int)),
        PageCursor::NResize => Some((0int, 1int)),
        PageCursor::NeResize => Some((1int, 1int)),
        PageCursor::NwResize => Some((-1int, 1int)),
        PageCursor::SResize => Some((0int, -1int)),
        PageCursor::SeResize => Some((1int, -1int)),
        PageCursor::SwResize => Some((-1int, -1int)),
        PageCursor::WResize => Some((-1int, 0int)),
        _ => None,
    }
}

/// The edge or corner that a cursor of the window resizes.
pub open spec fn icon_direction(icon: CursorIcon) -> Option<(int, int)> {
    match icon {
        CursorIcon::ResizeEast => Some((1int, 0int)),
        CursorIcon::ResizeNorth => Some((0int, 1int)),
        CursorIcon::ResizeNorthEast => Some((1int, 1int)),
        CursorIcon::ResizeNorthWest => Some((-1int, 1int)),
        CursorIcon::ResizeSouth => Some((0int, -1int)),
        CursorIcon::ResizeSouthEast => Some((1int, -1int)),
        CursorIcon::ResizeSouthWest => Some((-1int, -1int)),
        CursorIcon::ResizeWest => Some((-1int, 0int)),
        _ => None,
    }
}

/// A cursor that resizes an edge or a corner points the same way in the window,
/// and every other cursor is shown as the one of its kind.
pub proof fn cursors_keep_their_kind(cursor: PageCursor)
    ensures
        icon_direction(icon_of(cursor)) == page_direction(cursor),
        icon_of(cursor) == CursorIcon::Hidden <==> cursor == PageCursor::Hidden,
        icon_of(cursor) == CursorIcon::Default <==> cursor == PageCursor::Default,
        icon_of(cursor) == CursorIcon::ContextMenu <==> cursor == PageCursor::ContextMenu,
        icon_of(cursor) == CursorIcon::Help <==> cursor == PageCursor::Help,
        icon_of(cursor) == CursorIcon::Progress <==> cursor == PageCursor::Progress,
        icon_of(cursor) == CursorIcon::Wait <==> cursor == PageCursor::Wait,
        icon_of(cursor) == CursorIcon::Cell <==> cursor == PageCursor::Cell,
        icon_of(cursor) == CursorIcon::Crosshair <==> cursor == PageCursor::Crosshair,
        icon_of(cursor) == CursorIcon::Text <==> cursor == PageCursor::Text,
        icon_of(cursor) == CursorIcon::VerticalText <==> cursor == PageCursor::VerticalText,
        icon_of(cursor) == CursorIcon::Alias <==> cursor == PageCursor::Alias,
        icon_of(cursor) == CursorIcon::Copy <==> cursor == PageCursor::Copy,
        icon_of(cursor) == CursorIcon::Move <==> cursor == PageCursor::Move,
        icon_of(cursor) == CursorIcon::NoDrop <==> cursor == PageCursor::NoDrop,
        icon_of(cursor) == CursorIcon::NotAllowed <==> cursor == PageCursor::NotAllowed,
        icon_of(cursor) == CursorIcon::Grab <==> cursor == PageCursor::Grab,
        icon_of(cursor) == CursorIcon::Grabbing <==> cursor == PageCursor::Grabbing,
        icon_of(cursor) == CursorIcon::AllScroll <==> cursor == PageCursor::AllScroll,
        icon_of(cursor) == CursorIcon::ZoomIn <==> cursor == PageCursor::ZoomIn,
        icon_of(cursor) == CursorIcon::ZoomOut <==> cursor == PageCursor::ZoomOut,
        icon_of(cursor) == CursorIcon::PointingHand <==> cursor == PageCursor::Pointer,
        icon_of(cursor) == CursorIcon::ResizeHorizontal <==> cursor == PageCursor::EwResize,
        icon_of(cursor) == CursorIcon::ResizeVertical <==> cursor == PageCursor::NsResize,
        icon_of(cursor) == CursorIcon::ResizeNeSw <==> cursor == PageCursor::NeswResize,
        icon_of(cursor) == CursorIcon::ResizeNwSe <==> cursor == PageCursor::NwseResize,
        icon_of(cursor) == CursorIcon::ResizeColumn <==> cursor == PageCursor::ColResize,
        icon_of(cursor) == CursorIcon::ResizeRow <==> cursor == PageCursor::RowResize,
{
}

} // verus!
