use vstd::prelude::*;

verus! {

/// The kinds of host events a view can listen for.
#[derive(Clone, Copy, Debug, PartialEq, Eq, Structural)]
pub enum EventType {
    Click,
    DoubleClick,
    MouseDown,
    MouseUp,
    MouseEnter,
    MouseLeave,
    MouseOver,
    MouseOut,
    Input,
    Submit,
    Blur,
    Focus,
}

/// The host's name for each kind of event.
pub open spec fn event_name(e: EventType) -> Seq<char> {
    match e {
        EventType::Click => "click"@,
        EventType::DoubleClick => "dblclick"@,
        EventType::MouseDown => "mousedown"@,
        EventType::MouseUp => "mouseup"@,
        EventType::MouseEnter => "mouseenter"@,
        EventType::MouseLeave => "mouseleave"@,
        EventType::MouseOver => "mouseover"@,
        EventType::MouseOut => "mouseout"@,
        EventType::Input => "input"@,
        EventType::Submit => "submit"@,
        EventType::Blur => "blur"@,
        EventType::Focus => "focus"@,
    }
}

impl EventType {
    /// The name under which the host dispatches this event.
    pub fn name(&self) -> (r: &'static str)
        ensures
            r@ == event_name(*self),
    {
        match *self {
            EventType::Click => "click",
            EventType::DoubleClick => "dblclick",
            EventType::MouseDown => "mousedown",
            EventType::MouseUp => "mouseup",
            EventType::MouseEnter => "mouseenter",
            EventType::MouseLeave => "mouseleave",
            EventType::MouseOver => "mouseover",
            EventType::MouseOut => "mouseout",
            EventType::Input => "input",
            EventType::Submit => "submit",
            EventType::Blur => "blur",
            EventType::Focus => "focus",
        }
    }
}

} // verus!
