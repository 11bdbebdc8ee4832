//! A session: what is kept between the frames of one window, and what one frame does.
//!
//! The host polls its window and hands over what happened. A frame first takes note of
//! that, then draws the scene into the window's zone, and last sends a click to the
//! components under the pointer.

use crate::hooks::Hooks;
use crate::scalar::{Scalar, UNIT};
use crate::scene::{hits, layers_draw, Event, MouseButton, Scene, SceneView};
use crate::zone::{rect, DrawZone, Vec2};
use vstd::prelude::*;

verus! {

/// Something that happened at the window.
#[derive(Clone, Copy, Debug, PartialEq, Eq, Structural)]
pub enum WindowEvent {
    /// The window was closed.
    Closed,
    /// The window has a new width and height.
    Resized(u32, u32),
    /// The pointer moved to a point.
    CursorMoved(Scalar, Scalar),
    /// A button went down (`true`) or up.
    MouseInput(MouseButton, bool),
    /// Anything else.
    Other,
}

/// What is kept from frame to frame: where the pointer was last seen.
#[derive(Clone, Copy, Debug, PartialEq, Eq, Structural)]
pub struct Session {
    pub m_x: Scalar,
    pub m_y: Scalar,
}

/// What the events of one frame come to.
#[derive(Clone, Copy, Debug, PartialEq, Eq)]
pub struct Polled {
    /// Where the pointer is now.
    pub session: Session,
    /// Whether the window was closed.
    pub quit: bool,
    /// The last size that the window was given.
    pub resized: Option<(u32, u32)>,
    /// The button that went down last.
    pub m_pressed: Option<MouseButton>,
}

/// What one frame did.
#[derive(Debug, PartialEq, Eq)]
pub struct Frame {
    /// The last size that the window was given in this frame.
    pub resized: Option<(u32, u32)>,
    /// The click of this frame, and the places of the components that it reached.
    pub clicked: Option<(Event, Vec<usize>)>,
}

/// The model of what one frame did.
pub struct FrameView {
    pub resized: Option<(u32, u32)>,
    pub clicked: Option<(Event, Seq<usize>)>,
}

impl View for Frame {
    type V = FrameView;

    open spec fn view(&self) -> FrameView {
        FrameView {
            resized: self.resized,
            clicked: match self.clicked {
                Some((event, found)) => Some((event, found@)),
                None => None,
            },
        }
    }
}

/// What the first `upto` events come to, for a session that starts as `session`.
pub open spec fn polled(session: Session, events: Seq<WindowEvent>, upto: int) -> Polled
    decreases upto,
{
    if upto <= 0 {
        Polled { session, quit: false, resized: None, m_pressed: None }
    } else {
        let before = polled(session, events, upto - 1);
        match events[upto - 1] {
            WindowEvent::Closed => Polled { quit: true, ..before },
            WindowEvent::Resized(w, h) => Polled { resized: Some((w, h)), ..before },
            WindowEvent::CursorMoved(x, y) => Polled { session: Session { m_x: x, m_y: y }, ..before },
            WindowEvent::MouseInput(button, pressed) => if pressed {
                Polled { m_pressed: Some(button), ..before }
            } else {
                before
            },
            WindowEvent::Other => before,
        }
    }
}

/// The zone of a window of the given width and height: from the origin to its far corner.
pub open spec fn window_zone(width: u32, height: u32) -> DrawZone {
    rect(
        Vec2 { x: Scalar::of(0), y: Scalar::of(0) },
        Vec2 { x: Scalar::of(width * UNIT), y: Scalar::of(height * UNIT) },
    )
}

impl Session {
    /// A session whose pointer stands at the origin.
    pub fn new() -> (r: Session)
        ensures
            r == (Session { m_x: Scalar::of(0), m_y: Scalar::of(0) }),
    {
        Session { m_x: Scalar::zero(), m_y: Scalar::zero() }
    }

    /// Takes note of what happened at the window since the last frame.
    pub fn poll_events(&mut self, events: &Vec<WindowEvent>) -> (r: Polled)
        ensures
            r == polled(*old(self), events@, events@.len() as int),
            *final(self) == r.session,
    {
        let mut state = Polled { session: *self, quit: false, resized: None, m_pressed: None };
        let mut i: usize = 0;
        while i < events.len()
            invariant
                i <= events.len(),
                state == polled(*old(self), events@, i as int),
            decreases events.len() - i,
        {
            match events[i] {
                WindowEvent::Closed => {
                    state.quit = true;
                },
                WindowEvent::Resized(w, h) => {
                    state.resized = Some((w, h));
                },
                WindowEvent::CursorMoved(x, y) => {
                    state.session = Session { m_x: x, m_y: y };
                },
                WindowEvent::MouseInput(button, pressed) => {
                    if pressed {
                        state.m_pressed = Some(button);
                    }
                },
                WindowEvent::Other => {},
            }
            i = i + 1;
        }
        *self = state.session;
        state
    }

    /// Does one frame: takes note of the events, draws the scene into a window of the given
    /// size, and sends the last press of a button, if there was one, as a click at the
    /// pointer to every component under it. Where the window was closed, nothing is drawn
    /// and there is no frame.
    pub fn draw_inner(
        &mut self,
        scene: &mut Scene,
        events: &Vec<WindowEvent>,
        width: u32,
        height: u32,
        hooks: &Hooks,
    ) -> (r: Option<Frame>)
        requires
            old(scene).well_formed(),
        ensures
            final(scene).well_formed(),
            *final(self) == polled(*old(self), events@, events@.len() as int).session,
            polled(*old(self), events@, events@.len() as int).quit ==> r is None && final(scene)@ == old(scene)@,
            !polled(*old(self), events@, events@.len() as int).quit ==> {
                &&& final(scene)@ == (SceneView {
                    components: layers_draw(
                        old(scene)@.components,
                        old(scene)@.layers,
                        hooks@,
                        window_zone(width, height),
                        old(scene)@.layers.len() as int,
                    ),
                    layers: old(scene)@.layers,
                })
                &&& r matches Some(frame)
                &&& frame@.resized == polled(*old(self), events@, events@.len() as int).resized
                &&& frame@.clicked == match polled(*old(self), events@, events@.len() as int).m_pressed {
                    Some(button) => Some(
                        (
                            Event::MouseClick(final(self).m_x, final(self).m_y, button),
                            hits(final(scene)@, final(self).m_x, final(self).m_y, final(scene)@.layers.len() as int),
                        ),
                    ),
                    None => None,
                }
            },
    {
        let state = self.poll_events(events);
        if state.quit {
            return None;
        }
        let zone = DrawZone::from_rect(
            Vec2 { x: Scalar::zero(), y: Scalar::zero() },
            Vec2 { x: Scalar::from_count(width as usize), y: Scalar::from_count(height as usize) },
        );
        scene.draw(zone, hooks);
        let clicked = match state.m_pressed {
            Some(button) => {
                let event = Event::MouseClick(self.m_x, self.m_y, button);
                let found = scene.handle_event(&event);
                Some((event, found))
            },
            None => None,
        };
        Some(Frame { resized: state.resized, clicked })
    }
}

} // verus!
