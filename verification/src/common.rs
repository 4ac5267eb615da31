//! The OS-independent vocabulary of mouse input, the `MouseActions`
//! capability trait that every backend satisfies, and the composite
//! operations built from the trait's primitives.

use crate::error::Error;
use vstd::prelude::*;

verus! {

/// Identifies one registered callback so it can be removed later.
///
/// Unique only among the callbacks currently registered on one backend
/// instance; an id is reused after its callback is removed.
pub type CallbackId = u8;

/// The closed set of mouse buttons a backend can press and release.
#[derive(Debug, Copy, Clone, PartialEq, Eq, Structural)]
pub enum MouseButton {
    Left,
    Middle,
    Right,
}

/// The closed set of directions of one discrete scroll-wheel tick.
#[derive(Debug, Copy, Clone, PartialEq, Eq, Structural)]
pub enum ScrollDirection {
    Up,
    Down,
    Right,
    Left,
}

/// One observed or synthesized mouse event.
///
/// Coordinates are signed because some platforms report negative values on
/// multi-monitor setups with a monitor left of or above the primary one.
#[derive(Debug, Copy, Clone, PartialEq, Eq, Structural)]
pub enum MouseEvent {
    RelativeMove(i32, i32),
    AbsoluteMove(i32, i32),
    Press(MouseButton),
    Release(MouseButton),
    Scroll(ScrollDirection),
}

/// Where a requested coordinate ends up on an axis of `limit` pixels:
/// the platform clamps a request past the edge to the last pixel.
pub open spec fn clamp_axis(v: usize, limit: i32) -> i32 {
    if v as int >= limit as int {
        (limit - 1) as i32
    } else {
        v as i32
    }
}

/// The ids in `s` appear in strictly ascending order (hence each at most once).
pub open spec fn ascending(s: Seq<CallbackId>) -> bool {
    forall|i: int, j: int| 0 <= i < j < s.len() ==> s[i] < s[j]
}

/// The capability contract every backend satisfies.
///
/// A backend owns a virtual or physical screen, a pointer position on it, a
/// stream of events it has synthesized, and a registry of event callbacks.
/// The type parameter `C` is the callback type a caller registers through
/// [`MouseActions::hook`]; each callback is owned by the backend and must be
/// invokable on any event.
///
/// Composite operations (relative move, click, delayed click) are not part
/// of the trait: they are the free functions [`move_relative`],
/// [`click_button`] and [`click_button_delayed`], built from these
/// primitives, so a backend only supplies the primitives.
pub trait MouseActions<C>: Sized where C: Fn(MouseEvent) {
    /// Well-formedness of the backend's abstract state; every operation
    /// preserves it.
    spec fn inv(&self) -> bool;

    /// Width of the screen in pixels.
    spec fn screen_w(&self) -> i32;

    /// Height of the screen in pixels.
    spec fn screen_h(&self) -> i32;

    /// Whether this backend can report the pointer position. False on
    /// platforms whose display protocol forbids global position queries.
    spec fn position_supported(&self) -> bool;

    /// Horizontal pointer position.
    spec fn pos_x(&self) -> i32;

    /// Vertical pointer position.
    spec fn pos_y(&self) -> i32;

    /// Every event this backend has synthesized, oldest first.
    spec fn events(&self) -> Seq<MouseEvent>;

    /// The ids of the currently registered callbacks, in ascending order.
    spec fn hooked(&self) -> Seq<CallbackId>;

    /// Whether injection on this backend always succeeds. True of an
    /// emulated device; a real platform may refuse an injection call, and
    /// such a backend answers false.
    spec fn injection_infallible(&self) -> bool;

    /// The events handed to the callback registered under `id` since it
    /// was hooked, oldest first.
    spec fn delivered(&self, id: CallbackId) -> Seq<MouseEvent>;

    /// What well-formedness guarantees: a positive screen, a pointer on it,
    /// and distinct callback ids.
    proof fn inv_facts(&self)
        requires
            self.inv(),
        ensures
            1 <= self.screen_w(),
            1 <= self.screen_h(),
            0 <= self.pos_x() < self.screen_w(),
            0 <= self.pos_y() < self.screen_h(),
            ascending(self.hooked()),
    ;

    /// Move the pointer to the given absolute coordinates. The platform
    /// clamps a request past a screen edge to the last pixel of that axis,
    /// and the move is synthesized as one `AbsoluteMove` event, delivered
    /// to every registered callback.
    fn move_to(&mut self, x: usize, y: usize) -> (r: Result<(), Error>)
        requires
            old(self).inv(),
        ensures
            final(self).inv(),
            final(self).screen_w() == old(self).screen_w(),
            final(self).screen_h() == old(self).screen_h(),
            final(self).position_supported() == old(self).position_supported(),
            final(self).hooked() == old(self).hooked(),
            final(self).injection_infallible() == old(self).injection_infallible(),
            old(self).injection_infallible() ==> r is Ok,
            r is Ok ==> {
                &&& final(self).pos_x() == clamp_axis(x, old(self).screen_w())
                &&& final(self).pos_y() == clamp_axis(y, old(self).screen_h())
                &&& final(self).events() == old(self).events().push(
                    MouseEvent::AbsoluteMove(
                        clamp_axis(x, old(self).screen_w()),
                        clamp_axis(y, old(self).screen_h()),
                    ),
                )
                &&& forall|id: CallbackId| #[trigger]
                    old(self).hooked().contains(id) ==> final(self).delivered(id) == old(
                        self,
                    ).delivered(id).push(
                        MouseEvent::AbsoluteMove(
                            clamp_axis(x, old(self).screen_w()),
                            clamp_axis(y, old(self).screen_h()),
                        ),
                    )
            },
            r is Err ==> {
                &&& r == Err::<(), Error>(Error::InjectionFailed)
                &&& final(self).pos_x() == old(self).pos_x()
                &&& final(self).pos_y() == old(self).pos_y()
                &&& final(self).events() == old(self).events()
                &&& forall|id: CallbackId| #[trigger]
                    old(self).hooked().contains(id) ==> final(self).delivered(id) == old(
                        self,
                    ).delivered(id)
            },
    ;

    /// Report the current pointer position, or `NotImplemented` on a
    /// backend that cannot query it. Whether queries are supported never
    /// changes over a backend's lifetime, so the answer is either always a
    /// position or always `NotImplemented`; right after a successful
    /// `move_to` within the screen it is exactly the requested point.
    fn get_position(&self) -> (r: Result<(i32, i32), Error>)
        requires
            self.inv(),
        ensures
            self.position_supported() ==> r == Ok::<(i32, i32), Error>(
                (self.pos_x(), self.pos_y()),
            ),
            !self.position_supported() ==> r == Err::<(i32, i32), Error>(Error::NotImplemented),
    ;

    /// Synthesize pressing the given button down.
    fn press_button(&mut self, button: &MouseButton) -> (r: Result<(), Error>)
        requires
            old(self).inv(),
        ensures
            final(self).inv(),
            final(self).screen_w() == old(self).screen_w(),
            final(self).screen_h() == old(self).screen_h(),
            final(self).position_supported() == old(self).position_supported(),
            final(self).pos_x() == old(self).pos_x(),
            final(self).pos_y() == old(self).pos_y(),
            final(self).hooked() == old(self).hooked(),
            final(self).injection_infallible() == old(self).injection_infallible(),
            old(self).injection_infallible() ==> r is Ok,
            r is Ok ==> {
                &&& final(self).events() == old(self).events().push(MouseEvent::Press(*button))
                &&& forall|id: CallbackId| #[trigger]
                    old(self).hooked().contains(id) ==> final(self).delivered(id) == old(
                        self,
                    ).delivered(id).push(MouseEvent::Press(*button))
            },
            r is Err ==> {
                &&& r == Err::<(), Error>(Error::InjectionFailed)
                &&& final(self).events() == old(self).events()
                &&& forall|id: CallbackId| #[trigger]
                    old(self).hooked().contains(id) ==> final(self).delivered(id) == old(
                        self,
                    ).delivered(id)
            },
    ;

    /// Synthesize releasing the given button.
    fn release_button(&mut self, button: &MouseButton) -> (r: Result<(), Error>)
        requires
            old(self).inv(),
        ensures
            final(self).inv(),
            final(self).screen_w() == old(self).screen_w(),
            final(self).screen_h() == old(self).screen_h(),
            final(self).position_supported() == old(self).position_supported(),
            final(self).pos_x() == old(self).pos_x(),
            final(self).pos_y() == old(self).pos_y(),
            final(self).hooked() == old(self).hooked(),
            final(self).injection_infallible() == old(self).injection_infallible(),
            old(self).injection_infallible() ==> r is Ok,
            r is Ok ==> {
                &&& final(self).events() == old(self).events().push(MouseEvent::Release(*button))
                &&& forall|id: CallbackId| #[trigger]
                    old(self).hooked().contains(id) ==> final(self).delivered(id) == old(
                        self,
                    ).delivered(id).push(MouseEvent::Release(*button))
            },
            r is Err ==> {
                &&& r == Err::<(), Error>(Error::InjectionFailed)
                &&& final(self).events() == old(self).events()
                &&& forall|id: CallbackId| #[trigger]
                    old(self).hooked().contains(id) ==> final(self).delivered(id) == old(
                        self,
                    ).delivered(id)
            },
    ;

    /// Synthesize one discrete scroll tick in the given direction.
    fn scroll_wheel(&mut self, direction: &ScrollDirection) -> (r: Result<(), Error>)
        requires
            old(self).inv(),
        ensures
            final(self).inv(),
            final(self).screen_w() == old(self).screen_w(),
            final(self).screen_h() == old(self).screen_h(),
            final(self).position_supported() == old(self).position_supported(),
            final(self).pos_x() == old(self).pos_x(),
            final(self).pos_y() == old(self).pos_y(),
            final(self).hooked() == old(self).hooked(),
            final(self).injection_infallible() == old(self).injection_infallible(),
            old(self).injection_infallible() ==> r is Ok,
            r is Ok ==> {
                &&& final(self).events() == old(self).events().push(MouseEvent::Scroll(*direction))
                &&& forall|id: CallbackId| #[trigger]
                    old(self).hooked().contains(id) ==> final(self).delivered(id) == old(
                        self,
                    ).delivered(id).push(MouseEvent::Scroll(*direction))
            },
            r is Err ==> {
                &&& r == Err::<(), Error>(Error::InjectionFailed)
                &&& final(self).events() == old(self).events()
                &&& forall|id: CallbackId| #[trigger]
                    old(self).hooked().contains(id) ==> final(self).delivered(id) == old(
                        self,
                    ).delivered(id)
            },
    ;

    /// Register an owned callback; on success it returns a fresh id, the
    /// smallest one not currently in use, with an empty delivery record:
    /// a callback only receives events synthesized after it was hooked.
    /// Fails with `PermissionDenied` where system-wide hooking needs a
    /// privilege the process lacks, and must fail once the full id range
    /// is registered.
    fn hook(&mut self, callback: C) -> (r: Result<CallbackId, Error>)
        requires
            old(self).inv(),
            forall|e: MouseEvent| call_requires(callback, (e,)),
        ensures
            final(self).inv(),
            final(self).screen_w() == old(self).screen_w(),
            final(self).screen_h() == old(self).screen_h(),
            final(self).position_supported() == old(self).position_supported(),
            final(self).pos_x() == old(self).pos_x(),
            final(self).pos_y() == old(self).pos_y(),
            final(self).events() == old(self).events(),
            final(self).injection_infallible() == old(self).injection_infallible(),
            r matches Ok(id) ==> {
                &&& !old(self).hooked().contains(id)
                &&& forall|j: CallbackId| j < id ==> old(self).hooked().contains(j)
                &&& final(self).hooked() == old(self).hooked().insert(id as int, id)
                &&& final(self).delivered(id) == Seq::<MouseEvent>::empty()
            },
            forall|id2: CallbackId| #[trigger]
                old(self).hooked().contains(id2) ==> final(self).delivered(id2) == old(
                    self,
                ).delivered(id2),
            r is Err ==> {
                &&& final(self).hooked() == old(self).hooked()
                &&& (r == Err::<CallbackId, Error>(Error::PermissionDenied) || r == Err::<
                    CallbackId,
                    Error,
                >(Error::CallbackLimitReached))
            },
            old(self).hooked().len() == 256 ==> r is Err,
    ;

    /// Remove the callback registered under the given id; exactly the ids
    /// currently registered can be removed, anything else is `UnhookFailed`.
    fn unhook(&mut self, callback_id: CallbackId) -> (r: Result<(), Error>)
        requires
            old(self).inv(),
        ensures
            final(self).inv(),
            final(self).screen_w() == old(self).screen_w(),
            final(self).screen_h() == old(self).screen_h(),
            final(self).position_supported() == old(self).position_supported(),
            final(self).pos_x() == old(self).pos_x(),
            final(self).pos_y() == old(self).pos_y(),
            final(self).events() == old(self).events(),
            final(self).injection_infallible() == old(self).injection_infallible(),
            forall|id2: CallbackId|
                id2 != callback_id && #[trigger] old(self).hooked().contains(id2)
                    ==> final(self).delivered(id2) == old(self).delivered(id2),
            old(self).hooked().contains(callback_id) ==> {
                &&& r == Ok::<(), Error>(())
                &&& exists|k: int|
                    {
                        &&& 0 <= k < old(self).hooked().len()
                        &&& old(self).hooked()[k] == callback_id
                        &&& final(self).hooked() == old(self).hooked().remove(k)
                    }
            },
            !old(self).hooked().contains(callback_id) ==> {
                &&& r == Err::<(), Error>(Error::UnhookFailed)
                &&& final(self).hooked() == old(self).hooked()
            },
    ;

    /// Remove every registered callback. Always succeeds, so running it
    /// twice in a row succeeds both times and leaves the registry empty
    /// after each call.
    fn unhook_all(&mut self) -> (r: Result<(), Error>)
        requires
            old(self).inv(),
        ensures
            final(self).inv(),
            final(self).screen_w() == old(self).screen_w(),
            final(self).screen_h() == old(self).screen_h(),
            final(self).position_supported() == old(self).position_supported(),
            final(self).pos_x() == old(self).pos_x(),
            final(self).pos_y() == old(self).pos_y(),
            final(self).events() == old(self).events(),
            final(self).injection_infallible() == old(self).injection_infallible(),
            r == Ok::<(), Error>(()),
            final(self).hooked() == Seq::<CallbackId>::empty(),
    ;
}

/// A way to block the calling thread, supplied by the embedding program
/// (nothing in this crate sleeps by itself). Best effort: no exactness of
/// the pause is promised or relied on.
pub trait Sleeper {
    /// Block the calling thread for roughly the given duration.
    fn sleep(&mut self, duration: core::time::Duration);
}

/// Between the states `pre` and `post`, every callback registered in `pre`
/// received nothing.
pub open spec fn delivered_unchanged<C: Fn(MouseEvent), M: MouseActions<C>>(
    pre: M,
    post: M,
) -> bool {
    forall|id: CallbackId| #[trigger]
        pre.hooked().contains(id) ==> post.delivered(id) == pre.delivered(id)
}

/// Between the states `pre` and `post`, every callback registered in `pre`
/// received exactly the event `e`.
pub open spec fn delivered_event<C: Fn(MouseEvent), M: MouseActions<C>>(
    pre: M,
    post: M,
    e: MouseEvent,
) -> bool {
    forall|id: CallbackId| #[trigger]
        pre.hooked().contains(id) ==> post.delivered(id) == pre.delivered(id).push(e)
}

/// Between the states `pre` and `post`, every callback registered in `pre`
/// received exactly the event `e1` and then the event `e2`, in that order.
pub open spec fn delivered_two_events<C: Fn(MouseEvent), M: MouseActions<C>>(
    pre: M,
    post: M,
    e1: MouseEvent,
    e2: MouseEvent,
) -> bool {
    forall|id: CallbackId| #[trigger]
        pre.hooked().contains(id) ==> post.delivered(id) == pre.delivered(id).push(e1).push(e2)
}

/// Move the pointer relative to its current position: read the position,
/// then move to it plus the offset. Not atomic; an external move between
/// the two steps shifts the result with it, which is accepted behavior.
///
/// When the target stays within the screen the pointer lands exactly at
/// the old position plus the offset. The move is one `AbsoluteMove`
/// event, delivered once to every registered callback; on a backend that
/// answers position queries and whose injection cannot fail the move
/// succeeds.
pub fn move_relative<C: Fn(MouseEvent), M: MouseActions<C>>(
    mouse: &mut M,
    x_offset: i32,
    y_offset: i32,
) -> (r: Result<(), Error>)
    requires
        old(mouse).inv(),
        old(mouse).position_supported() ==> 0 <= old(mouse).pos_x() + x_offset <= i32::MAX,
        old(mouse).position_supported() ==> 0 <= old(mouse).pos_y() + y_offset <= i32::MAX,
    ensures
        final(mouse).inv(),
        final(mouse).screen_w() == old(mouse).screen_w(),
        final(mouse).screen_h() == old(mouse).screen_h(),
        final(mouse).position_supported() == old(mouse).position_supported(),
        final(mouse).hooked() == old(mouse).hooked(),
        final(mouse).injection_infallible() == old(mouse).injection_infallible(),
        (old(mouse).position_supported() && old(mouse).injection_infallible()) ==> r is Ok,
        !old(mouse).position_supported() ==> {
            &&& r == Err::<(), Error>(Error::NotImplemented)
            &&& final(mouse).pos_x() == old(mouse).pos_x()
            &&& final(mouse).pos_y() == old(mouse).pos_y()
            &&& final(mouse).events() == old(mouse).events()
            &&& delivered_unchanged(*old(mouse), *final(mouse))
        },
        old(mouse).position_supported() && r is Ok ==> {
            &&& final(mouse).pos_x() == clamp_axis(
                (old(mouse).pos_x() + x_offset) as usize,
                old(mouse).screen_w(),
            )
            &&& final(mouse).pos_y() == clamp_axis(
                (old(mouse).pos_y() + y_offset) as usize,
                old(mouse).screen_h(),
            )
            &&& final(mouse).events() == old(mouse).events().push(
                MouseEvent::AbsoluteMove(final(mouse).pos_x(), final(mouse).pos_y()),
            )
            &&& delivered_event(
                *old(mouse),
                *final(mouse),
                MouseEvent::AbsoluteMove(final(mouse).pos_x(), final(mouse).pos_y()),
            )
        },
        old(mouse).position_supported() && r is Err ==> {
            &&& r == Err::<(), Error>(Error::InjectionFailed)
            &&& final(mouse).pos_x() == old(mouse).pos_x()
            &&& final(mouse).pos_y() == old(mouse).pos_y()
            &&& final(mouse).events() == old(mouse).events()
            &&& delivered_unchanged(*old(mouse), *final(mouse))
        },
        (old(mouse).position_supported() && r is Ok && old(mouse).pos_x() + x_offset < old(
            mouse,
        ).screen_w() && old(mouse).pos_y() + y_offset < old(mouse).screen_h()) ==> {
            &&& final(mouse).pos_x() == old(mouse).pos_x() + x_offset
            &&& final(mouse).pos_y() == old(mouse).pos_y() + y_offset
        },
{
    proof {
        mouse.inv_facts();
    }
    match mouse.get_position() {
        Ok((x, y)) => {
            let nx = x + x_offset;
            let ny = y + y_offset;
            mouse.move_to(nx as usize, ny as usize)
        },
        Err(e) => Err(e),
    }
}

/// Click the given button: press it, then release it, with no delay
/// in between.
///
/// Observationally this is `press_button` followed immediately by
/// `release_button`: on success the backend synthesizes exactly the press
/// event and then the release event, each delivered once to every
/// registered callback, and nothing else changes. On a backend whose
/// injection cannot fail the click succeeds.
pub fn click_button<C: Fn(MouseEvent), M: MouseActions<C>>(
    mouse: &mut M,
    button: &MouseButton,
) -> (r: Result<(), Error>)
    requires
        old(mouse).inv(),
    ensures
        final(mouse).inv(),
        final(mouse).screen_w() == old(mouse).screen_w(),
        final(mouse).screen_h() == old(mouse).screen_h(),
        final(mouse).position_supported() == old(mouse).position_supported(),
        final(mouse).pos_x() == old(mouse).pos_x(),
        final(mouse).pos_y() == old(mouse).pos_y(),
        final(mouse).hooked() == old(mouse).hooked(),
        final(mouse).injection_infallible() == old(mouse).injection_infallible(),
        old(mouse).injection_infallible() ==> r is Ok,
        r is Ok ==> {
            &&& final(mouse).events() == old(mouse).events().push(
                MouseEvent::Press(*button),
            ).push(MouseEvent::Release(*button))
            &&& delivered_two_events(
                *old(mouse),
                *final(mouse),
                MouseEvent::Press(*button),
                MouseEvent::Release(*button),
            )
        },
        r is Err ==> {
            &&& r == Err::<(), Error>(Error::InjectionFailed)
            &&& ((final(mouse).events() == old(mouse).events() && delivered_unchanged(
                *old(mouse),
                *final(mouse),
            )) || (final(mouse).events() == old(mouse).events().push(MouseEvent::Press(*button))
                && delivered_event(*old(mouse), *final(mouse), MouseEvent::Press(*button))))
        },
{
    let ghost m0 = *mouse;
    let pressed = mouse.press_button(button);
    match pressed {
        Ok(()) => {
            let ghost m1 = *mouse;
            let released = mouse.release_button(button);
            proof {
                // Chain the per-call delivery facts: the press reached every
                // callback registered at the start, the release attempt
                // extended each record exactly when it succeeded.
                if released is Ok {
                    assert forall|id: CallbackId| #[trigger]
                        m0.hooked().contains(id) implies mouse.delivered(id) == m0.delivered(
                        id,
                    ).push(MouseEvent::Press(*button)).push(MouseEvent::Release(*button)) by {
                        assert(m1.hooked().contains(id));
                        assert(m1.delivered(id) == m0.delivered(id).push(
                            MouseEvent::Press(*button),
                        ));
                    }
                } else {
                    assert forall|id: CallbackId| #[trigger]
                        m0.hooked().contains(id) implies mouse.delivered(id) == m0.delivered(
                        id,
                    ).push(MouseEvent::Press(*button)) by {
                        assert(m1.hooked().contains(id));
                    }
                }
            }
            released
        },
        Err(e) => Err(e),
    }
}

/// Click the given button with an optional pause before pressing and an
/// optional pause between pressing and releasing. The pauses block the
/// calling thread through the given [`Sleeper`]; the synthesized events
/// are exactly those of [`click_button`].
pub fn click_button_delayed<C: Fn(MouseEvent), M: MouseActions<C>, S: Sleeper>(
    mouse: &mut M,
    sleeper: &mut S,
    button: &MouseButton,
    press_delay: Option<core::time::Duration>,
    release_delay: Option<core::time::Duration>,
) -> (r: Result<(), Error>)
    requires
        old(mouse).inv(),
    ensures
        final(mouse).inv(),
        final(mouse).screen_w() == old(mouse).screen_w(),
        final(mouse).screen_h() == old(mouse).screen_h(),
        final(mouse).position_supported() == old(mouse).position_supported(),
        final(mouse).pos_x() == old(mouse).pos_x(),
        final(mouse).pos_y() == old(mouse).pos_y(),
        final(mouse).hooked() == old(mouse).hooked(),
        final(mouse).injection_infallible() == old(mouse).injection_infallible(),
        old(mouse).injection_infallible() ==> r is Ok,
        r is Ok ==> {
            &&& final(mouse).events() == old(mouse).events().push(
                MouseEvent::Press(*button),
            ).push(MouseEvent::Release(*button))
            &&& delivered_two_events(
                *old(mouse),
                *final(mouse),
                MouseEvent::Press(*button),
                MouseEvent::Release(*button),
            )
        },
        r is Err ==> {
            &&& r == Err::<(), Error>(Error::InjectionFailed)
            &&& ((final(mouse).events() == old(mouse).events() && delivered_unchanged(
                *old(mouse),
                *final(mouse),
            )) || (final(mouse).events() == old(mouse).events().push(MouseEvent::Press(*button))
                && delivered_event(*old(mouse), *final(mouse), MouseEvent::Press(*button))))
        },
{
    if let Some(delay) = press_delay {
        sleeper.sleep(delay);
    }
    let ghost m0 = *mouse;
    let pressed = mouse.press_button(button);
    match pressed {
        Ok(()) => {
            if let Some(delay) = release_delay {
                sleeper.sleep(delay);
            }
            let ghost m1 = *mouse;
            let released = mouse.release_button(button);
            proof {
                // As in `click_button`: chain the press delivery with the
                // outcome of the release attempt.
                if released is Ok {
                    assert forall|id: CallbackId| #[trigger]
                        m0.hooked().contains(id) implies mouse.delivered(id) == m0.delivered(
                        id,
                    ).push(MouseEvent::Press(*button)).push(MouseEvent::Release(*button)) by {
                        assert(m1.hooked().contains(id));
                        assert(m1.delivered(id) == m0.delivered(id).push(
                            MouseEvent::Press(*button),
                        ));
                    }
                } else {
                    assert forall|id: CallbackId| #[trigger]
                        m0.hooked().contains(id) implies mouse.delivered(id) == m0.delivered(
                        id,
                    ).push(MouseEvent::Press(*button)) by {
                        assert(m1.hooked().contains(id));
                    }
                }
            }
            released
        },
        Err(e) => Err(e),
    }
}

} // verus!
