//! An in-memory backend: a virtual screen with a pointer on it.
//!
//! The backend satisfies the full [`MouseActions`] contract without touching
//! any operating system. Every synthesized action is also reported to the
//! hook subsystem at once, as on a platform whose hook mechanism observes
//! injected events: each action appends one event to the backend's stream
//! and hands it to every registered callback, in ascending-id order. That
//! makes the backend a drop-in device for automation tests and a reference
//! for what an OS backend must guarantee.

use crate::common::{
    clamp_axis, CallbackId, MouseActions, MouseButton, MouseEvent, ScrollDirection,
};
use crate::error::Error;
use crate::registry::{ids_of, CallbackRegistry};
use vstd::prelude::*;

verus! {

/// Pushing then skipping commute: dropping a prefix of a sequence keeps a
/// freshly pushed last element.
proof fn lemma_push_skip<A>(s: Seq<A>, e: A, k: int)
    requires
        0 <= k <= s.len(),
    ensures
        s.push(e).skip(k) == s.skip(k).push(e),
{
    assert(s.push(e).skip(k) =~= s.skip(k).push(e));
}

/// The emulated mouse: a pointer on a virtual screen, plus the callback
/// registry and the event stream of its hook subsystem.
///
/// The two restriction flags let the backend emulate platforms that cannot
/// answer position queries or refuse unprivileged hooking, so callers can
/// exercise both expected failure modes of real backends.
pub struct Mouse<C> {
    screen_width: i32,
    screen_height: i32,
    x: i32,
    y: i32,
    can_report_position: bool,
    hook_allowed: bool,
    registry: CallbackRegistry<C>,
    /// Every event synthesized so far, oldest first.
    history: Ghost<Seq<MouseEvent>>,
    /// For each registered callback, how many events had already been
    /// synthesized when it was hooked; what it received is everything after.
    hooked_since: Ghost<Map<CallbackId, int>>,
}

/// The coordinate an axis request ends up at, clamped to the screen.
fn clamp_coord(v: usize, limit: i32) -> (r: i32)
    requires
        1 <= limit,
    ensures
        r == clamp_axis(v, limit),
        0 <= r < limit,
{
    if v >= limit as usize {
        limit - 1
    } else {
        v as i32
    }
}

impl<C: Fn(MouseEvent)> Mouse<C> {
    /// Whether this backend may install a system-wide hook.
    pub closed spec fn hook_permitted(&self) -> bool {
        self.hook_allowed
    }

    /// A fully capable emulated mouse on a 1920 by 1080 screen, with the
    /// pointer at the origin and no callbacks registered.
    pub fn new() -> (r: Self)
        ensures
            r.inv(),
            r.screen_w() == 1920,
            r.screen_h() == 1080,
            r.pos_x() == 0,
            r.pos_y() == 0,
            r.position_supported(),
            r.hook_permitted(),
            r.injection_infallible(),
            r.events() == Seq::<MouseEvent>::empty(),
            r.hooked() == Seq::<CallbackId>::empty(),
    {
        Self::with_options(1920, 1080, true, true)
    }

    /// An emulated mouse on a screen of the given size; the two flags
    /// select whether position queries are answered and whether hooking
    /// is permitted, emulating restricted platforms.
    pub fn with_options(
        width: i32,
        height: i32,
        report_position: bool,
        permit_hook: bool,
    ) -> (r: Self)
        requires
            1 <= width,
            1 <= height,
        ensures
            r.inv(),
            r.screen_w() == width,
            r.screen_h() == height,
            r.pos_x() == 0,
            r.pos_y() == 0,
            r.position_supported() == report_position,
            r.hook_permitted() == permit_hook,
            r.injection_infallible(),
            r.events() == Seq::<MouseEvent>::empty(),
            r.hooked() == Seq::<CallbackId>::empty(),
    {
        let r = Mouse {
            screen_width: width,
            screen_height: height,
            x: 0,
            y: 0,
            can_report_position: report_position,
            hook_allowed: permit_hook,
            registry: CallbackRegistry::new(),
            history: Ghost(Seq::empty()),
            hooked_since: Ghost(Map::empty()),
        };
        proof {
            assert(ids_of(r.registry@) =~= Seq::<CallbackId>::empty());
        }
        r
    }

    /// Append one synthesized event to the stream and hand it to every
    /// registered callback, in ascending-id order.
    fn emit(&mut self, event: MouseEvent)
        requires
            old(self).inv(),
        ensures
            final(self).inv(),
            final(self).x == old(self).x,
            final(self).y == old(self).y,
            final(self).screen_width == old(self).screen_width,
            final(self).screen_height == old(self).screen_height,
            final(self).can_report_position == old(self).can_report_position,
            final(self).hook_allowed == old(self).hook_allowed,
            final(self).registry@ == old(self).registry@,
            final(self).hooked_since@ == old(self).hooked_since@,
            final(self).history@ == old(self).history@.push(event),
            forall|id: CallbackId| #[trigger]
                old(self).hooked_since@.dom().contains(id) ==> final(self).delivered(id) == old(
                    self,
                ).delivered(id).push(event),
    {
        self.history = Ghost(self.history@.push(event));
        self.registry.invoke_all(event);
        proof {
            assert forall|id: CallbackId| #[trigger]
                old(self).hooked_since@.dom().contains(id) implies self.delivered(id) == old(
                self,
            ).delivered(id).push(event) by {
                lemma_push_skip(old(self).history@, event, old(self).hooked_since@[id]);
            }
        }
    }

    /// An id is registered exactly when the delivery bookkeeping knows it.
    proof fn lemma_hooked_is_dom(&self)
        requires
            self.inv(),
        ensures
            forall|id: CallbackId|
                self.hooked().contains(id) <==> #[trigger] self.hooked_since@.dom().contains(id),
    {
    }
}

impl<C: Fn(MouseEvent)> MouseActions<C> for Mouse<C> {
    closed spec fn inv(&self) -> bool {
        &&& 1 <= self.screen_width
        &&& 1 <= self.screen_height
        &&& 0 <= self.x < self.screen_width
        &&& 0 <= self.y < self.screen_height
        &&& self.registry.wf()
        &&& (forall|k: int, e: MouseEvent|
            0 <= k < self.registry@.len() ==> #[trigger] call_requires(
                self.registry@[k].1,
                (e,),
            ))
        &&& (forall|id: CallbackId|
            #![trigger self.hooked_since@.dom().contains(id)]
            #![trigger ids_of(self.registry@).contains(id)]
            self.hooked_since@.dom().contains(id) <==> ids_of(self.registry@).contains(id))
        &&& (forall|id: CallbackId|
            #[trigger] self.hooked_since@.dom().contains(id) ==> 0 <= self.hooked_since@[id]
                <= self.history@.len())
    }

    closed spec fn screen_w(&self) -> i32 {
        self.screen_width
    }

    closed spec fn screen_h(&self) -> i32 {
        self.screen_height
    }

    closed spec fn position_supported(&self) -> bool {
        self.can_report_position
    }

    closed spec fn pos_x(&self) -> i32 {
        self.x
    }

    closed spec fn pos_y(&self) -> i32 {
        self.y
    }

    closed spec fn events(&self) -> Seq<MouseEvent> {
        self.history@
    }

    closed spec fn hooked(&self) -> Seq<CallbackId> {
        ids_of(self.registry@)
    }

    closed spec fn injection_infallible(&self) -> bool {
        true
    }

    closed spec fn delivered(&self, id: CallbackId) -> Seq<MouseEvent> {
        self.history@.skip(self.hooked_since@[id])
    }

    proof fn inv_facts(&self) {
        assert forall|i: int, j: int|
            0 <= i < j < self.hooked().len() implies self.hooked()[i] < self.hooked()[j] by {
            assert(self.hooked()[i] == self.registry@[i].0);
            assert(self.hooked()[j] == self.registry@[j].0);
        }
    }

    /// Emulated injection always succeeds; what the trait promises of a
    /// successful move then always holds, delivery included.
    fn move_to(&mut self, x: usize, y: usize) -> (r: Result<(), Error>)
        ensures
            r is Ok,
            final(self).hook_permitted() == old(self).hook_permitted(),
    {
        let cx = clamp_coord(x, self.screen_width);
        let cy = clamp_coord(y, self.screen_height);
        self.x = cx;
        self.y = cy;
        self.emit(MouseEvent::AbsoluteMove(cx, cy));
        proof {
            old(self).lemma_hooked_is_dom();
        }
        Ok(())
    }

    fn get_position(&self) -> (r: Result<(i32, i32), Error>) {
        if self.can_report_position {
            Ok((self.x, self.y))
        } else {
            Err(Error::NotImplemented)
        }
    }

    /// Emulated injection always succeeds; what the trait promises of a
    /// successful press then always holds, delivery included.
    fn press_button(&mut self, button: &MouseButton) -> (r: Result<(), Error>)
        ensures
            r is Ok,
            final(self).hook_permitted() == old(self).hook_permitted(),
    {
        self.emit(MouseEvent::Press(*button));
        proof {
            old(self).lemma_hooked_is_dom();
        }
        Ok(())
    }

    /// Emulated injection always succeeds; what the trait promises of a
    /// successful release then always holds, delivery included.
    fn release_button(&mut self, button: &MouseButton) -> (r: Result<(), Error>)
        ensures
            r is Ok,
            final(self).hook_permitted() == old(self).hook_permitted(),
    {
        self.emit(MouseEvent::Release(*button));
        proof {
            old(self).lemma_hooked_is_dom();
        }
        Ok(())
    }

    /// Emulated injection always succeeds; what the trait promises of a
    /// successful scroll tick then always holds, delivery included.
    fn scroll_wheel(&mut self, direction: &ScrollDirection) -> (r: Result<(), Error>)
        ensures
            r is Ok,
            final(self).hook_permitted() == old(self).hook_permitted(),
    {
        self.emit(MouseEvent::Scroll(*direction));
        proof {
            old(self).lemma_hooked_is_dom();
        }
        Ok(())
    }

    /// Registration succeeds exactly when hooking is permitted and an id is
    /// free; a fresh callback starts with an empty delivery record and the
    /// records of the others are untouched.
    fn hook(&mut self, callback: C) -> (r: Result<CallbackId, Error>)
        ensures
            final(self).hook_permitted() == old(self).hook_permitted(),
            !old(self).hook_permitted() ==> r == Err::<CallbackId, Error>(Error::PermissionDenied),
            (old(self).hook_permitted() && old(self).hooked().len() < 256) ==> r is Ok,
            (old(self).hook_permitted() && old(self).hooked().len() == 256) ==> r == Err::<
                CallbackId,
                Error,
            >(Error::CallbackLimitReached),
    {
        if !self.hook_allowed {
            return Err(Error::PermissionDenied);
        }
        proof {
            self.registry.lemma_len_at_most_256();
        }
        let ghost pre = *self;
        let inserted = self.registry.insert(callback);
        match inserted {
            Some(id) => {
                self.hooked_since = Ghost(
                    self.hooked_since@.insert(id, self.history@.len() as int),
                );
                proof {
                    let rpre = pre.registry@;
                    let rpost = self.registry@;
                    rpre.insert_ensures(id as int, (id, callback));
                    ids_of(rpre).insert_ensures(id as int, id);
                    assert(ids_of(rpost) =~= ids_of(rpre).insert(id as int, id)) by {
                        assert forall|k: int| 0 <= k < ids_of(rpost).len() implies ids_of(rpost)[k]
                            == ids_of(rpre).insert(id as int, id)[k] by {
                            assert(ids_of(rpost)[k] == rpost[k].0);
                        }
                    }
                    // Membership in the new id sequence: the old ids plus `id`.
                    assert forall|id2: CallbackId| #[trigger]
                        ids_of(rpost).contains(id2) implies (ids_of(rpre).contains(id2) || id2
                        == id) by {
                        let k = choose|k: int|
                            0 <= k < ids_of(rpost).len() && ids_of(rpost)[k] == id2;
                        if k < id as int {
                            assert(ids_of(rpre)[k] == id2);
                        } else if k > id as int {
                            assert(ids_of(rpre)[k - 1] == id2);
                        }
                    }
                    assert forall|id2: CallbackId| #[trigger]
                        ids_of(rpre).contains(id2) implies ids_of(rpost).contains(id2) by {
                        let k = choose|k: int|
                            0 <= k < ids_of(rpre).len() && ids_of(rpre)[k] == id2;
                        if k < id as int {
                            assert(ids_of(rpost)[k] == id2);
                        } else {
                            assert(ids_of(rpost)[k + 1] == id2);
                        }
                    }
                    assert(ids_of(rpost)[id as int] == id);
                    assert(ids_of(rpost).contains(id));
                    // Every stored callback still accepts every event.
                    assert forall|k: int, e: MouseEvent|
                        0 <= k < rpost.len() implies #[trigger] call_requires(
                        rpost[k].1,
                        (e,),
                    ) by {
                        if k < id as int {
                            assert(rpost[k] == rpre[k]);
                        } else if k == id as int {
                            assert(rpost[k].1 == callback);
                        } else {
                            assert(rpost[k] == rpre[k - 1]);
                        }
                    }
                    // The new callback has seen nothing yet.
                    assert(self.history@.skip(self.history@.len() as int)
                        =~= Seq::<MouseEvent>::empty());
                    pre.lemma_hooked_is_dom();
                }
                Ok(id)
            },
            None => {
                Err(Error::CallbackLimitReached)
            },
        }
    }

    /// Exactly the currently registered ids can be removed; the delivery
    /// records of the remaining callbacks are untouched.
    fn unhook(&mut self, callback_id: CallbackId) -> (r: Result<(), Error>)
        ensures
            final(self).hook_permitted() == old(self).hook_permitted(),
    {
        let ghost pre = *self;
        let removed = self.registry.remove(callback_id);
        if removed {
            self.hooked_since = Ghost(self.hooked_since@.remove(callback_id));
            proof {
                let rpre = pre.registry@;
                let rpost = self.registry@;
                let k = choose|k: int|
                    0 <= k < rpre.len() && (#[trigger] rpre[k]).0 == callback_id && rpost
                        == rpre.remove(k);
                rpre.remove_ensures(k);
                ids_of(rpre).remove_ensures(k);
                assert(ids_of(rpost) =~= ids_of(rpre).remove(k)) by {
                    assert forall|a: int| 0 <= a < ids_of(rpost).len() implies ids_of(rpost)[a]
                        == ids_of(rpre).remove(k)[a] by {
                        assert(ids_of(rpost)[a] == rpost[a].0);
                    }
                }
                assert(ids_of(rpre)[k] == callback_id);
                // The removed id occurs nowhere else, so it is gone, and
                // every other id is still there.
                assert forall|id2: CallbackId| #[trigger]
                    ids_of(rpost).contains(id2) implies (ids_of(rpre).contains(id2) && id2
                    != callback_id) by {
                    let a = choose|a: int| 0 <= a < ids_of(rpost).len() && ids_of(rpost)[a] == id2;
                    if a < k {
                        assert(ids_of(rpre)[a] == id2);
                        if id2 == callback_id {
                            assert(rpre[a].0 == rpre[k].0);
                        }
                    } else {
                        assert(ids_of(rpre)[a + 1] == id2);
                        if id2 == callback_id {
                            assert(rpre[a + 1].0 == rpre[k].0);
                        }
                    }
                }
                assert forall|id2: CallbackId|
                    #[trigger] ids_of(rpre).contains(id2) && id2 != callback_id implies ids_of(
                    rpost,
                ).contains(id2) by {
                    let a = choose|a: int| 0 <= a < ids_of(rpre).len() && ids_of(rpre)[a] == id2;
                    if a < k {
                        assert(ids_of(rpost)[a] == id2);
                    } else {
                        assert(a != k);
                        assert(ids_of(rpost)[a - 1] == id2);
                    }
                }
                assert(0 <= k < pre.hooked().len() && pre.hooked()[k] == callback_id
                    && self.hooked() == pre.hooked().remove(k));
                pre.lemma_hooked_is_dom();
            }
            Ok(())
        } else {
            Err(Error::UnhookFailed)
        }
    }

    /// Always succeeds and leaves no callback registered, so a second call
    /// in a row succeeds in the same way on the already-empty registry.
    fn unhook_all(&mut self) -> (r: Result<(), Error>)
        ensures
            final(self).hook_permitted() == old(self).hook_permitted(),
    {
        let _removed = self.registry.clear();
        self.hooked_since = Ghost(Map::empty());
        proof {
            assert(ids_of(self.registry@) =~= Seq::<CallbackId>::empty());
        }
        Ok(())
    }
}

} // verus!
