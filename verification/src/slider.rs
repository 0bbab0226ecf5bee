//! The value that a slider keeps between frames.
//!
//! A slider shows a value that the application owns. The user changes the
//! slider's copy of it by dragging; the application may change its own at any
//! time. Once per frame the two are brought together: a copy that was
//! changed since the last frame goes out to the application, otherwise the
//! application's value comes in.

use vstd::prelude::*;

verus! {

/// What the pointer did, as far as a slider tells events apart.
#[derive(Clone, Copy, Debug, PartialEq, Eq, Structural)]
pub enum PointerEvent {
    /// A button was pressed over the slider.
    Pressed,
    /// The cursor moved.
    Moved,
    /// Anything else.
    Other,
}

/// State of a slider over values of type `T`.
pub struct Slider<T> {
    /// The value as the slider last knew it.
    pub value: T,
    /// Lower end of the range.
    pub min: T,
    /// Upper end of the range.
    pub max: T,
    /// The value was set by the slider since the last `sync`.
    pub dirty: bool,
}

impl<T> Slider<T> {
    /// The slider after its copy of the value was set to `value`.
    pub open spec fn with_value(self, value: T) -> Self {
        Slider { value, min: self.min, max: self.max, dirty: true }
    }

    /// The slider and the application's value after the two were brought
    /// together.
    pub open spec fn synced(self, bound: T) -> (Self, T) {
        if self.dirty {
            (Slider { value: self.value, min: self.min, max: self.max, dirty: false }, self.value)
        } else {
            (Slider { value: bound, min: self.min, max: self.max, dirty: false }, bound)
        }
    }
}

impl<T> Slider<T> {
    /// Whether a slider takes the value under the cursor on `event`: on a
    /// press, and on a move while the input is captured.
    pub open spec fn tracks(event: PointerEvent, capturing: bool) -> bool {
        event == PointerEvent::Pressed || (event == PointerEvent::Moved && capturing)
    }
}

impl<T: Copy> Slider<T> {
    /// A slider that shows `value` in the range from `min` to `max`.
    pub fn new(value: T, min: T, max: T) -> (s: Self)
        ensures
            s.value == value,
            s.min == min,
            s.max == max,
            !s.dirty,
    {
        Slider { value, min, max, dirty: false }
    }

    /// Sets the range.
    pub fn set_range(&mut self, min: T, max: T)
        ensures
            final(self).min == min,
            final(self).max == max,
            final(self).value == old(self).value,
            final(self).dirty == old(self).dirty,
    {
        self.min = min;
        self.max = max;
    }

    /// Sets the slider's copy of the value, to go out at the next `sync`.
    pub fn set_value(&mut self, value: T)
        ensures
            *final(self) == old(self).with_value(value),
    {
        self.value = value;
        self.dirty = true;
    }

    /// Handles a pointer event; `pointed` is the value under the cursor and
    /// `capturing` says whether the input is captured.
    ///
    /// A press captures the input and sets the value. A move sets the value
    /// while the input is captured. Both are then consumed: the result is
    /// `true`, and the event goes to no other item. Any other event changes
    /// nothing and is not consumed.
    pub fn on_event(&mut self, event: PointerEvent, capturing: &mut bool, pointed: T) -> (consumed:
        bool)
        ensures
            consumed == Self::tracks(event, *old(capturing)),
            *final(capturing) == (*old(capturing) || event == PointerEvent::Pressed),
            *final(self) == if consumed {
                old(self).with_value(pointed)
            } else {
                *old(self)
            },
    {
        match event {
            PointerEvent::Pressed => {
                *capturing = true;
                self.set_value(pointed);
                true
            },
            PointerEvent::Moved => {
                if *capturing {
                    self.set_value(pointed);
                    true
                } else {
                    false
                }
            },
            PointerEvent::Other => false,
        }
    }

    /// Brings the slider's copy and the application's `value` together: the
    /// copy goes out if it was set since the last call, else the
    /// application's value comes in. Afterwards the two are equal.
    pub fn sync(&mut self, value: &mut T)
        ensures
            (*final(self), *final(value)) == old(self).synced(*old(value)),
            final(self).value == *final(value),
            !final(self).dirty,
    {
        if self.dirty {
            *value = self.value;
        } else {
            self.value = *value;
        }
        self.dirty = false;
    }
}

} // verus!
