use vstd::prelude::*;

verus! {

/// The state of a menu button.
#[derive(PartialEq, Eq, Structural, Clone, Copy, Debug)]
pub enum ButtonStatus {
    Neutral,
    Hovered,
    Pressed,
    Released,
}

/// What a menu button is doing now and was doing after the last press
/// check.
pub struct ButtonState {
    pub status: ButtonStatus,
    pub previous_status: ButtonStatus,
}

/// The status after a press check: a hovered button the mouse holds down is
/// pressed; a button that was pressed and is let go is released; else the
/// status stays.
pub open spec fn pressed_status(b: ButtonState, pressed: bool) -> ButtonStatus {
    if pressed && b.status == ButtonStatus::Hovered {
        ButtonStatus::Pressed
    } else if !pressed && b.previous_status == ButtonStatus::Pressed {
        ButtonStatus::Released
    } else {
        b.status
    }
}

impl ButtonState {
    /// The mouse is over the button.
    pub fn hover(&mut self)
        ensures
            *final(self) == (ButtonState { status: ButtonStatus::Hovered, ..*old(self) }),
    {
        self.status = ButtonStatus::Hovered;
    }

    /// The button is held down.
    pub fn press(&mut self)
        ensures
            *final(self) == (ButtonState { status: ButtonStatus::Pressed, ..*old(self) }),
    {
        self.status = ButtonStatus::Pressed;
    }

    /// The button was let go.
    pub fn release(&mut self)
        ensures
            *final(self) == (ButtonState { status: ButtonStatus::Released, ..*old(self) }),
    {
        self.status = ButtonStatus::Released;
    }

    /// The mouse is elsewhere.
    pub fn neutralize(&mut self)
        ensures
            *final(self) == (ButtonState { status: ButtonStatus::Neutral, ..*old(self) }),
    {
        self.status = ButtonStatus::Neutral;
    }

    /// Hovers the button if the mouse is `inside` it, else neutralizes it.
    pub fn check_if_hovered(&mut self, inside: bool)
        ensures
            inside ==> *final(self) == (ButtonState { status: ButtonStatus::Hovered, ..*old(self) }),
            !inside ==> *final(self) == (ButtonState { status: ButtonStatus::Neutral, ..*old(self) }),
    {
        if inside {
            self.hover();
        } else {
            self.neutralize();
        }
    }

    /// Presses a hovered button the mouse holds down, releases a pressed one
    /// the mouse lets go, and remembers the status.
    pub fn check_if_pressed(&mut self, pressed: bool)
        ensures
            final(self).status == pressed_status(*old(self), pressed),
            final(self).previous_status == final(self).status,
    {
        if pressed && self.status == ButtonStatus::Hovered {
            self.press();
        } else if !pressed && self.previous_status == ButtonStatus::Pressed {
            self.release();
        }
        self.previous_status = self.status;
    }
}

} // verus!
