//! The last page: how the flashing ended, and the way out (a reboot).

use vstd::prelude::*;
use crate::flash::{failed_title, failure_text, outcome_view};
use crate::input::{InputEvent, KeyCode, key_code};

verus! {

/// What the last page asks for.
#[derive(Clone, Copy, Debug, PartialEq, Eq, Structural)]
pub enum FinalAction {
    Nothing,
    Reboot,
}

/// What the last page shows: a box titled `title` holding `message`, green
/// on success and red on failure.
pub struct FinalDisplay {
    pub title: String,
    pub message: String,
    pub success: bool,
}

/// `"\nPress enter to reboot"`
pub open spec fn reboot_hint() -> Seq<char> {
    seq![
        '\n', 'P', 'r', 'e', 's', 's', ' ', 'e', 'n', 't', 'e', 'r', ' ', 't', 'o', ' ', 'r',
        'e', 'b', 'o', 'o', 't',
    ]
}

/// `"Done!"`
pub open spec fn done_text() -> Seq<char> {
    seq!['D', 'o', 'n', 'e', '!']
}

/// `"Huge success"`
pub open spec fn success_title() -> Seq<char> {
    seq!['H', 'u', 'g', 'e', ' ', 's', 'u', 'c', 'c', 'e', 's', 's']
}

/// The last page asks for a reboot on enter, and for nothing otherwise.
pub open spec fn final_action_for(event: InputEvent) -> FinalAction {
    if key_code(event) == Some(KeyCode::Enter) {
        FinalAction::Reboot
    } else {
        FinalAction::Nothing
    }
}

/// The page that reports how flashing ended.
pub struct FinalPage {
    result: Result<(), String>,
}

impl View for FinalPage {
    type V = Result<(), Seq<char>>;

    closed spec fn view(&self) -> Result<(), Seq<char>> {
        outcome_view(self.result)
    }
}

impl FinalPage {
    /// The page for a flashing that ended with `result`.
    pub fn new(result: Result<(), String>) -> (r: FinalPage)
        ensures
            r@ == outcome_view(result),
    {
        FinalPage { result }
    }

    /// Enter asks for a reboot; every other event asks for nothing.
    pub fn input(&self, event: InputEvent) -> (r: FinalAction)
        ensures
            r == final_action_for(event),
    {
        match event {
            InputEvent::Key(k) => match k.code {
                KeyCode::Enter => FinalAction::Reboot,
                _ => FinalAction::Nothing,
            },
            InputEvent::Other => FinalAction::Nothing,
        }
    }

    /// What to draw: the failure and the reboot hint in a red box, or the
    /// success and the reboot hint in a green one.
    pub fn display(&self) -> (r: FinalDisplay)
        ensures
            r.success == (self@ is Ok),
            match self@ {
                Ok(()) => r.title@ == success_title() && r.message@ == done_text() + reboot_hint(),
                Err(e) => r.title@ == failed_title() && r.message@ == failure_text() + e
                    + reboot_hint(),
            },
    {
        proof {
            reveal_strlit("Failure: ");
            reveal_strlit("\nPress enter to reboot");
            reveal_strlit("Flashing failed");
            reveal_strlit("Done!\nPress enter to reboot");
            reveal_strlit("Huge success");
        }
        match &self.result {
            Err(e) => {
                let mut message = String::from_str("Failure: ");
                message.append(e.as_str());
                message.append("\nPress enter to reboot");
                FinalDisplay { title: String::from_str("Flashing failed"), message, success: false }
            },
            Ok(()) => {
                let message = String::from_str("Done!\nPress enter to reboot");
                assert(message@ =~= done_text() + reboot_hint());
                FinalDisplay { title: String::from_str("Huge success"), message, success: true }
            },
        }
    }
}

} // verus!
