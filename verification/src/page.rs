//! The client's page frame: whether it shows the player as connected.

use vstd::prelude::*;

use crate::announce::push_text;
use crate::store::TambolaStore;

verus! {

/// The page frame's state: whether the connection has been seen up.
#[derive(Debug)]
pub struct TambolaPage {
    pub is_connected: bool,
}

/// What the page frame is told: the store's current state, or anything else.
pub enum PageMessage {
    StoreMessage(TambolaStore),
    Other,
}

impl TambolaPage {
    /// A page that has not yet seen the connection up.
    pub fn create() -> (r: Self)
        ensures
            !r.is_connected,
    {
        TambolaPage { is_connected: false }
    }

    /// On the store's state, the page becomes connected the first time the
    /// store reports the connection up; the result says whether the page
    /// changed and must be shown again.
    pub fn update(&mut self, msg: PageMessage) -> (r: bool)
        ensures
            match msg {
                PageMessage::StoreMessage(s) => {
                    &&& r == (s.ws_connected && !old(self).is_connected)
                    &&& final(self).is_connected == (old(self).is_connected || s.ws_connected)
                },
                PageMessage::Other => !r && final(self).is_connected == old(self).is_connected,
            },
    {
        match msg {
            PageMessage::StoreMessage(s) => {
                if s.ws_connected && !self.is_connected {
                    self.is_connected = true;
                    true
                } else {
                    false
                }
            },
            PageMessage::Other => false,
        }
    }

    /// The status line the page shows.
    pub fn status_text(&self) -> (r: String)
        ensures
            r@ == if self.is_connected {
                "You are  Connected"@
            } else {
                "You are not Connected"@
            },
    {
        let mut s = String::new();
        push_text(&mut s, "You are ");
        if !self.is_connected {
            push_text(&mut s, "not");
        }
        push_text(&mut s, " Connected");
        proof {
            reveal_strlit("You are ");
            reveal_strlit("not");
            reveal_strlit(" Connected");
            reveal_strlit("You are  Connected");
            reveal_strlit("You are not Connected");
        }
        assert(s@ =~= if self.is_connected {
            "You are  Connected"@
        } else {
            "You are not Connected"@
        });
        s
    }
}

} // verus!
