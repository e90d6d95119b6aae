//! The web client's game screen: whether it shows the connect form or the
//! player's screen, and as host or as player.

use vstd::prelude::*;

use crate::game::{PositionedNumber, User, UserType, UserView};
use crate::store::user_view_opt;

verus! {

/// The state of the game screen.
#[derive(Debug)]
pub struct Game {
    pub is_connected: bool,
    pub is_host: bool,
    pub user: Option<User>,
}

/// Whether two tickets hold the same cells.
fn same_cells(a: &Vec<PositionedNumber>, b: &Vec<PositionedNumber>) -> (r: bool)
    ensures
        r == (a@ == b@),
{
    if a.len() != b.len() {
        return false;
    }
    let mut i: usize = 0;
    while i < a.len()
        invariant
            i <= a@.len(),
            a@.len() == b@.len(),
            forall|j: int| 0 <= j < i ==> a@[j] == b@[j],
        decreases a@.len() - i,
    {
        if a[i] != b[i] {
            return false;
        }
        i = i + 1;
    }
    assert(a@ =~= b@);
    true
}

/// Whether two optional users are the same.
fn same_user(a: &Option<User>, b: &Option<User>) -> (r: bool)
    ensures
        r == (user_view_opt(*a) == user_view_opt(*b)),
{
    match (a, b) {
        (Some(x), Some(y)) => {
            let same = x.id == y.id && x.name == y.name && x.user_type == y.user_type && same_cells(
                &x.ticket.numbers,
                &y.ticket.numbers,
            );
            same
        },
        (None, None) => true,
        _ => false,
    }
}

impl Game {
    /// A screen for a client that is not connected yet.
    pub fn new() -> (r: Self)
        ensures
            !r.is_connected,
            !r.is_host,
            r.user is None,
    {
        Game { is_connected: false, is_host: false, user: None }
    }

    /// Follows the store's user: the screen is connected once the store
    /// knows who the client plays as, and shows the host's view for a
    /// host. Returns whether anything changed, so the screen is redrawn.
    pub fn update(&mut self, store_user: Option<User>) -> (r: bool)
        ensures
            final(self).is_connected == (store_user is Some),
            user_view_opt(final(self).user) == (if store_user is Some {
                user_view_opt(store_user)
            } else {
                user_view_opt(old(self).user)
            }),
            final(self).is_host == match store_user {
                Some(u) => u.user_type == UserType::Host,
                None => old(self).is_host,
            },
            r == (user_view_opt(final(self).user) != user_view_opt(old(self).user)
                || final(self).is_connected != old(self).is_connected || final(self).is_host
                != old(self).is_host),
    {
        let mut update = false;
        match store_user {
            Some(u) => {
                let user_type = u.user_type;
                let incoming = Some(u);
                if !same_user(&self.user, &incoming) {
                    self.user = incoming;
                    update = true;
                }
                if !self.is_connected {
                    self.is_connected = true;
                    update = true;
                }
                match user_type {
                    UserType::Host => {
                        if !self.is_host {
                            self.is_host = true;
                            update = true;
                        }
                    },
                    UserType::NonHost => {
                        if self.is_host {
                            self.is_host = false;
                            update = true;
                        }
                    },
                }
            },
            None => {
                if self.is_connected {
                    self.is_connected = false;
                    update = true;
                }
            },
        }
        update
    }
}

} // verus!
