//! The line of text the web client shows for each announcement.

use vstd::prelude::*;

use crate::game::proto::AnnouncementOutput;

verus! {

/// The decimal digit `d` as a character.
pub open spec fn digit_char(d: nat) -> char {
    if d == 0 {
        '0'
    } else if d == 1 {
        '1'
    } else if d == 2 {
        '2'
    } else if d == 3 {
        '3'
    } else if d == 4 {
        '4'
    } else if d == 5 {
        '5'
    } else if d == 6 {
        '6'
    } else if d == 7 {
        '7'
    } else if d == 8 {
        '8'
    } else {
        '9'
    }
}

/// `n` written in decimal, without leading zeros.
pub open spec fn decimal(n: nat) -> Seq<char>
    decreases n,
{
    if n < 10 {
        seq![digit_char(n)]
    } else {
        decimal(n / 10).push(digit_char(n % 10))
    }
}

/// The text shown for an announcement: who joined, the new number, a
/// player's message, who won which prize, or that the game started.
pub open spec fn announcement_line(a: AnnouncementOutput) -> Seq<char> {
    match a {
        AnnouncementOutput::GameStarted(_) => "Game Started"@,
        AnnouncementOutput::NewMessage(m) => m.user@ + ":"@ + m.message@,
        AnnouncementOutput::NewNumber(n) => "New Number is "@ + decimal(n.number as nat),
        AnnouncementOutput::NewUserJoined(j) => j.name@ + " Joined"@,
        AnnouncementOutput::NewWinner(w) => w.user_name@ + " Won "@ + w.win_name@,
    }
}

/// Appends `t` to `s`: `String::push_str`, which appends the slice.
#[verifier::external_body]
pub(crate) fn push_text(s: &mut String, t: &str)
    ensures
        final(s)@ == old(s)@ + t@,
{
    s.push_str(t);
}

/// Appends `c` to `s`: `String::push`, which appends the character.
#[verifier::external_body]
fn push_char(s: &mut String, c: char)
    ensures
        final(s)@ == old(s)@.push(c),
{
    s.push(c);
}

/// The character of the decimal digit `d`.
fn digit(d: u8) -> (c: char)
    requires
        d < 10,
    ensures
        c == digit_char(d as nat),
{
    match d {
        0 => '0',
        1 => '1',
        2 => '2',
        3 => '3',
        4 => '4',
        5 => '5',
        6 => '6',
        7 => '7',
        8 => '8',
        _ => '9',
    }
}

/// Appends `n` in decimal to `s`.
fn push_decimal(s: &mut String, n: u8)
    ensures
        final(s)@ == old(s)@ + decimal(n as nat),
{
    if n >= 100 {
        push_char(s, digit(n / 100));
        assert(decimal((n / 100) as nat) == seq![digit_char((n / 100) as nat)]);
    }
    if n >= 10 {
        push_char(s, digit((n / 10) % 10));
    }
    push_char(s, digit(n % 10));
    proof {
        let ghost k = n as nat;
        if n >= 100 {
            assert(decimal(k / 10) == decimal(k / 100).push(digit_char((k / 10) % 10)));
        }
        if n >= 10 {
            assert(decimal(k) == decimal(k / 10).push(digit_char(k % 10)));
        }
    }
    assert(s@ =~= old(s)@ + decimal(n as nat));
}

/// The line of text the client shows for the announcement `a`.
pub fn announcement_text(a: &AnnouncementOutput) -> (r: String)
    ensures
        r@ == announcement_line(*a),
{
    let mut s = String::new();
    match a {
        AnnouncementOutput::GameStarted(_) => {
            push_text(&mut s, "Game Started");
        },
        AnnouncementOutput::NewMessage(m) => {
            push_text(&mut s, m.user.as_str());
            push_text(&mut s, ":");
            push_text(&mut s, m.message.as_str());
        },
        AnnouncementOutput::NewNumber(n) => {
            push_text(&mut s, "New Number is ");
            push_decimal(&mut s, n.number);
        },
        AnnouncementOutput::NewUserJoined(j) => {
            push_text(&mut s, j.name.as_str());
            push_text(&mut s, " Joined");
        },
        AnnouncementOutput::NewWinner(w) => {
            push_text(&mut s, w.user_name.as_str());
            push_text(&mut s, " Won ");
            push_text(&mut s, w.win_name.as_str());
        },
    }
    assert(s@ =~= announcement_line(*a));
    s
}

/// The lines the client shows for its announcements, newest first.
pub fn announcement_lines(anns: &Vec<AnnouncementOutput>) -> (r: Vec<String>)
    ensures
        r@.len() == anns@.len(),
        forall|i: int|
            0 <= i < r@.len() ==> (#[trigger] r@[i])@ == announcement_line(anns@[anns@.len() - 1 - i]),
{
    let mut r: Vec<String> = Vec::new();
    let mut k: usize = anns.len();
    while k > 0
        invariant
            k <= anns@.len(),
            r@.len() == anns@.len() - k,
            forall|i: int|
                0 <= i < r@.len() ==> (#[trigger] r@[i])@ == announcement_line(anns@[anns@.len() - 1 - i]),
        decreases k,
    {
        k = k - 1;
        r.push(announcement_text(&anns[k]));
    }
    r
}

} // verus!
