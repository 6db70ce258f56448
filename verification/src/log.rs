//! The message log: a bounded history of coloured lines.

use vstd::prelude::*;
use crate::color::Color;

verus! {

/// The number of lines the log keeps.
pub const MSG_HEIGHT: usize = 6;

/// One line of the log.
#[derive(Debug)]
pub struct Message {
    pub text: String,
    pub color: Color,
}

impl View for Message {
    type V = (Seq<char>, Color);

    open spec fn view(&self) -> (Seq<char>, Color) {
        (self.text@, self.color)
    }
}

/// The log, oldest line first.
pub type Messages = Vec<Message>;

/// The lines of a log as text and colour.
pub open spec fn log_view(log: Seq<Message>) -> Seq<(Seq<char>, Color)> {
    log.map_values(|m: Message| m@)
}

/// The log after one more line: a full log loses its oldest line first.
pub open spec fn log_added(log: Seq<(Seq<char>, Color)>, text: Seq<char>, color: Color) -> Seq<
    (Seq<char>, Color),
> {
    if log.len() == MSG_HEIGHT {
        log.drop_first().push((text, color))
    } else {
        log.push((text, color))
    }
}

/// Adds a line to the log, evicting the oldest line of a full log.
pub fn add_message(log: &mut Messages, text: String, color: Color)
    ensures
        log_view(final(log)@) == log_added(log_view(old(log)@), text@, color),
        old(log).len() <= MSG_HEIGHT ==> final(log).len() <= MSG_HEIGHT,
{
    if log.len() == MSG_HEIGHT {
        log.remove(0);
    }
    log.push(Message { text, color });
}

/// The log is bounded and loses its oldest line first. A log of at most
/// `MSG_HEIGHT` lines has at most as many after one more line, which is its
/// last; the lines before it are those from before, in their order, less
/// the oldest if the log was full.
pub proof fn lemma_log_is_bounded(log: Seq<(Seq<char>, Color)>, text: Seq<char>, color: Color)
    requires
        log.len() <= MSG_HEIGHT,
    ensures
        log_added(log, text, color).len() <= MSG_HEIGHT,
        log_added(log, text, color).last() == (text, color),
        log_added(log, text, color).drop_last() == if log.len() == MSG_HEIGHT {
            log.drop_first()
        } else {
            log
        },
{
}

} // verus!
