//! The commands users send, and the replies they get.
use crate::album::{add_all, has_room, texts};
use crate::pool::{is_sample_of, Pool};
use crate::render::{render, render_spec, roll_reply, roll_reply_spec};
use crate::store::Store;
use vstd::prelude::*;

verus! {

/// How many items one roll draws.
pub const ROLL_SIZE: usize = 5;

/// A command a user can send.
#[derive(Clone, Copy, Debug, PartialEq, Eq, Structural)]
pub enum Command {
    /// Draw a batch of items and add them to the album.
    Roll,
    /// Show the album.
    Emojis,
}

/// The command a message text names, if any.
pub open spec fn command_of(message: Seq<char>) -> Option<Command> {
    if message == "/roll"@ {
        Some(Command::Roll)
    } else if message == "/emojis"@ {
        Some(Command::Emojis)
    } else {
        None
    }
}

/// The reply to the album command, given the user's album if any.
pub open spec fn emojis_reply_spec(album: Option<Seq<(Seq<char>, usize)>>) -> Seq<char> {
    match album {
        Some(e) => "Your emojis:\n\n"@ + render_spec(e),
        None => "You still have no emojis! Type /roll to get some!"@,
    }
}

/// How many items a roll draws from `pool`: the roll size, or the whole
/// pool when it is smaller.
pub open spec fn roll_count(pool: Seq<Seq<char>>) -> nat {
    if ROLL_SIZE <= pool.len() {
        ROLL_SIZE as nat
    } else {
        pool.len()
    }
}

/// `after` and `reply` are what a roll of `drawn` by `user` on `before` gives:
/// the draws are added to the user's album and the reply lists them, unless
/// some count would overflow, in which case nothing changes and there is no
/// reply.
pub open spec fn rolled(
    before: &Store,
    after: &Store,
    user: Seq<char>,
    drawn: Seq<Seq<char>>,
    reply: Option<String>,
) -> bool {
    let ok = has_room(before.album_or_empty(user), drawn.len() as int);
    &&& after.wf()
    &&& reply is Some <==> ok
    &&& reply matches Some(t) ==> t@ == roll_reply_spec(drawn)
    &&& ok ==> after.album_of(user) == Some(add_all(before.album_or_empty(user), drawn))
    &&& !ok ==> after.album_of(user) == before.album_of(user)
    &&& forall|u: Seq<char>| u != user ==> #[trigger] after.album_of(u) == before.album_of(u)
}

/// Rolls `drawn` for `user`: adds the items to the user's album and returns
/// the reply, which lists them last-drawn first. `None`, with the store left
/// as it was, when a count would overflow.
pub fn roll(store: &mut Store, user: &String, drawn: &Vec<String>) -> (r: Option<String>)
    requires
        old(store).wf(),
    ensures
        rolled(old(store), final(store), user@, texts(drawn@), r),
{
    if store.merge(user, drawn) {
        Some(roll_reply(drawn))
    } else {
        None
    }
}

/// The reply that shows the album of `user`, or asks that user to roll
/// first.
pub fn emojis(store: &Store, user: &String) -> (r: String)
    requires
        store.wf(),
    ensures
        r@ == emojis_reply_spec(store.album_of(user@)),
{
    match store.get(user) {
        Some(entries) => {
            let picture = render(&entries);
            let mut r = String::from_str("Your emojis:\n\n");
            r.append(picture.as_str());
            r
        },
        None => String::from_str("You still have no emojis! Type /roll to get some!"),
    }
}

/// `after` and `reply` are what `command` by `user` on `before` may give,
/// drawing from `pool`: a roll whose draw could not be made gives no reply
/// and changes nothing.
pub open spec fn executed(
    command: Command,
    pool: Seq<Seq<char>>,
    before: &Store,
    after: &Store,
    user: Seq<char>,
    reply: Option<String>,
) -> bool {
    match command {
        Command::Roll => {
            ||| reply is None && after.wf() && after.same_albums(before)
            ||| exists|drawn: Seq<Seq<char>>|
                is_sample_of(pool, drawn, roll_count(pool)) && #[trigger] rolled(
                    before,
                    after,
                    user,
                    drawn,
                    reply,
                )
        },
        Command::Emojis => {
            &&& after.wf()
            &&& after.same_albums(before)
            &&& reply matches Some(t) && t@ == emojis_reply_spec(before.album_of(user))
        },
    }
}

impl Command {
    /// The command named by a message text; `None` for any other text.
    pub fn from_message(message: &str) -> (r: Option<Command>)
        ensures
            r == command_of(message@),
    {
        let m = message.to_owned();
        if m == String::from_str("/roll") {
            Some(Command::Roll)
        } else if m == String::from_str("/emojis") {
            Some(Command::Emojis)
        } else {
            None
        }
    }

    /// Carries out the command for `user`: a roll draws afresh from `pool`,
    /// and gives no reply, changing nothing, when that draw cannot be made.
    pub fn execute(self, store: &mut Store, pool: &Pool, user: &String) -> (r: Option<String>)
        requires
            old(store).wf(),
        ensures
            executed(self, pool@, old(store), final(store), user@, r),
    {
        match self {
            Command::Roll => {
                let drawn = match pool.sample(ROLL_SIZE) {
                    Some(drawn) => drawn,
                    None => return None,
                };
                let r = roll(store, user, &drawn);
                assert(rolled(old(store), final(store), user@, texts(drawn@), r));
                r
            },
            Command::Emojis => Some(emojis(store, user)),
        }
    }
}

/// Answers one message of `user`: the reply to the command it names, or
/// `None`, with every album unchanged, when it names none.
pub fn handle_message(store: &mut Store, pool: &Pool, user: &String, text: &str) -> (r: Option<
    String,
>)
    requires
        old(store).wf(),
    ensures
        final(store).wf(),
        match command_of(text@) {
            Some(c) => executed(c, pool@, old(store), final(store), user@, r),
            None => r is None && final(store).same_albums(old(store)),
        },
{
    match Command::from_message(text) {
        Some(c) => c.execute(store, pool, user),
        None => None,
    }
}

} // verus!
