//! Replies to messages that mention the bot.

use vstd::prelude::*;
use crate::text::{contains, contains_seq, decimal, dec_digits, owned};
use crate::chance::random_below;

verus! {

/// What `str::to_lowercase` makes of a text.
pub uninterp spec fn lower_of(s: Seq<char>) -> Seq<char>;

/// Relies on `str::to_lowercase`: the result depends on the characters alone,
/// and an empty text stays empty.
#[verifier::external_body]
fn lowercase(s: &str) -> (r: String)
    ensures
        r@ == lower_of(s@),
        s@.len() == 0 ==> r@.len() == 0,
{
    s.to_lowercase()
}

/// The fixed reply for a lower-cased message, if one of its phrases occurs.
pub open spec fn canned_reply_spec(lower: Seq<char>) -> Option<Seq<char>> {
    if contains_seq(lower, "who are you"@) {
        Some("I'm Shaggy, your friendly shaggy ink cap Discord bot-shroom."@)
    } else if contains_seq(lower, "good bot"@) {
        Some("Thanks! I do my best."@)
    } else if contains_seq(lower, "bad bot"@) {
        Some("I'm still learning. How can I improve?"@)
    } else if contains_seq(lower, "thank"@) {
        Some("You're welcome!"@)
    } else if contains_seq(lower, "help"@) {
        Some("Need help? Try /help to see what I can do."@)
    } else if contains_seq(lower, "meme of 2024"@) || contains_seq(lower, "massive"@) {
        Some("Massive. https://i.redd.it/31nha5vc6sge1.jpeg"@)
    } else {
        None
    }
}

/// The fixed reply for an already lower-cased message.
pub fn canned_reply(lower: &str) -> (r: Option<&'static str>)
    ensures
        match canned_reply_spec(lower@) {
            Some(t) => r matches Some(s) && s@ == t,
            None => r is None,
        },
{
    if contains(lower, "who are you") {
        Some("I'm Shaggy, your friendly shaggy ink cap Discord bot-shroom.")
    } else if contains(lower, "good bot") {
        Some("Thanks! I do my best.")
    } else if contains(lower, "bad bot") {
        Some("I'm still learning. How can I improve?")
    } else if contains(lower, "thank") {
        Some("You're welcome!")
    } else if contains(lower, "help") {
        Some("Need help? Try /help to see what I can do.")
    } else if contains(lower, "meme of 2024") || contains(lower, "massive") {
        Some("Massive. https://i.redd.it/31nha5vc6sge1.jpeg")
    } else {
        None
    }
}

/// The fixed reply for a message as written, matched without regard to case.
pub fn canned_reply_for(message: &str) -> (r: Option<&'static str>)
    ensures
        match canned_reply_spec(lower_of(message@)) {
            Some(t) => r matches Some(s) && s@ == t,
            None => r is None,
        },
{
    let lower = lowercase(message);
    canned_reply(lower.as_str())
}

/// The greetings a plain mention is answered with.
pub open spec fn greeting_word(i: int) -> Seq<char> {
    if i == 0 {
        "Hi"@
    } else if i == 1 {
        "Hello"@
    } else if i == 2 {
        "Hey"@
    } else if i == 3 {
        "Heya"@
    } else if i == 4 {
        "Greetings"@
    } else {
        "Howdy"@
    }
}

fn greeting_word_exec(i: usize) -> (r: &'static str)
    ensures
        r@ == greeting_word(i as int),
{
    if i == 0 {
        "Hi"
    } else if i == 1 {
        "Hello"
    } else if i == 2 {
        "Hey"
    } else if i == 3 {
        "Heya"
    } else if i == 4 {
        "Greetings"
    } else {
        "Howdy"
    }
}

/// The reply to a mention that matched no phrase: a salute for the first
/// special user, a meow for the second, else one of six greetings at random.
pub fn greeting(author: u64, first_special: Option<u64>, second_special: Option<u64>, display_name: &str) -> (r:
    String)
    ensures
        first_special == Some(author) ==> r@ == "Salutations, "@ + display_name@ + ", my liege."@,
        first_special != Some(author) && second_special == Some(author) ==> r@ == "Meowdy, "@
            + display_name@,
        first_special != Some(author) && second_special != Some(author) ==> exists|i: int|
            0 <= i < 6 && r@ == greeting_word(i) + ", "@ + display_name@ + "!"@,
{
    if first_special == Some(author) {
        let mut s = owned("Salutations, ");
        s.append(display_name);
        s.append(", my liege.");
        s
    } else if second_special == Some(author) {
        let mut s = owned("Meowdy, ");
        s.append(display_name);
        s
    } else {
        let i = random_below(6);
        let mut s = owned(greeting_word_exec(i));
        s.append(", ");
        s.append(display_name);
        s.append("!");
        s
    }
}

/// The reply to a message that mentions the bot.
pub fn mention_reply(
    message: &str,
    author: u64,
    first_special: Option<u64>,
    second_special: Option<u64>,
    display_name: &str,
) -> (r: String)
    ensures
        canned_reply_spec(lower_of(message@)) matches Some(t) ==> r@ == t,
        canned_reply_spec(lower_of(message@)) is None && first_special == Some(author) ==> r@
            == "Salutations, "@ + display_name@ + ", my liege."@,
        canned_reply_spec(lower_of(message@)) is None && first_special != Some(author)
            && second_special == Some(author) ==> r@ == "Meowdy, "@ + display_name@,
        canned_reply_spec(lower_of(message@)) is None && first_special != Some(author)
            && second_special != Some(author) ==> exists|i: int|
            0 <= i < 6 && r@ == greeting_word(i) + ", "@ + display_name@ + "!"@,
{
    match canned_reply_for(message) {
        Some(t) => owned(t),
        None => greeting(author, first_special, second_special, display_name),
    }
}

/// The message mentions the bot: in its list of mentions or written out as
/// `<@id>` or `<@!id>`.
pub open spec fn mentions_bot_spec(mention_ids: Seq<u64>, raw: Seq<char>, bot: u64) -> bool {
    mention_ids.contains(bot) || contains_seq(raw, "<@"@ + dec_digits(bot as nat) + ">"@)
        || contains_seq(raw, "<@!"@ + dec_digits(bot as nat) + ">"@)
}

/// Whether a message mentions the bot.
pub fn mentions_bot(mention_ids: &Vec<u64>, raw: &str, bot: u64) -> (r: bool)
    ensures
        r == mentions_bot_spec(mention_ids@, raw@, bot),
{
    let mut k: usize = 0;
    while k < mention_ids.len()
        invariant
            k <= mention_ids@.len(),
            forall|j: int| 0 <= j < k ==> mention_ids@[j] != bot,
        decreases mention_ids@.len() - k,
    {
        if mention_ids[k] == bot {
            assert(mention_ids@[k as int] == bot);
            return true;
        }
        k = k + 1;
    }
    assert(!mention_ids@.contains(bot));
    let digits = decimal(bot);
    let mut plain = owned("<@");
    plain.append(digits.as_str());
    plain.append(">");
    let mut bang = owned("<@!");
    bang.append(digits.as_str());
    bang.append(">");
    contains(raw, plain.as_str()) || contains(raw, bang.as_str())
}

} // verus!
