use shaggy::chat::{canned_reply, canned_reply_for, greeting, mention_reply, mentions_bot};

#[test]
fn canned_replies_ignore_case() {
    assert_eq!(canned_reply_for("Hey, WHO ARE YOU?"), Some("I'm Shaggy, your friendly shaggy ink cap Discord bot-shroom."));
    assert_eq!(canned_reply_for("Good Bot"), Some("Thanks! I do my best."));
    assert_eq!(canned_reply_for("bad BOT"), Some("I'm still learning. How can I improve?"));
    assert_eq!(canned_reply_for("Thanks a lot"), Some("You're welcome!"));
    assert_eq!(canned_reply_for("HELP me"), Some("Need help? Try /help to see what I can do."));
    assert_eq!(canned_reply_for("the MEME OF 2024"), Some("Massive. https://i.redd.it/31nha5vc6sge1.jpeg"));
    assert_eq!(canned_reply_for("so massive"), Some("Massive. https://i.redd.it/31nha5vc6sge1.jpeg"));
    assert_eq!(canned_reply_for("hello"), None);
}

#[test]
fn canned_reply_order() {
    assert_eq!(canned_reply("good bot, thank you"), Some("Thanks! I do my best."));
    assert_eq!(canned_reply("GOOD BOT"), None);
}

#[test]
fn greetings_for_special_and_other_users() {
    assert_eq!(greeting(1, Some(1), Some(2), "Esme"), "Salutations, Esme, my liege.");
    assert_eq!(greeting(2, Some(1), Some(2), "Shan"), "Meowdy, Shan");
    let words = ["Hi", "Hello", "Hey", "Heya", "Greetings", "Howdy"];
    let g = greeting(3, Some(1), None, "Sam");
    assert!(words.iter().any(|w| g == format!("{}, Sam!", w)));
}

#[test]
fn mention_reply_prefers_canned() {
    assert_eq!(mention_reply("thank you", 1, Some(1), None, "Esme"), "You're welcome!");
    assert_eq!(mention_reply("yo", 1, Some(1), None, "Esme"), "Salutations, Esme, my liege.");
}

#[test]
fn mention_detection() {
    assert!(mentions_bot(&vec![5, 99], "hi", 99));
    assert!(mentions_bot(&Vec::new(), "hi <@99> there", 99));
    assert!(mentions_bot(&Vec::new(), "<@!99>", 99));
    assert!(!mentions_bot(&Vec::new(), "<@999>", 99));
    assert!(!mentions_bot(&vec![5], "hello", 99));
}
