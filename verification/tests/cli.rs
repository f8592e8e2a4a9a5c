use phi::cli::MessageArgs;

#[test]
fn message_args_follow_argument_positions() {
    // `--user one --assistant two --user three`: the user values sit at
    // positions 2 and 6, the assistant value at 4.
    let entries = vec![(2, "user:one"), (6, "user:three"), (4, "assistant:two")];
    let args = MessageArgs::parse(entries);
    assert_eq!(args.messages(), &vec!["user:one", "assistant:two", "user:three"]);
}

#[test]
fn message_args_keep_the_last_message_at_a_position() {
    let args = MessageArgs::parse(vec![(3, "first"), (1, "zero"), (3, "second")]);
    assert_eq!(args.messages(), &vec!["zero", "second"]);
}

#[test]
fn message_args_extend_appends() {
    let mut args = MessageArgs::parse(vec![(1, 'a')]);
    args.extend_from(MessageArgs::parse(vec![(9, 'c'), (2, 'b')]));
    assert_eq!(args.messages(), &vec!['a', 'b', 'c']);
}

#[test]
fn message_args_of_nothing_are_empty() {
    let args: MessageArgs<String> = MessageArgs::parse(Vec::new());
    assert!(args.messages().is_empty());
}
