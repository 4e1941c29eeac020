use audio_player::command::{dispatch, parse_line, Command, Reply};
use audio_player::player::Player;

#[test]
fn speed_above_the_band_parses_fine_and_is_clamped() {
    let c = parse_line("speed 3.5");
    assert_eq!(c, Command::SetSpeed { milli: 3500 });
    let mut p = Player::new();
    let (reply, quit) = dispatch(&mut p, &c);
    assert_eq!(reply, Reply::SpeedSet);
    assert_ne!(reply, Reply::SpeedRejected);
    assert!(!quit);
    assert_eq!(p.speed_milli(), 2000);
}

#[test]
fn malformed_speed_is_rejected_without_a_state_change() {
    let mut p = Player::new();
    p.enqueue("a.mp3".to_string());
    let before = (p.queue_len(), p.is_paused(), p.speed_milli(), p.volume_milli());
    let c = parse_line("speed abc");
    assert_eq!(c, Command::SpeedInvalid);
    let (reply, quit) = dispatch(&mut p, &c);
    assert_eq!(reply.message(), "Invalid speed value.");
    assert!(!quit);
    let after = (p.queue_len(), p.is_paused(), p.speed_milli(), p.volume_milli());
    assert_eq!(before, after);
}

#[test]
fn quit_clears_the_queue_and_ends_the_loop() {
    let mut p = Player::new();
    p.enqueue("a.mp3".to_string());
    p.enqueue("b.mp3".to_string());
    let c = parse_line("quit");
    assert_eq!(c, Command::Quit);
    let (reply, quit) = dispatch(&mut p, &c);
    assert_eq!(reply, Reply::Silent);
    assert!(quit);
    assert!(p.is_empty());
}

#[test]
fn tokenizing_skips_extra_whitespace_and_trailing_words() {
    assert_eq!(parse_line("   pause  now"), Command::Pause);
    assert_eq!(parse_line("\tresume\n"), Command::Resume);
    assert_eq!(parse_line("skip"), Command::Skip);
    assert_eq!(parse_line("  speed   1.5   fast"), Command::SetSpeed { milli: 1500 });
}

#[test]
fn empty_lines_are_ignored() {
    assert_eq!(parse_line(""), Command::Empty);
    assert_eq!(parse_line("   \t  \n"), Command::Empty);
    let mut p = Player::new();
    let before = (p.queue_len(), p.is_paused(), p.speed_milli(), p.volume_milli());
    let (reply, quit) = dispatch(&mut p, &Command::Empty);
    assert_eq!(reply, Reply::Silent);
    assert_eq!(reply.message(), "");
    assert!(!quit);
    let after = (p.queue_len(), p.is_paused(), p.speed_milli(), p.volume_milli());
    assert_eq!(before, after);
}

#[test]
fn unknown_commands_are_reported() {
    let c = parse_line("dance");
    assert_eq!(c, Command::Unknown);
    let mut p = Player::new();
    let (reply, quit) = dispatch(&mut p, &c);
    assert_eq!(reply.message(), "Unknown command.");
    assert!(!quit);
}

#[test]
fn missing_rate_arguments_prompt_for_one() {
    assert_eq!(parse_line("speed"), Command::SpeedMissing);
    assert_eq!(parse_line("volume   "), Command::VolumeMissing);
    assert_eq!(Reply::SpeedPrompt.message(), "Please provide a speed value.");
    assert_eq!(Reply::VolumePrompt.message(), "Please provide a volume value.");
}

#[test]
fn volume_mirrors_speed_with_its_own_messages() {
    let c = parse_line("volume 0.05");
    assert_eq!(c, Command::SetVolume { milli: 50 });
    let mut p = Player::new();
    let (reply, _) = dispatch(&mut p, &c);
    assert_eq!(reply, Reply::VolumeSet);
    assert_eq!(p.volume_milli(), 100);
    assert_eq!(parse_line("volume x"), Command::VolumeInvalid);
    assert_eq!(Reply::VolumeRejected.message(), "Invalid volume value.");
}

#[test]
fn commands_print_their_confirmations() {
    let mut p = Player::new();
    let (paused, _) = dispatch(&mut p, &parse_line("pause"));
    assert_eq!(paused.message(), "Paused.");
    assert!(p.is_paused());
    let (resumed, _) = dispatch(&mut p, &parse_line("resume"));
    assert_eq!(resumed.message(), "Resumed.");
    assert!(!p.is_paused());
    let (skipping, _) = dispatch(&mut p, &parse_line("skip"));
    assert_eq!(skipping.message(), "Skipping track...");
}

#[test]
fn help_lists_every_command() {
    let c = parse_line("help");
    assert_eq!(c, Command::Help);
    let mut p = Player::new();
    let (reply, quit) = dispatch(&mut p, &c);
    assert!(!quit);
    let text = reply.message();
    for word in ["pause", "resume", "skip", "speed <n>", "volume <n>", "quit", "help"] {
        assert!(text.contains(word));
    }
}
