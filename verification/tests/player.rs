use audio_player::player::Player;

fn snapshot(p: &Player) -> (usize, bool, i64, i64) {
    (p.queue_len(), p.is_paused(), p.speed_milli(), p.volume_milli())
}

#[test]
fn a_fresh_player_is_idle_at_unit_rates() {
    let p = Player::new();
    assert_eq!(snapshot(&p), (0, false, 1000, 1000));
    assert!(p.is_empty());
}

#[test]
fn pause_is_idempotent() {
    let mut p = Player::new();
    p.enqueue("a.mp3".to_string());
    p.pause();
    let once = snapshot(&p);
    p.pause();
    assert_eq!(snapshot(&p), once);
    assert!(p.is_paused());
}

#[test]
fn resume_is_idempotent() {
    let mut p = Player::new();
    p.pause();
    p.resume();
    let once = snapshot(&p);
    p.resume();
    assert_eq!(snapshot(&p), once);
    assert!(!p.is_paused());
}

#[test]
fn skip_advances_and_does_nothing_on_an_empty_queue() {
    let mut p = Player::new();
    p.enqueue("a.mp3".to_string());
    p.enqueue("b.mp3".to_string());
    p.skip_current();
    assert_eq!(p.queue_len(), 1);
    p.skip_current();
    assert_eq!(p.queue_len(), 0);
    p.skip_current();
    assert_eq!(p.queue_len(), 0);
}

#[test]
fn rates_are_clamped_into_the_band() {
    let mut p = Player::new();
    p.set_speed_milli(50);
    assert_eq!(p.speed_milli(), 100);
    p.set_speed_milli(3500);
    assert_eq!(p.speed_milli(), 2000);
    p.set_speed_milli(1500);
    assert_eq!(p.speed_milli(), 1500);
    p.set_volume_milli(-10);
    assert_eq!(p.volume_milli(), 100);
    p.set_volume_milli(2500);
    assert_eq!(p.volume_milli(), 2000);
    p.set_volume_milli(900);
    assert_eq!(p.volume_milli(), 900);
}

#[test]
fn stop_and_clear_drains_the_queue_and_halts() {
    let mut p = Player::new();
    p.enqueue("a.mp3".to_string());
    p.enqueue("b.mp3".to_string());
    p.stop_and_clear();
    assert!(p.is_empty());
    assert!(p.is_paused());
}

#[test]
fn enqueue_all_appends_in_order() {
    let mut p = Player::new();
    p.enqueue("a.mp3".to_string());
    let more = vec!["b.mp3".to_string(), "c.mp3".to_string()];
    p.enqueue_all(&more);
    assert_eq!(p.queue_len(), 3);
    p.skip_current();
    p.skip_current();
    assert_eq!(p.queue_len(), 1);
}
