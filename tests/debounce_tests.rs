use runwhen::debounce::DebounceWindow;

/// Feeds fireable signals at `times` and wakes the coordinator at each deadline that comes
/// before the next signal and after the last one; returns the restart times.
fn run(window: Option<u64>, times: &[u64]) -> Vec<u64> {
    let mut d = DebounceWindow::new(window);
    let mut restarts = Vec::new();
    for &t in times {
        if let Some(due) = d.deadline() {
            if due <= t && d.on_tick(due) {
                restarts.push(due);
            }
        }
        if d.receive(t) {
            restarts.push(t);
        }
    }
    if let Some(due) = d.deadline() {
        if d.on_tick(due) {
            restarts.push(due);
        }
    }
    restarts
}

#[test]
fn three_writes_ten_ms_apart_restart_once() {
    let restarts = run(Some(200), &[0, 10, 20]);
    assert_eq!(restarts.len(), 1);
    assert!(restarts[0] >= 190 && restarts[0] <= 250);
    assert_eq!(restarts, vec![200]);
}

#[test]
fn burst_is_not_fired_before_its_window() {
    let mut d = DebounceWindow::new(Some(200));
    assert!(!d.receive(1000));
    assert!(!d.receive(1010));
    assert!(!d.on_tick(1199));
    assert_eq!(d.deadline(), Some(1200));
    assert!(d.on_tick(1200));
    assert_eq!(d.last_fired_at, Some(1200));
    assert_eq!(d.deadline(), None);
    assert!(!d.on_tick(5000));
}

#[test]
fn spaced_signals_restart_one_each() {
    assert_eq!(run(Some(200), &[0, 201, 500, 1000]), vec![200, 401, 700, 1200]);
}

#[test]
fn no_window_restarts_per_signal() {
    assert_eq!(run(None, &[5, 6, 7]), vec![5, 6, 7]);
    let mut d = DebounceWindow::new(None);
    assert!(d.on_signal(3));
    assert_eq!(d.last_fired_at, Some(3));
    assert_eq!(d.deadline(), None);
}

#[test]
fn signal_at_deadline_opens_new_burst() {
    let mut d = DebounceWindow::new(Some(100));
    assert!(!d.receive(0));
    assert!(d.receive(100));
    assert_eq!(d.pending_since, Some(100));
    assert_eq!(d.deadline(), Some(200));
}

#[test]
fn zero_window_fires_on_next_tick() {
    let mut d = DebounceWindow::new(Some(0));
    assert!(!d.on_signal(42));
    assert!(d.on_tick(42));
}

#[test]
fn deadline_saturates() {
    let mut d = DebounceWindow::new(Some(u64::MAX));
    d.on_signal(10);
    assert_eq!(d.deadline(), Some(u64::MAX));
}

#[test]
fn later_burst_restarts_once_after_earlier_one() {
    assert_eq!(run(Some(200), &[0, 10, 500, 510, 520, 900]), vec![200, 700, 1100]);
}
