use background_jobs::app_state::AppState;
use background_jobs::queue::Queue;
use background_jobs::text::{chars_of, split_words, trim_chars};

#[test]
fn queue_is_first_in_first_out() {
    let mut q: Queue<u32> = Queue::new();
    assert_eq!(q.get_total_work(), 0);
    assert_eq!(q.remove_queue(), None);
    q.add_queue(1);
    q.add_queue(2);
    q.add_queue(3);
    assert_eq!(q.get_total_work(), 3);
    assert_eq!(q.remove_queue(), Some(1));
    q.add_queue(4);
    assert_eq!(q.remove_queue(), Some(2));
    assert_eq!(q.remove_queue(), Some(3));
    assert_eq!(q.remove_queue(), Some(4));
    assert_eq!(q.remove_queue(), None);
    assert_eq!(q.get_total_work(), 0);
}

#[test]
fn default_queue_is_empty() {
    let q: Queue<String> = Queue::default();
    assert_eq!(q.get_total_work(), 0);
}

#[test]
fn app_state_counts_work() {
    let mut s: AppState<&str> = AppState::default();
    assert!(!s.has_works());
    assert_eq!(s.total_works(), 0);
    s.add_work("first");
    assert!(s.has_works());
    assert_eq!(s.total_works(), 1);
    s.add_work("second");
    assert_eq!(s.total_works(), 2);
}

#[test]
fn trim_and_words() {
    let t = trim_chars(&chars_of(" \u{3000}\tab c\u{a0}\n"));
    assert_eq!(t.iter().collect::<String>(), "ab c");
    let w = split_words(&chars_of("  one\u{2003}two\r\nthree "));
    let w: Vec<String> = w.iter().map(|x| x.iter().collect()).collect();
    assert_eq!(w, vec!["one", "two", "three"]);
    assert!(split_words(&chars_of(" \t ")).is_empty());
    for text in ["", " x ", "\u{85}y\u{1680}", "a\u{200b}b", " \u{2028}z\u{3000}"] {
        let t: String = trim_chars(&chars_of(text)).iter().collect();
        assert_eq!(t, text.trim());
        let w: Vec<String> = split_words(&chars_of(text)).iter().map(|x| x.iter().collect()).collect();
        let std_words: Vec<String> = text.split_whitespace().map(|x| x.to_string()).collect();
        assert_eq!(w, std_words);
    }
}
