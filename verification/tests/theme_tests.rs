use script_host::theme::Theme;

#[test]
fn next_walks_the_whole_cycle() {
    assert_eq!(Theme::Default.next(), Theme::Gruvbox);
    assert_eq!(Theme::Gruvbox.next(), Theme::Matrix);
    assert_eq!(Theme::Matrix.next(), Theme::Midnight);
    assert_eq!(Theme::Midnight.next(), Theme::Bolus);
    assert_eq!(Theme::Bolus.next(), Theme::Default);
}

#[test]
fn previous_walks_the_cycle_backwards() {
    assert_eq!(Theme::Default.previous(), Theme::Bolus);
    assert_eq!(Theme::Bolus.previous(), Theme::Midnight);
    assert_eq!(Theme::Midnight.previous(), Theme::Matrix);
    assert_eq!(Theme::Matrix.previous(), Theme::Gruvbox);
    assert_eq!(Theme::Gruvbox.previous(), Theme::Default);
}

#[test]
fn cycle_returns_to_the_start_after_a_full_lap() {
    let mut t = Theme::Default;
    for _ in 0..5 {
        t.cycle();
    }
    assert_eq!(t, Theme::Default);
}

#[test]
fn names() {
    assert_eq!(Theme::Default.name(), "Default");
    assert_eq!(Theme::Gruvbox.name(), "Gruvbox");
    assert_eq!(Theme::Matrix.name(), "Matrix");
    assert_eq!(Theme::Midnight.name(), "Midnight");
    assert_eq!(Theme::Bolus.name(), "BOLUS");
}
