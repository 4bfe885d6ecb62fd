use garshot::naming::{
    collision_step, CollisionStep,
    collision_name, contains_chars, file_name_with_extension, generate_file_path, process_custom_tokens, replace_all,
    window_token_chars, LocalTime, NameCounter, NamingConfig,
};

#[test]
fn test_process_custom_tokens_global_counter() {
    let config = NamingConfig { pattern: "shot-%N".to_string(), window_name: None };
    let mut counter = NameCounter::new();
    let result = process_custom_tokens(&config.pattern, &config, &mut counter);
    assert!(result.starts_with("shot-"));
    assert!(!result.contains("%N"));
}

#[test]
fn counters_are_padded_and_advance() {
    let config = NamingConfig { pattern: "a-%N-%n-%N".to_string(), window_name: None };
    let mut counter = NameCounter::new();
    let result = process_custom_tokens(&config.pattern, &config, &mut counter);
    assert_eq!(result, "a-0001-0002-0001");
    assert_eq!(counter.next, 3);
}

#[test]
fn counter_untouched_without_tokens() {
    let config = NamingConfig::default();
    let mut counter = NameCounter { next: 41 };
    let result = process_custom_tokens("shot-%Y", &config, &mut counter);
    assert_eq!(result, "shot-%Y");
    assert_eq!(counter.next, 41);
}

#[test]
fn counter_wraps() {
    let mut counter = NameCounter { next: u32::MAX };
    assert_eq!(counter.take(), u32::MAX);
    assert_eq!(counter.next, 0);
}

#[test]
fn large_counter_is_not_truncated() {
    let config = NamingConfig { pattern: "%n".to_string(), window_name: None };
    let mut counter = NameCounter { next: 123456 };
    assert_eq!(process_custom_tokens("%n", &config, &mut counter), "123456");
}

#[test]
fn window_token_filters_and_truncates() {
    let config = NamingConfig { pattern: "shot-%w".to_string(), window_name: Some("Fire fox: ~/x_y-z".to_string()) };
    let mut counter = NameCounter::new();
    assert_eq!(process_custom_tokens(&config.pattern, &config, &mut counter), "shot-Firefoxx_y-z");

    let config = NamingConfig { pattern: "%w".to_string(), window_name: None };
    assert_eq!(process_custom_tokens("%w", &config, &mut counter), "window");

    let long: String = std::iter::repeat('a').take(60).collect();
    let w: Vec<char> = long.chars().collect();
    assert_eq!(window_token_chars(&w).len(), 50);
    let accented: Vec<char> = "Café €".chars().collect();
    assert_eq!(window_token_chars(&accented), "Café".chars().collect::<Vec<char>>());
}

#[test]
fn replace_and_contains() {
    let s: Vec<char> = "%%NN%N".chars().collect();
    let pat: Vec<char> = "%N".chars().collect();
    let rep: Vec<char> = "7".chars().collect();
    assert!(contains_chars(&s, &pat));
    assert_eq!(replace_all(&s, &pat, &rep).into_iter().collect::<String>(), "%7N7");
    let none: Vec<char> = "abc".chars().collect();
    assert!(!contains_chars(&none, &pat));
}

#[test]
fn file_names() {
    assert_eq!(file_name_with_extension("shot", "png"), "shot.png");
    assert_eq!(collision_name("test", 1, "png"), "test-1.png");
    assert_eq!(collision_name("test", -5, "jpg"), "test--5.jpg");
    assert_eq!(collision_name("t", i64::MIN, "x"), "t--9223372036854775808.x");
}

#[test]
fn file_paths_at_a_time() {
    use_paths();
}

fn use_paths() {
    let config = NamingConfig { pattern: "shot-%Y%m%d-%H%M%S-%N".to_string(), window_name: None };
    let mut counter = NameCounter::new();
    // 2024-01-02 03:04:05 UTC, shown one hour east of UTC.
    let time = LocalTime { secs: 1704164645, nanos: 0, offset_secs: 3600 };
    let path = generate_file_path(&config, "png", "/tmp/shots", &time, &mut counter).unwrap();
    assert_eq!(path, "/tmp/shots/shot-20240102-040405-0001.png");
    assert_eq!(counter.next, 2);
    let bad = NamingConfig { pattern: "x-%Q".to_string(), window_name: None };
    assert!(generate_file_path(&bad, "png", "/tmp", &time, &mut counter).is_none());
}

fn file_path_for(pattern: &str, window_name: Option<&str>) -> String {
    let config = NamingConfig { pattern: pattern.to_string(), window_name: window_name.map(|w| w.to_string()) };
    let mut counter = NameCounter::new();
    let time = LocalTime { secs: 1704164645, nanos: 0, offset_secs: 3600 };
    generate_file_path(&config, "png", "/tmp", &time, &mut counter).unwrap()
}

#[test]
fn test_generate_filename_basic() {
    let path = file_path_for("test", None);
    assert!(path.contains("test"));
    assert!(path.ends_with(".png"));
}

#[test]
fn test_generate_filename_with_strftime() {
    let path = file_path_for("shot-%Y%m%d", None);
    let filename = path.rsplit('/').next().unwrap();
    assert!(filename.starts_with("shot-20"));
}

#[test]
fn test_generate_filename_with_window_name() {
    let path = file_path_for("shot-%w", Some("Firefox"));
    assert!(path.contains("Firefox"));
}

#[test]
fn each_counter_token_takes_one_value() {
    let config = NamingConfig { pattern: String::new(), window_name: None };
    let mut counter = NameCounter { next: 7 };
    let result = process_custom_tokens("a%Nb%Nc%nd%w%%Nn", &config, &mut counter);
    assert_eq!(result, "a0007b0007c0008dwindow%0007n");
    assert_eq!(counter.next, 9);
    let mut counter = NameCounter { next: 7 };
    assert_eq!(process_custom_tokens("%n%n", &config, &mut counter), "00070007");
    assert_eq!(counter.next, 8);
}

#[test]
fn collision_search_steps() {
    assert_eq!(collision_step(0, false), CollisionStep::Use);
    assert_eq!(collision_step(0, true), CollisionStep::TryNumber(1));
    assert_eq!(collision_step(41, true), CollisionStep::TryNumber(42));
    assert_eq!(collision_step(998, true), CollisionStep::TryNumber(999));
    assert_eq!(collision_step(999, true), CollisionStep::UseTimestamp);
    assert_eq!(collision_step(999, false), CollisionStep::Use);
}
