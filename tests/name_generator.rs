use squish::errors::AppError;
use squish::name_generator::{decimal_string, make_title_case, split_lines, NameGenerator, NameGeneratorTrait};

#[test]
fn test_make_title_case() {
    let adjective = String::from("big");
    let result = make_title_case(&adjective);
    assert_eq!(result, "Big");
}

#[test]
fn test_construct_name_generator() {
    let generator = NameGenerator::default();
    assert!(!generator.adjectives().is_empty());
    assert!(!generator.nouns().is_empty());
}

#[test]
fn test_generate_name() {
    let mut rng = rand::thread_rng();
    let generator = NameGenerator::default();
    let name = generator.make_random_name(&mut rng);
    assert!(!name.0.is_empty());
}

#[test]
fn generator_refuses_empty_words() {
    let r = NameGenerator::new(vec![String::from("big"), String::new()], vec![String::from("cat")]);
    assert!(matches!(r, Err(AppError::InfraError(_))));
    let r = NameGenerator::new(vec![String::from("big")], vec![String::new()]);
    assert!(matches!(r, Err(AppError::InfraError(_))));
    let r = NameGenerator::from_word_lists("big\n\nsmall\n", "cat\n");
    assert!(matches!(r, Err(AppError::InfraError(_))));
    let r = NameGenerator::from_word_lists("big\n", "cat\r\n\r\ndog");
    assert!(matches!(r, Err(AppError::InfraError(_))));
}

#[test]
fn decimal_digits_of_numbers() {
    for n in [0u32, 7, 10, 42, 100, 999, 1000, 65536, u32::MAX] {
        assert_eq!(decimal_string(n), n.to_string());
    }
}

#[test]
fn title_case_keeps_the_rest_of_the_word() {
    assert_eq!(make_title_case(&String::from("éclair")), "Éclair");
    assert_eq!(make_title_case(&String::from("Otter")), "Otter");
}

#[test]
fn name_from_joins_adjective_noun_and_number() {
    let name = NameGenerator::name_from(&String::from("big"), &String::from("cat"), 42);
    assert_eq!(name.0, "Bigcat42");
    let name = NameGenerator::name_from(&String::from("calm"), &String::from("otter"), 0);
    assert_eq!(name.0, "Calmotter0");
    let name = NameGenerator::name_from(&String::from("swift"), &String::from("lynx"), 999);
    assert_eq!(name.0, "Swiftlynx999");
}

#[test]
fn generator_refuses_empty_word_lists() {
    let r = NameGenerator::new(vec![], vec![String::from("cat")]);
    assert!(matches!(r, Err(AppError::InfraError(_))));
    let r = NameGenerator::new(vec![String::from("big")], vec![]);
    assert!(matches!(r, Err(AppError::InfraError(_))));
}

#[test]
fn generator_with_one_word_each_varies_only_the_number() {
    let generator = NameGenerator::new(vec![String::from("big")], vec![String::from("cat")]).unwrap();
    let mut rng = rand::thread_rng();
    for _ in 0..200 {
        let name = generator.make_random_name(&mut rng).0;
        assert!(name.starts_with("Bigcat"));
        let digits = &name["Bigcat".len()..];
        assert!(!digits.is_empty() && digits.len() <= 3);
        assert!(digits.chars().all(|c| c.is_ascii_digit()));
        let n: u32 = digits.parse().unwrap();
        assert!(n < 1000);
        assert_eq!(n.to_string(), digits);
    }
}

#[test]
fn generated_names_come_from_the_word_lists() {
    let generator = NameGenerator::default();
    let mut rng = rand::thread_rng();
    for _ in 0..100 {
        let name = generator.make_random_name(&mut rng).0;
        let ok = generator.adjectives().iter().any(|a| {
            generator.nouns().iter().any(|n| {
                let title = make_title_case(a);
                name.starts_with(&(title.clone() + n))
                    && name[title.len() + n.len()..].parse::<u32>().map_or(false, |k| k < 1000)
            })
        });
        assert!(ok, "unexpected name {name}");
    }
}

#[test]
fn lines_are_split_at_line_feeds() {
    assert_eq!(split_lines("foo\r\nbar\n\nbaz\r"), vec!["foo", "bar", "", "baz\r"]);
    assert_eq!(split_lines("a\nb\n"), vec!["a", "b"]);
    assert_eq!(split_lines("a\nb"), vec!["a", "b"]);
    assert_eq!(split_lines(""), Vec::<String>::new());
    assert_eq!(split_lines("\n"), vec![""]);
    for text in ["otter\nlynx\r\n", "x", "\r\n\r\n", "é\nü\n\nñ", "a\rb\nc"] {
        let expected: Vec<String> = text.lines().map(String::from).collect();
        assert_eq!(split_lines(text), expected, "{text:?}");
    }
}

#[test]
fn generator_from_word_lists() {
    let generator = NameGenerator::from_word_lists("big\nsmall\n", "cat\r\ndog").unwrap();
    assert_eq!(generator.adjectives(), &vec![String::from("big"), String::from("small")]);
    assert_eq!(generator.nouns(), &vec![String::from("cat"), String::from("dog")]);
    assert!(matches!(NameGenerator::from_word_lists("", "cat"), Err(AppError::InfraError(_))));
    assert!(matches!(NameGenerator::from_word_lists("big", ""), Err(AppError::InfraError(_))));
}
