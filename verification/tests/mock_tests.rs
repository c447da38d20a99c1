use csv2parquet::mock::{format_citizen_id, full_name, generate_citizen_id, generate_salaries, people_header, salary_header, MockGenerator};
use std::collections::HashSet;

fn is_citizen_id(s: &str) -> bool {
    let parts: Vec<&str> = s.split('-').collect();
    let widths: Vec<usize> = parts.iter().map(|p| p.len()).collect();
    widths == vec![1, 4, 5, 2, 1] && parts.iter().all(|p| p.chars().all(|c| c.is_ascii_digit())) && !parts[0].starts_with('0')
}

#[test]
fn citizen_id_joins_five_numbers() {
    assert_eq!(format_citizen_id(3, 1234, 56789, 10, 0), "3-1234-56789-10-0");
}

#[test]
fn generated_citizen_ids_have_the_fixed_shape() {
    for _ in 0..200 {
        let id = generate_citizen_id();
        assert_eq!(id.len(), 17);
        assert!(is_citizen_id(&id), "{}", id);
    }
}

#[test]
fn full_name_is_first_space_last() {
    assert_eq!(full_name("Ada", "Lovelace"), "Ada Lovelace");
}

#[test]
fn generator_keeps_names_and_ids_unique() {
    let mut g = MockGenerator::new();
    let mut steps = 0;
    while g.len() < 300 {
        let before = g.len();
        let added = g.step();
        assert_eq!(g.len(), before + usize::from(added));
        steps += 1;
    }
    assert!(steps >= 600);
    let names: HashSet<String> = g.people().iter().map(|p| format!("{} {}", p.first_name, p.last_name)).collect();
    let ids: HashSet<&String> = g.people().iter().map(|p| &p.citizen_id).collect();
    assert_eq!(names.len(), 300);
    assert_eq!(ids.len(), 300);
    assert!(g.people().iter().all(|p| is_citizen_id(&p.citizen_id) && !p.address.is_empty() && !p.first_name.is_empty()));
}

#[test]
fn salaries_follow_people_in_order() {
    let mut g = MockGenerator::new();
    while g.len() < 50 {
        g.step();
    }
    let salaries = generate_salaries(g.people());
    assert_eq!(salaries.len(), 50);
    for (s, p) in salaries.iter().zip(g.people()) {
        assert_eq!(s.citizen_id, p.citizen_id);
        assert!((15_000..=150_000).contains(&s.salary));
    }
}

#[test]
fn dataset_headers() {
    assert_eq!(people_header(), vec!["first_name", "last_name", "citizen_id", "address"]);
    assert_eq!(salary_header(), vec!["citizen_id", "salary"]);
}

#[test]
fn offered_name_is_kept_only_when_its_full_name_is_new() {
    let mut g = MockGenerator::new();
    assert!(g.offer_name("Ada".to_string(), "Lovelace".to_string()));
    assert!(g.is_new_citizen_id("1-1000-10000-10-0"));
    g.complete_person("1-1000-10000-10-0".to_string(), "Main Street".to_string());
    assert_eq!(g.len(), 1);
    let p = &g.people()[0];
    assert_eq!(
        (p.first_name.as_str(), p.last_name.as_str(), p.citizen_id.as_str(), p.address.as_str()),
        ("Ada", "Lovelace", "1-1000-10000-10-0", "Main Street")
    );
    assert!(!g.offer_name("Ada".to_string(), "Lovelace".to_string()));
    assert_eq!(g.len(), 1);
    assert!(g.offer_name("Ada".to_string(), "Byron".to_string()));
}

#[test]
fn citizen_id_in_use_is_not_new() {
    let mut g = MockGenerator::new();
    assert!(g.offer_name("Alan".to_string(), "Turing".to_string()));
    g.complete_person("2-2000-20000-20-1".to_string(), "High Street".to_string());
    assert!(!g.is_new_citizen_id("2-2000-20000-20-1"));
    assert!(g.is_new_citizen_id("2-2000-20000-20-2"));
    assert!(g.offer_name("Grace".to_string(), "Hopper".to_string()));
    assert!(g.is_new_citizen_id("3-3000-30000-30-2"));
    g.complete_person("3-3000-30000-30-2".to_string(), "Elm Street".to_string());
    assert_eq!(g.len(), 2);
    assert_eq!(g.people()[1].citizen_id, "3-3000-30000-30-2");
}
