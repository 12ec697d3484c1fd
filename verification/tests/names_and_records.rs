use parallel_import::naming::{
    build_address, build_url, generate_random_string, letter, name_from_picks, resolve_destination,
    NAME_LENGTH,
};
use parallel_import::record::{strip_ids, ArxivEntry, ArxivEntry2, Version};

fn entry(id: u32) -> ArxivEntry {
    ArxivEntry {
        abstract_text: Some(format!("abstract {}", id)),
        authors: Some("A. Author".to_string()),
        authors_parsed: vec![vec!["Author".to_string(), "A.".to_string(), String::new()]],
        categories: Some("math.CO".to_string()),
        comments: None,
        doi: None,
        id,
        journal_ref: None,
        license: Some("cc".to_string()),
        report_no: None,
        submitter: Some("A. Author".to_string()),
        title: Some(format!("title {}", id)),
        update_date: Some("2008-11-26".to_string()),
        versions: vec![Version { created: "Mon, 2 Apr 2007".to_string(), version: "v1".to_string() }],
    }
}

fn entry_without_id(id: u32) -> ArxivEntry2 {
    ArxivEntry2 {
        abstract_text: Some(format!("abstract {}", id)),
        authors: Some("A. Author".to_string()),
        authors_parsed: vec![vec!["Author".to_string(), "A.".to_string(), String::new()]],
        categories: Some("math.CO".to_string()),
        comments: None,
        doi: None,
        journal_ref: None,
        license: Some("cc".to_string()),
        report_no: None,
        submitter: Some("A. Author".to_string()),
        title: Some(format!("title {}", id)),
        update_date: Some("2008-11-26".to_string()),
        versions: vec![Version { created: "Mon, 2 Apr 2007".to_string(), version: "v1".to_string() }],
    }
}

#[test]
fn generated_name_has_five_lowercase_letters() {
    let mut round: u32 = 0;
    while round < 200 {
        let name = generate_random_string();
        assert_eq!(name.chars().count(), 5);
        assert_eq!(name.len(), NAME_LENGTH);
        assert!(name.chars().all(|c| ('a'..='z').contains(&c)));
        round += 1;
    }
}

#[test]
fn generated_names_differ() {
    let first = generate_random_string();
    let mut differs = false;
    let mut round: u32 = 0;
    while round < 50 {
        if generate_random_string() != first {
            differs = true;
        }
        round += 1;
    }
    assert!(differs);
}

#[test]
fn letters_of_the_alphabet() {
    assert_eq!(letter(0), "a");
    assert_eq!(letter(1), "b");
    assert_eq!(letter(12), "m");
    assert_eq!(letter(25), "z");
}

#[test]
fn picks_spell_a_name() {
    assert_eq!(name_from_picks(&vec![0, 25, 7, 4, 11]), "azhel");
    assert_eq!(name_from_picks(&vec![19, 0, 1, 11, 4]), "table");
    assert_eq!(name_from_picks(&Vec::new()), "");
}

#[test]
fn explicit_destination_is_kept() {
    assert_eq!(resolve_destination(Some("papers".to_string())), "papers");
    assert_eq!(resolve_destination(Some(String::new())), "");
}

#[test]
fn missing_destination_is_generated() {
    let name = resolve_destination(None);
    assert_eq!(name.chars().count(), 5);
    assert!(name.chars().all(|c| c.is_ascii_lowercase()));
}

#[test]
fn url_is_built_from_host_and_port() {
    assert_eq!(build_url("localhost", "7700"), "http://localhost:7700");
    assert_eq!(build_url("", ""), "http://:");
    assert_eq!(build_url("søk.example", "80"), "http://søk.example:80");
}

#[test]
fn address_is_built_from_host_and_port() {
    assert_eq!(build_address("127.0.0.1", "8000"), "127.0.0.1:8000");
    assert_eq!(build_address("", ""), ":");
}

#[test]
fn identifier_is_dropped_and_the_rest_kept() {
    assert_eq!(ArxivEntry2::from(entry(704)), entry_without_id(704));
    let converted: ArxivEntry2 = entry(9).into();
    assert_eq!(converted, entry_without_id(9));
}

#[test]
fn identifiers_are_stripped_in_order() {
    let entries = vec![entry(3), entry(1), entry(2)];
    assert_eq!(
        strip_ids(entries),
        vec![entry_without_id(3), entry_without_id(1), entry_without_id(2)]
    );
    assert_eq!(strip_ids(Vec::new()), Vec::<ArxivEntry2>::new());
}
