use egocms_updater::page::PageToFileMapping;
use egocms_updater::table::{
    check_markdown_files, check_unique, distinct_column, find_repeated, Column, IdCheck, TableError,
};

fn table(lines: &[(&str, &str)]) -> Vec<PageToFileMapping> {
    lines.iter().map(|(id, name)| PageToFileMapping::new(id.to_string(), name.to_string())).collect()
}

fn files(names: &[&str]) -> Vec<String> {
    names.iter().map(|s| s.to_string()).collect()
}

fn view(lines: &[PageToFileMapping]) -> Vec<(String, String)> {
    lines.iter().map(|m| (m.page_id.clone(), m.markdown_name.clone())).collect()
}

#[test]
fn unique_table_passes() {
    let t = table(&[("56", "landing_page.md"), ("58", "research/cosemos.md"), ("62", "research/julea.md")]);
    assert!(check_unique(&t).is_ok());
}

#[test]
fn duplicates_are_named() {
    let t = table(&[("56", "a.md"), ("58", "b.md"), ("56", "c.md"), ("60", "a.md"), ("56", "a.md")]);
    match check_unique(&t) {
        Err(TableError::DuplicateEntries { duplicate_ids, duplicate_names }) => {
            assert_eq!(view(&duplicate_ids), vec![("56".into(), "c.md".into()), ("56".into(), "a.md".into())]);
            assert_eq!(view(&duplicate_names), vec![("60".into(), "a.md".into()), ("56".into(), "a.md".into())]);
        }
        _ => panic!("expected duplicate entries"),
    }
}

#[test]
fn duplicate_names_alone_fail() {
    let t = table(&[("1", "a.md"), ("2", "a.md")]);
    match check_unique(&t) {
        Err(TableError::DuplicateEntries { duplicate_ids, duplicate_names }) => {
            assert!(duplicate_ids.is_empty());
            assert_eq!(view(&duplicate_names), vec![("2".into(), "a.md".into())]);
        }
        _ => panic!("expected duplicate entries"),
    }
}

#[test]
fn empty_table_is_unique() {
    assert!(check_unique(&[]).is_ok());
}

#[test]
fn repeated_and_distinct_columns() {
    let t = table(&[("1", "a.md"), ("2", "b.md"), ("1", "b.md")]);
    assert_eq!(view(&find_repeated(&t, Column::PageId)), vec![("1".into(), "b.md".into())]);
    assert_eq!(distinct_column(&t, Column::PageId), files(&["1", "2"]));
    assert_eq!(distinct_column(&t, Column::MarkdownName), files(&["a.md", "b.md"]));
}

#[test]
fn matching_directory_passes() {
    let t = table(&[("56", "landing_page.md"), ("62", "research/julea.md"), ("572", "research/smash.MD")]);
    let f = files(&["research/smash.MD", "landing_page.md", "research/julea.md"]);
    assert!(check_markdown_files(&t, &f).is_ok());
}

#[test]
fn non_markdown_files_are_named_first() {
    let t = table(&[("56", "landing_page.md")]);
    let f = files(&["landing_page.md", "notes.txt", "img/logo.png", "missing_from_table.md"]);
    match check_markdown_files(&t, &f) {
        Err(TableError::NotMarkdown(names)) => assert_eq!(names, files(&["notes.txt", "img/logo.png"])),
        _ => panic!("expected files that do not end in .md"),
    }
}

#[test]
fn unlisted_files_are_named() {
    let t = table(&[("56", "landing_page.md"), ("60", "gone.md")]);
    let f = files(&["landing_page.md", "research/new.md"]);
    match check_markdown_files(&t, &f) {
        Err(TableError::UnlistedFiles(names)) => assert_eq!(names, files(&["research/new.md"])),
        _ => panic!("expected unlisted files"),
    }
}

#[test]
fn missing_files_are_named_once() {
    let t = table(&[("56", "landing_page.md"), ("60", "gone.md"), ("61", "gone.md")]);
    let f = files(&["landing_page.md"]);
    match check_markdown_files(&t, &f) {
        Err(TableError::MissingFiles(names)) => assert_eq!(names, files(&["gone.md"])),
        _ => panic!("expected missing files"),
    }
}

#[test]
fn file_names_are_compared_exactly() {
    let t = table(&[("56", "Landing_page.md")]);
    let f = files(&["landing_page.md"]);
    assert!(matches!(check_markdown_files(&t, &f), Err(TableError::UnlistedFiles(_))));
}

#[test]
fn id_check_asks_each_id_once_in_order() {
    let t = table(&[("56", "a.md"), ("58", "b.md"), ("56", "c.md"), ("60", "d.md")]);
    let mut check = IdCheck::new(&t);
    let mut asked = Vec::new();
    while let Some(id) = check.next_id() {
        let answer = if id == "58" { "null" } else { r#"{"id":1,"extra":{}}"# };
        asked.push(id);
        assert!(check.record(answer).is_ok());
    }
    assert_eq!(asked, files(&["56", "58", "60"]));
    match check.finish() {
        Err(TableError::MissingIds(ids)) => assert_eq!(ids, files(&["58"])),
        _ => panic!("expected missing ids"),
    }
}

#[test]
fn id_check_passes_when_all_pages_exist() {
    let t = table(&[("56", "a.md"), ("58", "b.md")]);
    let mut check = IdCheck::new(&t);
    while check.next_id().is_some() {
        assert!(check.record("{}").is_ok());
    }
    assert!(check.finish().is_ok());
}

#[test]
fn id_check_refuses_an_answer_that_is_not_json() {
    let t = table(&[("56", "a.md"), ("58", "b.md")]);
    let mut check = IdCheck::new(&t);
    match check.record("<html>") {
        Err(TableError::InvalidPageJson { id, .. }) => assert_eq!(id, "56"),
        _ => panic!("expected a JSON error"),
    }
    assert_eq!(check.next_id().as_deref(), Some("56"));
}

#[test]
fn files_without_extension_do_not_end_in_md() {
    let t = table(&[("56", "a.md")]);
    let f = files(&["a.md", "README", ".md", "notes."]);
    match check_markdown_files(&t, &f) {
        Err(TableError::NotMarkdown(names)) => assert_eq!(names, files(&["README", ".md", "notes."])),
        _ => panic!("expected files that do not end in .md"),
    }
}

#[test]
fn id_check_accepts_null_with_whitespace() {
    let t = table(&[("56", "a.md")]);
    let mut check = IdCheck::new(&t);
    assert!(check.record(" \n null\t\r\n").is_ok());
    assert!(matches!(check.finish(), Err(TableError::MissingIds(_))));
}
