use todo_list::error::TodoError;
use todo_list::reply::{add_todo, delete_todo, error_reply, index, Reply};
use todo_list::table::TodoTable;
use todo_list::view::render_index;
use todo_list::{entries_from_rows, TodoEntry};

fn listed(t: &TodoTable) -> Vec<(u32, String)> {
    t.list().into_iter().map(|e| (e.id, e.text)).collect()
}

fn page_of(t: &TodoTable) -> Reply {
    index(Ok(t.rows()))
}

fn assert_redirect(r: &Reply) {
    assert_eq!(r.status, 303);
    assert_eq!(r.location.as_deref(), Some("/"));
    assert_eq!(r.content_type, None);
    assert_eq!(r.body, "");
}

const HEAD: &str = "<!DOCTYPE html>\n<html>\n<head><meta charset=\"utf-8\"><title>Todo</title></head>\n<body>\n<h1>Todo</h1>\n<ul>\n";
const TAIL: &str = "</ul>\n<form method=\"post\" action=\"/add\"><input type=\"text\" name=\"text\"><button type=\"submit\">Add</button></form>\n</body>\n</html>\n";

fn item(id: &str, text: &str) -> String {
    format!(
        "<li>{id}: {text} <form method=\"post\" action=\"/delete\"><input type=\"hidden\" name=\"id\" value=\"{id}\"><button type=\"submit\">Delete</button></form></li>\n"
    )
}

#[test]
fn empty_table_lists_no_entries() {
    let t = TodoTable::new();
    assert!(listed(&t).is_empty());
    let r = page_of(&t);
    assert_eq!(r.status, 200);
    assert_eq!(r.content_type.as_deref(), Some("text/html"));
    assert_eq!(r.location, None);
    assert_eq!(r.body, format!("{HEAD}{TAIL}"));
}

#[test]
fn adding_buy_milk_lists_one_entry() {
    let mut t = TodoTable::new();
    let id = t.insert("buy milk".to_string());
    assert_eq!(id, Some(1));
    assert_redirect(&add_todo(Ok(1)));
    assert_eq!(listed(&t), vec![(1, "buy milk".to_string())]);
    let r = page_of(&t);
    assert_eq!(r.status, 200);
    assert_eq!(r.body, format!("{HEAD}{}{TAIL}", item("1", "buy milk")));
}

fn table_a_b() -> TodoTable {
    let mut t = TodoTable::new();
    assert_eq!(t.insert("a".to_string()), Some(1));
    assert_eq!(t.insert("b".to_string()), Some(2));
    t
}

#[test]
fn two_adds_get_ids_one_and_two_in_order() {
    let t = table_a_b();
    assert_eq!(listed(&t), vec![(1, "a".to_string()), (2, "b".to_string())]);
    let r = page_of(&t);
    assert_eq!(r.body, format!("{HEAD}{}{}{TAIL}", item("1", "a"), item("2", "b")));
}

#[test]
fn deleting_first_leaves_only_second() {
    let mut t = table_a_b();
    assert_eq!(t.delete(1), 1);
    assert_redirect(&delete_todo(Ok(1)));
    assert_eq!(listed(&t), vec![(2, "b".to_string())]);
    assert_eq!(page_of(&t).body, format!("{HEAD}{}{TAIL}", item("2", "b")));
}

#[test]
fn deleting_missing_id_changes_nothing() {
    let mut t = table_a_b();
    let before = listed(&t);
    assert_eq!(t.delete(999), 0);
    assert_redirect(&delete_todo(Ok(0)));
    assert_eq!(listed(&t), before);
}

#[test]
fn added_text_is_listed_under_a_fresh_id() {
    let mut t = table_a_b();
    let seen: Vec<u32> = listed(&t).iter().map(|e| e.0).collect();
    let id = t.insert("water the plants".to_string()).unwrap();
    assert!(!seen.contains(&id));
    assert!(listed(&t).contains(&(id, "water the plants".to_string())));
}

#[test]
fn deleting_twice_removes_nothing_more() {
    let mut t = table_a_b();
    t.insert("c".to_string());
    assert_eq!(t.delete(2), 1);
    let after_first = listed(&t);
    assert_eq!(t.delete(2), 0);
    assert_eq!(listed(&t), after_first);
    assert_eq!(after_first, vec![(1, "a".to_string()), (3, "c".to_string())]);
}

#[test]
fn ids_are_distinct_and_increasing_even_after_deletes() {
    let mut t = TodoTable::new();
    let mut ids = Vec::new();
    for i in 0..5 {
        ids.push(t.insert(format!("item {i}")).unwrap());
    }
    t.delete(5);
    t.delete(3);
    ids.push(t.insert("later".to_string()).unwrap());
    assert_eq!(ids, vec![1, 2, 3, 4, 5, 6]);
    let listed_ids: Vec<u32> = listed(&t).iter().map(|e| e.0).collect();
    assert_eq!(listed_ids, vec![1, 2, 4, 6]);
}

#[test]
fn deleting_removes_only_that_entry() {
    let mut t = TodoTable::new();
    for text in ["x", "same", "same", "y"] {
        t.insert(text.to_string());
    }
    assert_eq!(t.delete(2), 1);
    assert_eq!(
        listed(&t),
        vec![(1, "x".to_string()), (3, "same".to_string()), (4, "y".to_string())]
    );
}

#[test]
fn empty_text_is_stored_as_given() {
    let mut t = TodoTable::new();
    assert_eq!(t.insert(String::new()), Some(1));
    assert_eq!(listed(&t), vec![(1, String::new())]);
}

#[test]
fn page_escapes_markup_in_text() {
    let entries = vec![TodoEntry { id: 7, text: "<b>Tom & \"Jerry's\"</b> ü".to_string() }];
    let body = render_index(&entries);
    let escaped = "&lt;b&gt;Tom &amp; &quot;Jerry&#x27;s&quot;&lt;/b&gt; ü";
    assert_eq!(body, format!("{HEAD}{}{TAIL}", item("7", escaped)));
}

#[test]
fn page_writes_ids_in_decimal() {
    let entries = vec![
        TodoEntry { id: 0, text: "zero".to_string() },
        TodoEntry { id: 10, text: "ten".to_string() },
        TodoEntry { id: u32::MAX, text: "max".to_string() },
    ];
    let body = render_index(&entries);
    assert_eq!(
        body,
        format!("{HEAD}{}{}{}{TAIL}", item("0", "zero"), item("10", "ten"), item("4294967295", "max"))
    );
}

#[test]
fn rows_convert_in_order() {
    let rows = vec![(3i64, "c".to_string()), (1, "a".to_string()), (4294967295, "m".to_string())];
    let entries = entries_from_rows(rows).unwrap();
    let got: Vec<(u32, String)> = entries.into_iter().map(|e| (e.id, e.text)).collect();
    assert_eq!(got, vec![(3, "c".to_string()), (1, "a".to_string()), (u32::MAX, "m".to_string())]);
}

#[test]
fn negative_row_id_is_a_query_error() {
    let rows = vec![(1i64, "a".to_string()), (-1, "b".to_string())];
    assert_eq!(entries_from_rows(rows).unwrap_err(), TodoError::Query);
}

#[test]
fn oversized_row_id_is_a_query_error() {
    let rows = vec![(4294967296i64, "big".to_string())];
    assert_eq!(entries_from_rows(rows).unwrap_err(), TodoError::Query);
    let r = index(Ok(vec![(4294967296i64, "big".to_string())]));
    assert_eq!(r.status, 500);
    assert_eq!(r.body, "Failed SQL execution");
}

#[test]
fn failed_read_is_a_server_error() {
    let r = index(Err(TodoError::Pool));
    assert_eq!(r.status, 500);
    assert_eq!(r.location, None);
    assert_eq!(r.content_type.as_deref(), Some("text/plain; charset=utf-8"));
    assert_eq!(r.body, "Failed to get connection");
}

#[test]
fn failed_insert_is_a_server_error() {
    let r = add_todo(Err(TodoError::Query));
    assert_eq!(r.status, 500);
    assert_eq!(r.body, "Failed SQL execution");
}

#[test]
fn failed_delete_is_a_server_error() {
    let r = delete_todo(Err(TodoError::Pool));
    assert_eq!(r.status, 500);
    assert_eq!(r.body, "Failed to get connection");
}

#[test]
fn render_error_names_itself() {
    let r = error_reply(TodoError::Render);
    assert_eq!(r.status, 500);
    assert_eq!(r.body, "Failed to render HTML");
    assert_eq!(TodoError::Render.message(), "Failed to render HTML");
}

#[test]
fn outside_errors_map_to_their_kind() {
    assert_eq!(TodoError::from(rusqlite::Error::QueryReturnedNoRows), TodoError::Query);
    assert_eq!(TodoError::from(askama::Error::Fmt(std::fmt::Error)), TodoError::Render);
}
