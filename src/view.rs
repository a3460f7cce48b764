use vstd::prelude::*;

use crate::entry::{entries_view, TodoEntry};

verus! {

/// How HTML escaping writes one character.
pub open spec fn escape_char(c: char) -> Seq<char> {
    if c == '<' {
        "&lt;"@
    } else if c == '>' {
        "&gt;"@
    } else if c == '&' {
        "&amp;"@
    } else if c == '"' {
        "&quot;"@
    } else if c == '\'' {
        "&#x27;"@
    } else {
        seq![c]
    }
}

/// Text escaped for HTML, character by character.
pub open spec fn html_escaped(s: Seq<char>) -> Seq<char>
    decreases s.len(),
{
    if s.len() == 0 {
        Seq::empty()
    } else {
        html_escaped(s.drop_last()) + escape_char(s.last())
    }
}

/// Relies on askama's `MarkupDisplay` with the `Html` escaper, which is what a
/// template applies to a value: `<`, `>`, `&`, `"` and `'` become entities and
/// every other character is written unchanged.
#[verifier::external_body]
fn escape_html(s: &str) -> (r: String)
    ensures
        r@ == html_escaped(s@),
{
    askama::MarkupDisplay::new_unsafe(s, askama::Html).to_string()
}

/// The decimal digit for a value below ten.
pub open spec fn digit_char(d: nat) -> char {
    seq!['0', '1', '2', '3', '4', '5', '6', '7', '8', '9'][d as int]
}

/// A number written in decimal, without leading zeros.
pub open spec fn decimal(n: nat) -> Seq<char>
    decreases n,
{
    if n < 10 {
        seq![digit_char(n)]
    } else {
        decimal(n / 10).push(digit_char(n % 10))
    }
}

fn digit_str(d: u32) -> (r: &'static str)
    requires
        d < 10,
    ensures
        r@ == seq![digit_char(d as nat)],
{
    proof {
        reveal_strlit("0");
        reveal_strlit("1");
        reveal_strlit("2");
        reveal_strlit("3");
        reveal_strlit("4");
        reveal_strlit("5");
        reveal_strlit("6");
        reveal_strlit("7");
        reveal_strlit("8");
        reveal_strlit("9");
    }
    let r = match d {
        0 => "0",
        1 => "1",
        2 => "2",
        3 => "3",
        4 => "4",
        5 => "5",
        6 => "6",
        7 => "7",
        8 => "8",
        _ => "9",
    };
    assert(r@ =~= seq![digit_char(d as nat)]);
    r
}

fn append_decimal(s: &mut String, n: u32)
    ensures
        final(s)@ == old(s)@ + decimal(n as nat),
    decreases n,
{
    if n >= 10 {
        append_decimal(s, n / 10);
    }
    let d = digit_str(n % 10);
    s.append(d);
    assert(decimal(n as nat) =~= if n < 10 {
        seq![digit_char(n as nat)]
    } else {
        decimal((n / 10) as nat) + seq![digit_char((n % 10) as nat)]
    });
}

/// One entry as a list item: its id, its escaped text, and a form that
/// deletes it.
pub open spec fn entry_html(e: (u32, Seq<char>)) -> Seq<char> {
    "<li>"@ + decimal(e.0 as nat) + ": "@ + html_escaped(e.1)
        + " <form method=\"post\" action=\"/delete\"><input type=\"hidden\" name=\"id\" value=\""@
        + decimal(e.0 as nat) + "\"><button type=\"submit\">Delete</button></form></li>\n"@
}

/// The list items of the entries, in order.
pub open spec fn entries_html(es: Seq<(u32, Seq<char>)>) -> Seq<char>
    decreases es.len(),
{
    if es.len() == 0 {
        Seq::empty()
    } else {
        entries_html(es.drop_last()) + entry_html(es.last())
    }
}

/// The start of the page, up to the list.
pub open spec fn page_head() -> Seq<char> {
    "<!DOCTYPE html>\n<html>\n<head><meta charset=\"utf-8\"><title>Todo</title></head>\n<body>\n<h1>Todo</h1>\n<ul>\n"@
}

/// The end of the page: the form that adds an entry.
pub open spec fn page_tail() -> Seq<char> {
    "</ul>\n<form method=\"post\" action=\"/add\"><input type=\"text\" name=\"text\"><button type=\"submit\">Add</button></form>\n</body>\n</html>\n"@
}

/// The page that lists the entries.
pub open spec fn index_page(es: Seq<(u32, Seq<char>)>) -> Seq<char> {
    page_head() + entries_html(es) + page_tail()
}

fn append_entry(s: &mut String, e: &TodoEntry)
    ensures
        final(s)@ == old(s)@ + entry_html(e@),
{
    s.append("<li>");
    append_decimal(s, e.id);
    s.append(": ");
    let text = escape_html(e.text.as_str());
    s.append(text.as_str());
    s.append(
        " <form method=\"post\" action=\"/delete\"><input type=\"hidden\" name=\"id\" value=\"",
    );
    append_decimal(s, e.id);
    s.append("\"><button type=\"submit\">Delete</button></form></li>\n");
    assert(final(s)@ =~= old(s)@ + entry_html(e@));
}

/// Renders the page that lists the entries, each with its delete form, and
/// the form that adds one.
pub fn render_index(entries: &Vec<TodoEntry>) -> (r: String)
    ensures
        r@ == index_page(entries_view(entries@)),
{
    let mut s = String::from_str(
        "<!DOCTYPE html>\n<html>\n<head><meta charset=\"utf-8\"><title>Todo</title></head>\n<body>\n<h1>Todo</h1>\n<ul>\n",
    );
    let mut i: usize = 0;
    while i < entries.len()
        invariant
            i <= entries@.len(),
            s@ == page_head() + entries_html(entries_view(entries@.subrange(0, i as int))),
        decreases entries@.len() - i,
    {
        append_entry(&mut s, &entries[i]);
        proof {
            let es = entries_view(entries@.subrange(0, i + 1));
            assert(es =~= entries_view(entries@.subrange(0, i as int)).push(entries@[i as int]@));
            assert(es.drop_last() =~= entries_view(entries@.subrange(0, i as int)));
        }
        i = i + 1;
    }
    assert(entries@.subrange(0, i as int) =~= entries@);
    s.append(
        "</ul>\n<form method=\"post\" action=\"/add\"><input type=\"text\" name=\"text\"><button type=\"submit\">Add</button></form>\n</body>\n</html>\n",
    );
    assert(s@ =~= index_page(entries_view(entries@)));
    s
}

} // verus!
