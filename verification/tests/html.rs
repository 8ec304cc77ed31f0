use fluxchat::html::{join_text, HtmlContentOnce, HtmlMessage};

#[test]
fn strip_leaves_the_text() {
    assert_eq!(HtmlMessage::strip("<b>bold</b> &amp; plain"), "bold & plain");
    assert_eq!(HtmlMessage::strip("just text"), "just text");
    assert_eq!(HtmlMessage::strip(""), "");
    assert_eq!(HtmlMessage::strip("<br><!-- nothing -->"), "");
    assert_eq!(HtmlMessage::strip("<ul><li>one</li><li>two</li></ul>"), "onetwo");
}

#[test]
fn a_message_has_both_forms() {
    let message = HtmlMessage::text_html_auto("<i>hello</i> <code>!help</code>");
    assert_eq!(message.plain, "hello !help");
    assert_eq!(message.html, "<i>hello</i> <code>!help</code>");
}

#[test]
fn text_nodes_are_joined_in_order() {
    let node = |s: &str| Some(s.to_string());
    let a = vec![None, node("one"), node(""), None];
    let b = vec![node(" two")];
    let mut all = a.clone();
    all.extend(b.clone());
    assert_eq!(join_text(&all), "one two");
    assert_eq!(join_text(&all), join_text(&a) + &join_text(&b));
    assert_eq!(join_text(&vec![]), "");
}

#[test]
fn markup_has_no_text() {
    assert_eq!(join_text(&vec![None, None, None]), "");
}

#[test]
fn plain_text_is_left_as_it_is() {
    for text in ["", "just text", "two\nlines", " \tspaces ", "1 > 0", "mid\u{feff}dle", "Привет \u{1f600}"] {
        assert_eq!(HtmlMessage::strip(text), text);
        assert_eq!(HtmlMessage::strip(&format!("<b>{text}</b>")), text);
        assert_eq!(HtmlMessage::text_html_auto(text).plain, text);
    }
    assert_eq!(HtmlMessage::strip("\u{feff}text"), "text");
    assert_eq!(HtmlMessage::strip("a\r\nb"), "a\nb");
}
