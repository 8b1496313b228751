use feature_watch::diff::{render_changes, render_diff, DiffLine, LineKind};

fn line(kind: LineKind, text: &str) -> DiffLine {
    DiffLine { kind, text: text.to_string() }
}

#[test]
fn equal_summaries_render_nothing() {
    for s in ["", "a", "a\n", "a\nb", "CodeAdress/Adresse: 5 rue B\nEtat/Etat: ok", "\n\n", "<b>"] {
        assert_eq!(render_diff(s, s), "", "{:?}", s);
    }
}

#[test]
fn equal_long_summaries_render_nothing() {
    let mut s = String::new();
    for i in 0..250 {
        s.push_str(&format!("line {}\n", i % 7));
    }
    assert_eq!(render_diff(&s, &s.clone()), "");
}

#[test]
fn lines_of_the_new_text_only_are_shown_as_removals() {
    assert_eq!(
        render_diff("", "a\nb"),
        "<pre><code><strong>-</strong><span style=\"color:red\">a\n</span>\
         <strong>-</strong><span style=\"color:red\">b\n</span></code></pre>"
    );
}

#[test]
fn pure_insertions_have_no_green_fragment() {
    let markup = render_diff("", "a\nb");
    assert_eq!(markup.matches("<strong>-</strong>").count(), 2);
    assert_eq!(markup.matches("color:red").count(), 2);
    assert_eq!(markup.matches("<strong>+</strong>").count(), 0);
    assert_eq!(markup.matches("green").count(), 0);
}

#[test]
fn lines_of_the_old_text_only_are_shown_as_additions() {
    assert_eq!(
        render_diff("a\nb", ""),
        "<pre><code><strong>+</strong><span style=\"color:green\">a\n</span>\
         <strong>+</strong><span style=\"color:green\">b\n</span></code></pre>"
    );
}

#[test]
fn pure_deletions_have_no_red_fragment() {
    let markup = render_diff("a\nb", "");
    assert_eq!(markup.matches("<strong>+</strong>").count(), 2);
    assert_eq!(markup.matches("color:green").count(), 2);
    assert_eq!(markup.matches("<strong>-</strong>").count(), 0);
    assert_eq!(markup.matches("red").count(), 0);
}

#[test]
fn changed_last_line_comes_with_its_context() {
    assert_eq!(
        render_diff("a\nb\nc", "a\nb\nC"),
        "<pre><code><strong> </strong><span style=\"color:\">a\n</span>\
         <strong> </strong><span style=\"color:\">b\n</span>\
         <strong>+</strong><span style=\"color:green\">c\n</span>\
         <strong>-</strong><span style=\"color:red\">C\n</span></code></pre>"
    );
}

#[test]
fn context_is_three_lines() {
    let old = "1\n2\n3\n4\n5\n6\nx\n";
    let new = "1\n2\n3\n4\n5\n6\ny\n";
    assert_eq!(
        render_diff(old, new),
        "<pre><code><strong> </strong><span style=\"color:\">4\n</span>\
         <strong> </strong><span style=\"color:\">5\n</span>\
         <strong> </strong><span style=\"color:\">6\n</span>\
         <strong>+</strong><span style=\"color:green\">x\n</span>\
         <strong>-</strong><span style=\"color:red\">y\n</span></code></pre>"
    );
}

#[test]
fn summary_text_is_escaped_in_a_diff() {
    assert_eq!(
        render_diff("", "a/<b>: \"x\" & y"),
        "<pre><code><strong>-</strong><span style=\"color:red\">\
         a/&lt;b&gt;: &quot;x&quot; &amp; y\n</span></code></pre>"
    );
}

#[test]
fn no_change_renders_nothing() {
    assert_eq!(render_changes(&vec![]), "");
}

#[test]
fn one_fragment_per_kind() {
    assert_eq!(
        render_changes(&vec![line(LineKind::Deletion, "old\n")]),
        "<pre><code><strong>+</strong><span style=\"color:green\">old\n</span></code></pre>"
    );
    assert_eq!(
        render_changes(&vec![line(LineKind::Insertion, "new\n")]),
        "<pre><code><strong>-</strong><span style=\"color:red\">new\n</span></code></pre>"
    );
    assert_eq!(
        render_changes(&vec![line(LineKind::Equal, "same\n")]),
        "<pre><code><strong> </strong><span style=\"color:\">same\n</span></code></pre>"
    );
}

#[test]
fn fragments_follow_the_order_of_the_lines() {
    let lines = vec![
        line(LineKind::Equal, "a\n"),
        line(LineKind::Insertion, "b\n"),
        line(LineKind::Deletion, "c\n"),
    ];
    assert_eq!(
        render_changes(&lines),
        "<pre><code><strong> </strong><span style=\"color:\">a\n</span>\
         <strong>-</strong><span style=\"color:red\">b\n</span>\
         <strong>+</strong><span style=\"color:green\">c\n</span></code></pre>"
    );
}

#[test]
fn markup_characters_are_escaped() {
    assert_eq!(
        render_changes(&vec![line(LineKind::Equal, "<script>alert(\"x\")</script> & 'q'")]),
        "<pre><code><strong> </strong><span style=\"color:\">\
         &lt;script&gt;alert(&quot;x&quot;)&lt;/script&gt; &amp; 'q'</span></code></pre>"
    );
}

#[test]
fn escaped_text_cannot_close_the_span() {
    let markup = render_changes(&vec![line(LineKind::Insertion, "</span></code></pre><h1>")]);
    assert_eq!(markup.matches("</span>").count(), 1);
    assert_eq!(markup.matches("</pre>").count(), 1);
    assert!(!markup.contains("<h1>"));
}

#[test]
fn other_characters_pass_unchanged() {
    assert_eq!(
        render_changes(&vec![line(LineKind::Equal, "Isère é日本 \t;#\n")]),
        "<pre><code><strong> </strong><span style=\"color:\">Isère é日本 \t;#\n</span></code></pre>"
    );
}

#[test]
fn empty_line_text_still_gives_a_fragment() {
    assert_eq!(
        render_changes(&vec![line(LineKind::Deletion, "")]),
        "<pre><code><strong>+</strong><span style=\"color:green\"></span></code></pre>"
    );
}

#[test]
fn rendered_diff_has_no_whitespace_around_it() {
    let markup = render_diff("a\n", "b\n");
    assert_eq!(markup.trim(), markup);
    assert!(markup.starts_with("<pre><code>"));
    assert!(markup.ends_with("</code></pre>"));
}
