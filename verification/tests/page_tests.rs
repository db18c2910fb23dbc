use lithe::{body, div, head, html, render_page, render_to_string, replace_all, title};

#[test]
fn replace_all_behaves_like_leftmost_replacement() {
    assert_eq!(replace_all("a-b-c", "-", "+"), "a+b+c");
    assert_eq!(replace_all("aaaa", "aa", "b"), "bb");
    assert_eq!(replace_all("abc", "x", "y"), "abc");
    assert_eq!(replace_all("abc", "", "y"), "abc");
    assert_eq!(replace_all("", "x", "y"), "");
}

#[test]
fn render_page_splices_the_script_before_head_close() {
    let page = html()
        .with_child(head().with_child(title().with_child("T")))
        .with_child(body().with_child(div()));
    let out = render_page(page, "demo", "{\"abc123\":\"login_a1b2\"}");
    // the script sits inside the head, carrying the serialized table and
    // the client artifact's name
    let head_close = out.find("</head>").expect("head close tag kept");
    let script_at = out.find("<script type=\"module\">").expect("script inserted");
    assert!(script_at < head_close);
    assert!(out.contains("id_map: {\"abc123\":\"login_a1b2\"}"));
    assert!(out.contains("'/public/pkg/demo.js'"));
    assert!(out.contains("dispatch: (name) =>"));
    assert!(out.ends_with("</body></html>"));
}

#[test]
fn render_page_without_a_head_is_the_plain_rendering() {
    let page = div().with_child("x");
    let out = render_page(page, "demo", "{}");
    assert_eq!(out, "<div>x</div>");
}

#[test]
fn render_page_keeps_the_rest_of_the_page_intact() {
    let page = html().with_child(head()).with_child(body().with_child("hello"));
    let out = render_page(page, "app", "{}");
    let plain = render_to_string(
        &html().with_child(head()).with_child(body().with_child("hello")),
    );
    // removing the spliced script gives back the plain rendering
    let script_start = out.find("    <script").unwrap();
    let script_end = out.find("</script>").unwrap() + "</script>".len() + 1;
    let mut stripped = String::new();
    stripped.push_str(&out[..script_start]);
    stripped.push_str(&out[script_end..]);
    assert_eq!(stripped, plain);
}
