use codex_web::html_probe::attribute_value;
use codex_web::html_probe::class_for_id;
use codex_web::html_probe::element_summary;
use codex_web::html_probe::select_summary;

#[test]
fn probes_read_rendered_html() {
    let html = "<div id=\"a\" class=\"x y\"><p data-question-id=\"q1\">Hi <b>there</b></p></div>";
    assert_eq!(attribute_value("class=\"x y\" id=\"a\"", "id"), Some("a".to_string()));
    assert_eq!(attribute_value("class=\"x", "class"), None);
    assert_eq!(class_for_id(html, "a"), "x y");
    assert_eq!(element_summary(html), "ids: a\nquestions: q1\ntext: Hi there");
    let select = "<select id=\"mode\"><option value=\"a\">A</option><option value=\"b\" selected>B</option></select>";
    assert_eq!(select_summary(select, "mode"), "mode: a=A, b=B [selected]");
}
