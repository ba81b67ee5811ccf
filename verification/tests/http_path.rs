use platform_poc::http_path::path_and_query;

#[test]
fn test_parse_path_and_query() {
    assert_eq!(
        path_and_query("/1/products?skus=sku1,sku2"),
        ("/1/products", Some("skus=sku1,sku2"))
    );
    assert_eq!(path_and_query("/products"), ("/products", None));
    assert_eq!(path_and_query(""), ("", None));
}

#[test]
fn path_and_query_drops_every_leading_question_mark() {
    assert_eq!(path_and_query("/orders??a=1"), ("/orders", Some("a=1")));
    assert_eq!(path_and_query("/orders?"), ("/orders", Some("")));
    assert_eq!(path_and_query("?x"), ("", Some("x")));
}

#[test]
fn path_and_query_keeps_later_question_marks_in_the_query() {
    assert_eq!(path_and_query("/p?a?b"), ("/p", Some("a?b")));
}

#[test]
fn a_target_is_path_question_marks_and_query() {
    for s in ["/a?b", "/a???b", "/a", "", "??", "/x?y?z"] {
        let (path, query) = path_and_query(s);
        assert!(!path.contains('?'));
        match query {
            None => assert_eq!(path, s),
            Some(q) => {
                assert!(!q.starts_with('?'));
                let marks = s.len() - path.len() - q.len();
                assert!(marks >= 1);
                assert_eq!(format!("{path}{}{q}", "?".repeat(marks)), s);
            }
        }
    }
}
