use pacs::template::{expand_strict, expand_template, render_template};
use pacs::PacsError;

fn vals(pairs: &[(&str, &str)]) -> Vec<(String, String)> {
    pairs.iter().map(|(k, v)| (k.to_string(), v.to_string())).collect()
}

#[test]
fn all_placeholders_resolved() {
    let v = vals(&[("a", "1"), ("b", "2")]);
    assert_eq!(render_template("echo {{a}} {{b}}", &v), "echo 1 2");
}

#[test]
fn one_missing_placeholder_keeps_body() {
    let v = vals(&[("a", "1")]);
    assert_eq!(render_template("echo {{a}} {{b}}", &v), "echo {{a}} {{b}}");
    assert_eq!(expand_template("echo {{a}} {{b}}", &v), None);
}

#[test]
fn unterminated_delimiter_is_copied() {
    assert_eq!(render_template("echo {{oops", &vals(&[])), "echo {{oops");
    assert_eq!(render_template("echo {{oops", &vals(&[("oops", "x")])), "echo {{oops");
    assert_eq!(render_template("{{a}} then {{oops", &vals(&[("a", "1")])), "1 then {{oops");
}

#[test]
fn delimiters_do_not_nest() {
    let v = vals(&[("{a", "X"), ("a", "Y")]);
    assert_eq!(render_template("{{{a}}}", &v), "X}");
    assert_eq!(render_template("{{}}", &vals(&[("", "empty")])), "empty");
}

#[test]
fn text_without_placeholders_is_unchanged() {
    assert_eq!(render_template("", &vals(&[])), "");
    assert_eq!(render_template("ls -la { } }}", &vals(&[])), "ls -la { } }}");
    assert_eq!(render_template("héllo {{k}} ünïcode", &vals(&[("k", "ö")])), "héllo ö ünïcode");
}

#[test]
fn strict_expansion_reports_unresolved() {
    let v = vals(&[("a", "1")]);
    assert_eq!(expand_strict("x {{a}}", &v).unwrap(), "x 1");
    assert!(matches!(expand_strict("x {{b}}", &v), Err(PacsError::UnresolvedPlaceholders(b)) if b == "x {{b}}"));
}
