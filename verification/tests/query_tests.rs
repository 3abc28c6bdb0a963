//! Tests of the tag-query compiler: the SQL for single tags, each
//! operator, grouping, trimming, and the rejection of stuck queries.

use aqua_web::query::{build_query, try_build_query};

fn entry_sql(tag: &str) -> String {
    format!(
        "SELECT entry_id FROM entries_tags\nINNER JOIN tags ON tags.id = entries_tags.tag_id\nWHERE tags.name = '{}'",
        tag
    )
}

#[test]
fn test_single_tag_query() {
    assert_eq!(build_query("cats"), entry_sql("cats"));
}

#[test]
fn test_intersection_query() {
    let expected = format!("{} INTERSECT {}", entry_sql("a"), entry_sql("b"));
    assert_eq!(build_query("a+b"), expected);
}

#[test]
fn test_subtraction_query() {
    let expected = format!("{} EXCEPT {}", entry_sql("a"), entry_sql("b"));
    assert_eq!(build_query("a-b"), expected);
}

#[test]
fn test_union_query() {
    let expected = format!("{} UNION ({})", entry_sql("a"), entry_sql("b"));
    assert_eq!(build_query("a*b"), expected);
}

#[test]
fn test_grouped_query() {
    let expected = format!(
        "{} INTERSECT ({} UNION ({}))",
        entry_sql("a"),
        entry_sql("b"),
        entry_sql("c")
    );
    assert_eq!(build_query("a+(b*c)"), expected);
}

#[test]
fn test_tags_are_trimmed() {
    let expected = format!("{} INTERSECT {}", entry_sql("a"), entry_sql("b"));
    assert_eq!(build_query("  a  +  b  "), expected);
}

#[test]
fn test_chained_operators_fold_from_the_right() {
    let expected = format!(
        "{} INTERSECT {} EXCEPT {}",
        entry_sql("a"),
        entry_sql("b"),
        entry_sql("c")
    );
    assert_eq!(build_query("a+b-c"), expected);
}

#[test]
fn test_unopened_group_is_rejected() {
    assert!(try_build_query(")").is_none());
    assert!(try_build_query("a)b").is_none());
}

#[test]
fn test_dangling_operator_is_rejected() {
    assert!(try_build_query("a+").is_none());
    assert!(try_build_query("+").is_none());
    assert!(try_build_query("").is_none());
}

#[test]
fn test_unclosed_group_is_dropped() {
    // an opened group that never closes leaves the inner context as the
    // whole query; the suspended outer context is discarded
    assert_eq!(try_build_query("(a").unwrap(), entry_sql("a"));
}

#[test]
fn test_try_build_query_agrees_with_build_query() {
    assert_eq!(try_build_query("x*y").unwrap(), build_query("x*y"));
}
