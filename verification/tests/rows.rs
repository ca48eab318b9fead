use novamind::rows::list_rows;

#[test]
fn unreadable_rows_are_left_out() {
    let rows = vec![Some(1), None, Some(2), Some(3), None];
    assert_eq!(list_rows(Some(rows)), vec![1, 2, 3]);
}

#[test]
fn failed_query_lists_nothing() {
    assert_eq!(list_rows::<String>(None), Vec::<String>::new());
    assert_eq!(list_rows::<String>(Some(vec![])), Vec::<String>::new());
}

#[test]
fn listing_of_two_runs_is_one_behind_the_other() {
    let a = vec![Some('a'), None, Some('b')];
    let b = vec![None, Some('c')];
    let both: Vec<Option<char>> = a.iter().chain(b.iter()).cloned().collect();
    let mut apart = list_rows(Some(a));
    apart.extend(list_rows(Some(b)));
    assert_eq!(list_rows(Some(both)), apart);
}
