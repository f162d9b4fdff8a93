use veloren_logic::tab_completion::do_tab_completion;

#[test]
fn completes_single_word() {
    assert_eq!(do_tab_completion(2, "he", "help"), ("help".to_string(), 4));
}

#[test]
fn completes_first_word_keeps_rest() {
    assert_eq!(do_tab_completion(0, "he foo", "help"), ("help foo".to_string(), 4));
}

#[test]
fn completes_last_word() {
    assert_eq!(do_tab_completion(5, "/say fo", "foo"), ("/say foo".to_string(), 8));
}

#[test]
fn completes_middle_word() {
    assert_eq!(do_tab_completion(5, "/tp al bob", "alice"), ("/tp alice bob".to_string(), 9));
}

#[test]
fn quoted_word_is_replaced_whole() {
    assert_eq!(
        do_tab_completion(10, "/say \"a b\" c", "zz"),
        ("/say zz c".to_string(), 7)
    );
}

#[test]
fn tabs_do_not_split_and_offsets_count_chars() {
    assert_eq!(do_tab_completion(1, "é\tx", "w"), ("w".to_string(), 1));
    assert_eq!(do_tab_completion(3, "ä ö", "üü"), ("ä üü".to_string(), 4));
}
