use aaoffline::edits::{apply, can_apply, try_apply, Edit};

fn edit(start: usize, end: usize, with: &str) -> Edit {
    Edit::new(start, end, with.to_string())
}

#[test]
fn edits_replace_their_ranges_of_the_first_buffer() {
    let mut buffer = "0123456789".to_string();
    apply(&mut buffer, &vec![edit(1, 3, "a"), edit(5, 6, "bcd"), edit(8, 10, "")]);
    assert_eq!(buffer, "0a34bcd67");
}

#[test]
fn edits_give_the_same_buffer_in_any_order_of_discovery() {
    let orders: [[usize; 3]; 6] =
        [[0, 1, 2], [0, 2, 1], [1, 0, 2], [1, 2, 0], [2, 0, 1], [2, 1, 0]];
    let parts = [(2usize, 4usize, "longer than before"), (6, 9, ""), (12, 13, "é")];
    for order in orders {
        let mut buffer = "abcdefghijklmnop".to_string();
        let batch: Vec<Edit> = order
            .iter()
            .map(|&i| edit(parts[i].0, parts[i].1, parts[i].2))
            .collect();
        apply(&mut buffer, &batch);
        assert_eq!(buffer, "ablonger than beforeefjklénop");
    }
}

#[test]
fn edits_are_the_same_as_applied_from_the_end_by_hand() {
    let mut by_batch = "let a = <?php one ?>; let b = <?php two ?>;".to_string();
    let mut by_hand = by_batch.clone();
    apply(&mut by_batch, &vec![edit(8, 20, "1"), edit(30, 42, "2")]);
    by_hand.replace_range(30..42, "2");
    by_hand.replace_range(8..20, "1");
    assert_eq!(by_batch, by_hand);
    assert_eq!(by_batch, "let a = 1; let b = 2;");
}

#[test]
fn empty_batch_leaves_the_buffer() {
    let mut buffer = "unchanged".to_string();
    apply(&mut buffer, &Vec::new());
    assert_eq!(buffer, "unchanged");
}

#[test]
fn insertion_at_both_ends() {
    let mut buffer = "middle".to_string();
    apply(&mut buffer, &vec![edit(0, 0, "<"), edit(6, 6, ">")]);
    assert_eq!(buffer, "<middle>");
}

#[test]
fn whole_buffer_is_replaced() {
    let mut buffer = "old text".to_string();
    apply(&mut buffer, &vec![edit(0, 8, "new")]);
    assert_eq!(buffer, "new");
}

#[test]
fn touching_ranges_can_be_applied() {
    let mut buffer = "aabbcc".to_string();
    assert!(can_apply(&buffer, &vec![edit(2, 4, "B"), edit(0, 2, "A"), edit(4, 6, "C")]));
    apply(&mut buffer, &vec![edit(2, 4, "B"), edit(0, 2, "A"), edit(4, 6, "C")]);
    assert_eq!(buffer, "ABC");
}

#[test]
fn overlapping_ranges_are_refused() {
    let mut buffer = "0123456789".to_string();
    let batch = vec![edit(2, 6, "x"), edit(4, 8, "y")];
    assert!(!can_apply(&buffer, &batch));
    assert!(!try_apply(&mut buffer, &batch));
    assert_eq!(buffer, "0123456789");
}

#[test]
fn range_behind_the_end_is_refused() {
    let mut buffer = "short".to_string();
    assert!(!try_apply(&mut buffer, &vec![edit(3, 9, "x")]));
    assert_eq!(buffer, "short");
}

#[test]
fn range_that_ends_before_it_starts_is_refused() {
    let mut buffer = "short".to_string();
    assert!(!try_apply(&mut buffer, &vec![edit(4, 2, "x")]));
    assert_eq!(buffer, "short");
}

#[test]
fn range_inside_a_character_is_refused() {
    let mut buffer = "aéb".to_string();
    assert!(!can_apply(&buffer, &vec![edit(2, 3, "x")]));
    assert!(!try_apply(&mut buffer, &vec![edit(1, 2, "x")]));
    assert_eq!(buffer, "aéb");
    assert!(try_apply(&mut buffer, &vec![edit(1, 3, "e")]));
    assert_eq!(buffer, "aeb");
}

#[test]
fn try_apply_applies_a_sound_batch() {
    let mut buffer = "one two three".to_string();
    assert!(try_apply(&mut buffer, &vec![edit(4, 7, "2"), edit(0, 3, "1"), edit(8, 13, "3")]));
    assert_eq!(buffer, "1 2 3");
}
