use qstudio::alignment::{backward_match, choose_master_idx, median_step_of};

#[test]
fn median_of_positive_steps() {
    // steps 10, 10, 30 (the drop back to 5 and the repeat are passed over)
    let col = vec![Some(0), Some(10), None, Some(20), Some(5), Some(5), Some(35)];
    assert_eq!(median_step_of(&col), Some(10));
    assert_eq!(median_step_of(&vec![Some(0), Some(10), Some(20), Some(50)]), Some(10));
    assert_eq!(median_step_of(&vec![Some(0), Some(10), Some(40), Some(50), Some(60)]), Some(10));
    assert_eq!(median_step_of(&vec![Some(0), Some(4), Some(10), Some(40)]), Some(6));
    assert_eq!(median_step_of(&vec![Some(7)]), None);
    assert_eq!(median_step_of(&vec![None, Some(3), Some(3)]), None);
}

#[test]
fn master_is_the_first_finest_timeline() {
    let daily = Some(vec![Some(0), Some(86_400), Some(172_800)]);
    let hourly = Some(vec![Some(0), Some(3_600), Some(7_200)]);
    let other_hourly = Some(vec![Some(100), Some(3_700)]);
    assert_eq!(choose_master_idx(&vec![daily.clone(), hourly.clone(), other_hourly]), 1);
    assert_eq!(choose_master_idx(&vec![None, daily.clone()]), 1);
    assert_eq!(choose_master_idx(&vec![Some(vec![Some(1)]), None]), 0);
    assert_eq!(choose_master_idx(&vec![]), 0);
}

#[test]
fn backward_match_takes_equal_or_last_before() {
    let ts = vec![10, 20, 20, 30];
    assert_eq!(backward_match(&ts, 20, 0), Some(1));
    assert_eq!(backward_match(&ts, 25, 5), Some(2));
    assert_eq!(backward_match(&ts, 26, 5), None);
    assert_eq!(backward_match(&ts, 5, 100), None);
    assert_eq!(backward_match(&ts, 1000, 970), Some(3));
    assert_eq!(backward_match(&vec![], 1, 1), None);
}
