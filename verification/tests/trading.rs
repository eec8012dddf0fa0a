use qstudio::trading::{decimal_text, ensure_same_height, scan_trades, split_key_col, CloseKind, Signals};

fn signals(entry: &[bool], exit: &[bool], hold: usize, stops: &[(usize, usize)]) -> Signals {
    let n = entry.len();
    let mut below_limit: Vec<Vec<bool>> = (0..n)
        .map(|r| vec![false; hold.min(n - 1 - r)])
        .collect();
    for &(row, la) in stops {
        below_limit[row][la - 1] = true;
    }
    Signals { entry_ok: entry.to_vec(), exit_ok: exit.to_vec(), below_limit }
}

#[test]
fn key_columns_split_at_the_first_dot() {
    assert_eq!(split_key_col("prices.close"), Ok(("prices".to_string(), "close".to_string())));
    assert_eq!(split_key_col("a.b.c"), Ok(("a".to_string(), "b.c".to_string())));
    assert_eq!(split_key_col(".x"), Ok(("".to_string(), "x".to_string())));
    assert_eq!(split_key_col("close"), Err("missing column name".to_string()));
}

#[test]
fn decimal_text_matches_std() {
    for n in [0usize, 7, 10, 1234, 1_000_000, usize::MAX] {
        assert_eq!(decimal_text(n), n.to_string());
    }
}

#[test]
fn heights_must_agree() {
    assert_eq!(ensure_same_height(&vec![3, 3], &vec![3]), Ok(3));
    assert_eq!(ensure_same_height(&vec![], &vec![]), Ok(0));
    assert_eq!(
        ensure_same_height(&vec![3, 2], &vec![3]),
        Err("entry columns have mismatched lengths".to_string())
    );
    assert_eq!(
        ensure_same_height(&vec![3], &vec![3, 4]),
        Err("exit columns have mismatched lengths".to_string())
    );
    assert_eq!(
        ensure_same_height(&vec![3, 3], &vec![12]),
        Err("entry/exit heights differ (entry: 3, exit: 12)".to_string())
    );
}

#[test]
fn trades_close_on_exit_or_stop_loss() {
    let s = signals(
        &[true, false, false, true, true, false],
        &[false, false, true, false, false, false],
        2,
        &[(3, 1)],
    );
    let trades = scan_trades(&s, 6, 2, 1, 2);
    assert_eq!(trades, vec![(0, 2, CloseKind::Exit), (3, 4, CloseKind::Limit)]);
}

#[test]
fn exit_is_checked_before_the_stop_loss() {
    let s = signals(&[true, false, false], &[false, true, false], 2, &[(0, 1)]);
    assert_eq!(scan_trades(&s, 3, 2, 2, 2), vec![(0, 1, CloseKind::Exit)]);
}

#[test]
fn unclosed_trades_close_at_the_end_of_the_hold() {
    let s = signals(&[true, false, false, false, false], &[false; 5], 3, &[]);
    assert_eq!(scan_trades(&s, 5, 2, 1, 3), vec![(0, 3, CloseKind::Exit)]);
    let s = signals(&[false, false, true], &[false; 3], 5, &[]);
    assert_eq!(scan_trades(&s, 3, 2, 1, 5), vec![(2, 2, CloseKind::Exit)]);
}

#[test]
fn zero_hold_closes_on_the_entry_row() {
    let s = signals(&[true, true], &[false, false], 0, &[]);
    assert_eq!(
        scan_trades(&s, 2, 2, 1, 0),
        vec![(0, 0, CloseKind::Exit), (1, 1, CloseKind::Exit)]
    );
}

#[test]
fn no_trades_without_enough_columns() {
    let s = signals(&[true, true], &[true, true], 1, &[]);
    assert_eq!(scan_trades(&s, 2, 1, 1, 1), vec![]);
    assert_eq!(scan_trades(&s, 2, 2, 0, 1), vec![]);
    let empty = signals(&[], &[], 1, &[]);
    assert_eq!(scan_trades(&empty, 0, 2, 1, 1), vec![]);
}

use qstudio::trading::mark_trades;

#[test]
fn marks_carry_one_id_per_trade() {
    let s = signals(
        &[true, false, false, true, true, false],
        &[false, false, true, false, false, false],
        2,
        &[(3, 1)],
    );
    let m = mark_trades(&s, 6, 2, 1, 2);
    assert_eq!(m.ids.len(), 2);
    assert_ne!(m.ids[0], m.ids[1]);
    assert_eq!(m.entry[0].as_ref(), Some(&m.ids[0]));
    assert_eq!(m.exit[2].as_ref(), Some(&m.ids[0]));
    assert_eq!(m.entry[3].as_ref(), Some(&m.ids[1]));
    assert_eq!(m.limit[4].as_ref(), Some(&m.ids[1]));
    let marked: usize = [&m.entry, &m.exit, &m.limit]
        .iter()
        .map(|c| c.iter().filter(|x| x.is_some()).count())
        .sum();
    assert_eq!(marked, 4);
    assert_eq!(m.ids[0].len(), 36);
}

#[test]
fn a_later_close_on_the_same_row_replaces_the_earlier() {
    // the first trade closes on the last row by its exit condition; the
    // second opens there and is closed there at once
    let s = signals(&[true, false, true], &[false, false, true], 2, &[]);
    let m = mark_trades(&s, 3, 2, 1, 2);
    assert_eq!(m.ids.len(), 2);
    assert_eq!(m.entry[0].as_ref(), Some(&m.ids[0]));
    assert_eq!(m.entry[2].as_ref(), Some(&m.ids[1]));
    assert_eq!(m.exit[2].as_ref(), Some(&m.ids[1]));
}

#[test]
fn trade_ids_are_version_4_uuid_texts() {
    let s = signals(
        &[true, false, false, true, true, false],
        &[false, false, true, false, false, false],
        2,
        &[(3, 1)],
    );
    let m = mark_trades(&s, 6, 2, 1, 2);
    assert_eq!(m.ids.len(), 2);
    for id in &m.ids {
        let cs: Vec<char> = id.chars().collect();
        assert_eq!(cs.len(), 36);
        for (i, c) in cs.iter().enumerate() {
            if [8, 13, 18, 23].contains(&i) {
                assert_eq!(*c, '-');
            } else {
                assert!(c.is_ascii_digit() || ('a'..='f').contains(c));
            }
        }
        assert_eq!(cs[14], '4');
        assert!(['8', '9', 'a', 'b'].contains(&cs[19]));
    }
}
