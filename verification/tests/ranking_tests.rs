use tapssp_project::ranking::{rank_scores, rank_top_k, score_key};

#[test]
fn rank_top_k_orders_by_descending_key() {
    assert_eq!(rank_top_k(&[1, 5, 3, 4], 3), vec![1, 3, 2]);
    assert_eq!(rank_top_k(&[1, 5, 3, 4], 4), vec![1, 3, 2, 0]);
    assert_eq!(rank_top_k(&[-7, -2, -9], 2), vec![1, 0]);
}

#[test]
fn rank_top_k_keeps_earlier_candidates_first_among_equals() {
    assert_eq!(rank_top_k(&[2, 9, 2, 9, 2], 5), vec![1, 3, 0, 2, 4]);
    assert_eq!(rank_top_k(&[2, 9, 2, 9, 2], 3), vec![1, 3, 0]);
    assert_eq!(rank_top_k(&[0, 0, 0], 2), vec![0, 1]);
}

#[test]
fn rank_top_k_length_is_bounded_by_both() {
    assert_eq!(rank_top_k(&[3, 1, 2], 0), Vec::<usize>::new());
    assert_eq!(rank_top_k(&[], 4), Vec::<usize>::new());
    assert_eq!(rank_top_k(&[3, 1, 2], 10), vec![0, 2, 1]);
    assert_eq!(rank_top_k(&[3, 1, 2], usize::MAX), vec![0, 2, 1]);
}

#[test]
fn rank_top_k_matches_a_stable_sort() {
    let mut keys: Vec<i64> = Vec::new();
    let mut x: i64 = 17;
    for _ in 0..200 {
        x = (x * 1103515245 + 12345) % 2147483648;
        keys.push(x % 23 - 11);
    }
    let mut expected: Vec<usize> = (0..keys.len()).collect();
    expected.sort_by(|a, b| keys[*b].cmp(&keys[*a]));
    for top_k in [0usize, 1, 5, 50, 199, 200, 300] {
        let order = rank_top_k(&keys, top_k);
        let mut want = expected.clone();
        want.truncate(top_k);
        assert_eq!(order, want);
        for w in order.windows(2) {
            assert!(keys[w[0]] >= keys[w[1]]);
        }
    }
}

#[test]
fn score_key_exact_values() {
    assert_eq!(score_key(0), 0);
    assert_eq!(score_key(0x8000_0000), 0);
    assert_eq!(score_key(1), 1);
    assert_eq!(score_key(0x8000_0001), -1);
    assert_eq!(score_key(0x3F80_0000), 0x3F80_0000);
    assert_eq!(score_key(0xBF80_0000), -0x3F80_0000);
    assert_eq!(score_key(0xFFFF_FFFF), -0x7FFF_FFFF);
    assert_eq!(score_key(0x7FFF_FFFF), 0x7FFF_FFFF);
}

#[test]
fn score_key_orders_as_the_scores_do() {
    let scores: [f32; 11] =
        [-1.0, -0.75, -1.0e-20, -0.0, 0.0, 1.0e-30, 0.1, 0.5, 0.99999, 1.0, 3.5];
    for a in scores {
        for b in scores {
            let ka = score_key(a.to_bits());
            let kb = score_key(b.to_bits());
            assert_eq!(a < b, ka < kb);
            assert_eq!(a == b, ka == kb);
        }
    }
}

#[test]
fn rank_scores_puts_the_highest_score_first() {
    let scores: Vec<u32> =
        [0.25f32, -0.5, 0.9, 0.0, 0.9, -0.0].iter().map(|s| s.to_bits()).collect();
    assert_eq!(rank_scores(&scores, 4), vec![2, 4, 0, 3]);
    assert_eq!(rank_scores(&scores, 6), vec![2, 4, 0, 3, 5, 1]);
    assert_eq!(rank_scores(&scores, 0), Vec::<usize>::new());
}
