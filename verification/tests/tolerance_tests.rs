use float_cmp::{ApproxEq, F32Margin};
use rust_markov_lib::mdp::MDP;
use rust_markov_lib::simple_mdp::{MdpError, SimpleMDP};
use rust_markov_lib::tolerance::{within_four_ulps_of_one, ONE_F32_BITS};

fn four_ulps_margin() -> F32Margin {
    F32Margin {
        epsilon: 0.0,
        ulps: 4,
    }
}

#[test]
fn tolerance_agrees_with_ulps_comparison() {
    let samples: Vec<f32> = vec![
        1.0,
        f32::from_bits(ONE_F32_BITS + 1),
        f32::from_bits(ONE_F32_BITS + 4),
        f32::from_bits(ONE_F32_BITS + 5),
        f32::from_bits(ONE_F32_BITS - 1),
        f32::from_bits(ONE_F32_BITS - 4),
        f32::from_bits(ONE_F32_BITS - 5),
        0.0,
        -0.0,
        0.5,
        1.1,
        2.0,
        -1.0,
        0.2 + 0.8,
        0.3 + 0.8,
        f32::INFINITY,
        f32::NEG_INFINITY,
        f32::NAN,
        f32::MIN_POSITIVE,
        f32::MAX,
    ];
    for x in samples {
        assert_eq!(
            within_four_ulps_of_one(x.to_bits()),
            x.approx_eq(1.0, four_ulps_margin()),
            "disagreement at bit pattern {:#010x}",
            x.to_bits()
        );
    }
}

#[test]
fn tolerance_boundary_is_exactly_four_ulps() {
    assert!(within_four_ulps_of_one(ONE_F32_BITS));
    assert!(within_four_ulps_of_one(ONE_F32_BITS + 4));
    assert!(within_four_ulps_of_one(ONE_F32_BITS - 4));
    assert!(!within_four_ulps_of_one(ONE_F32_BITS + 5));
    assert!(!within_four_ulps_of_one(ONE_F32_BITS - 5));
    assert!(!within_four_ulps_of_one(f32::NAN.to_bits()));
}

fn one_row_model(p: f32) -> Result<SimpleMDP, MdpError> {
    let transitions: Vec<Vec<Vec<f32>>> = vec![vec![vec![p]]];
    let rewards: Vec<Vec<Vec<f32>>> = vec![vec![vec![0.]]];
    let mut sum: f32 = 0.0;
    sum = sum + p;
    SimpleMDP::new(
        1,
        1,
        vec![vec![vec![p.to_bits()]]],
        vec![vec![vec![0f32.to_bits()]]],
        0.9f32.to_bits(),
        vec![vec![sum.to_bits()]],
    )
    .map(|m| {
        assert_eq!(m.get_transition_probabilitiy(0, 0, 0), transitions[0][0][0].to_bits());
        assert_eq!(m.get_reward(0, 0, 0), rewards[0][0][0].to_bits());
        m
    })
}

#[test]
fn construction_accepts_sum_four_ulps_off() {
    assert!(one_row_model(f32::from_bits(ONE_F32_BITS + 4)).is_ok());
}

#[test]
fn construction_rejects_sum_five_ulps_off() {
    let p = f32::from_bits(ONE_F32_BITS + 5);
    assert_eq!(
        one_row_model(p).err(),
        Some(MdpError::NotNormalized {
            s1: 0,
            a: 0,
            sum_bits: p.to_bits(),
        })
    );
}

#[test]
fn construction_rejects_nan_row() {
    let result = one_row_model(f32::NAN);
    assert!(matches!(result, Err(MdpError::NotNormalized { s1: 0, a: 0, .. })));
}

#[test]
fn accepted_model_rows_sum_close_to_one() {
    let transitions = vec![
        vec![vec![0.2, 0.8], vec![0.4, 0.6], vec![0., 1.]],
        vec![vec![0.8, 0.2], vec![0.3, 0.7], vec![1., 0.]],
    ];
    let rewards = vec![
        vec![vec![1., 1.], vec![1., 1.], vec![1., 1.]],
        vec![vec![0., 0.], vec![0., 0.], vec![0., 0.]],
    ];
    let t_bits: Vec<Vec<Vec<u32>>> = transitions
        .iter()
        .map(|g: &Vec<Vec<f32>>| {
            g.iter().map(|row| row.iter().map(|x| x.to_bits()).collect()).collect()
        })
        .collect();
    let r_bits: Vec<Vec<Vec<u32>>> = rewards
        .iter()
        .map(|g: &Vec<Vec<f32>>| {
            g.iter().map(|row| row.iter().map(|x| x.to_bits()).collect()).collect()
        })
        .collect();
    let sums: Vec<Vec<u32>> = transitions
        .iter()
        .map(|g: &Vec<Vec<f32>>| {
            g.iter()
                .map(|row| {
                    let mut sum: f32 = 0.0;
                    for p in row {
                        sum = sum + p;
                    }
                    sum.to_bits()
                })
                .collect()
        })
        .collect();
    let m = SimpleMDP::new(2, 3, t_bits, r_bits, 0.95f32.to_bits(), sums).unwrap();
    for s1 in 0..2 {
        for a in 0..3 {
            let mut sum: f32 = 0.0;
            for s2 in 0..2 {
                sum = sum + f32::from_bits(m.get_transition_probabilitiy(s1, a, s2));
            }
            assert!(sum.approx_eq(1.0, four_ulps_margin()));
        }
    }
}
