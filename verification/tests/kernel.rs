use phase::binary32::{HALF_BITS, MINUS_ONE_BITS, ONE_BITS};
use phase::gpu_random::philox::Philox4x32;
use phase::gpu_random::GPURng;
use phase::kernel::{
    index_of_cell, ising_reset, ising_step, key_of_cell, neighbours, pattern_of_spin, ring_next,
    ring_previous, spin_of_sample, AcceptanceTable, IsingCtx, CASES,
};

fn ctx(width: u32, height: u32) -> IsingCtx {
    IsingCtx { width, height, temperature: ONE_BITS, external_field: 0 }
}

fn constant_table(bits: u32) -> AcceptanceTable {
    AcceptanceTable { probabilities: [bits; 20] }
}

fn streams(seed: u128, cells: usize) -> Vec<Philox4x32> {
    (0..cells).map(|i| Philox4x32::new(seed, i as u64)).collect()
}

#[test]
fn the_left_of_the_first_column_is_the_last_column() {
    let ising = ctx(5, 3);
    for iy in 0..3 {
        let n = neighbours(&ising, 0, iy);
        assert_eq!(n[0], index_of_cell(&ising, 4, iy));
        assert_eq!(n[1], index_of_cell(&ising, 1, iy));
    }
}

#[test]
fn the_right_of_the_last_column_is_the_first_column() {
    let ising = ctx(5, 3);
    for iy in 0..3 {
        let n = neighbours(&ising, 4, iy);
        assert_eq!(n[1], index_of_cell(&ising, 0, iy));
        assert_eq!(n[0], index_of_cell(&ising, 3, iy));
    }
}

#[test]
fn the_rows_wrap_like_the_columns() {
    let ising = ctx(5, 3);
    for ix in 0..5 {
        let top = neighbours(&ising, ix, 2);
        assert_eq!(top[2], index_of_cell(&ising, ix, 0));
        assert_eq!(top[3], index_of_cell(&ising, ix, 1));
        let bottom = neighbours(&ising, ix, 0);
        assert_eq!(bottom[3], index_of_cell(&ising, ix, 2));
        assert_eq!(bottom[2], index_of_cell(&ising, ix, 1));
    }
}

#[test]
fn the_corners_wrap_in_both_directions() {
    let ising = ctx(4, 4);
    assert_eq!(neighbours(&ising, 0, 0), [3, 1, 4, 12]);
    assert_eq!(neighbours(&ising, 3, 0), [2, 0, 7, 15]);
    assert_eq!(neighbours(&ising, 0, 3), [15, 13, 0, 8]);
    assert_eq!(neighbours(&ising, 3, 3), [14, 12, 3, 11]);
    assert_eq!(neighbours(&ising, 1, 2), [8, 10, 13, 5]);
}

#[test]
fn a_lattice_of_one_cell_is_its_own_neighbour() {
    let ising = ctx(1, 1);
    assert_eq!(neighbours(&ising, 0, 0), [0, 0, 0, 0]);
    let wide = ctx(2, 1);
    assert_eq!(neighbours(&wide, 0, 0), [1, 1, 0, 0]);
    assert_eq!(neighbours(&wide, 1, 0), [0, 0, 1, 1]);
}

#[test]
fn rings_wrap_at_both_ends() {
    assert_eq!(ring_previous(0, 7), 6);
    assert_eq!(ring_previous(6, 7), 5);
    assert_eq!(ring_next(6, 7), 0);
    assert_eq!(ring_next(0, 7), 1);
    assert_eq!(ring_previous(0, 1), 0);
    assert_eq!(ring_next(0, 1), 0);
    assert_eq!(ring_previous(0, u32::MAX), u32::MAX - 1);
    assert_eq!(ring_next(u32::MAX - 1, u32::MAX), 0);
}

#[test]
fn cells_are_stored_row_by_row() {
    let ising = ctx(5, 3);
    assert_eq!(index_of_cell(&ising, 0, 0), 0);
    assert_eq!(index_of_cell(&ising, 4, 0), 4);
    assert_eq!(index_of_cell(&ising, 0, 1), 5);
    assert_eq!(index_of_cell(&ising, 4, 2), 14);
}

#[test]
fn the_key_of_a_cell_is_its_place() {
    assert_eq!(key_of_cell(0), [0, 0]);
    assert_eq!(key_of_cell(17), [17, 0]);
    assert_eq!(key_of_cell(0xFFFF_FFFF), [0xFFFF_FFFF, 0]);
    assert_eq!(Philox4x32::new(0, 17).key, key_of_cell(17));
}

#[test]
fn a_sample_below_one_half_is_spin_up() {
    assert_eq!(spin_of_sample(0), 1);
    assert_eq!(spin_of_sample(HALF_BITS - 1), 1);
    assert_eq!(spin_of_sample(HALF_BITS), -1);
    assert_eq!(spin_of_sample(ONE_BITS - 1), -1);
    for bits in [0u32, 0x3400_0000, 0x3EFF_FFFF, 0x3F00_0000, 0x3F7F_FFFE] {
        let expected = 1.0 - 2.0 * f32::from_bits(bits).round();
        assert_eq!(spin_of_sample(bits) as f32, expected);
    }
}

#[test]
fn cases_and_places_of_the_table_correspond() {
    let mut seen = [false; 20];
    for v in [-1i8, 1] {
        for vc in [-1i8, 1] {
            for s in [-4i8, -2, 0, 2, 4] {
                let index = AcceptanceTable::index_of(v, vc, s);
                assert!(index < CASES);
                assert!(!seen[index]);
                seen[index] = true;
                assert_eq!(AcceptanceTable::case_at(index), (v, vc, s));
            }
        }
    }
    assert!(seen.iter().all(|s| *s));
    assert_eq!(AcceptanceTable::index_of(-1, -1, -4), 0);
    assert_eq!(AcceptanceTable::index_of(1, -1, 2), 13);
    assert_eq!(AcceptanceTable::index_of(1, 1, 4), 19);
}

#[test]
fn a_table_is_built_by_asking_for_each_case() {
    let ising = ctx(3, 3);
    let table = AcceptanceTable::build(ising, |c: IsingCtx, v: i8, vc: i8, s: i8| {
        assert_eq!(c, ising);
        ((v as i32 + 2) * 1000 + (vc as i32 + 2) * 100 + (s as i32 + 4)) as u32
    });
    for index in 0..CASES {
        let (v, vc, s) = AcceptanceTable::case_at(index);
        let expected = ((v as i32 + 2) * 1000 + (vc as i32 + 2) * 100 + (s as i32 + 4)) as u32;
        assert_eq!(table.probabilities[index], expected);
    }
}

#[test]
fn a_proposal_is_kept_when_the_sample_is_below_the_probability() {
    let mut table = constant_table(0);
    let index = AcceptanceTable::index_of(1, -1, 2);
    table.probabilities[index] = HALF_BITS;
    assert!(table.accepts(1, -1, 2, 0));
    assert!(table.accepts(1, -1, 2, HALF_BITS - 1));
    assert!(!table.accepts(1, -1, 2, HALF_BITS));
    assert!(!table.accepts(1, -1, 2, ONE_BITS - 1));
    assert!(!table.accepts(-1, 1, 2, 0));
    let nan = constant_table(0x7FC0_0000);
    assert!(!nan.accepts(1, -1, 2, 0));
    let negative = constant_table(0xBF80_0000);
    assert!(!negative.accepts(1, -1, 2, 0));
    let one = constant_table(ONE_BITS);
    assert!(one.accepts(1, -1, 2, ONE_BITS - 1));
}

#[test]
fn reset_draws_once_and_touches_one_cell() {
    let ising = ctx(4, 4);
    let mut vals = vec![0i8; 16];
    let mut rngs = streams(0, 16);
    let before = rngs.clone();
    ising_reset(2, 1, &ising, &mut vals, &mut rngs);
    let mut expected = before[6];
    let sample = expected.next_f32([6, 0]);
    for i in 0..16 {
        if i == 6 {
            assert_eq!(vals[i], spin_of_sample(sample));
            assert_eq!(rngs[i], expected);
        } else {
            assert_eq!(vals[i], 0);
            assert_eq!(rngs[i], before[i]);
        }
    }
}

#[test]
fn reset_of_the_zero_seed_lattice() {
    let ising = ctx(4, 4);
    let mut vals = vec![0i8; 16];
    let mut rngs = streams(0, 16);
    for iy in 0..4 {
        for ix in 0..4 {
            ising_reset(ix, iy, &ising, &mut vals, &mut rngs);
        }
    }
    assert_eq!(vals, vec![-1, 1, -1, -1, -1, -1, 1, 1, -1, -1, -1, 1, 1, 1, 1, 1]);
}

#[test]
fn a_step_draws_twice_and_writes_one_cell_of_the_other_buffer() {
    let ising = ctx(4, 4);
    let vals: Vec<i8> = vec![1, -1, 1, -1, 1, 1, -1, -1, 1, -1, -1, 1, -1, 1, 1, -1];
    let mut new_vals = vec![0i8; 16];
    let mut rngs = streams(3, 16);
    let before = rngs.clone();
    let table = constant_table(ONE_BITS);
    ising_step(1, 2, &ising, &table, &vals, &mut new_vals, &mut rngs);
    let mut expected = before[9];
    let proposal = spin_of_sample(expected.next_f32([9, 0]));
    let _ = expected.next_f32([9, 0]);
    for i in 0..16 {
        if i == 9 {
            assert_eq!(new_vals[i], proposal);
            assert_eq!(rngs[i], expected);
        } else {
            assert_eq!(new_vals[i], 0);
            assert_eq!(rngs[i], before[i]);
        }
    }
}

#[test]
fn a_step_that_never_accepts_copies_the_cell() {
    let ising = ctx(3, 2);
    let vals: Vec<i8> = vec![1, -1, 1, -1, 1, 1];
    let mut new_vals = vec![0i8; 6];
    let mut rngs = streams(5, 6);
    let table = constant_table(0);
    for iy in 0..2 {
        for ix in 0..3 {
            ising_step(ix, iy, &ising, &table, &vals, &mut new_vals, &mut rngs);
        }
    }
    assert_eq!(new_vals, vals);
}

#[test]
fn a_step_looks_up_the_case_of_the_cell() {
    let ising = ctx(3, 3);
    let vals: Vec<i8> = vec![1, 1, 1, 1, -1, 1, 1, 1, 1];
    // The centre has spin -1 and four neighbours of spin +1: the sum is -4.
    for proposal in [-1i8, 1] {
        let mut table = constant_table(0);
        table.probabilities[AcceptanceTable::index_of(-1, proposal, -4)] = ONE_BITS;
        let mut seed = 0u128;
        loop {
            let mut probe = Philox4x32::new(seed, 4);
            if spin_of_sample(probe.next_f32([4, 0])) == proposal {
                break;
            }
            seed += 1;
        }
        let mut rngs = streams(seed, 9);
        let mut new_vals = vec![0i8; 9];
        ising_step(1, 1, &ising, &table, &vals, &mut new_vals, &mut rngs);
        assert_eq!(new_vals[4], proposal);
        let mut others = constant_table(ONE_BITS);
        others.probabilities[AcceptanceTable::index_of(-1, proposal, -4)] = 0;
        let mut rngs = streams(seed, 9);
        let mut kept = vec![0i8; 9];
        ising_step(1, 1, &ising, &others, &vals, &mut kept, &mut rngs);
        assert_eq!(kept[4], -1);
    }
}

#[test]
fn the_pattern_of_a_spin_is_that_of_its_number() {
    assert_eq!(pattern_of_spin(1), 1.0f32.to_bits());
    assert_eq!(pattern_of_spin(-1), (-1.0f32).to_bits());
    assert_eq!(pattern_of_spin(0), 0.0f32.to_bits());
    assert_eq!(pattern_of_spin(5), 0);
    assert_eq!((ONE_BITS, MINUS_ONE_BITS), (0x3F80_0000, 0xBF80_0000));
}
