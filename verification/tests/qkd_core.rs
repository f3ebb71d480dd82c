use abir_guard::qkd::{run_bb84, tally_from_draws, validate_counts, EntropySource, QkdError, XorShift64};

struct FixedEntropy {
    values: Vec<u64>,
    pos: usize,
}

impl EntropySource for FixedEntropy {
    fn next_u64(&mut self) -> Result<u64, QkdError> {
        let out = self.values.get(self.pos).copied().ok_or(QkdError::EntropyExhausted)?;
        self.pos += 1;
        Ok(out)
    }
}

#[test]
fn test_xorshift_sequence() {
    let mut g = XorShift64::from_seed(12345);
    assert_eq!(g.next_u64(), Ok(13289605635609));
    assert_eq!(g.next_u64(), Ok(11245129090807876197));
    let mut z = XorShift64::from_seed(0);
    assert_eq!(z.next_u64(), Ok(15860402102123842989));
    assert!(g.next_bit().unwrap() <= 1);
}

#[test]
fn test_zero_noise_session_has_no_mismatches() {
    let mut e = XorShift64::from_seed(12345);
    let t = run_bb84(512, 40, &mut e, |_x: u64| false).unwrap();
    assert_eq!(t.raw_bits, 512);
    assert_eq!(t.sampled_bits, 40);
    assert_eq!(t.mismatches, 0);
    assert!(t.sifted_bits >= 40);
    assert_eq!(t.final_key_bits.len(), t.sifted_bits - t.sampled_bits);
    assert!(t.final_key_bits.iter().all(|b| *b <= 1));
}

#[test]
fn test_full_noise_session_mismatches_everywhere() {
    let mut e = XorShift64::from_seed(77);
    let t = run_bb84(512, 40, &mut e, |_x: u64| true).unwrap();
    assert_eq!(t.mismatches, 40);
}

#[test]
fn test_same_seed_same_session() {
    let mut e1 = XorShift64::from_seed(999);
    let mut e2 = XorShift64::from_seed(999);
    let t1 = run_bb84(300, 20, &mut e1, |x: u64| x % 20 == 0).unwrap();
    let t2 = run_bb84(300, 20, &mut e2, |x: u64| x % 20 == 0).unwrap();
    assert_eq!(t1.sifted_bits, t2.sifted_bits);
    assert_eq!(t1.mismatches, t2.mismatches);
    assert_eq!(t1.final_key_bits, t2.final_key_bits);
}

#[test]
fn test_session_errors() {
    let mut e = XorShift64::from_seed(5);
    assert_eq!(run_bb84(4, 5, &mut e, |_x: u64| false).unwrap_err(), QkdError::InsufficientSiftedBits);
    let mut fixed = FixedEntropy { values: vec![0, 1, 2], pos: 0 };
    assert_eq!(run_bb84(64, 4, &mut fixed, |_x: u64| false).unwrap_err(), QkdError::EntropyExhausted);
    assert_eq!(validate_counts(0, 4), Err(QkdError::EmptyTransmission));
    assert_eq!(validate_counts(8, 0), Err(QkdError::InvalidSampleSize));
    assert_eq!(validate_counts(8, 2), Ok(()));
}

#[test]
fn test_tally_from_draws_single_qubit() {
    let t = tally_from_draws(&[0, 0, 0, 5], 1, 0, |_x: u64| false).unwrap();
    assert_eq!(t.raw_bits, 1);
    assert_eq!(t.sifted_bits, 1);
    assert_eq!(t.sampled_bits, 0);
    assert_eq!(t.mismatches, 0);
    assert_eq!(t.final_key_bits, vec![0]);
}

#[test]
fn test_tally_from_draws_sampled_mismatch() {
    // Two sifted qubits; the shuffle draw 0 swaps them, so position 1 is
    // sampled, and its flip draw 9 makes Bob's bit differ.
    let draws = [1, 0, 0, 7, 0, 1, 1, 9, 0];
    let t = tally_from_draws(&draws, 2, 1, |x: u64| x == 9).unwrap();
    assert_eq!(t.sifted_bits, 2);
    assert_eq!(t.mismatches, 1);
    assert_eq!(t.final_key_bits, vec![1]);
    // Shuffle draw 1 keeps the order: position 0 is sampled and agrees.
    let draws = [1, 0, 0, 7, 0, 1, 1, 9, 1];
    let t = tally_from_draws(&draws, 2, 1, |x: u64| x == 9).unwrap();
    assert_eq!(t.mismatches, 0);
    assert_eq!(t.final_key_bits, vec![0]);
}

#[test]
fn test_tally_from_draws_errors() {
    let draws = [1, 0, 0, 7, 0, 1, 1, 9];
    assert_eq!(tally_from_draws(&draws, 2, 1, |_x: u64| false).unwrap_err(), QkdError::EntropyExhausted);
    assert_eq!(tally_from_draws(&draws, 2, 3, |_x: u64| false).unwrap_err(), QkdError::InsufficientSiftedBits);
    assert_eq!(tally_from_draws(&draws[..5], 2, 1, |_x: u64| false).unwrap_err(), QkdError::EntropyExhausted);
    // Differing bases consume Bob's own bit before the flip draw.
    let t = tally_from_draws(&[1, 0, 1, 0, 3], 1, 0, |_x: u64| false).unwrap();
    assert_eq!(t.sifted_bits, 0);
    assert!(t.final_key_bits.is_empty());
}

#[test]
fn test_tally_from_draws_matches_seeded_source() {
    let mut g = XorShift64::from_seed(12345);
    let mut draws = Vec::new();
    for _ in 0..4000 {
        draws.push(g.next_u64().unwrap());
    }
    let mut e = XorShift64::from_seed(12345);
    let a = run_bb84(512, 40, &mut e, |x: u64| x % 7 == 0).unwrap();
    let b = tally_from_draws(&draws, 512, 40, |x: u64| x % 7 == 0).unwrap();
    assert_eq!(a.sifted_bits, b.sifted_bits);
    assert_eq!(a.mismatches, b.mismatches);
    assert_eq!(a.final_key_bits, b.final_key_bits);
}
