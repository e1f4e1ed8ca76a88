use rust_aux::errors::AuxError;
use rust_aux::synonym::RegisterOutcome;
use rust_aux::synonym::SynonymIndex;

#[test]
fn first_key_is_fresh_second_is_synonym() {
    let mut ipt = SynonymIndex::new();
    let hva: u64 = 0xABCD_0000;
    let k1: u64 = 0x1111;
    let k2: u64 = 0x2222;
    assert_eq!(ipt.register(hva, k1), Ok(RegisterOutcome::Fresh));
    assert_eq!(ipt.register(hva, k2), Ok(RegisterOutcome::Synonym));
    let keys = ipt.lookup(hva);
    assert_eq!(keys.len(), 2);
    assert!(keys.contains(&k1));
    assert!(keys.contains(&k2));
}

#[test]
fn identical_pair_twice_is_a_duplicate() {
    let mut ipt = SynonymIndex::new();
    assert_eq!(ipt.register(0x1000, 5), Ok(RegisterOutcome::Fresh));
    assert_eq!(ipt.register(0x1000, 5), Err(AuxError::DuplicateRegistration));
    // The failed call changed nothing.
    let keys = ipt.lookup(0x1000);
    assert_eq!(keys, vec![5]);
}

#[test]
fn distinct_hvas_are_independent() {
    let mut ipt = SynonymIndex::new();
    assert_eq!(ipt.register(0x1000, 5), Ok(RegisterOutcome::Fresh));
    assert_eq!(ipt.register(0x2000, 5), Ok(RegisterOutcome::Fresh));
    assert_eq!(ipt.lookup(0x1000), vec![5]);
    assert_eq!(ipt.lookup(0x2000), vec![5]);
}

#[test]
fn unregister_both_keys_deletes_the_entry() {
    let mut ipt = SynonymIndex::new();
    let hva: u64 = 0xABCD_0000;
    ipt.register(hva, 1).unwrap();
    ipt.register(hva, 2).unwrap();
    assert_eq!(ipt.unregister(hva, 1), Ok(()));
    assert_eq!(ipt.lookup(hva), vec![2]);
    assert_eq!(ipt.unregister(hva, 2), Ok(()));
    // The entry is gone: lookup is empty and the address behaves as never
    // registered.
    assert!(ipt.lookup(hva).is_empty());
    assert_eq!(ipt.unregister(hva, 2), Err(AuxError::NotFound));
    assert_eq!(ipt.register(hva, 3), Ok(RegisterOutcome::Fresh));
}

#[test]
fn unregister_unknown_hva_is_not_found() {
    let mut ipt = SynonymIndex::new();
    assert_eq!(ipt.unregister(0x9000, 1), Err(AuxError::NotFound));
}

#[test]
fn unregister_non_member_key_is_not_found() {
    let mut ipt = SynonymIndex::new();
    ipt.register(0x9000, 1).unwrap();
    assert_eq!(ipt.unregister(0x9000, 2), Err(AuxError::NotFound));
    // The failed call changed nothing.
    assert_eq!(ipt.lookup(0x9000), vec![1]);
}

#[test]
fn lookup_unknown_hva_is_empty_not_an_error() {
    let ipt = SynonymIndex::new();
    assert!(ipt.lookup(0x4000).is_empty());
}
