use amm_core::account::AccountId;

fn id(byte: u8) -> AccountId {
    AccountId::from([byte; 32])
}

#[test]
fn from_bytes_keeps_the_bytes() {
    let mut bytes = [0u8; 32];
    bytes[0] = 7;
    bytes[31] = 9;
    let account = AccountId::from(bytes);
    assert_eq!(account.bytes, bytes);
}

#[test]
fn zero_is_all_zero_bytes() {
    assert_eq!(AccountId::zero().bytes, [0u8; 32]);
    assert!(AccountId::zero().is_zero());
    assert!(AccountId::from([0u8; 32]).is_zero());
}

#[test]
fn an_identifier_with_one_set_byte_is_not_zero() {
    let mut bytes = [0u8; 32];
    bytes[31] = 1;
    assert!(!AccountId::from(bytes).is_zero());
    let mut bytes = [0u8; 32];
    bytes[0] = 1;
    assert!(!AccountId::from(bytes).is_zero());
}

#[test]
fn equality_compares_all_bytes() {
    assert_eq!(id(1), id(1));
    assert_ne!(id(1), id(2));
    let mut bytes = [1u8; 32];
    bytes[31] = 2;
    assert_ne!(AccountId::from(bytes), id(1));
}

#[test]
fn order_is_decided_by_the_first_differing_byte() {
    assert!(id(1).lt(&id(2)));
    assert!(!id(2).lt(&id(1)));
    let mut low = [5u8; 32];
    low[0] = 1;
    let mut high = [0u8; 32];
    high[0] = 2;
    assert!(AccountId::from(low).lt(&AccountId::from(high)));
    assert!(!AccountId::from(high).lt(&AccountId::from(low)));
    let mut tail = [3u8; 32];
    tail[31] = 4;
    assert!(id(3).lt(&AccountId::from(tail)));
    assert!(!AccountId::from(tail).lt(&id(3)));
}

#[test]
fn nothing_comes_before_itself() {
    assert!(!id(4).lt(&id(4)));
    assert!(!AccountId::zero().lt(&AccountId::zero()));
}

#[test]
fn order_agrees_with_the_order_of_byte_arrays() {
    let samples: Vec<[u8; 32]> = vec![
        [0u8; 32],
        [1u8; 32],
        [255u8; 32],
        {
            let mut b = [0u8; 32];
            b[16] = 1;
            b
        },
        {
            let mut b = [0u8; 32];
            b[31] = 255;
            b
        },
        {
            let mut b = [255u8; 32];
            b[0] = 0;
            b
        },
    ];
    for a in samples.iter() {
        for b in samples.iter() {
            assert_eq!(AccountId::from(*a).lt(&AccountId::from(*b)), a < b);
            assert_eq!(AccountId::from(*a) == AccountId::from(*b), a == b);
        }
    }
}
