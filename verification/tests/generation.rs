use store_journal::generation::{judge_cas, CasOutcome, Generation, KeyState};

#[test]
fn generation_text() {
    assert_eq!(Generation(18446744073709551615).to_db_str(), "18446744073709551615");
    assert_eq!(Generation::zero().to_db_str(), "0");
    assert_eq!(Generation(10203).to_db_str(), "10203");
}

#[test]
fn generation_reads_back() {
    for n in [0u64, 1, 9, 10, 99, 100, 4294967296, u64::MAX - 1, u64::MAX] {
        assert_eq!(Generation::from_str(&Generation(n).to_db_str()), Ok(Generation(n)));
    }
}

#[test]
fn generation_text_is_judged_as_the_parser_does() {
    assert_eq!(Generation::from_str("007"), Ok(Generation(7)));
    assert_eq!(Generation::from_str("+7"), Ok(Generation(7)));
    assert_eq!(
        Generation::from_str(""),
        Err("parse generation '': cannot parse integer from empty string".to_string())
    );
    assert_eq!(
        Generation::from_str("-1"),
        Err("parse generation '-1': invalid digit found in string".to_string())
    );
    assert_eq!(
        Generation::from_str("x"),
        Err("parse generation 'x': invalid digit found in string".to_string())
    );
    assert_eq!(
        Generation::from_str("18446744073709551616"),
        Err(
            "parse generation '18446744073709551616': number too large to fit in target type"
                .to_string()
        )
    );
    assert!(Generation::from_str("+").is_err());
    assert!(Generation::from_str(" 7").is_err());
}

#[test]
fn next_generation() {
    assert_eq!(Generation::zero().next(), Ok(Generation(1)));
    assert_eq!(Generation(u64::MAX - 1).next(), Ok(Generation(u64::MAX)));
    assert_eq!(
        Generation(u64::MAX).next(),
        Err("generation overflow at 18446744073709551615: CAS cannot advance".to_string())
    );
}

#[test]
fn generations_are_ordered_by_number() {
    assert!(Generation(9) < Generation(10));
    assert_ne!(Generation(9), Generation(10));
}

#[test]
fn attempts_are_judged_in_order() {
    let live = KeyState { generation: Generation(4), is_tombstone: false };
    let dead = KeyState { generation: Generation(4), is_tombstone: true };
    assert_eq!(
        judge_cas(live, Generation(4)),
        Ok(CasOutcome::Committed { new_generation: Generation(5) })
    );
    assert_eq!(
        judge_cas(live, Generation(3)),
        Ok(CasOutcome::Conflict { current: Generation(4) })
    );
    assert_eq!(
        judge_cas(dead, Generation(4)),
        Ok(CasOutcome::Tombstoned { tombstone_generation: Generation(4) })
    );
    assert_eq!(
        judge_cas(dead, Generation(3)),
        Ok(CasOutcome::Tombstoned { tombstone_generation: Generation(4) })
    );
    let top = KeyState { generation: Generation(u64::MAX), is_tombstone: false };
    assert_eq!(
        judge_cas(top, Generation(u64::MAX)),
        Err("generation overflow at 18446744073709551615: CAS cannot advance".to_string())
    );
}
