use store_journal::disposition::Disposition;

const ALL: [(Disposition, &str, bool, bool); 7] = [
    (Disposition::Pending, "pending", false, false),
    (Disposition::Committed, "committed", true, false),
    (Disposition::Compensating, "compensating", false, false),
    (Disposition::Compensated, "compensated", true, false),
    (Disposition::Failed, "failed", true, false),
    (Disposition::Uncertain, "uncertain", false, true),
    (Disposition::Accepted, "accepted", false, true),
];

#[test]
fn disposition_texts() {
    for (d, text, _, _) in ALL {
        assert_eq!(d.as_str(), text);
    }
}

#[test]
fn disposition_reads_back() {
    for (d, text, _, _) in ALL {
        assert_eq!(Disposition::from_str(text), Some(d));
    }
    for text in ["", "Pending", "pending ", "done"] {
        assert_eq!(Disposition::from_str(text), None);
    }
}

#[test]
fn terminal_and_follow_up_dispositions() {
    for (d, _, terminal, follow_up) in ALL {
        assert_eq!(d.is_terminal(), terminal);
        assert_eq!(d.requires_follow_up(), follow_up);
    }
}
