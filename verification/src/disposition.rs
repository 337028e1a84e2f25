//! Where an operation stands in its course.

use vstd::prelude::*;

use crate::text::same_text;

verus! {

/// Operation disposition values.
#[derive(Debug, Clone, Copy, PartialEq, Eq, Structural)]
pub enum Disposition {
    Pending,
    Committed,
    Compensating,
    Compensated,
    Failed,
    /// Published to relay but outcome unknown (network outage).
    Uncertain,
    /// Accepted by relay; final state reached without full confirmation.
    Accepted,
}

/// The text under which a disposition is stored.
pub open spec fn disposition_text(d: Disposition) -> Seq<char> {
    match d {
        Disposition::Pending => "pending"@,
        Disposition::Committed => "committed"@,
        Disposition::Compensating => "compensating"@,
        Disposition::Compensated => "compensated"@,
        Disposition::Failed => "failed"@,
        Disposition::Uncertain => "uncertain"@,
        Disposition::Accepted => "accepted"@,
    }
}

/// The disposition that a stored text stands for, if it is one.
pub open spec fn disposition_of_text(s: Seq<char>) -> Option<Disposition> {
    if s == "pending"@ {
        Some(Disposition::Pending)
    } else if s == "committed"@ {
        Some(Disposition::Committed)
    } else if s == "compensating"@ {
        Some(Disposition::Compensating)
    } else if s == "compensated"@ {
        Some(Disposition::Compensated)
    } else if s == "failed"@ {
        Some(Disposition::Failed)
    } else if s == "uncertain"@ {
        Some(Disposition::Uncertain)
    } else if s == "accepted"@ {
        Some(Disposition::Accepted)
    } else {
        None
    }
}

/// No two dispositions have the same text.
pub proof fn law_disposition_texts_differ(a: Disposition, b: Disposition)
    requires
        disposition_text(a) == disposition_text(b),
    ensures
        a == b,
{
    reveal_strlit("pending");
    reveal_strlit("committed");
    reveal_strlit("compensating");
    reveal_strlit("compensated");
    reveal_strlit("failed");
    reveal_strlit("uncertain");
    reveal_strlit("accepted");
    let s = disposition_text(a);
    assert(s.len() == disposition_text(b).len());
    assert(s[0] == disposition_text(b)[0]);
}

/// A stored disposition reads back as itself, and a text that reads as a
/// disposition is the one it is stored under.
pub proof fn law_disposition_reads_back(d: Disposition, s: Seq<char>)
    ensures
        disposition_of_text(disposition_text(d)) == Some(d),
        disposition_of_text(s) == Some(d) <==> s == disposition_text(d),
{
    match disposition_of_text(disposition_text(d)) {
        Some(read) => law_disposition_texts_differ(read, d),
        None => {},
    }
}

impl Disposition {
    pub fn as_str(&self) -> (res: &'static str)
        ensures
            res@ == disposition_text(*self),
    {
        match self {
            Disposition::Pending => "pending",
            Disposition::Committed => "committed",
            Disposition::Compensating => "compensating",
            Disposition::Compensated => "compensated",
            Disposition::Failed => "failed",
            Disposition::Uncertain => "uncertain",
            Disposition::Accepted => "accepted",
        }
    }

    /// Reads a stored disposition. Any other text is none.
    pub fn from_str(s: &str) -> (res: Option<Self>)
        ensures
            res == disposition_of_text(s@),
    {
        if same_text(s, "pending") {
            Some(Disposition::Pending)
        } else if same_text(s, "committed") {
            Some(Disposition::Committed)
        } else if same_text(s, "compensating") {
            Some(Disposition::Compensating)
        } else if same_text(s, "compensated") {
            Some(Disposition::Compensated)
        } else if same_text(s, "failed") {
            Some(Disposition::Failed)
        } else if same_text(s, "uncertain") {
            Some(Disposition::Uncertain)
        } else if same_text(s, "accepted") {
            Some(Disposition::Accepted)
        } else {
            None
        }
    }

    /// True when the operation is in a terminal state requiring no further
    /// progression.
    pub fn is_terminal(&self) -> (res: bool)
        ensures
            res == disposition_is_terminal(*self),
    {
        match self {
            Disposition::Committed => true,
            Disposition::Compensated => true,
            Disposition::Failed => true,
            _ => false,
        }
    }

    /// True when the operation may require a nonterminal follow-up check
    /// (uncertain or accepted publication outcome).
    pub fn requires_follow_up(&self) -> (res: bool)
        ensures
            res == disposition_requires_follow_up(*self),
    {
        match self {
            Disposition::Uncertain => true,
            Disposition::Accepted => true,
            _ => false,
        }
    }
}

/// The dispositions at which an operation's course ends.
pub open spec fn disposition_is_terminal(d: Disposition) -> bool {
    d is Committed || d is Compensated || d is Failed
}

/// The dispositions whose publication has to be checked again.
pub open spec fn disposition_requires_follow_up(d: Disposition) -> bool {
    d is Uncertain || d is Accepted
}

/// A disposition that asks for a follow-up is never a terminal one.
pub proof fn law_follow_up_is_nonterminal(d: Disposition)
    requires
        disposition_requires_follow_up(d),
    ensures
        !disposition_is_terminal(d),
{
}

/// The terminal dispositions are those whose stored text is `committed`,
/// `compensated` or `failed`.
pub proof fn law_terminal_texts(d: Disposition)
    ensures
        disposition_is_terminal(d) <==> {
            ||| disposition_text(d) == "committed"@
            ||| disposition_text(d) == "compensated"@
            ||| disposition_text(d) == "failed"@
        },
{
    if disposition_text(d) == "committed"@ {
        law_disposition_texts_differ(d, Disposition::Committed);
    }
    if disposition_text(d) == "compensated"@ {
        law_disposition_texts_differ(d, Disposition::Compensated);
    }
    if disposition_text(d) == "failed"@ {
        law_disposition_texts_differ(d, Disposition::Failed);
    }
}

/// The dispositions that ask for a follow-up are those whose stored text is
/// `uncertain` or `accepted`.
pub proof fn law_follow_up_texts(d: Disposition)
    ensures
        disposition_requires_follow_up(d) <==> {
            ||| disposition_text(d) == "uncertain"@
            ||| disposition_text(d) == "accepted"@
        },
{
    if disposition_text(d) == "uncertain"@ {
        law_disposition_texts_differ(d, Disposition::Uncertain);
    }
    if disposition_text(d) == "accepted"@ {
        law_disposition_texts_differ(d, Disposition::Accepted);
    }
}

} // verus!
