//! Registration of blocked receivers. A `Monitor` records, in registration
//! order, the case identifiers of receivers that are about to park; waking a
//! thread itself is the caller's business, the monitor only decides whom.

use vstd::prelude::*;

verus! {

/// Identifies one blocking-receive registration, so that a multi-channel
/// select can tell which of several awaited channels produced a wake.
#[derive(Clone, Copy, Debug, PartialEq, Eq, Structural)]
pub struct CaseId {
    pub id: u64,
}

impl CaseId {
    pub fn new(id: u64) -> (c: CaseId)
        ensures
            c.id == id,
    {
        CaseId { id }
    }
}

/// The sequence that remains after the first occurrence of `c` (if any) is
/// taken out of `s`.
pub open spec fn remove_first(s: Seq<CaseId>, c: CaseId) -> Seq<CaseId>
    decreases s.len(),
{
    if s.len() == 0 {
        s
    } else if s[0] == c {
        s.drop_first()
    } else {
        seq![s[0]] + remove_first(s.drop_first(), c)
    }
}

proof fn lemma_remove_first_absent(s: Seq<CaseId>, c: CaseId)
    requires
        !s.contains(c),
    ensures
        remove_first(s, c) == s,
    decreases s.len(),
{
    if s.len() > 0 {
        assert(s[0] != c);
        assert(forall|j: int| 0 <= j < s.drop_first().len() ==> s.drop_first()[j] == s[j + 1]);
        lemma_remove_first_absent(s.drop_first(), c);
        assert(seq![s[0]] + s.drop_first() =~= s);
    }
}

proof fn lemma_remove_first_at(s: Seq<CaseId>, c: CaseId, i: int)
    requires
        0 <= i < s.len(),
        s[i] == c,
        forall|j: int| 0 <= j < i ==> s[j] != c,
    ensures
        remove_first(s, c) == s.remove(i),
    decreases i,
{
    if i == 0 {
        assert(remove_first(s, c) == s.drop_first());
        assert(s.drop_first() =~= s.remove(0));
    } else {
        assert(s[0] != c);
        assert(forall|j: int| 0 <= j < i - 1 ==> s.drop_first()[j] == s[j + 1]);
        lemma_remove_first_at(s.drop_first(), c, i - 1);
        assert(seq![s[0]] + s.drop_first().remove(i - 1) =~= s.remove(i));
    }
}

/// The table of currently registered receivers, in registration order.
pub struct Monitor {
    cases: Vec<CaseId>,
}

impl View for Monitor {
    type V = Seq<CaseId>;

    closed spec fn view(&self) -> Seq<CaseId> {
        self.cases@
    }
}

impl Monitor {
    pub fn new() -> (m: Monitor)
        ensures
            m@ == Seq::<CaseId>::empty(),
    {
        Monitor { cases: Vec::new() }
    }

    /// How many receivers are currently registered.
    pub fn count(&self) -> (n: usize)
        ensures
            n == self@.len(),
    {
        self.cases.len()
    }

    /// A receiver about to park announces itself under its case identifier.
    pub fn register(&mut self, case: CaseId)
        ensures
            final(self)@ == old(self)@.push(case),
    {
        self.cases.push(case);
    }

    /// A receiver done waiting withdraws its earliest registration under
    /// `case`, if one is still present (a notification may already have
    /// removed it). Reports whether one was present.
    pub fn unregister(&mut self, case: CaseId) -> (was_registered: bool)
        ensures
            was_registered == old(self)@.contains(case),
            final(self)@ == remove_first(old(self)@, case),
    {
        let n = self.cases.len();
        let mut i: usize = 0;
        while i < n
            invariant
                n == self.cases.len(),
                i <= n,
                self.cases@ == old(self)@,
                forall|j: int| 0 <= j < i ==> self.cases@[j] != case,
            decreases n - i,
        {
            if self.cases[i] == case {
                self.cases.remove(i);
                proof {
                    assert(old(self)@[i as int] == case);
                    lemma_remove_first_at(old(self)@, case, i as int);
                }
                return true;
            }
            i = i + 1;
        }
        proof {
            assert(!old(self)@.contains(case));
            lemma_remove_first_absent(old(self)@, case);
        }
        false
    }

    /// Picks the receiver to wake after a successful append: the one
    /// registered longest ago, if any. Its registration is consumed.
    pub fn notify_one(&mut self) -> (woken: Option<CaseId>)
        ensures
            old(self)@.len() == 0 ==> woken is None && final(self)@ == old(self)@,
            old(self)@.len() > 0 ==> woken == Some(old(self)@[0]) && final(self)@ == old(
                self,
            )@.drop_first(),
    {
        if self.cases.len() == 0 {
            None
        } else {
            let c = self.cases.remove(0);
            proof {
                assert(old(self)@.remove(0) =~= old(self)@.drop_first());
            }
            Some(c)
        }
    }

    /// On close, every registered receiver is to be woken and told the
    /// channel is closed. Hands back all registrations, in order.
    pub fn abort_all(&mut self) -> (aborted: Vec<CaseId>)
        ensures
            final(self)@ == Seq::<CaseId>::empty(),
            aborted@ == old(self)@,
    {
        let mut out: Vec<CaseId> = Vec::new();
        let n = self.cases.len();
        let mut i: usize = 0;
        while i < n
            invariant
                n == self.cases.len(),
                i <= n,
                self.cases@ == old(self)@,
                out@ == self.cases@.take(i as int),
            decreases n - i,
        {
            out.push(self.cases[i]);
            proof {
                assert(self.cases@.take(i + 1) =~= self.cases@.take(i as int).push(
                    self.cases@[i as int],
                ));
            }
            i = i + 1;
        }
        self.cases.clear();
        proof {
            assert(old(self)@.take(n as int) =~= old(self)@);
        }
        out
    }
}

} // verus!
