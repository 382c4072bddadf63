//! The toasts shown for web notifications are kept alive, under a tag,
//! until they are clicked, dismissed or fail (dropping one would cut it
//! off from its click handler while it still shows). A cap keeps the list
//! bounded should none of those ever come.
use vstd::prelude::*;
use crate::text::str_eq;

verus! {

/// At most this many toasts are kept.
pub const PENDING_TOAST_CAP: usize = 50;

/// The toasts kept alive, oldest first, each under its tag.
pub struct PendingToasts<T> {
    entries: Vec<(String, T)>,
}

/// The tags and toasts of a list of entries.
pub open spec fn toast_entries<T>(e: Seq<(String, T)>) -> Seq<(Seq<char>, T)> {
    e.map_values(|x: (String, T)| (x.0@, x.1))
}

impl<T> View for PendingToasts<T> {
    type V = Seq<(Seq<char>, T)>;

    closed spec fn view(&self) -> Seq<(Seq<char>, T)> {
        toast_entries(self.entries@)
    }
}

/// The entries after keeping one more: appended, the oldest dropped when
/// that goes over the cap.
pub open spec fn kept<T>(s: Seq<(Seq<char>, T)>, tag: Seq<char>, toast: T) -> Seq<(Seq<char>, T)> {
    let t = s.push((tag, toast));
    if t.len() > PENDING_TOAST_CAP {
        t.drop_first()
    } else {
        t
    }
}

impl<T> PendingToasts<T> {
    pub fn new() -> (r: PendingToasts<T>)
        ensures
            r@ == Seq::<(Seq<char>, T)>::empty(),
    {
        let r = PendingToasts { entries: Vec::new() };
        proof {
            assert(toast_entries(r.entries@) =~= Seq::<(Seq<char>, T)>::empty());
        }
        r
    }

    pub fn len(&self) -> (n: usize)
        ensures
            n == self@.len(),
    {
        self.entries.len()
    }

    /// Keeps a shown toast under its tag.
    pub fn keep(&mut self, tag: String, toast: T)
        ensures
            final(self)@ == kept(old(self)@, tag@, toast),
    {
        let ghost before = self.entries@;
        self.entries.push((tag, toast));
        proof {
            assert(toast_entries(self.entries@) =~= toast_entries(before).push((tag@, toast)));
        }
        if self.entries.len() > PENDING_TOAST_CAP {
            let ghost full = self.entries@;
            let _oldest = self.entries.remove(0);
            proof {
                assert(toast_entries(self.entries@) =~= toast_entries(full).drop_first());
            }
        }
    }

    /// Forgets every toast kept under `tag` (it was clicked, dismissed or
    /// failed).
    pub fn forget_toast(&mut self, tag: &str)
        ensures
            final(self)@ == old(self)@.filter(|e: (Seq<char>, T)| e.0 != tag@),
    {
        let ghost orig = self@;
        let ghost pred = |e: (Seq<char>, T)| e.0 != tag@;
        let mut i: usize = 0;
        let ghost mut k: int = 0;
        assert(orig.skip(0) =~= orig);
        while i < self.entries.len()
            invariant
                0 <= k <= orig.len(),
                i <= self.entries@.len(),
                self.entries@.len() - i == orig.len() - k,
                pred == (|e: (Seq<char>, T)| e.0 != tag@),
                toast_entries(self.entries@).take(i as int) == orig.take(k).filter(pred),
                toast_entries(self.entries@).skip(i as int) == orig.skip(k),
            decreases self.entries@.len() - i,
        {
            let ghost cur = toast_entries(self.entries@);
            proof {
                assert(k < orig.len());
                assert(cur[i as int] == orig[k]) by {
                    assert(cur.skip(i as int)[0] == cur[i as int]);
                    assert(orig.skip(k)[0] == orig[k]);
                }
                assert(orig.take(k + 1) =~= orig.take(k).push(orig[k]));
                orig.take(k).lemma_filter_push(orig[k], pred);
            }
            if str_eq(self.entries[i].0.as_str(), tag) {
                let _gone = self.entries.remove(i);
                proof {
                    let now = toast_entries(self.entries@);
                    assert(now.take(i as int) =~= cur.take(i as int));
                    assert(now.skip(i as int) =~= cur.skip(i as int).skip(1));
                    assert(orig.skip(k).skip(1) =~= orig.skip(k + 1));
                    k = k + 1;
                }
            } else {
                proof {
                    assert(cur.take(i + 1) =~= cur.take(i as int).push(cur[i as int]));
                    assert(cur.skip(i + 1) =~= cur.skip(i as int).skip(1));
                    assert(orig.skip(k).skip(1) =~= orig.skip(k + 1));
                    k = k + 1;
                }
                i = i + 1;
            }
        }
        proof {
            let cur = toast_entries(self.entries@);
            assert(orig.take(k) =~= orig);
            assert(cur.take(i as int) =~= cur);
        }
    }
}


/// The list never grows past the cap: keeping one more toast in a list
/// within the cap leaves it within the cap, and the newest toast is always
/// kept, last.
pub proof fn law_pending_toasts_bounded<T>(s: Seq<(Seq<char>, T)>, tag: Seq<char>, toast: T)
    requires
        s.len() <= PENDING_TOAST_CAP,
    ensures
        kept(s, tag, toast).len() <= PENDING_TOAST_CAP,
        kept(s, tag, toast).last() == (tag, toast),
{
}

} // verus!
