//! The buffer-plus-derived-views container.
//!
//! `PicoTts` owns a growable buffer of elements (the "system buffer") and a
//! derived collection of width-2 windows into it. Each window is stored as a
//! start/length span and is materialized into an owned copy only when read,
//! so a window can never outlive or alias the buffer unsafely: replacing the
//! buffer invalidates the spans structurally, and every mutating operation
//! re-establishes the bounds invariant before returning.

use vstd::prelude::*;
use vstd::slice::slice_to_vec;

verus! {

/// A contiguous span of the system buffer: a start offset and a length.
#[derive(Clone, Copy)]
struct Span {
    start: usize,
    len: usize,
}

/// The windows a derivation pass produces from buffer contents `s`: one
/// two-element window for each pair of adjacent elements, so `s.len() - 1`
/// windows when `s` has at least two elements and none otherwise.
pub open spec fn windows_of<T>(s: Seq<T>) -> Seq<Seq<T>> {
    if s.len() < 2 {
        Seq::empty()
    } else {
        Seq::new((s.len() - 1) as nat, |i: int| seq![s[i], s[i + 1]])
    }
}

/// The element sequences held by a vector of owned windows.
pub open spec fn window_seqs<T>(v: Seq<Vec<T>>) -> Seq<Seq<T>> {
    Seq::new(v.len(), |i: int| v[i]@)
}

/// The elements each span of `spans` covers in the buffer contents `sys`.
spec fn span_contents<T>(sys: Seq<T>, spans: Seq<Span>) -> Seq<Seq<T>> {
    Seq::new(spans.len(), |i: int| sys.subrange(spans[i].start as int, spans[i].start + spans[i].len))
}

/// Every span lies wholly within the bounds of `sys`.
spec fn spans_in_bounds<T>(sys: Seq<T>, spans: Seq<Span>) -> bool {
    forall|i: int| 0 <= i < spans.len() ==> (#[trigger] spans[i]).start + spans[i].len <= sys.len()
}

/// The second-level collection, each entry taken as its element sequence.
spec fn derived_of<T>(subsub: Option<Vec<Vec<T>>>) -> Option<Seq<Seq<T>>> {
    match subsub {
        Option::Some(v) => Option::Some(window_seqs(v@)),
        Option::None => Option::None,
    }
}

/// The container: `sys` owns the authoritative data, `sub` holds the derived
/// windows as spans into `sys`, and `subsub` optionally holds a second-level
/// collection of owned windows.
pub struct PicoTts<T> {
    sys: Vec<T>,
    sub: Vec<Span>,
    subsub: Option<Vec<Vec<T>>>,
}

impl<T: Copy> PicoTts<T> {
    /// The system buffer, as a sequence of elements.
    pub closed spec fn sys_seq(self) -> Seq<T> {
        self.sys@
    }

    /// The derived windows, each as the sequence of buffer elements it spans.
    pub closed spec fn windows(self) -> Seq<Seq<T>> {
        span_contents(self.sys@, self.sub@)
    }

    /// The second-level derived collection, if present.
    pub closed spec fn derived_views(self) -> Option<Seq<Seq<T>>> {
        derived_of(self.subsub)
    }

    /// Well-formedness: every window lies wholly within the current buffer.
    /// Constructors establish it and every method preserves it.
    pub closed spec fn wf(self) -> bool {
        spans_in_bounds(self.sys@, self.sub@)
    }

    /// The container is in the derived state: the windows are exactly those
    /// of the current buffer, and the second-level collection snapshots them.
    pub open spec fn is_derived(self) -> bool {
        &&& self.windows() == windows_of(self.sys_seq())
        &&& self.derived_views() == Some(windows_of(self.sys_seq()))
    }

    /// Creates a container with an empty buffer and no views.
    pub fn new() -> (r: Self)
        ensures
            r.wf(),
            r.sys_seq() == Seq::<T>::empty(),
            r.windows() == Seq::<Seq<T>>::empty(),
            r.derived_views() is None,
    {
        let r = PicoTts { sys: Vec::new(), sub: Vec::new(), subsub: None };
        proof {
            assert(r.windows() =~= Seq::<Seq<T>>::empty());
        }
        r
    }

    /// Creates a container that takes ownership of an already-read raw
    /// buffer; derivation is deferred until `init` is called.
    pub fn from_buffer(dat: Vec<T>) -> (r: Self)
        ensures
            r.wf(),
            r.sys_seq() == dat@,
            r.windows() == Seq::<Seq<T>>::empty(),
            r.derived_views() is None,
    {
        let r = PicoTts { sys: dat, sub: Vec::new(), subsub: None };
        proof {
            assert(r.windows() =~= Seq::<Seq<T>>::empty());
        }
        r
    }

    /// Copies the elements that the span `w` covers out of the buffer.
    fn window_contents(&self, w: Span) -> (r: Vec<T>)
        requires
            w.start + w.len <= self.sys_seq().len(),
        ensures
            r@ == self.sys_seq().subrange(w.start as int, w.start + w.len),
    {
        let mut r: Vec<T> = Vec::new();
        let sys_len: usize = self.sys.len();
        let mut k: usize = 0;
        while k < w.len
            invariant
                w.start + w.len <= sys_len,
                sys_len == self.sys@.len(),
                k <= w.len,
                r@ == self.sys@.subrange(w.start as int, w.start + k),
            decreases w.len - k,
        {
            r.push(self.sys[w.start + k]);
            k += 1;
            proof {
                assert(r@ =~= self.sys@.subrange(w.start as int, w.start + k));
            }
        }
        r
    }

    /// Materializes every current window as an owned copy, in order.
    fn snapshot_windows(&self) -> (r: Vec<Vec<T>>)
        requires
            self.wf(),
        ensures
            window_seqs(r@) == self.windows(),
    {
        let mut r: Vec<Vec<T>> = Vec::new();
        let mut i: usize = 0;
        while i < self.sub.len()
            invariant
                self.wf(),
                i <= self.sub@.len(),
                r@.len() == i,
                forall|j: int| 0 <= j < i ==> (#[trigger] r@[j])@ == self.windows()[j],
            decreases self.sub@.len() - i,
        {
            let w = self.sub[i];
            let c = self.window_contents(w);
            r.push(c);
            i += 1;
        }
        proof {
            assert(window_seqs(r@) =~= self.windows());
        }
        r
    }

    /// The derivation pass: rebuilds the windows from the current buffer,
    /// one per adjacent pair of elements, then snapshots them into the
    /// second-level collection.
    pub fn init(&mut self)
        ensures
            final(self).wf(),
            final(self).sys_seq() == old(self).sys_seq(),
            final(self).windows() == windows_of(old(self).sys_seq()),
            final(self).derived_views() == Some(windows_of(old(self).sys_seq())),
            final(self).is_derived(),
    {
        self.sub.clear();
        if self.sys.len() >= 2 {
            let n: usize = self.sys.len() - 1;
            let mut i: usize = 0;
            while i < n
                invariant
                    n + 1 == self.sys@.len(),
                    i <= n,
                    self.sys@ == old(self).sys_seq(),
                    self.sub@.len() == i,
                    forall|j: int| 0 <= j < i ==>
                        (#[trigger] self.sub@[j]).start == j && self.sub@[j].len == 2,
                decreases n - i,
            {
                self.sub.push(Span { start: i, len: 2 });
                i += 1;
            }
            proof {
                assert forall|j: int| 0 <= j < self.sub@.len() implies
                    self.windows()[j] == windows_of(self.sys@)[j] by {
                    assert(self.sys@.subrange(j, j + 2) =~= seq![self.sys@[j], self.sys@[j + 1]]);
                }
                assert(self.windows() =~= windows_of(self.sys@));
            }
        } else {
            proof {
                assert(self.windows() =~= windows_of(self.sys@));
            }
        }
        let snap = self.snapshot_windows();
        self.subsub = Some(snap);
    }

    /// Copies the given data into the buffer and immediately runs the
    /// derivation pass, leaving the container in the derived state.
    pub fn new_with_data(dat: &[T]) -> (r: Self)
        ensures
            r.wf(),
            r.sys_seq() == dat@,
            r.windows() == windows_of(dat@),
            r.derived_views() == Some(windows_of(dat@)),
            r.is_derived(),
    {
        let mut r = PicoTts { sys: slice_to_vec(dat), sub: Vec::new(), subsub: None };
        r.init();
        r
    }

    /// Replaces the buffer with new contents, discards the now-stale windows
    /// and second-level collection, and re-derives both: afterwards the
    /// container reflects `dat` alone, exactly as if freshly constructed.
    pub fn update_sys(&mut self, dat: &[T])
        ensures
            final(self).wf(),
            final(self).sys_seq() == dat@,
            final(self).windows() == windows_of(dat@),
            final(self).derived_views() == Some(windows_of(dat@)),
            final(self).is_derived(),
    {
        self.sys = slice_to_vec(dat);
        self.sub.clear();
        self.subsub = None;
        self.init();
    }

    /// Installs a caller-supplied second-level collection of owned windows,
    /// discarding the previous one and leaving the buffer and the derived
    /// windows untouched.
    pub fn update_sub(&mut self, dat: Vec<Vec<T>>)
        ensures
            final(self).wf() == old(self).wf(),
            final(self).sys_seq() == old(self).sys_seq(),
            final(self).windows() == old(self).windows(),
            final(self).derived_views() == Some(window_seqs(dat@)),
    {
        self.subsub = Some(dat);
    }

    /// Reads the window at `idx`, materialized as an owned copy of the
    /// elements it spans; `None` when `idx` is out of range.
    pub fn get_sub(&self, idx: usize) -> (r: Option<Vec<T>>)
        requires
            self.wf(),
        ensures
            idx < self.windows().len() ==> (r matches Some(v) && v@ == self.windows()[idx as int]),
            idx >= self.windows().len() ==> r is None,
    {
        if idx < self.sub.len() {
            let w = self.sub[idx];
            Some(self.window_contents(w))
        } else {
            None
        }
    }

    /// The system buffer.
    pub fn sys(&self) -> (r: &Vec<T>)
        ensures
            r@ == self.sys_seq(),
    {
        &self.sys
    }

    /// How many windows are currently derived.
    pub fn sub_len(&self) -> (r: usize)
        ensures
            r == self.windows().len(),
    {
        self.sub.len()
    }

    /// The second-level derived collection, if present.
    pub fn subsub(&self) -> (r: &Option<Vec<Vec<T>>>)
        ensures
            (*r) is Some <==> self.derived_views() is Some,
            (*r) matches Some(v) ==> self.derived_views() == Some(window_seqs(v@)),
    {
        &self.subsub
    }
}

/// Law: a buffer with `n >= 2` elements derives exactly `n - 1` windows, and
/// window `i` holds the two adjacent elements at offsets `i` and `i + 1`.
pub proof fn lemma_window_count<T>(s: Seq<T>)
    requires
        s.len() >= 2,
    ensures
        windows_of(s).len() == s.len() - 1,
        forall|i: int| 0 <= i < s.len() - 1 ==> #[trigger] windows_of(s)[i] == seq![s[i], s[i + 1]],
{
}

/// Law: a buffer with fewer than two elements derives no windows at all.
pub proof fn lemma_short_buffer_no_windows<T>(s: Seq<T>)
    requires
        s.len() < 2,
    ensures
        windows_of(s).len() == 0,
{
}

/// Law: in the derived state the second-level collection mirrors the derived
/// windows element-wise.
pub proof fn lemma_snapshot_matches_windows<T: Copy>(c: PicoTts<T>)
    requires
        c.is_derived(),
    ensures
        c.derived_views() == Some(c.windows()),
{
}

/// Law: a derived container is determined by its current buffer alone — two
/// derived containers over equal buffer contents expose equal windows and
/// equal second-level collections, whatever their histories. In particular,
/// after a buffer replacement and re-derivation no stale window survives.
pub proof fn lemma_derived_state_determined<T: Copy>(a: PicoTts<T>, b: PicoTts<T>)
    requires
        a.is_derived(),
        b.is_derived(),
        a.sys_seq() == b.sys_seq(),
    ensures
        a.windows() == b.windows(),
        a.derived_views() == b.derived_views(),
{
}

} // verus!
