use vstd::prelude::*;

verus! {

/// The history after pushing one run length to the front: the new entry
/// picks up a light border of `size` when the history was still unused.
pub open spec fn spec_push_hist(h: Seq<i32>, size: int, run: int) -> Seq<i32>
    recommends
        h.len() == 7,
{
    let v = if h[0] == 0 {
        run + size
    } else {
        run
    };
    seq![v as i32] + h.take(6)
}

/// The number of finder-like patterns (0, 1 or 2) visible in the run
/// history right after a light run was pushed: a 1:1:3:1:1 core with a
/// light border of at least 4 units on one side and 1 unit on the other.
pub open spec fn spec_count_patterns(h: Seq<i32>) -> int
    recommends
        h.len() == 7,
{
    let n = h[1] as int;
    let core = n > 0 && h[2] == n && h[3] == 3 * n && h[4] == n && h[5] == n;
    (if core && h[0] >= 4 * n && h[6] >= n {
        1int
    } else {
        0int
    }) + (if core && h[6] >= 4 * n && h[0] >= n {
        1int
    } else {
        0int
    })
}

/// The pattern count at the end of a line: a trailing dark run is closed
/// first, then the light border is added.
pub open spec fn spec_terminate_count(h: Seq<i32>, size: int, color: bool, run: int) -> int
    recommends
        h.len() == 7,
{
    if color {
        spec_count_patterns(spec_push_hist(spec_push_hist(h, size, run), size, size))
    } else {
        spec_count_patterns(spec_push_hist(h, size, run + size))
    }
}

/// Incremental run-length history used while scoring one line of modules
/// for finder-like patterns.
pub struct FinderPenalty {
    /// The symbol's side length in modules.
    pub qr_size: i32,
    /// The last seven run lengths, most recent first.
    pub run_history: Vec<i32>,
}

impl FinderPenalty {
    /// The bounds that every history holds: seven entries, each between 0
    /// and three side lengths.
    pub open spec fn wf(self) -> bool {
        &&& 1 <= self.qr_size <= 177
        &&& self.run_history@.len() == 7
        &&& forall|i: int|
            0 <= i < 7 ==> 0 <= #[trigger] self.run_history@[i] <= 3 * self.qr_size
    }

    /// Creates an empty history for a symbol of the given size.
    pub fn new(size: i32) -> (r: Self)
        requires
            1 <= size <= 177,
        ensures
            r.wf(),
            r.qr_size == size,
            r.run_history@ == seq![0i32, 0i32, 0i32, 0i32, 0i32, 0i32, 0i32],
    {
        let r = Self { qr_size: size, run_history: vec![0i32, 0, 0, 0, 0, 0, 0] };
        proof {
            assert(r.run_history@ =~= seq![0i32, 0i32, 0i32, 0i32, 0i32, 0i32, 0i32]);
        }
        r
    }

    /// Pushes the given run length to the front and drops the last value.
    pub fn add_history(&mut self, currentrunlength: i32)
        requires
            old(self).wf(),
            0 <= currentrunlength <= 2 * old(self).qr_size,
        ensures
            final(self).wf(),
            final(self).qr_size == old(self).qr_size,
            final(self).run_history@ == spec_push_hist(
                old(self).run_history@,
                old(self).qr_size as int,
                currentrunlength as int,
            ),
    {
        let ghost h0 = self.run_history@;
        let mut c = currentrunlength;
        if self.run_history[0] == 0 {
            c = c + self.qr_size;  // Add light border to initial run
        }
        let mut i: usize = 6;
        while i >= 1
            invariant
                self.qr_size == old(self).qr_size,
                self.run_history@.len() == 7,
                i <= 6,
                forall|j: int| 0 <= j <= i ==> self.run_history@[j] == h0[j],
                forall|j: int| i < j < 7 ==> self.run_history@[j] == h0[j - 1],
            decreases i,
        {
            let v = self.run_history[i - 1];
            self.run_history.set(i, v);
            i = i - 1;
        }
        self.run_history.set(0, c);
        proof {
            assert(self.run_history@ =~= spec_push_hist(
                h0,
                old(self).qr_size as int,
                currentrunlength as int,
            ));
        }
    }

    /// Can only be called immediately after a light run is added, and
    /// returns either 0, 1, or 2.
    pub fn count_patterns(&self) -> (r: i32)
        requires
            self.wf(),
        ensures
            r == spec_count_patterns(self.run_history@),
            0 <= r <= 2,
    {
        let rh = &self.run_history;
        let n = rh[1];
        let core = n > 0 && rh[2] == n && rh[3] == 3 * n && rh[4] == n && rh[5] == n;
        let mut result: i32 = 0;
        if core && rh[0] >= 4 * n && rh[6] >= n {
            result = result + 1;
        }
        if core && rh[6] >= 4 * n && rh[0] >= n {
            result = result + 1;
        }
        result
    }

    /// Must be called at the end of a line (row or column) of modules.
    pub fn terminate_and_count(self, currentruncolor: bool, currentrunlength: i32) -> (r: i32)
        requires
            self.wf(),
            0 <= currentrunlength <= self.qr_size,
        ensures
            r == spec_terminate_count(
                self.run_history@,
                self.qr_size as int,
                currentruncolor,
                currentrunlength as int,
            ),
            0 <= r <= 2,
    {
        let mut this = self;
        let mut runlength = currentrunlength;
        if currentruncolor {
            // Terminate dark run
            this.add_history(runlength);
            runlength = 0;
        }
        runlength = runlength + this.qr_size;  // Add light border to final run
        this.add_history(runlength);
        this.count_patterns()
    }
}

} // verus!
