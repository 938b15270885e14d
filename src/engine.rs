//! The recursive transform: sample store, damped recurrence, frequency-domain
//! smoothing and warm-up gate over one state object.

use crate::numeric::Numeric;
use crate::ring::SampleRing;
use vstd::prelude::*;

verus! {

/// The bin before `k` on a circle of `n` bins.
pub open spec fn prev_bin_spec(k: int, n: int) -> int {
    if k == 0 {
        n - 1
    } else {
        k - 1
    }
}

/// The bin after `k` on a circle of `n` bins.
pub open spec fn next_bin_spec(k: int, n: int) -> int {
    if k + 1 == n {
        0
    } else {
        k + 1
    }
}

/// The damping ratio `1 − ε`.
pub open spec fn damping<K: Numeric>() -> K::Real {
    K::spec_sub(K::spec_one(), K::spec_epsilon())
}

/// One step of the damped recurrence on a raw bin with rotation factor `tw`,
/// when `evicted` leaves a window of `n` samples and `x` enters it:
/// `tw · (raw·r − r^n·evicted + x)`.
pub open spec fn recur_spec<K: Numeric>(
    raw: K::Bin,
    tw: K::Bin,
    evicted: K::Real,
    x: K::Real,
    n: usize,
) -> K::Bin {
    let r = damping::<K>();
    K::spec_bin_mul(
        tw,
        K::spec_bin_add_real(
            K::spec_bin_sub_real(K::spec_bin_scale(raw, r), K::spec_mul(K::spec_powi(r, n), evicted)),
            x,
        ),
    )
}

/// The three-tap smoothing of a bin from itself and its neighbours:
/// `this·½ − (prev + next)·¼`.
pub open spec fn smooth_spec<K: Numeric>(prev: K::Bin, this: K::Bin, next: K::Bin) -> K::Bin {
    let half = K::spec_div(K::spec_one(), K::spec_from_usize(2));
    let fourth = K::spec_div(K::spec_one(), K::spec_from_usize(4));
    K::spec_bin_sub(K::spec_bin_scale(this, half), K::spec_bin_scale(K::spec_bin_add(prev, next), fourth))
}

/// The rotation factor `exp(i·2π·k/n)` of bin `k` out of `n`.
pub open spec fn twiddle_spec<K: Numeric>(k: usize, n: usize) -> K::Bin {
    let i = K::spec_complex(K::spec_zero(), K::spec_one());
    let angle = K::spec_div(K::spec_mul(K::spec_full_turn(), K::spec_from_usize(k)), K::spec_from_usize(n));
    K::spec_bin_exp(K::spec_bin_scale(i, angle))
}

/// The complex zero.
pub open spec fn bin_zero<K: Numeric>() -> K::Bin {
    K::spec_complex(K::spec_zero(), K::spec_zero())
}

/// The `n` zero samples a window starts from, followed by the samples `h`.
pub open spec fn padded<K: Numeric>(n: nat, h: Seq<K::Real>) -> Seq<K::Real> {
    Seq::new(n, |_j: int| K::spec_zero()) + h
}

/// The raw bins of an engine of `n` bins after it was fed the samples `h`.
pub open spec fn raw_after<K: Numeric>(n: nat, h: Seq<K::Real>) -> Seq<K::Bin>
    decreases h.len(),
{
    if h.len() == 0 {
        Seq::new(n, |_j: int| bin_zero::<K>())
    } else {
        let before = h.drop_last();
        let evicted = padded::<K>(n, before)[before.len() as int];
        Seq::new(
            n,
            |k: int|
                recur_spec::<K>(
                    raw_after::<K>(n, before)[k],
                    twiddle_spec::<K>(k as usize, n as usize),
                    evicted,
                    h.last(),
                    n as usize,
                ),
        )
    }
}

/// Each bin of `raw` smoothed with its two circular neighbours.
pub open spec fn smoothed<K: Numeric>(raw: Seq<K::Bin>) -> Seq<K::Bin> {
    Seq::new(
        raw.len(),
        |k: int|
            smooth_spec::<K>(
                raw[prev_bin_spec(k, raw.len() as int)],
                raw[k],
                raw[next_bin_spec(k, raw.len() as int)],
            ),
    )
}

/// The smoothed bins of an engine of `n` bins after it was fed the samples
/// `h`: zero before the first sample.
pub open spec fn spectrum_after<K: Numeric>(n: nat, h: Seq<K::Real>) -> Seq<K::Bin> {
    if h.len() == 0 {
        Seq::new(n, |_j: int| bin_zero::<K>())
    } else {
        smoothed::<K>(raw_after::<K>(n, h))
    }
}

/// The rotation factors of an engine of `n` bins.
pub open spec fn twiddle_table<K: Numeric>(n: usize) -> Seq<K::Bin> {
    Seq::new(n as nat, |k: int| twiddle_spec::<K>(k as usize, n))
}

fn prev_bin(k: usize, n: usize) -> (r: usize)
    requires
        k < n,
    ensures
        r == prev_bin_spec(k as int, n as int),
        r < n,
{
    if k == 0 {
        n - 1
    } else {
        k - 1
    }
}

fn next_bin(k: usize, n: usize) -> (r: usize)
    requires
        k < n,
    ensures
        r == next_bin_spec(k as int, n as int),
        r < n,
{
    if k + 1 == n {
        0
    } else {
        k + 1
    }
}

/// A sliding DFT of `size` bins, smoothed by a three-tap Hann filter across
/// the bins and withheld until `size` samples have been seen.
pub struct SlidingDFT<K: Numeric> {
    /// the last `size` samples, zero-filled at construction
    time_domain: SampleRing<K::Real>,
    /// unwindowed bins
    freq_domain: Vec<K::Bin>,
    /// windowed bins
    output: Vec<K::Bin>,
    /// rotation factor of each bin
    twiddle: Vec<K::Bin>,
    size: usize,
    /// whether a full window of samples has been seen
    valid: bool,
}

impl<K: Numeric> SlidingDFT<K> {
    pub closed spec fn wf(&self) -> bool {
        &&& self.size > 0
        &&& self.time_domain.wf()
        &&& self.time_domain.len() == self.size
        &&& self.freq_domain@.len() == self.size
        &&& self.output@.len() == self.size
        &&& self.twiddle@.len() == self.size
        &&& self.valid == (self.time_domain.pushes() >= self.size)
        &&& self.time_domain.fill() == K::spec_zero()
        &&& self.twiddle@ == twiddle_table::<K>(self.size)
        &&& self.freq_domain@ == raw_after::<K>(self.size as nat, self.time_domain.history())
        &&& self.output@ == spectrum_after::<K>(self.size as nat, self.time_domain.history())
    }

    /// Number of bins, which is also the number of samples in a window.
    pub closed spec fn len(&self) -> nat {
        self.size as nat
    }

    /// Number of samples fed since construction.
    pub closed spec fn updates(&self) -> nat {
        self.time_domain.pushes()
    }

    /// The last `len()` samples, oldest first.
    pub closed spec fn window(&self) -> Seq<K::Real> {
        self.time_domain.window()
    }

    /// Every sample fed since construction, in order.
    pub closed spec fn history(&self) -> Seq<K::Real> {
        self.time_domain.history()
    }

    /// The zero sample the window was filled with at construction.
    pub closed spec fn initial_sample(&self) -> K::Real {
        self.time_domain.fill()
    }

    /// Whether the smoothed spectrum is exposed.
    pub closed spec fn is_valid(&self) -> bool {
        self.valid
    }

    /// The unwindowed bins.
    pub closed spec fn raw(&self) -> Seq<K::Bin> {
        self.freq_domain@
    }

    /// The smoothed bins, exposed once the engine is valid.
    pub closed spec fn spectrum(&self) -> Seq<K::Bin> {
        self.output@
    }

    /// The rotation factors, one per bin.
    pub closed spec fn twiddles(&self) -> Seq<K::Bin> {
        self.twiddle@
    }

    /// The output is withheld exactly until `len()` samples have been fed, and
    /// exposed from then on.
    pub proof fn lemma_warm_up_boundary(&self)
        requires
            self.wf(),
        ensures
            self.is_valid() <==> self.updates() >= self.len(),
    {
    }

    /// Once valid, an engine stays valid: validity depends only on how many
    /// samples were fed, and that number only grows.
    pub proof fn lemma_valid_is_permanent(before: &Self, after: &Self)
        requires
            before.wf(),
            after.wf(),
            after.len() == before.len(),
            after.updates() >= before.updates(),
            before.is_valid(),
        ensures
            after.is_valid(),
    {
    }

    /// The state of an engine is determined by its size and the samples fed
    /// to it: two engines of one size fed the same samples report the same
    /// bins, the same twiddle factors and the same validity.
    pub proof fn lemma_state_is_determined(a: &Self, b: &Self)
        requires
            a.wf(),
            b.wf(),
            a.len() == b.len(),
            a.history() == b.history(),
        ensures
            a.raw() == b.raw(),
            a.spectrum() == b.spectrum(),
            a.twiddles() == b.twiddles(),
            a.window() == b.window(),
            a.is_valid() == b.is_valid(),
    {
        a.time_domain.lemma_window_is_latest();
        b.time_domain.lemma_window_is_latest();
    }

    /// The bins after any run of updates, as a function of the samples fed.
    pub proof fn lemma_bins_follow_history(&self)
        requires
            self.wf(),
        ensures
            self.raw() == raw_after::<K>(self.len(), self.history()),
            self.spectrum() == spectrum_after::<K>(self.len(), self.history()),
            self.twiddles() == twiddle_table::<K>(self.len() as usize),
    {
    }

    /// The window holds the last `len()` samples fed, preceded by zero samples
    /// while fewer have been fed: the sample that an update evicts is the one
    /// fed `len()` updates before it.
    pub proof fn lemma_window_is_latest(&self)
        requires
            self.wf(),
        ensures
            self.updates() == self.history().len(),
            self.window() == (Seq::new(self.len(), |_j: int| self.initial_sample())
                + self.history()).subrange(
                self.updates() as int,
                (self.updates() + self.len()) as int,
            ),
    {
        self.time_domain.lemma_window_is_latest();
    }

    /// An engine of `size` bins whose samples and bins are all zero and whose
    /// twiddle factors are `exp(i·2π·k/size)`.
    pub fn new(size: usize) -> (r: Self)
        requires
            size > 0,
        ensures
            r.wf(),
            r.len() == size,
            r.updates() == 0,
            r.history() == Seq::<K::Real>::empty(),
            !r.is_valid(),
            r.initial_sample() == K::spec_zero(),
            r.window() == Seq::new(size as nat, |_j: int| K::spec_zero()),
            r.raw() == Seq::new(size as nat, |_j: int| bin_zero::<K>()),
            r.spectrum() == r.raw(),
            r.twiddles() == Seq::new(size as nat, |k: int| twiddle_spec::<K>(k as usize, size)),
    {
        let c_zero = K::complex(K::zero(), K::zero());
        let ref_twiddle = K::complex(K::zero(), K::one());
        let tau = K::full_turn();
        let f_size = K::from_usize(size);

        let mut twiddle: Vec<K::Bin> = Vec::new();
        let mut freq_domain: Vec<K::Bin> = Vec::new();
        let mut output: Vec<K::Bin> = Vec::new();
        let mut k: usize = 0;
        while k < size
            invariant
                k <= size,
                twiddle@ == Seq::new(k as nat, |j: int| twiddle_spec::<K>(j as usize, size)),
                c_zero == bin_zero::<K>(),
                ref_twiddle == K::spec_complex(K::spec_zero(), K::spec_one()),
                tau == K::spec_full_turn(),
                f_size == K::spec_from_usize(size),
                freq_domain@ == Seq::new(k as nat, |_j: int| c_zero),
                output@ == freq_domain@,
            decreases size - k,
        {
            let factor = K::div(K::mul(tau, K::from_usize(k)), f_size);
            twiddle.push(K::bin_exp(K::bin_scale(ref_twiddle, factor)));
            freq_domain.push(c_zero);
            output.push(c_zero);
            k = k + 1;
            assert(twiddle@ =~= Seq::new(k as nat, |j: int| twiddle_spec::<K>(j as usize, size)));
            assert(freq_domain@ =~= Seq::new(k as nat, |_j: int| c_zero));
        }
        assert(twiddle@ =~= twiddle_table::<K>(size));
        assert(freq_domain@ =~= raw_after::<K>(size as nat, Seq::<K::Real>::empty()));
        SlidingDFT {
            time_domain: SampleRing::new(size, K::zero()),
            freq_domain,
            output,
            twiddle,
            size,
            valid: false,
        }
    }

    /// The smoothed spectrum, or `None` while fewer than `len()` samples have
    /// been fed.
    pub fn output(&self) -> (r: Option<&[K::Bin]>)
        requires
            self.wf(),
        ensures
            r.is_some() == self.is_valid(),
            r.is_some() ==> r.unwrap()@ == self.spectrum(),
            r.is_some() ==> r.unwrap()@.len() == self.len(),
    {
        if self.valid {
            Some(self.output.as_slice())
        } else {
            None
        }
    }

    /// Feeds one sample: the oldest sample is evicted, every raw bin is
    /// advanced by the damped recurrence, the smoothed spectrum is recomputed
    /// and the warm-up gate is advanced. Returns what `output` returns
    /// afterwards.
    pub fn update(&mut self, sample: K::Real) -> (r: Option<&[K::Bin]>)
        requires
            old(self).wf(),
        ensures
            final(self).wf(),
            final(self).len() == old(self).len(),
            final(self).updates() == old(self).updates() + 1,
            final(self).history() == old(self).history().push(sample),
            final(self).initial_sample() == old(self).initial_sample(),
            final(self).window() == old(self).window().drop_first().push(sample),
            final(self).twiddles() == old(self).twiddles(),
            forall|k: int|
                0 <= k < old(self).len() ==> #[trigger] final(self).raw()[k] == recur_spec::<K>(
                    old(self).raw()[k],
                    old(self).twiddles()[k],
                    old(self).window()[0],
                    sample,
                    old(self).len() as usize,
                ),
            forall|k: int|
                0 <= k < old(self).len() ==> #[trigger] final(self).spectrum()[k] == smooth_spec::<K>(
                    final(self).raw()[prev_bin_spec(k, old(self).len() as int)],
                    final(self).raw()[k],
                    final(self).raw()[next_bin_spec(k, old(self).len() as int)],
                ),
            final(self).is_valid() == (final(self).updates() >= final(self).len()),
            r.is_some() == final(self).is_valid(),
            r.is_some() ==> r.unwrap()@ == final(self).spectrum(),
            r.is_some() ==> r.unwrap()@.len() == final(self).len(),
    {
        let n = self.size;
        let ghost old_raw = self.freq_domain@;
        let ghost old_history = self.time_domain.history();
        let ghost evicted = self.time_domain.window()[0];
        proof {
            self.time_domain.lemma_position();
            self.time_domain.lemma_window_is_latest();
            assert(evicted == padded::<K>(n as nat, old_history)[old_history.len() as int]);
        }
        let prev_value = self.time_domain.push(sample);
        let ghost ring = self.time_domain;

        assert(prev_value == evicted);
        let r = K::sub(K::one(), K::epsilon());
        let r_pow_size = K::powi(r, n);

        let mut k: usize = 0;
        while k < n
            invariant
                k <= n,
                n == self.size,
                self.freq_domain@.len() == n,
                self.output@.len() == n,
                self.twiddle@.len() == n,
                self.twiddle@ == old(self).twiddle@,
                self.time_domain == ring,
                self.valid == old(self).valid,
                r == damping::<K>(),
                r_pow_size == K::spec_powi(r, n),
                old_raw.len() == n,
                forall|j: int| 0 <= j < k ==> #[trigger] self.freq_domain@[j] == recur_spec::<K>(
                    old_raw[j],
                    self.twiddle@[j],
                    prev_value,
                    sample,
                    n,
                ),
                forall|j: int| k <= j < n ==> #[trigger] self.freq_domain@[j] == old_raw[j],
            decreases n - k,
        {
            let pre_twiddle = K::bin_add_real(
                K::bin_sub_real(K::bin_scale(self.freq_domain[k], r), K::mul(r_pow_size, prev_value)),
                sample,
            );
            let v = K::bin_mul(self.twiddle[k], pre_twiddle);
            self.freq_domain.set(k, v);
            k = k + 1;
        }

        let half = K::div(K::one(), K::from_usize(2));
        let fourth = K::div(K::one(), K::from_usize(4));

        let ghost new_raw = self.freq_domain@;
        proof {
            let h = old_history.push(sample);
            assert(h.drop_last() =~= old_history);
            assert(new_raw =~= raw_after::<K>(n as nat, h));
        }
        let mut k: usize = 0;
        while k < n
            invariant
                k <= n,
                n == self.size,
                self.freq_domain@.len() == n,
                self.output@.len() == n,
                self.twiddle@ == old(self).twiddle@,
                self.freq_domain@ == new_raw,
                half == K::spec_div(K::spec_one(), K::spec_from_usize(2)),
                fourth == K::spec_div(K::spec_one(), K::spec_from_usize(4)),
                forall|j: int| 0 <= j < k ==> #[trigger] self.output@[j] == smooth_spec::<K>(
                    new_raw[prev_bin_spec(j, n as int)],
                    new_raw[j],
                    new_raw[next_bin_spec(j, n as int)],
                ),
                self.time_domain == ring,
                self.valid == old(self).valid,
            decreases n - k,
        {
            let prev = self.freq_domain[prev_bin(k, n)];
            let this = self.freq_domain[k];
            let next = self.freq_domain[next_bin(k, n)];
            let v = K::bin_sub(K::bin_scale(this, half), K::bin_scale(K::bin_add(prev, next), fourth));
            self.output.set(k, v);
            k = k + 1;
        }

        proof {
            self.time_domain.lemma_position();
            assert(self.output@ =~= spectrum_after::<K>(n as nat, self.time_domain.history()));
        }
        if self.time_domain.position() == 0 {
            self.valid = true;
        }
        self.output()
    }

    /// The rotation factor `exp(i·2π·k/len())` of each bin `k`.
    pub fn twiddle_factors(&self) -> (r: &[K::Bin])
        requires
            self.wf(),
        ensures
            r@ == self.twiddles(),
            r@.len() == self.len(),
    {
        self.twiddle.as_slice()
    }
}

} // verus!
