use vstd::prelude::*;

use crate::generator::partition::{share, slot_pixel, chunk_size, lemma_split_is_exact};
use crate::generator::{FractalGenerationError, FractalThreadMessage, RGBAColor};

verus! {

/// A frame of `pixel_count` pixels in which every byte is zero.
pub open spec fn blank_frame(pixel_count: nat) -> Seq<u8> {
    Seq::new(4 * pixel_count, |b: int| 0u8)
}

/// A frame of `pixel_count` pixels in which pixel `p` has colour `colors(p)`.
pub open spec fn frame_of(pixel_count: nat, colors: spec_fn(nat) -> RGBAColor) -> Seq<u8> {
    Seq::new(4 * pixel_count, |b: int| colors((b / 4) as nat).bytes()[b % 4])
}

/// The frame buffer `image` with pixel `pixel` set to `color`.
pub open spec fn write_pixel(image: Seq<u8>, pixel: int, color: RGBAColor) -> Seq<u8> {
    Seq::new(image.len(), |b: int| if b / 4 == pixel { color.bytes()[b % 4] } else { image[b] })
}

/// The frame buffer `image` after the pixels of `run` were written into it,
/// in order.
pub open spec fn apply_run(image: Seq<u8>, run: Seq<FractalThreadMessage>) -> Seq<u8>
    decreases run.len(),
{
    if run.len() == 0 {
        image
    } else {
        write_pixel(apply_run(image, run.drop_last()), run.last().index as int, run.last().color)
    }
}

/// `run` holds what `workers` workers sent when they split a frame of
/// `pixel_count` pixels among themselves, pixel `p` having colour
/// `colors(p)`: every message is a pixel of the frame with its colour, and
/// every step of every worker's share arrived, in whatever order.
pub open spec fn is_run(
    run: Seq<FractalThreadMessage>,
    pixel_count: nat,
    workers: nat,
    colors: spec_fn(nat) -> RGBAColor,
) -> bool {
    &&& forall|j: int|
        0 <= j < run.len() ==> #[trigger] run[j].index < pixel_count && run[j].color == colors(
            run[j].index as nat,
        )
    &&& forall|w: nat, i: nat|
        w < workers && i < share(pixel_count, workers, w) ==> exists|j: int|
            0 <= j < run.len() && run[j].index == #[trigger] slot_pixel(workers, w, i)
}

proof fn lemma_apply_run_bytes(
    image: Seq<u8>,
    run: Seq<FractalThreadMessage>,
    colors: spec_fn(nat) -> RGBAColor,
)
    requires
        forall|j: int| 0 <= j < run.len() ==> #[trigger] run[j].color == colors(run[j].index as nat),
    ensures
        apply_run(image, run).len() == image.len(),
        forall|b: int|
            0 <= b < image.len() ==> #[trigger] apply_run(image, run)[b] == if exists|j: int|
                0 <= j < run.len() && run[j].index == b / 4 {
                colors((b / 4) as nat).bytes()[b % 4]
            } else {
                image[b]
            },
    decreases run.len(),
{
    if run.len() > 0 {
        let prefix = run.drop_last();
        assert forall|j: int| 0 <= j < prefix.len() implies #[trigger] prefix[j].color == colors(
            prefix[j].index as nat,
        ) by {
            assert(prefix[j] == run[j]);
        }
        lemma_apply_run_bytes(image, prefix, colors);
        let last = run.len() - 1;
        assert(run[last].color == colors(run[last].index as nat));
        assert forall|b: int| 0 <= b < image.len() implies #[trigger] apply_run(image, run)[b]
            == if exists|j: int| 0 <= j < run.len() && run[j].index == b / 4 {
            colors((b / 4) as nat).bytes()[b % 4]
        } else {
            image[b]
        } by {
            if run[last].index == b / 4 {
                assert(0 <= last < run.len() && run[last].index == b / 4);
            } else {
                if exists|j: int| 0 <= j < run.len() && run[j].index == b / 4 {
                    let j = choose|j: int| 0 <= j < run.len() && run[j].index == b / 4;
                    assert(prefix[j] == run[j]);
                } else {
                    assert forall|j: int| 0 <= j < prefix.len() implies prefix[j].index != b / 4 by {
                        assert(prefix[j] == run[j]);
                    }
                }
            }
        }
    }
}

/// However many workers share a frame and in whatever order their results
/// arrive, writing every result into a blank frame gives the same bytes: the
/// frame in which each pixel has the colour computed for it.
pub proof fn lemma_frame_independent_of_split(
    pixel_count: nat,
    colors: spec_fn(nat) -> RGBAColor,
    workers_a: nat,
    run_a: Seq<FractalThreadMessage>,
    workers_b: nat,
    run_b: Seq<FractalThreadMessage>,
)
    requires
        workers_a > 0,
        workers_b > 0,
        is_run(run_a, pixel_count, workers_a, colors),
        is_run(run_b, pixel_count, workers_b, colors),
    ensures
        apply_run(blank_frame(pixel_count), run_a) == frame_of(pixel_count, colors),
        apply_run(blank_frame(pixel_count), run_a) == apply_run(blank_frame(pixel_count), run_b),
{
    lemma_run_paints_frame(pixel_count, colors, workers_a, run_a);
    lemma_run_paints_frame(pixel_count, colors, workers_b, run_b);
}

proof fn lemma_run_paints_frame(
    pixel_count: nat,
    colors: spec_fn(nat) -> RGBAColor,
    workers: nat,
    run: Seq<FractalThreadMessage>,
)
    requires
        workers > 0,
        is_run(run, pixel_count, workers, colors),
    ensures
        apply_run(blank_frame(pixel_count), run) == frame_of(pixel_count, colors),
{
    let blank = blank_frame(pixel_count);
    lemma_apply_run_bytes(blank, run, colors);
    lemma_split_is_exact(pixel_count, workers);
    let painted = apply_run(blank, run);
    assert forall|b: int| 0 <= b < painted.len() implies #[trigger] painted[b] == frame_of(
        pixel_count,
        colors,
    )[b] by {
        let p = (b / 4) as nat;
        assert(p < pixel_count);
        assert(crate::generator::partition::pixel_step(workers, p) < share(
            pixel_count,
            workers,
            crate::generator::partition::pixel_owner(workers, p),
        ));
        let w = p % workers;
        let i = p / workers;
        assert(slot_pixel(workers, w, i) == p);
        let j = choose|j: int| 0 <= j < run.len() && run[j].index == slot_pixel(workers, w, i);
        assert(0 <= j < run.len() && run[j].index == b / 4);
    }
    assert(painted =~= frame_of(pixel_count, colors));
}

/// The coordinator's side of a frame computation: the frame buffer that
/// workers' results are written into, which pixels have arrived, and how far
/// each worker has got through its share.
pub struct FrameAssembly {
    image: Vec<u8>,
    written: Vec<bool>,
    workers: usize,
    steps_done: Vec<usize>,
}

impl FrameAssembly {
    /// The frame buffer, four bytes per pixel.
    pub closed spec fn image_view(&self) -> Seq<u8> {
        self.image@
    }

    /// Which pixels have arrived.
    pub closed spec fn written_view(&self) -> Seq<bool> {
        self.written@
    }

    /// For each worker, how many steps of its share it has completed.
    pub closed spec fn steps_view(&self) -> Seq<usize> {
        self.steps_done@
    }

    pub closed spec fn pixel_count(&self) -> nat {
        self.written@.len()
    }

    pub closed spec fn worker_count(&self) -> nat {
        self.workers as nat
    }

    pub closed spec fn wf(&self) -> bool {
        &&& self.image@.len() == 4 * self.written@.len()
        &&& 4 * self.written@.len() <= usize::MAX
        &&& self.workers > 0
        &&& self.steps_done@.len() == self.workers
    }

    /// Starts assembling a blank frame of `pixel_count` pixels, computed by
    /// `workers` workers.
    pub fn new(pixel_count: usize, workers: usize) -> (f: FrameAssembly)
        requires
            workers > 0,
            4 * pixel_count <= usize::MAX,
        ensures
            f.wf(),
            f.pixel_count() == pixel_count,
            f.worker_count() == workers,
            f.image_view() == blank_frame(pixel_count as nat),
            f.written_view() == Seq::new(pixel_count as nat, |p: int| false),
            f.steps_view() == Seq::new(workers as nat, |w: int| 0usize),
    {
        let image: Vec<u8> = vec![0u8; 4 * pixel_count];
        let written: Vec<bool> = vec![false; pixel_count];
        let steps_done: Vec<usize> = vec![0usize; workers];
        let f = FrameAssembly { image, written, workers, steps_done };
        assert(f.image_view() =~= blank_frame(pixel_count as nat));
        assert(f.written_view() =~= Seq::new(pixel_count as nat, |p: int| false));
        assert(f.steps_view() =~= Seq::new(workers as nat, |w: int| 0usize));
        f
    }

    /// Writes one worker result into the frame and records how far its
    /// worker has got: a worker's results arrive in the order it computed
    /// them, so the result for pixel `index` completes step
    /// `index / workers` of worker `index % workers`.
    pub fn accept(&mut self, message: FractalThreadMessage)
        requires
            old(self).wf(),
            message.index < old(self).pixel_count(),
        ensures
            final(self).wf(),
            final(self).pixel_count() == old(self).pixel_count(),
            final(self).worker_count() == old(self).worker_count(),
            final(self).image_view() == write_pixel(
                old(self).image_view(),
                message.index as int,
                message.color,
            ),
            final(self).written_view() == old(self).written_view().update(message.index as int, true),
            final(self).steps_view() == old(self).steps_view().update(
                (message.index as nat % old(self).worker_count()) as int,
                (message.index as nat / old(self).worker_count() + 1) as usize,
            ),
    {
        let index = message.index;
        let base = 4 * index;
        let old_image = Ghost(self.image@);
        self.image.set(base, message.color.r);
        self.image.set(base + 1, message.color.g);
        self.image.set(base + 2, message.color.b);
        self.image.set(base + 3, message.color.a);
        assert(self.image@ =~= write_pixel(old_image@, index as int, message.color)) by {
            assert forall|b: int| 0 <= b < self.image@.len() implies #[trigger] self.image@[b]
                == write_pixel(old_image@, index as int, message.color)[b] by {
                if base <= b < base + 4 {
                    assert(b / 4 == index);
                    assert(b % 4 == b - base);
                } else {
                    assert(b / 4 != index);
                }
            }
        }
        self.written.set(index, true);
        let worker = index % self.workers;
        assert(index / self.workers + 1 <= index + 1) by (nonlinear_arith)
            requires self.workers > 0;
        self.steps_done.set(worker, index / self.workers + 1);
    }

    /// How far worker `worker` has got: the steps it completed, and the size
    /// of its share.
    pub fn progress(&self, worker: usize) -> (r: (usize, usize))
        requires
            self.wf(),
            worker < self.worker_count(),
        ensures
            r.0 == self.steps_view()[worker as int],
            r.1 == share(self.pixel_count(), self.worker_count(), worker as nat),
    {
        (self.steps_done[worker], chunk_size(self.written.len(), self.workers, worker))
    }

    /// How far each worker has got, in worker order: the steps it completed
    /// and the size of its share.
    pub fn progress_report(&self) -> (r: Vec<(usize, usize)>)
        requires
            self.wf(),
        ensures
            r@.len() == self.worker_count(),
            forall|w: int|
                0 <= w < r@.len() ==> #[trigger] r@[w] == (
                    self.steps_view()[w],
                    share(self.pixel_count(), self.worker_count(), w as nat) as usize,
                ),
    {
        let mut report: Vec<(usize, usize)> = Vec::new();
        let mut w: usize = 0;
        while w < self.workers
            invariant
                self.wf(),
                w <= self.workers,
                report@.len() == w,
                forall|v: int|
                    0 <= v < w ==> #[trigger] report@[v] == (
                        self.steps_view()[v],
                        share(self.pixel_count(), self.worker_count(), v as nat) as usize,
                    ),
            decreases self.workers - w,
        {
            report.push(self.progress(w));
            w += 1;
        }
        report
    }

    /// Whether every pixel of the frame has arrived.
    pub fn is_complete(&self) -> (r: bool)
        requires
            self.wf(),
        ensures
            r == forall|p: int| 0 <= p < self.pixel_count() ==> self.written_view()[p],
    {
        self.first_missing().is_none()
    }

    /// The first pixel that has not arrived, if any.
    fn first_missing(&self) -> (r: Option<usize>)
        requires
            self.wf(),
        ensures
            r is None <==> forall|p: int| 0 <= p < self.pixel_count() ==> self.written_view()[p],
            r matches Some(p) ==> p < self.pixel_count() && !self.written_view()[p as int]
                && forall|q: int| 0 <= q < p ==> self.written_view()[q],
    {
        let mut p: usize = 0;
        while p < self.written.len()
            invariant
                p <= self.written@.len(),
                forall|q: int| 0 <= q < p ==> self.written@[q],
            decreases self.written@.len() - p,
        {
            if !self.written[p] {
                assert(!self.written_view()[p as int]);
                return Some(p);
            }
            p += 1;
        }
        None
    }

    /// Hands over the finished frame. Where a pixel never arrived, its worker
    /// failed: the error names the worker of the first missing pixel.
    pub fn finish(self) -> (r: Result<Vec<u8>, FractalGenerationError>)
        requires
            self.wf(),
        ensures
            r is Ok <==> forall|p: int| 0 <= p < self.pixel_count() ==> self.written_view()[p],
            r matches Ok(image) ==> image@ == self.image_view() && image@.len() == 4
                * self.pixel_count(),
            r matches Err(FractalGenerationError::WorkerFailed { worker }) ==> exists|p: int|
                0 <= p < self.pixel_count() && !self.written_view()[p] && (forall|q: int|
                    0 <= q < p ==> self.written_view()[q]) && worker == p % self.worker_count() as int,
    {
        match self.first_missing() {
            None => Ok(self.image),
            Some(p) => {
                let worker = p % self.workers;
                Err(FractalGenerationError::WorkerFailed { worker })
            },
        }
    }
}

} // verus!
