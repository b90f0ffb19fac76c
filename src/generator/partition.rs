use vstd::prelude::*;

verus! {

/// How many of `pixel_count` pixels worker `worker` of `workers` computes:
/// an equal share, plus one for each of the first `pixel_count % workers`
/// workers.
pub open spec fn share(pixel_count: nat, workers: nat, worker: nat) -> nat {
    pixel_count / workers + if worker < pixel_count % workers { 1nat } else { 0nat }
}

/// The pixel that worker `worker` computes at its `step`-th step: workers
/// take every `workers`-th pixel, starting from their own number.
pub open spec fn slot_pixel(workers: nat, worker: nat, step: nat) -> nat {
    worker + step * workers
}

/// The worker that computes pixel `pixel`.
pub open spec fn pixel_owner(workers: nat, pixel: nat) -> nat {
    pixel % workers
}

/// The step at which its worker computes pixel `pixel`.
pub open spec fn pixel_step(workers: nat, pixel: nat) -> nat {
    pixel / workers
}

/// Each pixel of the frame is computed by exactly one worker, at exactly one
/// step: worker `pixel % workers`, at step `pixel / workers`, and every step
/// of every worker's share is a pixel of the frame.
pub proof fn lemma_split_is_exact(pixel_count: nat, workers: nat)
    requires
        workers > 0,
    ensures
        forall|p: nat|
            p < pixel_count ==> {
                &&& #[trigger] pixel_step(workers, p) < share(
                    pixel_count,
                    workers,
                    pixel_owner(workers, p),
                )
                &&& slot_pixel(workers, pixel_owner(workers, p), pixel_step(workers, p)) == p
            },
        forall|w: nat, i: nat|
            w < workers && i < share(pixel_count, workers, w) ==> {
                &&& slot_pixel(workers, w, i) < pixel_count
                &&& slot_pixel(workers, w, i) % workers == w
                &&& slot_pixel(workers, w, i) / workers == i
            },
{
    assert forall|p: nat| p < pixel_count implies {
        &&& #[trigger] pixel_step(workers, p) < share(
            pixel_count,
            workers,
            pixel_owner(workers, p),
        )
        &&& slot_pixel(workers, pixel_owner(workers, p), pixel_step(workers, p)) == p
    } by {
        lemma_pixel_in_share(pixel_count, workers, p);
    }
    assert forall|w: nat, i: nat| w < workers && i < share(pixel_count, workers, w) implies {
        &&& slot_pixel(workers, w, i) < pixel_count
        &&& slot_pixel(workers, w, i) % workers == w
        &&& slot_pixel(workers, w, i) / workers == i
    } by {
        lemma_slot_in_frame(pixel_count, workers, w, i);
    }
}

proof fn lemma_pixel_in_share(n: nat, k: nat, p: nat)
    requires
        k > 0,
        p < n,
    ensures
        p / k < share(n, k, p % k),
        slot_pixel(k, p % k, p / k) == p,
{
    let q = p / k;
    let r = p % k;
    assert(p == q * k + r) by (nonlinear_arith)
        requires k > 0, q == p / k, r == p % k;
    assert(n == (n / k) * k + n % k) by (nonlinear_arith)
        requires k > 0;
    assert(0 <= r < k) by (nonlinear_arith)
        requires k > 0, r == p % k;
    if q > n / k {
        assert(q * k >= (n / k) * k + k) by (nonlinear_arith)
            requires q >= n / k + 1, k > 0;
        assert(false);
    } else if q == n / k {
        assert(q * k == (n / k) * k);
        assert(r < n % k);
    }
}

proof fn lemma_slot_in_frame(n: nat, k: nat, w: nat, i: nat)
    requires
        k > 0,
        w < k,
        i < share(n, k, w),
    ensures
        slot_pixel(k, w, i) < n,
        slot_pixel(k, w, i) % k == w,
        slot_pixel(k, w, i) / k == i,
{
    assert(n == (n / k) * k + n % k) by (nonlinear_arith)
        requires k > 0;
    assert((w + i * k) % k == w && (w + i * k) / k == i) by (nonlinear_arith)
        requires k > 0, w < k;
    if i < n / k {
        assert(i * k <= (n / k - 1) * k) by (nonlinear_arith)
            requires i <= n / k - 1, k > 0;
        assert((n / k - 1) * k == (n / k) * k - k) by (nonlinear_arith);
    } else {
        assert(i == n / k && w < n % k);
        assert(i * k == (n / k) * k);
    }
}

/// Number of pixels handed to worker `worker` when `pixel_count` pixels are
/// split among `workers` workers.
pub fn chunk_size(pixel_count: usize, workers: usize, worker: usize) -> (r: usize)
    requires
        workers > 0,
    ensures
        r == share(pixel_count as nat, workers as nat, worker as nat),
{
    let left_over = pixel_count % workers;
    if worker < left_over {
        assert(pixel_count % 1 == 0);
        assert(pixel_count / workers <= pixel_count / 2) by (nonlinear_arith)
            requires workers >= 2;
        pixel_count / workers + 1
    } else {
        pixel_count / workers
    }
}

/// The pixel index that worker `worker` computes at step `step`.
pub fn worker_pixel_index(pixel_count: usize, workers: usize, worker: usize, step: usize) -> (r:
    usize)
    requires
        workers > 0,
        worker < workers,
        step < share(pixel_count as nat, workers as nat, worker as nat),
    ensures
        r == slot_pixel(workers as nat, worker as nat, step as nat),
        r < pixel_count,
{
    proof {
        lemma_slot_in_frame(pixel_count as nat, workers as nat, worker as nat, step as nat);
    }
    worker + step * workers
}

/// The column and row of pixel `index` in an image `image_width` pixels wide,
/// pixels numbered row by row from the top left.
pub fn pixel_position(index: usize, image_width: u32, image_height: u32) -> (r: (u32, u32))
    requires
        image_width > 0,
        index < image_width as nat * image_height as nat,
    ensures
        r.0 == index as nat % image_width as nat,
        r.1 == index as nat / image_width as nat,
        r.0 < image_width,
        r.1 < image_height,
{
    let width = image_width as usize;
    assert(index / width < image_height) by (nonlinear_arith)
        requires width > 0, index < width * image_height, width == image_width;
    assert(index % width < width) by (nonlinear_arith)
        requires width > 0;
    ((index % width) as u32, (index / width) as u32)
}

} // verus!
