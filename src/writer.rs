//! The file-lifecycle state machine: when a capture file opens, what is
//! counted into it, and when it closes.
//!
//! The machine decides; the caller performs what it decides on the real file
//! (create it, append the payload, flush and close it), in that order.
use vstd::prelude::*;
use crate::moment::{Moment, NANOS_PER_SEC, bucket_label, format_bucket, formattable, four_digit_year, label_pattern};
use crate::naming::{
    choose_name, disambiguator_progression, file_name, first_disambiguator, has_prefix, make_prefix, name_prefix, reported_taken,
    starts_with,
};

verus! {

/// Whether a file is open, and if so since when and how many bytes went in.
#[derive(Clone, Copy, Debug, PartialEq, Eq, Structural)]
pub enum FileState {
    Closed,
    Open { open_time: Moment, bytes_written: u64 },
}

/// What the caller has to do on the file system after one delivery, in this
/// order: create (truncate) the named file and open a buffered writer on it;
/// append the payload to the open file; flush and close the file, whose name
/// is then handed on for post-processing.
#[derive(Debug, PartialEq, Eq)]
pub struct FileOps {
    pub create: Option<String>,
    pub write: bool,
    pub closed: Option<String>,
}

/// Why a file could not be opened.
#[derive(Clone, Copy, Debug, PartialEq, Eq, Structural)]
pub enum CaptureError {
    /// The opening moment lies outside the dates that can be formatted.
    TimeOutOfRange,
    /// Every disambiguator of the time bucket is in use.
    NoFreeName,
}

/// The abstract state of a [`FileWriter`].
pub struct WriterView {
    pub base: Option<Seq<char>>,
    pub max_size: Option<u64>,
    pub lifetime: Option<u16>,
    pub state: FileState,
    pub filename: Seq<char>,
    pub inc: u32,
}

/// The lifecycle of the current capture file.
pub struct FileWriter {
    base_filename: Option<String>,
    max_file_size: Option<u64>,
    lifetime: Option<u16>,
    state: FileState,
    filename: String,
    file_inc: u32,
}

/// `a + b`, held at `u64::MAX`.
pub open spec fn sat_add(a: u64, b: nat) -> u64 {
    if a + b > u64::MAX { u64::MAX } else { (a + b) as u64 }
}

/// The size limit is configured and reached.
pub open spec fn size_reached(max: Option<u64>, bytes: u64) -> bool {
    max matches Some(m) && bytes >= m
}

/// The lifetime is configured and has run out between `open` and `now`.
pub open spec fn age_reached(lifetime: Option<u16>, open: Moment, now: Moment) -> bool {
    lifetime matches Some(l) && now.total_nanos() - open.total_nanos() >= l * (NANOS_PER_SEC as int)
}

/// A delivery of `len` bytes opens a file in state `v`.
pub open spec fn opens(v: WriterView, len: nat) -> bool {
    v.base is Some && v.state is Closed && len > 0
}

/// `v` after a file named `name`, with disambiguator `k`, opened at `now`.
pub open spec fn opened(v: WriterView, now: Moment, name: Seq<char>, k: u32) -> WriterView {
    WriterView { state: FileState::Open { open_time: now, bytes_written: 0 }, filename: name, inc: k, ..v }
}

/// A delivery of `len` bytes at `now` closes the file open in `v`.
pub open spec fn rotates(v: WriterView, len: nat, now: Moment) -> bool {
    match v.state {
        FileState::Open { open_time, bytes_written } =>
            size_reached(v.max_size, sat_add(bytes_written, len))
                || age_reached(v.lifetime, open_time, now),
        FileState::Closed => false,
    }
}

/// `v` after `len` bytes were counted into its open file at `now` and the
/// limits were evaluated; a closed state stays as it is.
pub open spec fn after_delivery(v: WriterView, len: nat, now: Moment) -> WriterView {
    match v.state {
        FileState::Open { open_time, bytes_written } =>
            if rotates(v, len, now) {
                WriterView { state: FileState::Closed, ..v }
            } else {
                WriterView {
                    state: FileState::Open { open_time, bytes_written: sat_add(bytes_written, len) },
                    ..v
                }
            },
        FileState::Closed => v,
    }
}

/// What a delivery to an open file (or to a writer that stays closed) asks
/// of the caller, and how the state moves.
pub open spec fn delivered_without_open(pre: WriterView, post: WriterView, len: nat, now: Moment, ops: FileOps) -> bool {
    &&& ops.create is None
    &&& ops.write == (pre.state is Open && len > 0)
    &&& post == after_delivery(pre, len, now)
    &&& (ops.closed is Some <==> rotates(pre, len, now))
    &&& (ops.closed matches Some(f) ==> f@ == pre.filename)
}

/// The outcome of a delivery of `len` bytes at `now` that opens a file,
/// given the time bucket that was formatted for `now` (if any) and the
/// existence check `taken`.
pub open spec fn delivered_with_open<F: Fn(&String) -> bool>(
    pre: WriterView,
    post: WriterView,
    len: nat,
    now: Moment,
    bucket: Option<Seq<char>>,
    taken: F,
    r: Result<FileOps, CaptureError>,
) -> bool {
    match bucket {
        None => r == Err::<FileOps, CaptureError>(CaptureError::TimeOutOfRange) && post == pre,
        Some(b) => {
            let prefix = name_prefix(pre.base->0, b);
            let start = first_disambiguator(pre.filename, prefix, pre.inc as nat);
            match r {
                Ok(ops) => {
                    &&& ops.create matches Some(name) && name@ == post.filename
                        && taken.ensures((&name,), false)
                    &&& post.filename == file_name(prefix, post.inc as nat)
                    &&& start <= post.inc
                    &&& forall|j: nat| start <= j < post.inc ==> reported_taken(taken, prefix, j)
                    &&& ops.write
                    &&& post == after_delivery(opened(pre, now, post.filename, post.inc), len, now)
                    &&& (ops.closed is Some <==> rotates(opened(pre, now, post.filename, post.inc), len, now))
                    &&& (ops.closed matches Some(f) ==> f@ == post.filename)
                },
                Err(e) => {
                    &&& e == CaptureError::NoFreeName
                    &&& forall|j: nat| start <= j <= u32::MAX ==> reported_taken(taken, prefix, j)
                    &&& post == pre
                },
            }
        },
    }
}

/// The sum of a sequence of payload lengths.
pub open spec fn total(lens: Seq<nat>) -> nat
    decreases lens.len(),
{
    if lens.len() == 0 {
        0
    } else {
        total(lens.drop_last()) + lens.last()
    }
}

/// `v` after the payloads of `lens` were delivered at `now`, one by one,
/// with no file opening on the way.
pub open spec fn feed(v: WriterView, lens: Seq<nat>, now: Moment) -> WriterView
    decreases lens.len(),
{
    if lens.len() == 0 {
        v
    } else {
        after_delivery(feed(v, lens.drop_last(), now), lens.last(), now)
    }
}

/// Size-based rotation is exact: with a size limit `m` and no lifetime, a
/// file fed a sequence of payloads keeps its name, and stays open with the
/// running total as its byte count until it closes; it closes on the first
/// payload after which the running total reaches `m`, and on no other.
pub proof fn size_rotation_exact(v: WriterView, lens: Seq<nat>, now: Moment, m: u64, t: Moment, i: int)
    requires
        v.state == (FileState::Open { open_time: t, bytes_written: 0 }),
        v.max_size == Some(m),
        v.lifetime is None,
        0 <= i < lens.len(),
    ensures
        feed(v, lens.take(i), now).filename == v.filename,
        (i == 0 || total(lens.take(i)) < m) ==> feed(v, lens.take(i), now).state == (FileState::Open {
            open_time: t,
            bytes_written: total(lens.take(i)) as u64,
        }),
        rotates(feed(v, lens.take(i), now), lens[i], now) <==> (forall|j: int|
            0 <= j < i ==> #[trigger] total(lens.take(j + 1)) < m) && total(lens.take(i + 1)) >= m,
{
    lemma_feed_running(v, lens, now, m, t, i);
    lemma_feed_running(v, lens, now, m, t, i + 1);
    assert(lens.take(i + 1).drop_last() =~= lens.take(i));
    assert(lens.take(i + 1).last() == lens[i]);
    if i > 0 {
        assert(total(lens.take((i - 1) + 1)) == total(lens.take(i)));
        if total(lens.take(i)) < m {
            assert forall|j: int| 0 <= j < i implies #[trigger] total(lens.take(j + 1)) < m by {
                lemma_total_monotone(lens, j + 1, i);
            }
        }
    }
}

proof fn lemma_total_monotone(lens: Seq<nat>, a: int, b: int)
    requires
        0 <= a <= b <= lens.len(),
    ensures
        total(lens.take(a)) <= total(lens.take(b)),
    decreases b - a,
{
    if a < b {
        lemma_total_monotone(lens, a, b - 1);
        assert(lens.take(b).drop_last() =~= lens.take(b - 1));
    }
}

proof fn lemma_feed_running(v: WriterView, lens: Seq<nat>, now: Moment, m: u64, t: Moment, i: int)
    requires
        v.state == (FileState::Open { open_time: t, bytes_written: 0 }),
        v.max_size == Some(m),
        v.lifetime is None,
        0 <= i <= lens.len(),
    ensures
        feed(v, lens.take(i), now).filename == v.filename,
        feed(v, lens.take(i), now).max_size == v.max_size,
        feed(v, lens.take(i), now).lifetime == v.lifetime,
        (i == 0 || total(lens.take(i)) < m) ==> feed(v, lens.take(i), now).state == (FileState::Open {
            open_time: t,
            bytes_written: total(lens.take(i)) as u64,
        }),
        (i > 0 && total(lens.take(i)) >= m) ==> feed(v, lens.take(i), now).state == FileState::Closed,
    decreases i,
{
    if i > 0 {
        lemma_feed_running(v, lens, now, m, t, i - 1);
        assert(lens.take(i).drop_last() =~= lens.take(i - 1));
        assert(lens.take(i).last() == lens[i - 1]);
        let prev = feed(v, lens.take(i - 1), now);
        assert(feed(v, lens.take(i), now) == after_delivery(prev, lens[i - 1], now));
        assert(total(lens.take(i)) == total(lens.take(i - 1)) + lens[i - 1]);
        assert(lens.take(0) =~= Seq::<nat>::empty());
        if i - 1 == 0 || total(lens.take(i - 1)) < m {
            let b = total(lens.take(i - 1)) as u64;
            assert(b == total(lens.take(i - 1)));
            assert(prev.state == (FileState::Open { open_time: t, bytes_written: b }));
            assert(rotates(prev, lens[i - 1], now) == (sat_add(b, lens[i - 1]) >= m));
            if total(lens.take(i)) < m {
                assert(sat_add(b, lens[i - 1]) == total(lens.take(i)));
            } else {
                assert(sat_add(b, lens[i - 1]) >= m);
            }
        } else {
            assert(prev.state == FileState::Closed);
        }
    } else {
        assert(lens.take(0) =~= Seq::<nat>::empty());
    }
}

/// Age-based rotation: for a file opened at `t` with lifetime `l` and no
/// size limit, a tick at `now` closes it exactly when `now` is at least `l`
/// seconds after `t`, and otherwise leaves it open as it was.
pub proof fn tick_closes_on_age(v: WriterView, t: Moment, b: u64, l: u16, now: Moment)
    requires
        v.state == (FileState::Open { open_time: t, bytes_written: b }),
        v.lifetime == Some(l),
        v.max_size is None,
    ensures
        rotates(v, 0, now) <==> now.total_nanos() >= t.total_nanos() + l * (NANOS_PER_SEC as int),
        !rotates(v, 0, now) ==> after_delivery(v, 0, now) == v,
        rotates(v, 0, now) ==> after_delivery(v, 0, now).state == FileState::Closed,
{
}

/// `v` after a tick at each of `times`, in order.
pub open spec fn feed_ticks(v: WriterView, times: Seq<Moment>) -> WriterView
    decreases times.len(),
{
    if times.len() == 0 {
        v
    } else {
        after_delivery(feed_ticks(v, times.drop_last()), 0, times.last())
    }
}

/// Over a run of ticks with no data, a file opened at `t` with lifetime `l`
/// and its size limit not reached stays open, unchanged, through every tick
/// before `t + l`, and closes on the first tick at or after `t + l`, and on
/// no other.
pub proof fn ticks_close_at_first_expiry(v: WriterView, times: Seq<Moment>, t: Moment, b: u64, l: u16, i: int)
    requires
        v.state == (FileState::Open { open_time: t, bytes_written: b }),
        v.lifetime == Some(l),
        !size_reached(v.max_size, b),
        0 <= i < times.len(),
    ensures
        (forall|j: int| 0 <= j < i ==> !#[trigger] age_reached(v.lifetime, t, times[j])) ==> feed_ticks(
            v,
            times.take(i),
        ) == v,
        rotates(feed_ticks(v, times.take(i)), 0, times[i]) <==> (forall|j: int|
            0 <= j < i ==> !#[trigger] age_reached(v.lifetime, t, times[j])) && age_reached(
            v.lifetime,
            t,
            times[i],
        ),
{
    lemma_ticks_running(v, times, t, b, l, i);
}

proof fn lemma_ticks_running(v: WriterView, times: Seq<Moment>, t: Moment, b: u64, l: u16, i: int)
    requires
        v.state == (FileState::Open { open_time: t, bytes_written: b }),
        v.lifetime == Some(l),
        !size_reached(v.max_size, b),
        0 <= i <= times.len(),
    ensures
        (forall|j: int| 0 <= j < i ==> !#[trigger] age_reached(v.lifetime, t, times[j])) ==> feed_ticks(
            v,
            times.take(i),
        ) == v,
        !(forall|j: int| 0 <= j < i ==> !#[trigger] age_reached(v.lifetime, t, times[j]))
            ==> feed_ticks(v, times.take(i)).state == FileState::Closed,
    decreases i,
{
    if i > 0 {
        lemma_ticks_running(v, times, t, b, l, i - 1);
        assert(times.take(i).drop_last() =~= times.take(i - 1));
        assert(times.take(i).last() == times[i - 1]);
        let prev = feed_ticks(v, times.take(i - 1));
        assert(feed_ticks(v, times.take(i)) == after_delivery(prev, 0, times[i - 1]));
        assert(sat_add(b, 0) == b);
        if forall|j: int| 0 <= j < i - 1 ==> !#[trigger] age_reached(v.lifetime, t, times[j]) {
            assert(prev == v);
            if !age_reached(v.lifetime, t, times[i - 1]) {
                assert(after_delivery(v, 0, times[i - 1]) =~= v);
            }
        } else {
            assert(prev.state == FileState::Closed);
        }
    } else {
        assert(times.take(0) =~= Seq::<Moment>::empty());
    }
}

/// A writer without a base name never opens a file: no delivery opens one,
/// and every delivery leaves its state as it was.
pub proof fn no_base_no_file(w: FileWriter, len: nat, now: Moment)
    requires
        w.wf(),
        w@.base is None,
    ensures
        w@.state == FileState::Closed,
        !opens(w@, len),
        after_delivery(w@, len, now) == w@,
{
}

/// A tick (an empty payload) never opens a file, and for an open file it
/// still takes part in the rotation check: it closes the file exactly when
/// the size limit is already reached or the lifetime has run out.
pub proof fn tick_only_rotates(v: WriterView, now: Moment)
    ensures
        !opens(v, 0),
        v.state matches FileState::Open { open_time, bytes_written } ==> (rotates(v, 0, now) <==> (
        size_reached(v.max_size, bytes_written) || age_reached(v.lifetime, open_time, now))),
{
}

/// The disambiguator an opening delivery in time bucket `b` gives the new
/// file, when that name was not reported taken: one past the previous
/// file's when the previous file was named in the same bucket, and zero
/// for the first file or when the previous one was named in another bucket
/// label of the same width. Over a run of opens within one bucket, the
/// files are thus numbered 0, 1, 2, ...
pub proof fn open_numbering<F: Fn(&String) -> bool>(
    pre: WriterView,
    post: WriterView,
    len: nat,
    now: Moment,
    b: Seq<char>,
    prev_bucket: Seq<char>,
    taken: F,
    ops: FileOps,
)
    requires
        pre.base is Some,
        delivered_with_open(pre, post, len, now, Some(b), taken, Ok::<FileOps, CaptureError>(ops)),
    ensures
        ({
            let prefix = name_prefix(pre.base->0, b);
            &&& pre.filename == file_name(prefix, pre.inc as nat)
                && !reported_taken(taken, prefix, (pre.inc + 1) as nat) ==> post.inc == pre.inc + 1
                && post.filename == file_name(prefix, (pre.inc + 1) as nat)
            &&& (pre.filename.len() == 0 || (pre.filename == file_name(
                name_prefix(pre.base->0, prev_bucket),
                pre.inc as nat,
            ) && prev_bucket.len() == b.len() && prev_bucket != b)) && !reported_taken(
                taken,
                prefix,
                0,
            ) ==> post.inc == 0 && post.filename == file_name(prefix, 0)
        }),
{
    let base = pre.base->0;
    let prefix = name_prefix(base, b);
    let start = first_disambiguator(pre.filename, prefix, pre.inc as nat);
    disambiguator_progression(base, b, b, pre.inc as nat);
    disambiguator_progression(base, prev_bucket, b, pre.inc as nat);
    if pre.filename.len() == 0 {
        assert(!has_prefix(pre.filename, prefix));
    }
    if post.inc > start && !reported_taken(taken, prefix, start) {
        assert(start <= start < post.inc);
    }
}

/// A run of opens within one time bucket `b` numbers its files 0, 1, 2, ...
/// `pres[k]` and `posts[k]` are the states around the `k`-th opening
/// delivery; deliveries between two opens keep the name and the
/// disambiguator, so each open starts from the name and disambiguator the
/// previous one left. The run starts from no file or from a file of another
/// bucket label of the same width, and no candidate name is reported taken.
pub proof fn run_numbering<F: Fn(&String) -> bool>(
    pres: Seq<WriterView>,
    posts: Seq<WriterView>,
    lens: Seq<nat>,
    nows: Seq<Moment>,
    b: Seq<char>,
    prev_bucket: Seq<char>,
    taken: F,
    ops: Seq<FileOps>,
    k: int,
)
    requires
        pres.len() == posts.len() == lens.len() == nows.len() == ops.len(),
        0 <= k < pres.len(),
        pres[0].base is Some,
        forall|i: int| 0 <= i < pres.len() ==> #[trigger] pres[i].base == pres[0].base,
        forall|i: int| 0 <= i < pres.len() ==> delivered_with_open(
            #[trigger] pres[i],
            posts[i],
            lens[i],
            nows[i],
            Some(b),
            taken,
            Ok::<FileOps, CaptureError>(ops[i]),
        ),
        forall|i: int| 0 < i < pres.len() ==> #[trigger] pres[i].filename == posts[i - 1].filename
            && pres[i].inc == posts[i - 1].inc,
        forall|i: nat| i < pres.len() ==> !#[trigger] reported_taken(taken, name_prefix(pres[0].base->0, b), i),
        pres[0].filename.len() == 0 || (pres[0].filename == file_name(
            name_prefix(pres[0].base->0, prev_bucket),
            pres[0].inc as nat,
        ) && prev_bucket.len() == b.len() && prev_bucket != b),
    ensures
        posts[k].inc == k,
        posts[k].filename == file_name(name_prefix(pres[0].base->0, b), k as nat),
    decreases k,
{
    let prefix = name_prefix(pres[0].base->0, b);
    assert(pres[k].base == pres[0].base);
    assert(delivered_with_open(pres[k], posts[k], lens[k], nows[k], Some(b), taken, Ok::<FileOps, CaptureError>(ops[k])));
    if k == 0 {
        assert(!reported_taken(taken, prefix, 0));
        open_numbering(pres[0], posts[0], lens[0], nows[0], b, prev_bucket, taken, ops[0]);
    } else {
        run_numbering(pres, posts, lens, nows, b, prev_bucket, taken, ops, k - 1);
        assert(pres[k].filename == posts[k - 1].filename && pres[k].inc == posts[k - 1].inc);
        assert(!reported_taken(taken, prefix, k as nat));
        open_numbering(pres[k], posts[k], lens[k], nows[k], b, prev_bucket, taken, ops[k]);
    }
}

impl View for FileWriter {
    type V = WriterView;

    closed spec fn view(&self) -> WriterView {
        WriterView {
            base: match self.base_filename {
                Some(s) => Some(s@),
                None => None,
            },
            max_size: self.max_file_size,
            lifetime: self.lifetime,
            state: self.state,
            filename: self.filename@,
            inc: self.file_inc,
        }
    }
}

impl FileWriter {
    /// Only a writer with a base name ever has a file open, and a file opens
    /// at a well-formed moment.
    pub open spec fn wf(&self) -> bool {
        &&& self@.state is Open ==> self@.base is Some
        &&& self@.state matches FileState::Open { open_time, .. } ==> open_time.wf()
    }

    /// A closed writer with the given configuration; with no base name it
    /// never opens a file.
    pub fn new(base_fn: Option<String>, max_size: Option<u64>, lifetime: Option<u16>) -> (r: FileWriter)
        ensures
            r.wf(),
            r@.base == (match base_fn {
                Some(s) => Some(s@),
                None => None::<Seq<char>>,
            }),
            r@.max_size == max_size,
            r@.lifetime == lifetime,
            r@.state == FileState::Closed,
            r@.filename.len() == 0,
            r@.inc == 0,
    {
        FileWriter {
            base_filename: base_fn,
            max_file_size: max_size,
            lifetime,
            state: FileState::Closed,
            filename: String::new(),
            file_inc: 0,
        }
    }

    /// Counts a delivery into the open file and evaluates both limits.
    fn count_and_evaluate(&mut self, len: usize, now: Moment) -> (closed: Option<String>)
        ensures
            final(self)@ == after_delivery(old(self)@, len as nat, now),
            closed is Some <==> rotates(old(self)@, len as nat, now),
            closed matches Some(f) ==> f@ == old(self)@.filename,
    {
        match self.state {
            FileState::Open { open_time, bytes_written } => {
                let bytes: u64 = if bytes_written > u64::MAX - len as u64 {
                    u64::MAX
                } else {
                    bytes_written + len as u64
                };
                let full = match self.max_file_size {
                    Some(m) => bytes >= m,
                    None => false,
                };
                let expired = match self.lifetime {
                    Some(l) => open_time.reached_after(now, l as u64),
                    None => false,
                };
                if full || expired {
                    self.state = FileState::Closed;
                    Some(self.filename.clone())
                } else {
                    self.state = FileState::Open { open_time, bytes_written: bytes };
                    None
                }
            },
            FileState::Closed => None,
        }
    }

    /// One delivery of `data` at `now`, with the time bucket already
    /// formatted for `now` (`None` where formatting failed) and the
    /// existence check `taken` for candidate file names.
    ///
    /// With no base name nothing happens. A non-empty payload opens a file
    /// when none is open, under the first name from the naming policy that
    /// `taken` reports free. While a file is open the payload is counted into
    /// it, and the file closes when the size limit or the lifetime is
    /// reached; its name is then returned in `closed`.
    pub fn deliver<F: Fn(&String) -> bool>(
        &mut self,
        data: &Vec<u8>,
        now: Moment,
        bucket: Option<String>,
        taken: &F,
    ) -> (r: Result<FileOps, CaptureError>)
        requires
            old(self).wf(),
            now.wf(),
            forall|s: &String| taken.requires((s,)),
        ensures
            final(self).wf(),
            final(self)@.base == old(self)@.base,
            final(self)@.max_size == old(self)@.max_size,
            final(self)@.lifetime == old(self)@.lifetime,
            old(self)@.base is None ==> r == Ok::<FileOps, CaptureError>(
                (FileOps { create: None, write: false, closed: None }),
            ) && final(self)@ == old(self)@,
            old(self)@.base is Some && !opens(old(self)@, data@.len()) ==> (r matches Ok(ops)
                && delivered_without_open(old(self)@, final(self)@, data@.len(), now, ops)),
            opens(old(self)@, data@.len()) ==> delivered_with_open(
                old(self)@,
                final(self)@,
                data@.len(),
                now,
                match bucket {
                    Some(b) => Some(b@),
                    None => None::<Seq<char>>,
                },
                *taken,
                r,
            ),
    {
        let len = data.len();
        let base = match &self.base_filename {
            Some(base) => base,
            None => return Ok(FileOps { create: None, write: false, closed: None }),
        };
        let mut create: Option<String> = None;
        if len > 0 && matches!(self.state, FileState::Closed) {
            let b = match bucket {
                Some(b) => b,
                None => return Err(CaptureError::TimeOutOfRange),
            };
            let prefix = make_prefix(base, &b);
            let start: u32 = if starts_with(&self.filename, &prefix) {
                if self.file_inc == u32::MAX {
                    return Err(CaptureError::NoFreeName);
                }
                self.file_inc + 1
            } else {
                0
            };
            match choose_name(&prefix, start, taken) {
                Some((name, k)) => {
                    self.filename = name.clone();
                    self.file_inc = k;
                    self.state = FileState::Open { open_time: now, bytes_written: 0 };
                    create = Some(name);
                },
                None => return Err(CaptureError::NoFreeName),
            }
        }
        let write = len > 0 && matches!(self.state, FileState::Open { .. });
        let closed = self.count_and_evaluate(len, now);
        Ok(FileOps { create, write, closed })
    }

    /// One delivery of `data` at `now`: as [`FileWriter::deliver`], with the
    /// time bucket of `now` formatted here when a file opens.
    pub fn maybe_write_data<F: Fn(&String) -> bool>(
        &mut self,
        data: &Vec<u8>,
        now: Moment,
        taken: &F,
    ) -> (r: Result<FileOps, CaptureError>)
        requires
            old(self).wf(),
            now.wf(),
            forall|s: &String| taken.requires((s,)),
        ensures
            final(self).wf(),
            final(self)@.base == old(self)@.base,
            final(self)@.max_size == old(self)@.max_size,
            final(self)@.lifetime == old(self)@.lifetime,
            old(self)@.base is None ==> r == Ok::<FileOps, CaptureError>(
                (FileOps { create: None, write: false, closed: None }),
            ) && final(self)@ == old(self)@,
            old(self)@.base is Some && !opens(old(self)@, data@.len()) ==> (r matches Ok(ops)
                && delivered_without_open(old(self)@, final(self)@, data@.len(), now, ops)),
            opens(old(self)@, data@.len()) ==> delivered_with_open(
                old(self)@,
                final(self)@,
                data@.len(),
                now,
                Some(bucket_label(label_pattern(), now.secs as int)),
                *taken,
                r,
            ) || (!formattable(now.secs as int) && r == Err::<FileOps, CaptureError>(
                CaptureError::TimeOutOfRange,
            ) && final(self)@ == old(self)@),
            opens(old(self)@, data@.len()) && four_digit_year(now.secs as int) ==> bucket_label(
                label_pattern(),
                now.secs as int,
            ).len() == 17,
    {
        let bucket = if self.base_filename.is_some() && data.len() > 0 && matches!(self.state, FileState::Closed) {
            proof {
                reveal_strlit("%Y-%j-%H-%M-%S");
                assert("%Y-%j-%H-%M-%S"@ =~= label_pattern());
            }
            format_bucket(now.secs, "%Y-%j-%H-%M-%S")
        } else {
            None
        };
        self.deliver(data, now, bucket, taken)
    }
}

} // verus!
