//! The decisions of the receive loop: the receive timeout, the command that
//! post-processes a closed file, and the sends that relay each datagram.
use vstd::prelude::*;
use crate::moment::{Moment, bucket_label, formattable, label_pattern};
use crate::writer::{
    CaptureError, FileOps, FileWriter, delivered_with_open, delivered_without_open, opens,
};

verus! {

/// The receive timeout in seconds for a file lifetime: a fifth of the
/// lifetime, at least one second; none without a lifetime.
pub open spec fn tick_interval(lifetime: Option<u16>) -> Option<u64> {
    match lifetime {
        Some(l) => Some(if l / 5 >= 1 { (l / 5) as u64 } else { 1u64 }),
        None => None,
    }
}

/// The shell command that post-processes `file`: it binds the file's path
/// to the variable `out_file`, then runs `cmd`.
pub open spec fn hook_command(cmd: Seq<char>, file: Seq<char>) -> Seq<char> {
    seq!['o', 'u', 't', '_', 'f', 'i', 'l', 'e', '='] + file + seq![';', ' '] + cmd
}

/// The targets, by position, to which a payload of `len` bytes is relayed:
/// each of the `n` targets once, in their order; none for an empty tick.
pub open spec fn forward_plan(len: nat, n: nat) -> Seq<usize> {
    if len > 0 {
        Seq::new(n, |i: int| i as usize)
    } else {
        Seq::empty()
    }
}

/// Every non-empty payload is relayed once to each of the `n` targets, in
/// the targets' order, and to nothing else; an empty tick is relayed to none.
pub proof fn forward_once_each(len: nat, n: nat)
    requires
        n <= usize::MAX,
    ensures
        len > 0 ==> forward_plan(len, n).len() == n,
        len > 0 ==> forall|i: int| 0 <= i < n ==> #[trigger] forward_plan(len, n)[i] == i,
        len > 0 ==> forall|i: int, j: int|
            0 <= i < j < n ==> #[trigger] forward_plan(len, n)[i] != #[trigger] forward_plan(len, n)[j],
        len == 0 ==> forward_plan(len, n).len() == 0,
{
    if len > 0 {
        assert forall|i: int| 0 <= i < n implies #[trigger] forward_plan(len, n)[i] == i by {
            assert(i as usize == i);
        }
    }
}

/// The receive timeout in seconds for a file lifetime.
pub fn tick_interval_secs(lifetime: Option<u16>) -> (r: Option<u64>)
    ensures
        r == tick_interval(lifetime),
{
    match lifetime {
        Some(l) => {
            let fifth: u16 = l / 5;
            if fifth >= 1 {
                Some(fifth as u64)
            } else {
                Some(1)
            }
        },
        None => None,
    }
}

/// The shell command that post-processes `file` with `cmd`.
pub fn post_process_command(cmd: &String, file: &String) -> (r: String)
    ensures
        r@ == hook_command(cmd@, file@),
{
    let mut r = String::from_str("out_file=");
    r.append(file.as_str());
    r.append("; ");
    r.append(cmd.as_str());
    proof {
        reveal_strlit("out_file=");
        reveal_strlit("; ");
        assert(r@ =~= hook_command(cmd@, file@));
    }
    r
}

/// The positions of the targets to which a payload of `len` bytes goes.
pub fn forward_data(len: usize, n_targets: usize) -> (r: Vec<usize>)
    ensures
        r@ == forward_plan(len as nat, n_targets as nat),
{
    let mut r: Vec<usize> = Vec::new();
    if len == 0 {
        proof {
            assert(r@ =~= forward_plan(len as nat, n_targets as nat));
        }
        return r;
    }
    let mut i: usize = 0;
    while i < n_targets
        invariant
            i <= n_targets,
            r@ =~= Seq::new(i as nat, |j: int| j as usize),
        decreases n_targets - i,
    {
        r.push(i);
        i = i + 1;
    }
    r
}

/// What the loop does after receiving one payload: the file operations,
/// the post-processing command for a file that closed, and the positions
/// of the forward targets that get the payload, in order.
#[derive(Debug, PartialEq, Eq)]
pub struct LoopActions {
    pub file: FileOps,
    pub post_process: Option<String>,
    pub forward_to: Vec<usize>,
}

/// The state of the receive loop: the file lifecycle, the post-processing
/// command, and how many forward targets there are.
pub struct CaptureLoop {
    pub writer: FileWriter,
    pub post_process_cmd: Option<String>,
    pub n_targets: usize,
}

impl CaptureLoop {
    /// The post-processing command for a closed file, if any.
    pub open spec fn hook_for(cmd: Option<String>, closed: Option<String>) -> Option<Seq<char>> {
        match (cmd, closed) {
            (Some(c), Some(f)) => Some(hook_command(c@, f@)),
            _ => None,
        }
    }

    /// A loop in its starting state: no file open.
    pub fn new(
        base_fn: Option<String>,
        max_size: Option<u64>,
        lifetime: Option<u16>,
        post_process_cmd: Option<String>,
        n_targets: usize,
    ) -> (r: CaptureLoop)
        ensures
            r.writer.wf(),
            r.writer@.base == (match base_fn {
                Some(s) => Some(s@),
                None => None::<Seq<char>>,
            }),
            r.writer@.max_size == max_size,
            r.writer@.lifetime == lifetime,
            r.writer@.state == crate::writer::FileState::Closed,
            r.post_process_cmd == post_process_cmd,
            r.n_targets == n_targets,
    {
        CaptureLoop {
            writer: FileWriter::new(base_fn, max_size, lifetime),
            post_process_cmd,
            n_targets,
        }
    }

    /// Handles one received payload (empty for a receive timeout) at `now`:
    /// the file lifecycle takes it first, a closed file gets its
    /// post-processing command, and a non-empty payload goes to every
    /// forward target, whatever happened to the file.
    pub fn on_datagram<F: Fn(&String) -> bool>(&mut self, data: &Vec<u8>, now: Moment, taken: &F) -> (r: Result<LoopActions, CaptureError>)
        requires
            old(self).writer.wf(),
            now.wf(),
            forall|s: &String| taken.requires((s,)),
        ensures
            final(self).writer.wf(),
            final(self).post_process_cmd == old(self).post_process_cmd,
            final(self).n_targets == old(self).n_targets,
            final(self).writer@.base == old(self).writer@.base,
            final(self).writer@.max_size == old(self).writer@.max_size,
            final(self).writer@.lifetime == old(self).writer@.lifetime,
            r matches Ok(a) ==> {
                &&& a.forward_to@ == forward_plan(data@.len(), old(self).n_targets as nat)
                &&& (match a.post_process {
                    Some(p) => Self::hook_for(old(self).post_process_cmd, a.file.closed) == Some(p@),
                    None => Self::hook_for(old(self).post_process_cmd, a.file.closed) is None,
                })
            },
            old(self).writer@.base is None ==> (r matches Ok(a) && a.file == (FileOps {
                create: None,
                write: false,
                closed: None,
            }) && final(self).writer@ == old(self).writer@),
            old(self).writer@.base is Some && !opens(old(self).writer@, data@.len()) ==> (r matches Ok(a)
                && delivered_without_open(old(self).writer@, final(self).writer@, data@.len(), now, a.file)),
            opens(old(self).writer@, data@.len()) ==> {
                ||| (r matches Ok(a) && delivered_with_open(
                    old(self).writer@,
                    final(self).writer@,
                    data@.len(),
                    now,
                    Some(bucket_label(label_pattern(), now.secs as int)),
                    *taken,
                    Ok::<FileOps, CaptureError>(a.file),
                ))
                ||| (r matches Err(e) && delivered_with_open(
                    old(self).writer@,
                    final(self).writer@,
                    data@.len(),
                    now,
                    Some(bucket_label(label_pattern(), now.secs as int)),
                    *taken,
                    Err::<FileOps, CaptureError>(e),
                ))
                ||| (!formattable(now.secs as int) && r == Err::<LoopActions, CaptureError>(
                    CaptureError::TimeOutOfRange,
                )
                    && final(self).writer@ == old(self).writer@)
            },
    {
        let file = self.writer.maybe_write_data(data, now, taken)?;
        let post_process = match (&self.post_process_cmd, &file.closed) {
            (Some(c), Some(f)) => Some(post_process_command(c, f)),
            _ => None,
        };
        let forward_to = forward_data(data.len(), self.n_targets);
        Ok(LoopActions { file, post_process, forward_to })
    }
}

} // verus!
