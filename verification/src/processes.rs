//! Process bookkeeping: the pid file's path and contents, what a stale pid
//! file calls for at startup, which processes the orphan sweep kills, and
//! how the runtime executable path is chosen.
//!
//! Reading the process table, the file system and the environment is the
//! caller's; every judgement over what was read is made here.

use vstd::prelude::*;

use crate::bridge::spec_contains;
use crate::textutil::{all_digits, digits_value, is_digit, lemma_digits_value_take, run_len};

verus! {

use vstd::string::StringExecFns;
use vstd::string::StringSliceAdditionalSpecFns;

/// The pid file's path under the given log directory.
pub open spec fn spec_pid_file_path(dir: Seq<char>) -> Seq<char> {
    dir + "/sc_launcher.pid"@
}

/// The pid file's path: the marker file name under the log directory.
pub fn pid_file_path(log_dir: &str) -> (r: String)
    ensures
        r@ == spec_pid_file_path(log_dir@),
{
    proof {
        reveal_strlit("/sc_launcher.pid");
    }
    let mut r = String::from_str(log_dir);
    r.append("/sc_launcher.pid");
    r
}

/// Whether the protocol plugin is present: at least one installed copy was
/// found.
pub fn ensure_quark_present(installed_paths: &Vec<String>) -> (r: bool)
    ensures
        r == (installed_paths@.len() > 0),
{
    installed_paths.len() > 0
}

/// What a stale pid file calls for at startup.
pub enum StartupCleanup {
    /// No pid file, or one that could not be read: nothing to do.
    Nothing,
    /// The recorded launcher is still alive: warn and leave it be.
    WarnAnotherRunning { launcher_pid: u64 },
    /// The recorded launcher is dead but its runtime lives on: kill the
    /// orphan and remove the stale file.
    KillOrphanAndRemoveFile { sclang_pid: u64 },
    /// Both are gone: just remove the stale file.
    RemoveFile,
}

/// Decide the startup sweep from the pid file's numbers and the two
/// liveness probes: a live launcher is only warned about; a dead
/// launcher's surviving runtime is killed; a stale file is removed.
pub fn startup_cleanup_action(
    pid_file: Option<(u64, u64)>,
    launcher_alive: bool,
    sclang_alive: bool,
) -> (a: StartupCleanup)
    ensures
        a == match pid_file {
            None => StartupCleanup::Nothing,
            Some((lp, sp)) => if launcher_alive {
                StartupCleanup::WarnAnotherRunning { launcher_pid: lp }
            } else if sclang_alive {
                StartupCleanup::KillOrphanAndRemoveFile { sclang_pid: sp }
            } else {
                StartupCleanup::RemoveFile
            },
        },
{
    match pid_file {
        None => StartupCleanup::Nothing,
        Some((lp, sp)) => if launcher_alive {
            StartupCleanup::WarnAnotherRunning { launcher_pid: lp }
        } else if sclang_alive {
            StartupCleanup::KillOrphanAndRemoveFile { sclang_pid: sp }
        } else {
            StartupCleanup::RemoveFile
        },
    }
}

/// One row of the process table: pid, parent pid, and command name.
pub struct ProcessEntry {
    pub pid: u32,
    pub ppid: u32,
    pub comm: Vec<u8>,
}

/// Not a space or tab.
pub open spec fn non_ws_pred() -> spec_fn(u8) -> bool {
    |b: u8| !(b == 32 || b == 9)
}

/// The whitespace-separated tokens of `s` from position `p` on.
pub open spec fn spec_tokens(s: Seq<u8>, p: int) -> Seq<Seq<u8>>
    decreases s.len() - p,
    via spec_tokens_dec
{
    if p < 0 || p >= s.len() {
        Seq::empty()
    } else if s[p] == 32 || s[p] == 9 {
        spec_tokens(s, p + 1)
    } else {
        let e = p + run_len(s, p, non_ws_pred());
        seq![s.subrange(p, e)] + spec_tokens(s, e)
    }
}

#[via_fn]
proof fn spec_tokens_dec(s: Seq<u8>, p: int) {
    if 0 <= p < s.len() && !(s[p] == 32 || s[p] == 9) {
        crate::textutil::lemma_run_len_found(s, p + 1, non_ws_pred());
        assert(non_ws_pred()(s[p]));
        assert(run_len(s, p, non_ws_pred()) == 1 + run_len(s, p + 1, non_ws_pred()));
    }
}

/// Split a line into its whitespace-separated tokens.
pub fn tokenize(line: &[u8]) -> (out: Vec<Vec<u8>>)
    ensures
        out.deep_view() == spec_tokens(line@, 0),
{
    let llen: usize = line.len();
    let mut out: Vec<Vec<u8>> = Vec::new();
    let mut p: usize = 0;
    proof {
        assert(out.deep_view() =~= Seq::<Seq<u8>>::empty());
        assert(spec_tokens(line@, 0) =~= out.deep_view() + spec_tokens(line@, 0));
    }
    while p < llen
        invariant
            llen == line@.len(),
            0 <= p <= llen,
            spec_tokens(line@, 0) == out.deep_view() + spec_tokens(line@, p as int),
        decreases llen - p,
    {
        if line[p] == 32 || line[p] == 9 {
            p = p + 1;
        } else {
            let mut e: usize = p;
            while e < llen && line[e] != 32 && line[e] != 9
                invariant
                    llen == line@.len(),
                    p <= e <= llen,
                    forall|j: int| p <= j < e ==> non_ws_pred()(#[trigger] line@[j]),
                decreases llen - e,
            {
                e = e + 1;
            }
            proof {
                crate::textutil::lemma_run_len_at(line@, p as int, e as int, non_ws_pred());
            }
            let tok = vstd::slice::slice_to_vec(
                vstd::slice::slice_subrange(line, p, e),
            );
            let ghost pre = out.deep_view();
            out.push(tok);
            proof {
                assert(out.deep_view() =~~= pre.push(line@.subrange(p as int, e as int)));
                assert(out.deep_view() + spec_tokens(line@, e as int) =~= pre + (seq![
                    line@.subrange(p as int, e as int),
                ] + spec_tokens(line@, e as int)));
            }
            p = e;
        }
    }
    proof {
        assert(spec_tokens(line@, p as int) =~= Seq::<Seq<u8>>::empty());
        assert(spec_tokens(line@, 0) =~= out.deep_view());
    }
    out
}

/// Parse a token as a decimal number that fits a `u32`.
pub fn parse_u32_token(tok: &[u8]) -> (r: Option<u32>)
    ensures
        match r {
            Some(v) => tok@.len() >= 1 && all_digits(tok@) && v == digits_value(tok@)
                && digits_value(tok@) <= u32::MAX,
            None => !(tok@.len() >= 1 && all_digits(tok@) && digits_value(tok@) <= u32::MAX),
        },
{
    let tlen: usize = tok.len();
    if tlen == 0 {
        return None;
    }
    let mut acc: u32 = 0;
    let mut k: usize = 0;
    while k < tlen
        invariant
            tlen == tok@.len(),
            0 <= k <= tlen,
            all_digits(tok@.take(k as int)),
            acc == digits_value(tok@.take(k as int)),
        decreases tlen - k,
    {
        let b = tok[k];
        if b < 48 || b > 57 {
            assert(!is_digit(tok@[k as int]));
            return None;
        }
        let d: u32 = (b - 48) as u32;
        proof {
            assert(tok@.take(k + 1).drop_last() =~= tok@.take(k as int));
            assert(tok@.take(k + 1).last() == tok@[k as int]);
            assert(acc > (u32::MAX - d) / 10 <==> acc * 10 + d > u32::MAX) by (nonlinear_arith)
                requires
                    d <= 9,
            ;
        }
        if acc > (u32::MAX - d) / 10 {
            proof {
                assert(digits_value(tok@.take(k + 1)) > u32::MAX);
                if all_digits(tok@) {
                    lemma_digits_value_take(tok@, k + 1);
                }
            }
            return None;
        }
        acc = acc * 10 + d;
        k = k + 1;
    }
    proof {
        assert(tok@.take(tlen as int) =~= tok@);
    }
    Some(acc)
}

/// The entry a process-table line describes: its first two tokens as
/// numbers, the rest of the tokens joined by single spaces as the command
/// name.
pub open spec fn spec_ps_entry(line: Seq<u8>) -> Option<(u32, u32, Seq<u8>)> {
    let toks = spec_tokens(line, 0);
    if toks.len() >= 3 && toks[0].len() >= 1 && all_digits(toks[0]) && digits_value(toks[0])
        <= u32::MAX && toks[1].len() >= 1 && all_digits(toks[1]) && digits_value(toks[1])
        <= u32::MAX {
        Some(
            (
                digits_value(toks[0]) as u32,
                digits_value(toks[1]) as u32,
                spec_join_spaces(toks.skip(2)),
            ),
        )
    } else {
        None
    }
}

/// Tokens joined by single spaces.
pub open spec fn spec_join_spaces(toks: Seq<Seq<u8>>) -> Seq<u8>
    decreases toks.len(),
{
    if toks.len() == 0 {
        Seq::empty()
    } else if toks.len() == 1 {
        toks.last()
    } else {
        spec_join_spaces(toks.drop_last()) + seq![32u8] + toks.last()
    }
}

/// Parse one process-table line into an entry, as the startup sweep reads
/// `pid`, `ppid` and the command name.
pub fn parse_ps_line(line: &[u8]) -> (r: Option<ProcessEntry>)
    ensures
        match r {
            Some(e) => spec_ps_entry(line@) == Some((e.pid, e.ppid, e.comm@)),
            None => spec_ps_entry(line@) is None,
        },
{
    let toks = tokenize(line);
    let ghost gtoks = spec_tokens(line@, 0);
    proof {
        assert(gtoks == toks.deep_view());
        assert(gtoks.len() == toks@.len());
    }
    if toks.len() < 3 {
        return None;
    }
    let pid = match parse_u32_token(toks[0].as_slice()) {
        None => {
            proof {
                assert(gtoks[0] == toks@[0]@);
            }
            return None;
        },
        Some(v) => v,
    };
    let ppid = match parse_u32_token(toks[1].as_slice()) {
        None => {
            proof {
                assert(gtoks[0] == toks@[0]@);
                assert(gtoks[1] == toks@[1]@);
            }
            return None;
        },
        Some(v) => v,
    };
    let n = toks.len();
    let mut comm: Vec<u8> = Vec::new();
    let mut i: usize = 2;
    proof {
        assert(gtoks.skip(2).take(0) =~= Seq::<Seq<u8>>::empty());
        assert(comm@ =~= spec_join_spaces(gtoks.skip(2).take(0)));
    }
    while i < n
        invariant
            n == toks@.len(),
            gtoks == toks.deep_view(),
            gtoks.len() == n,
            2 <= i <= n,
            comm@ == spec_join_spaces(gtoks.skip(2).take(i - 2)),
        decreases n - i,
    {
        let ghost pre = comm@;
        if i > 2 {
            comm.push(32);
        }
        let mut t = vstd::slice::slice_to_vec(toks[i].as_slice());
        comm.append(&mut t);
        proof {
            let part = gtoks.skip(2);
            assert(part.take(i - 2 + 1).drop_last() =~= part.take(i - 2));
            assert(part.take(i - 2 + 1).last() == gtoks[i as int]);
            assert(toks.deep_view()[i as int] == toks@[i as int]@);
            if i == 2 {
                assert(comm@ =~= spec_join_spaces(part.take(1)));
            } else {
                assert(spec_join_spaces(part.take(i - 2 + 1)) == spec_join_spaces(
                    part.take(i - 2),
                ) + seq![32u8] + part.take(i - 2 + 1).last());
                assert(comm@ =~= spec_join_spaces(part.take(i - 2 + 1)));
            }
        }
        i = i + 1;
    }
    proof {
        assert(gtoks.skip(2).take(n - 2) =~= gtoks.skip(2));
        assert(toks.deep_view()[0] == toks@[0]@);
        assert(toks.deep_view()[1] == toks@[1]@);
    }
    Some(ProcessEntry { pid, ppid, comm })
}

/// The pids the orphan sweep kills among `entries`: processes whose parent
/// is the init process and whose command name holds `name`, in table
/// order.
pub open spec fn spec_orphan_pids(entries: Seq<(u32, u32, Seq<u8>)>, name: Seq<u8>) -> Seq<u32>
    decreases entries.len(),
{
    if entries.len() == 0 {
        Seq::empty()
    } else {
        spec_orphan_pids(entries.drop_last(), name) + (
        if entries.last().1 == 1 && spec_contains(entries.last().2, name) {
            seq![entries.last().0]
        } else {
            Seq::empty()
        })
    }
}

/// The ghost value of a parsed process table.
pub open spec fn entries_view(entries: Seq<ProcessEntry>) -> Seq<(u32, u32, Seq<u8>)> {
    entries.map_values(|e: ProcessEntry| (e.pid, e.ppid, e.comm@))
}

/// Pick the orphaned processes to kill: parent is init and the command
/// name holds `name`.
pub fn orphan_pids(entries: &Vec<ProcessEntry>, name: &[u8]) -> (out: Vec<u32>)
    requires
        name@.len() >= 1,
    ensures
        out@ == spec_orphan_pids(entries_view(entries@), name@),
{
    let n = entries.len();
    let ghost gv = entries_view(entries@);
    let mut out: Vec<u32> = Vec::new();
    let mut i: usize = 0;
    proof {
        assert(gv.take(0) =~= Seq::<(u32, u32, Seq<u8>)>::empty());
        assert(out@ =~= spec_orphan_pids(gv.take(0), name@));
    }
    while i < n
        invariant
            n == entries@.len(),
            gv == entries_view(entries@),
            gv.len() == n,
            name@.len() >= 1,
            0 <= i <= n,
            out@ == spec_orphan_pids(gv.take(i as int), name@),
        decreases n - i,
    {
        let e = &entries[i];
        let ghost pre = out@;
        if e.ppid == 1 && crate::bridge::contains_bytes(e.comm.as_slice(), name) {
            out.push(e.pid);
        }
        proof {
            assert(gv.take(i + 1).drop_last() =~= gv.take(i as int));
            assert(gv.take(i + 1).last() == gv[i as int]);
            let ghost ei = entries@[i as int];
            assert(gv[i as int] == (ei.pid, ei.ppid, ei.comm@));
            assert(out@ =~= spec_orphan_pids(gv.take(i + 1), name@));
        }
        i = i + 1;
    }
    proof {
        assert(gv.take(n as int) =~= gv);
    }
    out
}

/// Choose the runtime executable: the explicit argument wins, then the
/// environment override, then the search of the command path, then the
/// platform default; with none of them the runtime is not found.
pub fn choose_sclang_path(
    arg_path: &Option<String>,
    env_path: &Option<String>,
    which_path: &Option<String>,
    default_path: &Option<String>,
) -> (r: Option<String>)
    ensures
        match (arg_path, env_path, which_path, default_path) {
            (Some(p), _, _, _) => r matches Some(q) && q@ == p@,
            (None, Some(p), _, _) => r matches Some(q) && q@ == p@,
            (None, None, Some(p), _) => r matches Some(q) && q@ == p@,
            (None, None, None, Some(p)) => r matches Some(q) && q@ == p@,
            (None, None, None, None) => r is None,
        },
{
    if let Some(p) = arg_path {
        Some(p.clone())
    } else if let Some(p) = env_path {
        Some(p.clone())
    } else if let Some(p) = which_path {
        Some(p.clone())
    } else if let Some(p) = default_path {
        Some(p.clone())
    } else {
        None
    }
}

} // verus!
