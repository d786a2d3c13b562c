//! One grammar per supported text ftrace event.
use vstd::prelude::*;
use vstd::arithmetic::power2::{lemma2_to64, pow2};
use crate::number::{decimal_chars, decimal_string};
use crate::text::{append, append_chars, chars_of, debug_quoted, debug_string, eq_str, owned, rsplit_once, slices_view, spec_rsplit_once, spec_split_once, spec_strip_prefix, spec_strip_suffix, spec_tokens, split_once, split_whitespace, string_of, strip_prefix, strip_suffix};
use super::event::{FtracePayload, PayloadView};
use super::payload::{PayloadError, PayloadErrorView, eview, field_hex_u32, field_hex_u64, field_i32, field_i64, field_u32, field_u64, msg, rview, sp_hex_u32, sp_hex_u64, sp_i32, sp_i64, sp_take_between, sp_u32, sp_u64, take_between};

verus! {

pub type PR<T> = Result<T, PayloadErrorView>;

/// `str::trim_end_matches(c)` for one character.
pub open spec fn spec_trim_end_char(s: Seq<char>, c: char) -> Seq<char>
    decreases s.len(),
{
    if s.len() > 0 && s.last() == c {
        spec_trim_end_char(s.drop_last(), c)
    } else {
        s
    }
}

fn trim_end_char(s: &[char], c: char) -> (r: &[char])
    ensures
        r@ == spec_trim_end_char(s@, c),
{
    let mut i: usize = s.len();
    assert(s@.subrange(0, s.len() as int) =~= s@);
    while i > 0 && s[i - 1] == c
        invariant
            0 <= i <= s.len(),
            spec_trim_end_char(s@, c) == spec_trim_end_char(s@.subrange(0, i as int), c),
        decreases i,
    {
        assert(s@.subrange(0, i as int).drop_last() =~= s@.subrange(0, i - 1));
        i = i - 1;
    }
    &s[0..i]
}

/// The numeric task state of a `sched_switch` `prev_state` letter.
pub open spec fn sp_sched_state(value: Seq<char>) -> PR<u64> {
    let state = spec_trim_end_char(value, '+');
    if state == "R"@ {
        Ok(0)
    } else if state == "S"@ {
        Ok(1)
    } else if state == "D"@ {
        Ok(2)
    } else if state == "T"@ {
        Ok(4)
    } else if state == "t"@ {
        Ok(8)
    } else if state == "X"@ {
        Ok(16)
    } else if state == "Z"@ {
        Ok(32)
    } else if state == "P"@ {
        Ok(64)
    } else if state == "I"@ {
        Ok(128)
    } else {
        Err(msg("unsupported sched_switch prev_state "@ + debug_quoted(value)))
    }
}

/// The task-state letters, in the order of the kernel's state bits.
pub open spec fn task_state_letters() -> Seq<char> {
    "RSDTtXZPI"@
}

/// A `prev_state` letter decodes to the kernel task state it names: `R`
/// (running) to 0 and the `k`-th later letter of `RSDTtXZPI` to bit `k - 1`,
/// trailing `+` marks aside. Only these letters decode, distinct letters
/// decode to distinct states, and a further `+` changes nothing.
pub proof fn lemma_sched_state_bits(value: Seq<char>, other: Seq<char>, k: int)
    ensures
        0 <= k < 9 && spec_trim_end_char(value, '+') == seq![task_state_letters()[k]] ==> sp_sched_state(value)
            == Ok::<u64, PayloadErrorView>(
            if k == 0 {
                0
            } else {
                pow2((k - 1) as nat) as u64
            },
        ),
        sp_sched_state(value) is Ok ==> exists|j: int|
            0 <= j < 9 && spec_trim_end_char(value, '+') == seq![#[trigger] task_state_letters()[j]],
        sp_sched_state(value) is Ok && sp_sched_state(value) == sp_sched_state(other) ==> spec_trim_end_char(value, '+')
            == spec_trim_end_char(other, '+'),
        sp_sched_state(value) is Ok ==> sp_sched_state(value.push('+')) == sp_sched_state(value),
{
    reveal_strlit("RSDTtXZPI");
    reveal_strlit("R");
    reveal_strlit("S");
    reveal_strlit("D");
    reveal_strlit("T");
    reveal_strlit("t");
    reveal_strlit("X");
    reveal_strlit("Z");
    reveal_strlit("P");
    reveal_strlit("I");
    lemma2_to64();
    assert("R"@[0] == 'R' && "R"@.len() == 1);
    assert("S"@[0] == 'S' && "S"@.len() == 1);
    assert("D"@[0] == 'D' && "D"@.len() == 1);
    assert("T"@[0] == 'T' && "T"@.len() == 1);
    assert("t"@[0] == 't' && "t"@.len() == 1);
    assert("X"@[0] == 'X' && "X"@.len() == 1);
    assert("Z"@[0] == 'Z' && "Z"@.len() == 1);
    assert("P"@[0] == 'P' && "P"@.len() == 1);
    assert("I"@[0] == 'I' && "I"@.len() == 1);
    let l = task_state_letters();
    let t = spec_trim_end_char(value, '+');
    assert(value.push('+').drop_last() =~= value);
    assert(spec_trim_end_char(value.push('+'), '+') == t);
    if 0 <= k < 9 && t == seq![l[k]] {
        if k == 0 {
            assert(t =~= "R"@);
        } else if k == 1 {
            assert(t =~= "S"@);

        } else if k == 2 {
            assert(t =~= "D"@);
        } else if k == 3 {
            assert(t =~= "T"@);
        } else if k == 4 {
            assert(t =~= "t"@);
        } else if k == 5 {
            assert(t =~= "X"@);
        } else if k == 6 {
            assert(t =~= "Z"@);
        } else if k == 7 {
            assert(t =~= "P"@);
        } else if k == 8 {
            assert(t =~= "I"@);
        }
    }
    if t == "R"@ {
        assert(t == seq![l[0]]);
    } else if t == "S"@ {
        assert(t == seq![l[1]]);
    } else if t == "D"@ {
        assert(t == seq![l[2]]);
    } else if t == "T"@ {
        assert(t == seq![l[3]]);
    } else if t == "t"@ {
        assert(t == seq![l[4]]);
    } else if t == "X"@ {
        assert(t == seq![l[5]]);
    } else if t == "Z"@ {
        assert(t == seq![l[6]]);
    } else if t == "P"@ {
        assert(t == seq![l[7]]);
    } else if t == "I"@ {
        assert(t == seq![l[8]]);
    }
}

pub fn parse_sched_state(value: &[char]) -> (r: Result<u64, PayloadError>)
    ensures
        eview(r) == sp_sched_state(value@),
{
    let state = trim_end_char(value, '+');
    if eq_str(state, "R") {
        Ok(0)
    } else if eq_str(state, "S") {
        Ok(1)
    } else if eq_str(state, "D") {
        Ok(2)
    } else if eq_str(state, "T") {
        Ok(4)
    } else if eq_str(state, "t") {
        Ok(8)
    } else if eq_str(state, "X") {
        Ok(16)
    } else if eq_str(state, "Z") {
        Ok(32)
    } else if eq_str(state, "P") {
        Ok(64)
    } else if eq_str(state, "I") {
        Ok(128)
    } else {
        let mut m = owned("unsupported sched_switch prev_state ");
        let d = debug_string(value);
        append_chars(&mut m, chars_of(d.as_str()).as_slice());
        Err(PayloadError::Message(m))
    }
}

pub open spec fn sp_switch(p: Seq<char>) -> PR<PayloadView> {
    match sp_take_between(p, "prev_comm="@, " prev_pid="@) {
        Err(e) => Err(e),
        Ok((prev_comm, r1)) => match sp_take_between(r1, ""@, " prev_prio="@) {
            Err(e) => Err(e),
            Ok((pid_s, r2)) => match sp_take_between(r2, ""@, " prev_state="@) {
                Err(e) => Err(e),
                Ok((prio_s, r3)) => match sp_take_between(r3, ""@, " ==> next_comm="@) {
                    Err(e) => Err(e),
                    Ok((state_s, r4)) => match sp_take_between(r4, ""@, " next_pid="@) {
                        Err(e) => Err(e),
                        Ok((next_comm, r5)) => match sp_take_between(r5, ""@, " next_prio="@) {
                            Err(e) => Err(e),
                            Ok((next_pid_s, next_prio_s)) => match sp_i32(pid_s, "prev_pid"@) {
                                Err(e) => Err(e),
                                Ok(prev_pid) => match sp_i32(prio_s, "prev_prio"@) {
                                    Err(e) => Err(e),
                                    Ok(prev_prio) => match sp_sched_state(state_s) {
                                        Err(e) => Err(e),
                                        Ok(prev_state) => match sp_i32(next_pid_s, "next_pid"@) {
                                            Err(e) => Err(e),
                                            Ok(next_pid) => match sp_i32(
                                                next_prio_s,
                                                "next_prio"@,
                                            ) {
                                                Err(e) => Err(e),
                                                Ok(next_prio) => Ok(
                                                    PayloadView::SchedSwitch {
                                                        prev_comm,
                                                        prev_pid,
                                                        prev_prio,
                                                        prev_state,
                                                        next_comm,
                                                        next_pid,
                                                        next_prio,
                                                    },
                                                ),
                                            },
                                        },
                                    },
                                },
                            },
                        },
                    },
                },
            },
        },
    }
}

pub fn parse_switch(payload: &[char]) -> (r: Result<FtracePayload, PayloadError>)
    ensures
        rview(r) == sp_switch(payload@),
{
    let (prev_comm, rest) = take_between(payload, "prev_comm=", " prev_pid=")?;
    let (pid_s, rest) = take_between(rest, "", " prev_prio=")?;
    let (prio_s, rest) = take_between(rest, "", " prev_state=")?;
    let (state_s, rest) = take_between(rest, "", " ==> next_comm=")?;
    let (next_comm, rest) = take_between(rest, "", " next_pid=")?;
    let (next_pid_s, next_prio_s) = take_between(rest, "", " next_prio=")?;
    let prev_pid = field_i32(pid_s, "prev_pid")?;
    let prev_prio = field_i32(prio_s, "prev_prio")?;
    let prev_state = parse_sched_state(state_s)?;
    let next_pid = field_i32(next_pid_s, "next_pid")?;
    let next_prio = field_i32(next_prio_s, "next_prio")?;
    Ok(
        FtracePayload::SchedSwitch {
            prev_comm: string_of(prev_comm),
            prev_pid,
            prev_prio,
            prev_state,
            next_comm: string_of(next_comm),
            next_pid,
            next_prio,
        },
    )
}

/// The fields shared by `sched_wakeup` and `sched_wakeup_new`.
pub open spec fn sp_wakeup_fields(p: Seq<char>) -> PR<(Seq<char>, i32, i32, i32)> {
    match sp_take_between(p, "comm="@, " pid="@) {
        Err(e) => Err(e),
        Ok((comm, r1)) => match sp_take_between(r1, ""@, " prio="@) {
            Err(e) => Err(e),
            Ok((pid_s, r2)) => match sp_take_between(r2, ""@, " target_cpu="@) {
                Err(e) => Err(e),
                Ok((prio_s, cpu_s)) => match sp_i32(pid_s, "pid"@) {
                    Err(e) => Err(e),
                    Ok(pid) => match sp_i32(prio_s, "prio"@) {
                        Err(e) => Err(e),
                        Ok(prio) => match sp_u32(cpu_s, "target_cpu"@) {
                            Err(e) => Err(e),
                            Ok(cpu) => if cpu <= i32::MAX {
                                Ok((comm, pid, prio, cpu as i32))
                            } else {
                                Err(msg("out of range integral type conversion attempted"@))
                            },
                        },
                    },
                },
            },
        },
    }
}

pub open spec fn sp_wakeup(p: Seq<char>, new: bool) -> PR<PayloadView> {
    match sp_wakeup_fields(p) {
        Err(e) => Err(e),
        Ok((comm, pid, prio, target_cpu)) => if new {
            Ok(PayloadView::SchedWakeupNew { comm, pid, prio, target_cpu })
        } else {
            Ok(PayloadView::SchedWakeup { comm, pid, prio, target_cpu })
        },
    }
}

pub fn parse_wakeup(payload: &[char], new: bool) -> (r: Result<FtracePayload, PayloadError>)
    ensures
        rview(r) == sp_wakeup(payload@, new),
{
    let (comm_s, rest) = take_between(payload, "comm=", " pid=")?;
    let (pid_s, rest) = take_between(rest, "", " prio=")?;
    let (prio_s, cpu_s) = take_between(rest, "", " target_cpu=")?;
    let comm = string_of(comm_s);
    let pid = field_i32(pid_s, "pid")?;
    let prio = field_i32(prio_s, "prio")?;
    let cpu = field_u32(cpu_s, "target_cpu")?;
    if cpu > i32::MAX as u32 {
        return Err(PayloadError::Message(owned("out of range integral type conversion attempted")));
    }
    let target_cpu = cpu as i32;
    if new {
        Ok(FtracePayload::SchedWakeupNew { comm, pid, prio, target_cpu })
    } else {
        Ok(FtracePayload::SchedWakeup { comm, pid, prio, target_cpu })
    }
}

/// `exactly`: the payload has `count` whitespace-separated tokens.
pub open spec fn sp_exactly(tokens: Seq<Seq<char>>, count: nat) -> PR<()> {
    if tokens.len() != count {
        Err(
            msg(
                "expected "@ + decimal_chars(count) + " payload tokens, found "@ + decimal_chars(
                    tokens.len(),
                ),
            ),
        )
    } else {
        Ok(())
    }
}

fn exactly(tokens: &Vec<&[char]>, count: usize) -> (r: Result<(), PayloadError>)
    ensures
        eview(r) == sp_exactly(slices_view(tokens@), count as nat),
{
    if tokens.len() != count {
        let mut m = owned("expected ");
        let c = decimal_string(count as u64);
        append_chars(&mut m, chars_of(c.as_str()).as_slice());
        append(&mut m, " payload tokens, found ");
        let f = decimal_string(tokens.len() as u64);
        append_chars(&mut m, chars_of(f.as_str()).as_slice());
        return Err(PayloadError::Message(m));
    }
    Ok(())
}

/// `strip_named`: the value after `name`.
pub open spec fn sp_strip_named(v: Seq<char>, name: Seq<char>) -> PR<Seq<char>> {
    match spec_strip_prefix(v, name) {
        Some(rest) => Ok(rest),
        None => Err(msg("missing payload field "@ + name)),
    }
}

fn strip_named<'a>(v: &'a [char], name: &str) -> (r: Result<&'a [char], PayloadError>)
    ensures
        match r {
            Ok(rest) => sp_strip_named(v@, name@) == Ok::<Seq<char>, PayloadErrorView>(rest@),
            Err(e) => sp_strip_named(v@, name@) == Err::<Seq<char>, PayloadErrorView>(e@),
        },
{
    let n = chars_of(name);
    match strip_prefix(v, n.as_slice()) {
        Some(rest) => Ok(rest),
        None => {
            let mut m = owned("missing payload field ");
            append(&mut m, name);
            Err(PayloadError::Message(m))
        },
    }
}

pub open spec fn sp_rss_stat(p: Seq<char>) -> PR<PayloadView> {
    let t = spec_tokens(p);
    match sp_exactly(t, 4) {
        Err(e) => Err(e),
        Ok(_) => match sp_strip_named(t[3], "size="@) {
            Err(e) => Err(e),
            Ok(sized) => match spec_strip_suffix(sized, "B"@) {
                None => Err(msg("missing size byte suffix"@)),
                Some(size) => match sp_strip_named(t[0], "mm_id="@) {
                    Err(e) => Err(e),
                    Ok(mm) => match sp_u32(mm, "mm_id"@) {
                        Err(e) => Err(e),
                        Ok(mm_id) => match sp_strip_named(t[1], "curr="@) {
                            Err(e) => Err(e),
                            Ok(c) => match sp_u32(c, "curr"@) {
                                Err(e) => Err(e),
                                Ok(curr) => match sp_strip_named(t[2], "type="@) {
                                    Err(e) => Err(e),
                                    Ok(member_name) => match sp_i64(size, "size"@) {
                                        Err(e) => Err(e),
                                        Ok(signed_size) => Ok(
                                            PayloadView::RssStat {
                                                mm_id,
                                                curr,
                                                member_name,
                                                signed_size,
                                            },
                                        ),
                                    },
                                },
                            },
                        },
                    },
                },
            },
        },
    }
}

pub fn parse_rss_stat(payload: &[char]) -> (r: Result<FtracePayload, PayloadError>)
    ensures
        rview(r) == sp_rss_stat(payload@),
{
    let tokens = split_whitespace(payload);
    exactly(&tokens, 4)?;
    let sized = strip_named(tokens[3], "size=")?;
    let b = chars_of("B");
    let size = match strip_suffix(sized, b.as_slice()) {
        Some(s) => s,
        None => return Err(PayloadError::Message(owned("missing size byte suffix"))),
    };
    let mm_id = field_u32(strip_named(tokens[0], "mm_id=")?, "mm_id")?;
    let curr = field_u32(strip_named(tokens[1], "curr=")?, "curr")?;
    let member_name = string_of(strip_named(tokens[2], "type=")?);
    let signed_size = field_i64(size, "size")?;
    Ok(FtracePayload::RssStat { mm_id, curr, member_name, signed_size })
}

pub open spec fn sp_cpu_idle(p: Seq<char>) -> PR<PayloadView> {
    let t = spec_tokens(p);
    match sp_exactly(t, 2) {
        Err(e) => Err(e),
        Ok(_) => match sp_strip_named(t[0], "state="@) {
            Err(e) => Err(e),
            Ok(s) => match sp_u32(s, "state"@) {
                Err(e) => Err(e),
                Ok(state) => match sp_strip_named(t[1], "cpu_id="@) {
                    Err(e) => Err(e),
                    Ok(c) => match sp_u32(c, "cpu_id"@) {
                        Err(e) => Err(e),
                        Ok(cpu_id) => Ok(PayloadView::CpuIdle { state, cpu_id }),
                    },
                },
            },
        },
    }
}

pub fn parse_cpu_idle(payload: &[char]) -> (r: Result<FtracePayload, PayloadError>)
    ensures
        rview(r) == sp_cpu_idle(payload@),
{
    let tokens = split_whitespace(payload);
    exactly(&tokens, 2)?;
    let state = field_u32(strip_named(tokens[0], "state=")?, "state")?;
    let cpu_id = field_u32(strip_named(tokens[1], "cpu_id=")?, "cpu_id")?;
    Ok(FtracePayload::CpuIdle { state, cpu_id })
}

pub open spec fn sp_irq_entry(p: Seq<char>) -> PR<PayloadView> {
    match sp_take_between(p, "irq="@, " name="@) {
        Err(e) => Err(e),
        Ok((irq_s, name)) => match sp_i32(irq_s, "irq"@) {
            Err(e) => Err(e),
            Ok(irq) => Ok(PayloadView::IrqHandlerEntry { irq, name }),
        },
    }
}

pub fn parse_irq_entry(payload: &[char]) -> (r: Result<FtracePayload, PayloadError>)
    ensures
        rview(r) == sp_irq_entry(payload@),
{
    let (irq_s, name) = take_between(payload, "irq=", " name=")?;
    let irq = field_i32(irq_s, "irq")?;
    Ok(FtracePayload::IrqHandlerEntry { irq, name: string_of(name) })
}

pub open spec fn sp_irq_exit(p: Seq<char>) -> PR<PayloadView> {
    match sp_take_between(p, "irq="@, " ret="@) {
        Err(e) => Err(e),
        Ok((irq_s, ret_symbol)) => match sp_i32(irq_s, "irq"@) {
            Err(e) => Err(e),
            Ok(irq) => Ok(PayloadView::IrqHandlerExit { irq, ret_symbol }),
        },
    }
}

pub fn parse_irq_exit(payload: &[char]) -> (r: Result<FtracePayload, PayloadError>)
    ensures
        rview(r) == sp_irq_exit(payload@),
{
    let (irq_s, result) = take_between(payload, "irq=", " ret=")?;
    let irq = field_i32(irq_s, "irq")?;
    Ok(FtracePayload::IrqHandlerExit { irq, ret_symbol: string_of(result) })
}

/// Which softirq event a payload belongs to.
#[derive(Debug, Clone, Copy)]
pub enum SoftirqKind {
    Entry,
    Exit,
    Raise,
}

pub open spec fn sp_softirq(p: Seq<char>, kind: SoftirqKind) -> PR<PayloadView> {
    match sp_take_between(p, "vec="@, " [action="@) {
        Err(e) => Err(e),
        Ok((vector, action_s)) => match spec_strip_suffix(action_s, "]"@) {
            None => Err(msg("missing action suffix"@)),
            Some(action) => match sp_u32(vector, "vec"@) {
                Err(e) => Err(e),
                Ok(vec) => Ok(
                    match kind {
                        SoftirqKind::Entry => PayloadView::SoftirqEntry { vec, action },
                        SoftirqKind::Exit => PayloadView::SoftirqExit { vec, action },
                        SoftirqKind::Raise => PayloadView::SoftirqRaise { vec, action },
                    },
                ),
            },
        },
    }
}

pub fn parse_softirq(payload: &[char], kind: SoftirqKind) -> (r: Result<
    FtracePayload,
    PayloadError,
>)
    ensures
        rview(r) == sp_softirq(payload@, kind),
{
    let (vector, action_s) = take_between(payload, "vec=", " [action=")?;
    let close = chars_of("]");
    let action = match strip_suffix(action_s, close.as_slice()) {
        Some(a) => a,
        None => return Err(PayloadError::Message(owned("missing action suffix"))),
    };
    let vec = field_u32(vector, "vec")?;
    let action = string_of(action);
    Ok(
        match kind {
            SoftirqKind::Entry => FtracePayload::SoftirqEntry { vec, action },
            SoftirqKind::Exit => FtracePayload::SoftirqExit { vec, action },
            SoftirqKind::Raise => FtracePayload::SoftirqRaise { vec, action },
        },
    )
}

/// `parenthesized_reason`: the text between a leading `(` and a trailing `)`.
pub open spec fn sp_parenthesized(v: Seq<char>) -> PR<Seq<char>> {
    match spec_strip_prefix(v, "("@) {
        None => Err(msg("reason must be parenthesized"@)),
        Some(inner) => match spec_strip_suffix(inner, ")"@) {
            None => Err(msg("reason must be parenthesized"@)),
            Some(reason) => Ok(reason),
        },
    }
}

fn parenthesized_reason(v: &[char]) -> (r: Result<String, PayloadError>)
    ensures
        rview(r) == sp_parenthesized(v@),
{
    let open = chars_of("(");
    let close = chars_of(")");
    match strip_prefix(v, open.as_slice()) {
        None => Err(PayloadError::Message(owned("reason must be parenthesized"))),
        Some(inner) => match strip_suffix(inner, close.as_slice()) {
            None => Err(PayloadError::Message(owned("reason must be parenthesized"))),
            Some(reason) => Ok(string_of(reason)),
        },
    }
}

pub open spec fn sp_ipi_reason(p: Seq<char>, exit: bool) -> PR<PayloadView> {
    match sp_parenthesized(p) {
        Err(e) => Err(e),
        Ok(reason) => if exit {
            Ok(PayloadView::IpiExit { reason })
        } else {
            Ok(PayloadView::IpiEntry { reason })
        },
    }
}

pub fn parse_ipi_reason(payload: &[char], exit: bool) -> (r: Result<FtracePayload, PayloadError>)
    ensures
        rview(r) == sp_ipi_reason(payload@, exit),
{
    let reason = parenthesized_reason(payload)?;
    if exit {
        Ok(FtracePayload::IpiExit { reason })
    } else {
        Ok(FtracePayload::IpiEntry { reason })
    }
}

pub open spec fn sp_ipi_raise(p: Seq<char>) -> PR<PayloadView> {
    match sp_take_between(p, "target_mask="@, " ("@) {
        Err(e) => Err(e),
        Ok((mask, reason_s)) => match sp_parenthesized("("@ + reason_s) {
            Err(e) => Err(e),
            Ok(reason) => Ok(PayloadView::IpiRaise { reason, target_mask: mask }),
        },
    }
}

pub fn parse_ipi_raise(payload: &[char]) -> (r: Result<FtracePayload, PayloadError>)
    ensures
        rview(r) == sp_ipi_raise(payload@),
{
    let (mask, reason_s) = take_between(payload, "target_mask=", " (")?;
    let mut wrapped = chars_of("(");
    let ghost open = wrapped@;
    let mut i: usize = 0;
    while i < reason_s.len()
        invariant
            0 <= i <= reason_s.len(),
            wrapped@ == open + reason_s@.take(i as int),
        decreases reason_s.len() - i,
    {
        wrapped.push(reason_s[i]);
        i = i + 1;
        assert(reason_s@.take(i as int) =~= reason_s@.take(i - 1).push(reason_s@[i - 1]));
    }
    assert(reason_s@.take(reason_s.len() as int) =~= reason_s@);
    let reason = parenthesized_reason(wrapped.as_slice())?;
    Ok(FtracePayload::IpiRaise { reason, target_mask: string_of(mask) })
}

pub open spec fn sp_ipi_send_cpu(p: Seq<char>) -> PR<PayloadView> {
    match sp_take_between(p, "cpu="@, " callsite="@) {
        Err(e) => Err(e),
        Ok((cpu_s, rest)) => match sp_take_between(rest, ""@, " callback="@) {
            Err(e) => Err(e),
            Ok((callsite, callback)) => match sp_u32(cpu_s, "cpu"@) {
                Err(e) => Err(e),
                Ok(target_cpu) => Ok(PayloadView::IpiSendCpu { target_cpu, callsite, callback }),
            },
        },
    }
}

pub fn parse_ipi_send_cpu(payload: &[char]) -> (r: Result<FtracePayload, PayloadError>)
    ensures
        rview(r) == sp_ipi_send_cpu(payload@),
{
    let (cpu_s, rest) = take_between(payload, "cpu=", " callsite=")?;
    let (callsite, callback) = take_between(rest, "", " callback=")?;
    let target_cpu = field_u32(cpu_s, "cpu")?;
    Ok(
        FtracePayload::IpiSendCpu {
            target_cpu,
            callsite: string_of(callsite),
            callback: string_of(callback),
        },
    )
}

pub open spec fn sp_workqueue(p: Seq<char>, start: bool) -> PR<PayloadView> {
    match sp_take_between(p, "work struct "@, ": function "@) {
        Err(e) => Err(e),
        Ok((work_s, function_symbol)) => match sp_hex_u64(work_s, "work"@) {
            Err(e) => Err(e),
            Ok(work) => if start {
                Ok(PayloadView::WorkqueueExecuteStart { work, function_symbol })
            } else {
                Ok(PayloadView::WorkqueueExecuteEnd { work, function_symbol })
            },
        },
    }
}

pub fn parse_workqueue(payload: &[char], start: bool) -> (r: Result<FtracePayload, PayloadError>)
    ensures
        rview(r) == sp_workqueue(payload@, start),
{
    let (work_s, function) = take_between(payload, "work struct ", ": function ")?;
    let work = field_hex_u64(work_s, "work")?;
    let function_symbol = string_of(function);
    if start {
        Ok(FtracePayload::WorkqueueExecuteStart { work, function_symbol })
    } else {
        Ok(FtracePayload::WorkqueueExecuteEnd { work, function_symbol })
    }
}

pub open spec fn sp_named_i32(v: Seq<char>, name: Seq<char>, field: Seq<char>) -> PR<i32> {
    match sp_strip_named(v, name) {
        Err(e) => Err(e),
        Ok(s) => sp_i32(s, field),
    }
}

pub open spec fn sp_named_hex_u32(v: Seq<char>, name: Seq<char>, field: Seq<char>) -> PR<u32> {
    match sp_strip_named(v, name) {
        Err(e) => Err(e),
        Ok(s) => sp_hex_u32(s, field),
    }
}

pub open spec fn sp_binder_transaction(p: Seq<char>) -> PR<PayloadView> {
    let t = spec_tokens(p);
    match sp_exactly(t, 7) {
        Err(e) => Err(e),
        Ok(_) => match sp_named_i32(t[0], "transaction="@, "transaction"@) {
            Err(e) => Err(e),
            Ok(debug_id) => match sp_named_i32(t[1], "dest_node="@, "dest_node"@) {
                Err(e) => Err(e),
                Ok(target_node) => match sp_named_i32(t[2], "dest_proc="@, "dest_proc"@) {
                    Err(e) => Err(e),
                    Ok(to_proc) => match sp_named_i32(t[3], "dest_thread="@, "dest_thread"@) {
                        Err(e) => Err(e),
                        Ok(to_thread) => match sp_named_i32(t[4], "reply="@, "reply"@) {
                            Err(e) => Err(e),
                            Ok(reply) => match sp_named_hex_u32(t[5], "flags="@, "flags"@) {
                                Err(e) => Err(e),
                                Ok(flags) => match sp_named_hex_u32(t[6], "code="@, "code"@) {
                                    Err(e) => Err(e),
                                    Ok(code) => Ok(
                                        PayloadView::BinderTransaction {
                                            debug_id,
                                            target_node,
                                            to_proc,
                                            to_thread,
                                            reply,
                                            flags,
                                            code,
                                        },
                                    ),
                                },
                            },
                        },
                    },
                },
            },
        },
    }
}

fn named_i32(v: &[char], name: &str, field: &'static str) -> (r: Result<i32, PayloadError>)
    ensures
        eview(r) == sp_named_i32(v@, name@, field@),
{
    field_i32(strip_named(v, name)?, field)
}

fn named_hex_u32(v: &[char], name: &str, field: &'static str) -> (r: Result<u32, PayloadError>)
    ensures
        eview(r) == sp_named_hex_u32(v@, name@, field@),
{
    field_hex_u32(strip_named(v, name)?, field)
}

pub fn parse_binder_transaction(payload: &[char]) -> (r: Result<FtracePayload, PayloadError>)
    ensures
        rview(r) == sp_binder_transaction(payload@),
{
    let tokens = split_whitespace(payload);
    exactly(&tokens, 7)?;
    let debug_id = named_i32(tokens[0], "transaction=", "transaction")?;
    let target_node = named_i32(tokens[1], "dest_node=", "dest_node")?;
    let to_proc = named_i32(tokens[2], "dest_proc=", "dest_proc")?;
    let to_thread = named_i32(tokens[3], "dest_thread=", "dest_thread")?;
    let reply = named_i32(tokens[4], "reply=", "reply")?;
    let flags = named_hex_u32(tokens[5], "flags=", "flags")?;
    let code = named_hex_u32(tokens[6], "code=", "code")?;
    Ok(
        FtracePayload::BinderTransaction {
            debug_id,
            target_node,
            to_proc,
            to_thread,
            reply,
            flags,
            code,
        },
    )
}

pub open spec fn sp_binder_received(p: Seq<char>) -> PR<PayloadView> {
    match sp_named_i32(p, "transaction="@, "transaction"@) {
        Err(e) => Err(e),
        Ok(debug_id) => Ok(PayloadView::BinderTransactionReceived { debug_id }),
    }
}

pub fn parse_binder_received(payload: &[char]) -> (r: Result<FtracePayload, PayloadError>)
    ensures
        rview(r) == sp_binder_received(payload@),
{
    let debug_id = named_i32(payload, "transaction=", "transaction")?;
    Ok(FtracePayload::BinderTransactionReceived { debug_id })
}

/// The kernel's packed device number.
pub open spec fn spec_encode_device(major: u32, minor: u32) -> u64 {
    ((major as u64) << 20u64) | (minor as u64)
}

pub fn encode_device(major: u32, minor: u32) -> (r: u64)
    ensures
        r == spec_encode_device(major, minor),
{
    ((major as u64) << 20u64) | (minor as u64)
}

pub open spec fn sp_device(v: Seq<char>) -> PR<(u32, u32)> {
    match spec_split_once(v, ","@) {
        None => Err(msg("missing device separator"@)),
        Some((major_s, minor_s)) => match sp_u32(major_s, "device major"@) {
            Err(e) => Err(e),
            Ok(major) => match sp_u32(minor_s, "device minor"@) {
                Err(e) => Err(e),
                Ok(minor) => Ok((major, minor)),
            },
        },
    }
}

fn parse_device(v: &[char]) -> (r: Result<(u32, u32), PayloadError>)
    ensures
        eview(r) == sp_device(v@),
{
    let comma = chars_of(",");
    let (major_s, minor_s) = match split_once(v, comma.as_slice()) {
        Some(pair) => pair,
        None => return Err(PayloadError::Message(owned("missing device separator"))),
    };
    let major = field_u32(major_s, "device major")?;
    let minor = field_u32(minor_s, "device minor")?;
    Ok((major, minor))
}

pub open spec fn sp_block_bio_remap(p: Seq<char>) -> PR<PayloadView> {
    match spec_split_once(p, " <- ("@) {
        None => Err(msg("missing remap separator"@)),
        Some((current, old)) => {
            let t = spec_tokens(current);
            match sp_exactly(t, 5) {
                Err(e) => Err(e),
                Ok(_) => if t[3] != "+"@ {
                    Err(msg("missing sector-count separator"@))
                } else {
                    match spec_split_once(old, ") "@) {
                        None => Err(msg("invalid old device"@)),
                        Some((old_device, old_sector_s)) => match sp_device(t[0]) {
                            Err(e) => Err(e),
                            Ok((major, minor)) => match sp_device(old_device) {
                                Err(e) => Err(e),
                                Ok((old_major, old_minor)) => match sp_u64(t[2], "sector"@) {
                                    Err(e) => Err(e),
                                    Ok(sector) => match sp_u32(t[4], "sector_count"@) {
                                        Err(e) => Err(e),
                                        Ok(nr_sector) => match sp_u64(
                                            old_sector_s,
                                            "old_sector"@,
                                        ) {
                                            Err(e) => Err(e),
                                            Ok(old_sector) => Ok(
                                                PayloadView::BlockBioRemap {
                                                    dev: spec_encode_device(major, minor),
                                                    rwbs: t[1],
                                                    sector,
                                                    nr_sector,
                                                    old_dev: spec_encode_device(
                                                        old_major,
                                                        old_minor,
                                                    ),
                                                    old_sector,
                                                },
                                            ),
                                        },
                                    },
                                },
                            },
                        },
                    }
                },
            }
        },
    }
}

pub fn parse_block_bio_remap(payload: &[char]) -> (r: Result<FtracePayload, PayloadError>)
    ensures
        rview(r) == sp_block_bio_remap(payload@),
{
    let sep = chars_of(" <- (");
    let (current, old) = match split_once(payload, sep.as_slice()) {
        Some(pair) => pair,
        None => return Err(PayloadError::Message(owned("missing remap separator"))),
    };
    let tokens = split_whitespace(current);
    exactly(&tokens, 5)?;
    if !eq_str(tokens[3], "+") {
        return Err(PayloadError::Message(owned("missing sector-count separator")));
    }
    let close = chars_of(") ");
    let (old_device, old_sector_s) = match split_once(old, close.as_slice()) {
        Some(pair) => pair,
        None => return Err(PayloadError::Message(owned("invalid old device"))),
    };
    let (major, minor) = parse_device(tokens[0])?;
    let (old_major, old_minor) = parse_device(old_device)?;
    let sector = field_u64(tokens[2], "sector")?;
    let nr_sector = field_u32(tokens[4], "sector_count")?;
    let old_sector = field_u64(old_sector_s, "old_sector")?;
    Ok(
        FtracePayload::BlockBioRemap {
            dev: encode_device(major, minor),
            rwbs: string_of(tokens[1]),
            sector,
            nr_sector,
            old_dev: encode_device(old_major, old_minor),
            old_sector,
        },
    )
}

/// `take_parenthesized`: a `(command) rest` pair.
pub open spec fn sp_take_parenthesized(v: Seq<char>) -> PR<(Seq<char>, Seq<char>)> {
    match spec_strip_prefix(v, "("@) {
        None => Err(msg("missing command prefix"@)),
        Some(inner) => match spec_split_once(inner, ") "@) {
            None => Err(msg("missing command suffix"@)),
            Some(pair) => Ok(pair),
        },
    }
}

fn take_parenthesized<'a>(v: &'a [char]) -> (r: Result<(&'a [char], &'a [char]), PayloadError>)
    ensures
        match r {
            Ok((a, b)) => sp_take_parenthesized(v@) == Ok::<
                (Seq<char>, Seq<char>),
                PayloadErrorView,
            >((a@, b@)),
            Err(e) => sp_take_parenthesized(v@) == Err::<
                (Seq<char>, Seq<char>),
                PayloadErrorView,
            >(e@),
        },
{
    let open = chars_of("(");
    let inner = match strip_prefix(v, open.as_slice()) {
        Some(i) => i,
        None => return Err(PayloadError::Message(owned("missing command prefix"))),
    };
    let close = chars_of(") ");
    match split_once(inner, close.as_slice()) {
        Some(pair) => Ok(pair),
        None => Err(PayloadError::Message(owned("missing command suffix"))),
    }
}

pub open spec fn sp_block_complete(p: Seq<char>) -> PR<PayloadView> {
    match spec_split_once(p, " "@) {
        None => Err(msg("missing device"@)),
        Some((device, r1)) => match spec_split_once(r1, " "@) {
            None => Err(msg("missing rwbs"@)),
            Some((rwbs, r2)) => match sp_take_parenthesized(r2) {
                Err(e) => Err(e),
                Ok((cmd, r3)) => {
                    let t = spec_tokens(r3);
                    match sp_exactly(t, 4) {
                        Err(e) => Err(e),
                        Ok(_) => if t[1] != "+"@ {
                            Err(msg("missing sector-count separator"@))
                        } else {
                            match spec_strip_prefix(t[3], "["@) {
                                None => Err(msg("invalid completion error"@)),
                                Some(e1) => match spec_strip_suffix(e1, "]"@) {
                                    None => Err(msg("invalid completion error"@)),
                                    Some(error_s) => match sp_device(device) {
                                        Err(e) => Err(e),
                                        Ok((major, minor)) => match sp_u64(t[0], "sector"@) {
                                            Err(e) => Err(e),
                                            Ok(sector) => match sp_u32(t[2], "sector_count"@) {
                                                Err(e) => Err(e),
                                                Ok(nr_sector) => match sp_i32(error_s, "error"@) {
                                                    Err(e) => Err(e),
                                                    Ok(error) => Ok(
                                                        PayloadView::BlockRqComplete {
                                                            dev: spec_encode_device(major, minor),
                                                            rwbs,
                                                            cmd,
                                                            sector,
                                                            nr_sector,
                                                            error,
                                                        },
                                                    ),
                                                },
                                            },
                                        },
                                    },
                                },
                            }
                        },
                    }
                },
            },
        },
    }
}

pub fn parse_block_complete(payload: &[char]) -> (r: Result<FtracePayload, PayloadError>)
    ensures
        rview(r) == sp_block_complete(payload@),
{
    let space = chars_of(" ");
    let (device, rest) = match split_once(payload, space.as_slice()) {
        Some(pair) => pair,
        None => return Err(PayloadError::Message(owned("missing device"))),
    };
    let (rwbs, rest) = match split_once(rest, space.as_slice()) {
        Some(pair) => pair,
        None => return Err(PayloadError::Message(owned("missing rwbs"))),
    };
    let (cmd, rest) = take_parenthesized(rest)?;
    let tokens = split_whitespace(rest);
    exactly(&tokens, 4)?;
    if !eq_str(tokens[1], "+") {
        return Err(PayloadError::Message(owned("missing sector-count separator")));
    }
    let open = chars_of("[");
    let close = chars_of("]");
    let error_s = match strip_prefix(tokens[3], open.as_slice()) {
        Some(e1) => match strip_suffix(e1, close.as_slice()) {
            Some(e2) => e2,
            None => return Err(PayloadError::Message(owned("invalid completion error"))),
        },
        None => return Err(PayloadError::Message(owned("invalid completion error"))),
    };
    let (major, minor) = parse_device(device)?;
    let sector = field_u64(tokens[0], "sector")?;
    let nr_sector = field_u32(tokens[2], "sector_count")?;
    let error = field_i32(error_s, "error")?;
    Ok(
        FtracePayload::BlockRqComplete {
            dev: encode_device(major, minor),
            rwbs: string_of(rwbs),
            cmd: string_of(cmd),
            sector,
            nr_sector,
            error,
        },
    )
}

pub open spec fn sp_block_request(p: Seq<char>, issue: bool) -> PR<PayloadView> {
    match spec_split_once(p, " "@) {
        None => Err(msg("missing device"@)),
        Some((device, r1)) => match spec_split_once(r1, " "@) {
            None => Err(msg("missing rwbs"@)),
            Some((rwbs, r2)) => match spec_split_once(r2, " "@) {
                None => Err(msg("missing byte count"@)),
                Some((bytes_s, r3)) => match sp_take_parenthesized(r3) {
                    Err(e) => Err(e),
                    Ok((cmd, r4)) => match spec_rsplit_once(r4, " ["@) {
                        None => Err(msg("missing comm"@)),
                        Some((range, comm_s)) => match spec_strip_suffix(comm_s, "]"@) {
                            None => Err(msg("missing comm suffix"@)),
                            Some(comm) => {
                                let t = spec_tokens(range);
                                match sp_exactly(t, 3) {
                                    Err(e) => Err(e),
                                    Ok(_) => if t[1] != "+"@ {
                                        Err(msg("missing sector-count separator"@))
                                    } else {
                                        match sp_device(device) {
                                            Err(e) => Err(e),
                                            Ok((major, minor)) => match sp_u64(t[0], "sector"@) {
                                                Err(e) => Err(e),
                                                Ok(sector) => match sp_u32(t[2], "sector_count"@) {
                                                    Err(e) => Err(e),
                                                    Ok(nr_sector) => match sp_u32(
                                                        bytes_s,
                                                        "bytes"@,
                                                    ) {
                                                        Err(e) => Err(e),
                                                        Ok(bytes) => {
                                                            let dev = spec_encode_device(
                                                                major,
                                                                minor,
                                                            );
                                                            if issue {
                                                                Ok(
                                                                    PayloadView::BlockRqIssue {
                                                                        dev,
                                                                        sector,
                                                                        nr_sector,
                                                                        bytes,
                                                                        rwbs,
                                                                        comm,
                                                                        cmd,
                                                                    },
                                                                )
                                                            } else {
                                                                Ok(
                                                                    PayloadView::BlockRqInsert {
                                                                        dev,
                                                                        sector,
                                                                        nr_sector,
                                                                        bytes,
                                                                        rwbs,
                                                                        comm,
                                                                        cmd,
                                                                    },
                                                                )
                                                            }
                                                        },
                                                    },
                                                },
                                            },
                                        }
                                    },
                                }
                            },
                        },
                    },
                },
            },
        },
    }
}

pub fn parse_block_request(payload: &[char], issue: bool) -> (r: Result<
    FtracePayload,
    PayloadError,
>)
    ensures
        rview(r) == sp_block_request(payload@, issue),
{
    let space = chars_of(" ");
    let (device, rest) = match split_once(payload, space.as_slice()) {
        Some(pair) => pair,
        None => return Err(PayloadError::Message(owned("missing device"))),
    };
    let (rwbs, rest) = match split_once(rest, space.as_slice()) {
        Some(pair) => pair,
        None => return Err(PayloadError::Message(owned("missing rwbs"))),
    };
    let (bytes_s, rest) = match split_once(rest, space.as_slice()) {
        Some(pair) => pair,
        None => return Err(PayloadError::Message(owned("missing byte count"))),
    };
    let (cmd, rest) = take_parenthesized(rest)?;
    let open = chars_of(" [");
    let (range, comm_s) = match rsplit_once(rest, open.as_slice()) {
        Some(pair) => pair,
        None => return Err(PayloadError::Message(owned("missing comm"))),
    };
    let close = chars_of("]");
    let comm = match strip_suffix(comm_s, close.as_slice()) {
        Some(c) => c,
        None => return Err(PayloadError::Message(owned("missing comm suffix"))),
    };
    let tokens = split_whitespace(range);
    exactly(&tokens, 3)?;
    if !eq_str(tokens[1], "+") {
        return Err(PayloadError::Message(owned("missing sector-count separator")));
    }
    let (major, minor) = parse_device(device)?;
    let dev = encode_device(major, minor);
    let sector = field_u64(tokens[0], "sector")?;
    let nr_sector = field_u32(tokens[2], "sector_count")?;
    let bytes = field_u32(bytes_s, "bytes")?;
    let rwbs = string_of(rwbs);
    let comm = string_of(comm);
    let cmd = string_of(cmd);
    if issue {
        Ok(FtracePayload::BlockRqIssue { dev, sector, nr_sector, bytes, rwbs, comm, cmd })
    } else {
        Ok(FtracePayload::BlockRqInsert { dev, sector, nr_sector, bytes, rwbs, comm, cmd })
    }
}

pub open spec fn sp_kswapd_wake(p: Seq<char>) -> PR<PayloadView> {
    match sp_take_between(p, "nid="@, " order="@) {
        Err(e) => Err(e),
        Ok((node, order_s)) => match sp_i32(node, "nid"@) {
            Err(e) => Err(e),
            Ok(nid) => match sp_i32(order_s, "order"@) {
                Err(e) => Err(e),
                Ok(order) => Ok(PayloadView::KswapdWake { nid, order }),
            },
        },
    }
}

pub fn parse_kswapd_wake(payload: &[char]) -> (r: Result<FtracePayload, PayloadError>)
    ensures
        rview(r) == sp_kswapd_wake(payload@),
{
    let (node, order_s) = take_between(payload, "nid=", " order=")?;
    let nid = field_i32(node, "nid")?;
    let order = field_i32(order_s, "order")?;
    Ok(FtracePayload::KswapdWake { nid, order })
}

pub open spec fn sp_kswapd_sleep(p: Seq<char>) -> PR<PayloadView> {
    match sp_named_i32(p, "nid="@, "nid"@) {
        Err(e) => Err(e),
        Ok(nid) => Ok(PayloadView::KswapdSleep { nid }),
    }
}

pub fn parse_kswapd_sleep(payload: &[char]) -> (r: Result<FtracePayload, PayloadError>)
    ensures
        rview(r) == sp_kswapd_sleep(payload@),
{
    let nid = named_i32(payload, "nid=", "nid")?;
    Ok(FtracePayload::KswapdSleep { nid })
}

} // verus!
