//! Where the host listens for a new worker: a socket path made of the
//! worker's id and the time, and the counter that numbers the workers.

use vstd::prelude::*;

use crate::manager::lemma_ids_differ;
use crate::manager::nth_job_id;
use crate::util::now;

verus! {

/// The character of the decimal digit `d`.
pub open spec fn digit_char(d: nat) -> char
    recommends
        d < 10,
{
    if d == 0 {
        '0'
    } else if d == 1 {
        '1'
    } else if d == 2 {
        '2'
    } else if d == 3 {
        '3'
    } else if d == 4 {
        '4'
    } else if d == 5 {
        '5'
    } else if d == 6 {
        '6'
    } else if d == 7 {
        '7'
    } else if d == 8 {
        '8'
    } else {
        '9'
    }
}

/// The decimal digits of `n`, most significant first, without leading
/// zeros (`0` is the single digit `0`).
pub open spec fn decimal(n: nat) -> Seq<char>
    decreases n,
{
    if n < 10 {
        seq![digit_char(n)]
    } else {
        decimal(n / 10).push(digit_char(n % 10))
    }
}

/// The text before the worker id in a socket path.
pub open spec fn socket_path_prefix() -> Seq<char> {
    seq!['/', 't', 'm', 'p', '/', 'i', 'p', 'c', '2', '-']
}

/// The socket path for worker `id` at `millis` milliseconds since the Unix
/// epoch: `/tmp/ipc2-{id}-{millis}`.
pub open spec fn socket_path_spec(id: u32, millis: u128) -> Seq<char> {
    socket_path_prefix() + decimal(id as nat) + seq!['-'] + decimal(millis as nat)
}

/// The text of the decimal digit `d`.
fn digit_str(d: u128) -> (s: &'static str)
    requires
        d < 10,
    ensures
        s@ == seq![digit_char(d as nat)],
{
    proof {
        reveal_strlit("0");
        reveal_strlit("1");
        reveal_strlit("2");
        reveal_strlit("3");
        reveal_strlit("4");
        reveal_strlit("5");
        reveal_strlit("6");
        reveal_strlit("7");
        reveal_strlit("8");
        reveal_strlit("9");
    }
    if d == 0 {
        "0"
    } else if d == 1 {
        "1"
    } else if d == 2 {
        "2"
    } else if d == 3 {
        "3"
    } else if d == 4 {
        "4"
    } else if d == 5 {
        "5"
    } else if d == 6 {
        "6"
    } else if d == 7 {
        "7"
    } else if d == 8 {
        "8"
    } else {
        "9"
    }
}

/// Appends the decimal digits of `n` to `s`.
fn append_decimal(s: &mut String, n: u128)
    ensures
        final(s)@ == old(s)@ + decimal(n as nat),
    decreases n,
{
    if n >= 10 {
        append_decimal(s, n / 10);
    }
    s.append(digit_str(n % 10));
    assert(decimal(n as nat) == if n < 10 { seq![digit_char(n as nat)] } else { decimal((n / 10) as nat).push(digit_char((n % 10) as nat)) });
}

/// The socket path for worker `id` at `millis` milliseconds since the Unix
/// epoch: `/tmp/ipc2-{id}-{millis}`.
pub fn socket_path_at(id: u32, millis: u128) -> (path: String)
    ensures
        path@ == socket_path_spec(id, millis),
{
    let mut path = String::new();
    proof {
        reveal_strlit("/tmp/ipc2-");
        reveal_strlit("-");
    }
    path.append("/tmp/ipc2-");
    append_decimal(&mut path, id as u128);
    path.append("-");
    append_decimal(&mut path, millis);
    path
}

/// A fresh socket path for worker `id`: `/tmp/ipc2-{id}-{now}`, with the
/// milliseconds since the Unix epoch by the clock; `None` where the clock
/// reads earlier than the epoch.
pub fn tmp_socket_path(id: u32) -> (path: Option<String>)
    ensures
        (path matches Some(p) ==> (exists|millis: u128| p@ == socket_path_spec(id, millis))),
{
    match now() {
        Some(millis) => Some(socket_path_at(id, millis)),
        None => None,
    }
}

/// Hands out the next worker id: the counter's value, which then advances
/// by one (wrapping).
pub fn next_worker_id(counter: &mut u32) -> (id: u32)
    ensures
        id == *old(counter),
        *final(counter) == old(counter).wrapping_add(1),
{
    let id = *counter;
    *counter = id.wrapping_add(1);
    id
}

/// Decimal digits never contain the separator `-`, and there is at least
/// one of them.
pub proof fn lemma_decimal_has_no_dash(n: nat)
    ensures
        decimal(n).len() >= 1,
        forall|i: int| 0 <= i < decimal(n).len() ==> #[trigger] decimal(n)[i] != '-',
    decreases n,
{
    if n >= 10 {
        lemma_decimal_has_no_dash(n / 10);
    }
}

/// Different numbers have different decimal digits.
pub proof fn lemma_decimal_injective(a: nat, b: nat)
    requires
        decimal(a) == decimal(b),
    ensures
        a == b,
    decreases a,
{
    if a < 10 && b >= 10 {
        lemma_decimal_has_no_dash(b / 10);
        assert(decimal(b).len() >= 2);
    } else if a >= 10 && b < 10 {
        lemma_decimal_has_no_dash(a / 10);
        assert(decimal(a).len() >= 2);
    } else if a >= 10 && b >= 10 {
        assert(decimal(a).drop_last() == decimal(a / 10));
        assert(decimal(b).drop_last() == decimal(b / 10));
        lemma_decimal_injective(a / 10, b / 10);
        assert(decimal(a).last() == digit_char(a % 10));
        assert(decimal(b).last() == digit_char(b % 10));
        assert(a % 10 == b % 10);
        assert(a == (a / 10) * 10 + a % 10);
        assert(b == (b / 10) * 10 + b % 10);
    } else {
        assert(decimal(a)[0] == digit_char(a));
        assert(decimal(b)[0] == digit_char(b));
    }
}

/// Two socket paths are the same only for the same worker id and the same
/// time: workers with different ids, or started at different milliseconds,
/// never share a socket path.
pub proof fn lemma_socket_paths_differ(a: u32, t: u128, b: u32, u: u128)
    requires
        socket_path_spec(a, t) == socket_path_spec(b, u),
    ensures
        a == b,
        t == u,
{
    let da = decimal(a as nat);
    let db = decimal(b as nat);
    let dt = decimal(t as nat);
    let du = decimal(u as nat);
    let p = socket_path_spec(a, t);
    let q = socket_path_spec(b, u);
    lemma_decimal_has_no_dash(a as nat);
    lemma_decimal_has_no_dash(b as nat);
    assert(p.len() == 10 + da.len() + 1 + dt.len());
    assert(q.len() == 10 + db.len() + 1 + du.len());
    if da.len() < db.len() {
        assert(p[10 + da.len() as int] == '-');
        assert(q[10 + da.len() as int] == db[da.len() as int]);
    } else if db.len() < da.len() {
        assert(q[10 + db.len() as int] == '-');
        assert(p[10 + db.len() as int] == da[db.len() as int]);
    } else {
        assert(p.subrange(10, 10 + da.len() as int) == da);
        assert(q.subrange(10, 10 + db.len() as int) == db);
        lemma_decimal_injective(a as nat, b as nat);
        assert(p.subrange(11 + da.len() as int, p.len() as int) == dt);
        assert(q.subrange(11 + db.len() as int, q.len() as int) == du);
        lemma_decimal_injective(t as nat, u as nat);
    }
}

/// The counter after `k` worker ids were handed out from `start`.
pub open spec fn counter_after(start: u32, k: nat) -> u32
    decreases k,
{
    if k == 0 {
        start
    } else {
        counter_after(start, (k - 1) as nat).wrapping_add(1)
    }
}

/// Worker ids handed out in a row are consecutive (wrapping): the `k`-th
/// call of `next_worker_id` from `start` hands out `(start + k) mod 2^32`,
/// so no two of 2^32 calls in a row hand out the same id.
pub proof fn lemma_worker_ids_distinct(start: u32, i: nat, j: nat)
    requires
        i < j < 0x1_0000_0000,
    ensures
        counter_after(start, i) == nth_job_id(start, i),
        counter_after(start, j) == nth_job_id(start, j),
        counter_after(start, i) != counter_after(start, j),
{
    lemma_counter_after(start, i);
    lemma_counter_after(start, j);
    lemma_ids_differ(start, i, j);
}

/// The counter after `k` ids is `start + k` modulo 2^32.
proof fn lemma_counter_after(start: u32, k: nat)
    ensures
        counter_after(start, k) == nth_job_id(start, k),
    decreases k,
{
    if k > 0 {
        lemma_counter_after(start, (k - 1) as nat);
        let prev = (start + k - 1) as int;
        vstd::arithmetic::div_mod::lemma_add_mod_noop(prev, 1, 0x1_0000_0000);
        vstd::arithmetic::div_mod::lemma_mod_self_0(0x1_0000_0000);
    }
}

} // verus!
