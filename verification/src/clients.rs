//! Authoritative client identity and the active/PiP partition.
//!
//! Exactly one client may be active (shown full-size); the others are shown
//! as picture-in-picture thumbnails in `pip_order`. The partition invariant
//! holds throughout: PiP entries are distinct known clients and the active
//! client, if any, is a known client outside the PiPs.

use vstd::prelude::*;
use crate::pid_map::PidMap;
use crate::sorting::{lemma_insert_sorted_at, lemma_stable_sort, stable_sort, total_preorder};
use crate::text::{eq_ignore_ascii_case, eq_ignore_case};
use vstd::relations::{strongly_connected, transitive};

verus! {

pub const MAX_PIPS: usize = 5;

/// A game client window.
#[derive(Debug)]
pub struct EqWindow {
    /// The window handle's value.
    pub hwnd: usize,
    pub pid: u32,
    /// The stable window number shown on labels and used by hotkeys.
    pub number: usize,
    pub character: Option<String>,
    pub server: Option<String>,
    pub class: Option<String>,
}

/// A configured character identity, matched without regard to ASCII case.
#[derive(Debug)]
pub struct BoxIdentity {
    pub server: String,
    pub character: String,
}

impl BoxIdentity {
    pub fn matches(&self, server: &str, character: &str) -> (b: bool)
        ensures
            b == (eq_ignore_case(self.server@, server@) && eq_ignore_case(self.character@, character@)),
    {
        eq_ignore_ascii_case(self.server.as_str(), server) && eq_ignore_ascii_case(
            self.character.as_str(),
            character,
        )
    }
}

/// A window with another handle.
pub open spec fn with_hwnd(w: EqWindow, hwnd: usize) -> EqWindow {
    EqWindow { hwnd, pid: w.pid, number: w.number, character: w.character, server: w.server, class: w.class }
}

/// The pids of a window list, in order.
pub open spec fn pids_of(ws: Seq<EqWindow>) -> Seq<u32> {
    ws.map_values(|w: EqWindow| w.pid)
}

/// The partition invariant: distinct PiPs and an active client outside them,
/// all of them known clients.
pub open spec fn partition_ok(active: Option<u32>, pips: Seq<u32>, known: Seq<u32>) -> bool {
    &&& pips.no_duplicates()
    &&& forall|i: int| 0 <= i < pips.len() ==> known.contains(#[trigger] pips[i])
    &&& active matches Some(a) ==> known.contains(a) && !pips.contains(a)
}

/// The clients shown, active first.
pub open spec fn shown(active: Option<u32>, pips: Seq<u32>) -> Seq<u32> {
    match active {
        Some(a) => seq![a] + pips,
        None => pips,
    }
}

/// The first position of `target` in `pips`.
pub open spec fn first_pos(pips: Seq<u32>, target: u32) -> int {
    choose|i: int| 0 <= i < pips.len() && pips[i] == target && forall|j: int| 0 <= j < i ==> pips[j] != target
}

/// The partition after a PiP client and the active client exchange places.
pub open spec fn exchanged(active: Option<u32>, pips: Seq<u32>, target: u32) -> (Option<u32>, Seq<u32>) {
    let pos = first_pos(pips, target);
    (Some(target), match active {
        Some(a) => pips.update(pos, a),
        None => pips.remove(pos),
    })
}

/// Exchange a PiP client with the active client while preserving the
/// partition. Returns false, changing nothing, when the target is already
/// active or is not currently a PiP. Without an active client the target
/// simply leaves the PiPs to become active.
pub fn exchange_active_with_pip(active_pid: &mut Option<u32>, pip_order: &mut Vec<u32>, target_pid: u32) -> (b: bool)
    ensures
        b == (*old(active_pid) != Some(target_pid) && old(pip_order)@.contains(target_pid)),
        !b ==> *final(active_pid) == *old(active_pid) && final(pip_order)@ == old(pip_order)@,
        b ==> (*final(active_pid), final(pip_order)@) == exchanged(*old(active_pid), old(pip_order)@, target_pid),
        b ==> 0 <= first_pos(old(pip_order)@, target_pid) < old(pip_order)@.len(),
        // The set of shown clients is unchanged, and the partition survives.
        b && old(active_pid).is_some() ==> shown(*final(active_pid), final(pip_order)@).to_multiset()
            =~= shown(*old(active_pid), old(pip_order)@).to_multiset(),
        b && old(active_pid).is_none() ==> final(pip_order)@.to_multiset().insert(target_pid)
            =~= old(pip_order)@.to_multiset(),
        forall|known: Seq<u32>| #[trigger] partition_ok(*old(active_pid), old(pip_order)@, known)
            ==> partition_ok(*final(active_pid), final(pip_order)@, known),
{
    if *active_pid == Some(target_pid) {
        return false;
    }
    let n = pip_order.len();
    let mut i: usize = 0;
    while i < n
        invariant
            n == pip_order@.len(),
            i <= n,
            forall|j: int| 0 <= j < i ==> pip_order@[j] != target_pid,
        ensures
            i <= n,
            forall|j: int| 0 <= j < i ==> pip_order@[j] != target_pid,
            i < n ==> pip_order@[i as int] == target_pid,
        decreases n - i,
    {
        if pip_order[i] == target_pid {
            break;
        }
        i = i + 1;
    }
    if i == n {
        return false;
    }
    let ghost old_pips = pip_order@;
    let ghost old_active = *active_pid;
    proof {
        let pos = first_pos(old_pips, target_pid);
        assert(0 <= i < old_pips.len() && old_pips[i as int] == target_pid);
        if pos < i {
        } else if pos > i {
            assert(old_pips[i as int] != target_pid);
        }
        assert(pos == i);
    }
    match *active_pid {
        Some(old_active_pid) => {
            pip_order.set(i, old_active_pid);
        },
        None => {
            pip_order.remove(i);
        },
    }
    *active_pid = Some(target_pid);
    proof {
        broadcast use vstd::seq_lib::group_to_multiset_ensures;

        let new_pips = pip_order@;
        match old_active {
            Some(a) => {
                let s_old = seq![a] + old_pips;
                let s_new = seq![target_pid] + new_pips;
                assert(s_new =~= s_old.update(0, target_pid).update(i + 1, a));
                vstd::seq_lib::to_multiset_update(s_old, 0, target_pid);
                vstd::seq_lib::to_multiset_update(s_old.update(0, target_pid), i + 1, a);
                assert forall|known: Seq<u32>| #[trigger] partition_ok(old_active, old_pips, known)
                    implies partition_ok(Some(target_pid), new_pips, known) by {
                    assert(known.contains(old_pips[i as int]));
                    assert forall|x: int, y: int|
                        0 <= x < new_pips.len() && 0 <= y < new_pips.len() && x != y implies new_pips[x]
                        != new_pips[y] by {
                        if x == i {
                            assert(old_pips.contains(old_pips[y]));
                        } else if y == i {
                            assert(old_pips.contains(old_pips[x]));
                        }
                    }
                    assert forall|x: int| 0 <= x < new_pips.len() implies known.contains(
                        #[trigger] new_pips[x],
                    ) by {}
                    assert(!new_pips.contains(target_pid)) by {
                        if new_pips.contains(target_pid) {
                            let x = choose|x: int| 0 <= x < new_pips.len() && new_pips[x] == target_pid;
                            if x == i {
                            } else {
                                assert(old_pips[x] == old_pips[i as int]);
                            }
                        }
                    }
                }
            },
            None => {
                vstd::seq_lib::to_multiset_remove(old_pips, i as int);
                assert(new_pips.to_multiset().insert(target_pid) =~= old_pips.to_multiset());
                assert forall|known: Seq<u32>| #[trigger] partition_ok(old_active, old_pips, known)
                    implies partition_ok(Some(target_pid), new_pips, known) by {
                    assert(known.contains(old_pips[i as int]));
                    assert forall|x: int, y: int|
                        0 <= x < new_pips.len() && 0 <= y < new_pips.len() && x != y implies new_pips[x]
                        != new_pips[y] by {
                        let ox = if x < i { x } else { x + 1 };
                        let oy = if y < i { y } else { y + 1 };
                        assert(new_pips[x] == old_pips[ox] && new_pips[y] == old_pips[oy]);
                    }
                    assert forall|x: int| 0 <= x < new_pips.len() implies known.contains(
                        #[trigger] new_pips[x],
                    ) by {
                        let ox = if x < i { x } else { x + 1 };
                        assert(new_pips[x] == old_pips[ox]);
                    }
                    assert(!new_pips.contains(target_pid)) by {
                        if new_pips.contains(target_pid) {
                            let x = choose|x: int| 0 <= x < new_pips.len() && new_pips[x] == target_pid;
                            let ox = if x < i { x } else { x + 1 };
                            assert(old_pips[ox] == old_pips[i as int]);
                        }
                    }
                }
            },
        }
    }
    true
}

/// Some window carries number `k`.
pub open spec fn number_used(ws: Seq<EqWindow>, k: int) -> bool {
    exists|i: int| 0 <= i < ws.len() && ws[i].number == k
}

/// If every number in `1..=m` is used by some window, there are at least `m`
/// windows.
proof fn lemma_numbers_pigeonhole(ws: Seq<EqWindow>, m: int)
    requires
        m >= 0,
        forall|k: int| 1 <= k <= m ==> #[trigger] number_used(ws, k),
    ensures
        m <= ws.len(),
{
    let nums = ws.map_values(|w: EqWindow| w.number as int);
    let range = vstd::set_lib::set_int_range(1, m + 1);
    vstd::set_lib::lemma_int_range(1, m + 1);
    nums.lemma_cardinality_of_set();
    assert forall|k: int| range.contains(k) implies nums.to_set().contains(k) by {
        assert(number_used(ws, k));
        let i = choose|i: int| 0 <= i < ws.len() && ws[i].number == k;
        assert(nums[i] == k);
    }
    assert(range.subset_of(nums.to_set()));
    vstd::set_lib::lemma_len_subset(range, nums.to_set());
}

/// The lowest positive integer not already used by any tracked window.
pub fn next_available_number(eq_windows: &[EqWindow]) -> (n: usize)
    requires
        // A slice of windows is far shorter than the address space.
        eq_windows@.len() < usize::MAX,
    ensures
        n >= 1,
        forall|i: int| 0 <= i < eq_windows@.len() ==> (#[trigger] eq_windows@[i]).number != n,
        forall|k: int| 1 <= k < n ==> #[trigger] number_used(eq_windows@, k),
{
    let len = eq_windows.len();
    let mut n: usize = 1;
    loop
        invariant
            len == eq_windows@.len(),
            len < usize::MAX,
            1 <= n <= len + 1,
            forall|k: int| 1 <= k < n ==> #[trigger] number_used(eq_windows@, k),
        decreases len + 1 - n,
    {
        let mut j: usize = 0;
        let mut used = false;
        while j < len
            invariant
                len == eq_windows@.len(),
                j <= len,
                used ==> number_used(eq_windows@, n as int),
                !used ==> forall|i: int| 0 <= i < j ==> (#[trigger] eq_windows@[i]).number != n,
            decreases len - j,
        {
            if eq_windows[j].number == n {
                used = true;
            }
            j = j + 1;
        }
        if !used {
            return n;
        }
        proof {
            lemma_numbers_pigeonhole(eq_windows@, n as int);
        }
        n = n + 1;
    }
}

/// If every number in `1..=m` other than `x` is used, there are at least
/// `m - 1` windows.
proof fn lemma_numbers_pigeonhole_except(ws: Seq<EqWindow>, m: int, x: int)
    requires
        m >= 1,
        forall|k: int| 1 <= k <= m && k != x ==> #[trigger] number_used(ws, k),
    ensures
        m - 1 <= ws.len(),
{
    let nums = ws.map_values(|w: EqWindow| w.number as int);
    let range = vstd::set_lib::set_int_range(1, m + 1).remove(x);
    vstd::set_lib::lemma_int_range(1, m + 1);
    nums.lemma_cardinality_of_set();
    assert forall|k: int| range.contains(k) implies nums.to_set().contains(k) by {
        assert(number_used(ws, k));
        let i = choose|i: int| 0 <= i < ws.len() && ws[i].number == k;
        assert(nums[i] == k);
    }
    assert(range.subset_of(nums.to_set()));
    vstd::set_lib::lemma_len_subset(range, nums.to_set());
}

/// The lowest positive number that no window carries and that differs from
/// `excluded`.
pub fn lowest_free_number_except(eq_windows: &[EqWindow], excluded: usize) -> (n: usize)
    requires
        eq_windows@.len() + 2 < usize::MAX,
    ensures
        n >= 1,
        n != excluded,
        !number_used(eq_windows@, n as int),
        forall|k: int| 1 <= k < n && k != excluded ==> #[trigger] number_used(eq_windows@, k),
{
    let len = eq_windows.len();
    let mut n: usize = 1;
    loop
        invariant
            len == eq_windows@.len(),
            len + 2 < usize::MAX,
            1 <= n <= len + 2,
            forall|k: int| 1 <= k < n && k != excluded ==> #[trigger] number_used(eq_windows@, k),
        decreases len + 2 - n,
    {
        let mut j: usize = 0;
        let mut used = false;
        while j < len
            invariant
                len == eq_windows@.len(),
                j <= len,
                used ==> number_used(eq_windows@, n as int),
                !used ==> forall|i: int| 0 <= i < j ==> (#[trigger] eq_windows@[i]).number != n,
            decreases len - j,
        {
            if eq_windows[j].number == n {
                used = true;
            }
            j = j + 1;
        }
        if !used && n != excluded {
            return n;
        }
        proof {
            lemma_numbers_pigeonhole_except(eq_windows@, n as int, excluded as int);
        }
        n = n + 1;
    }
}

/// A window with another number.
pub open spec fn with_number(w: EqWindow, number: usize) -> EqWindow {
    EqWindow { hwnd: w.hwnd, pid: w.pid, number, character: w.character, server: w.server, class: w.class }
}

/// The first window, other than the target's, that carries `number`.
pub open spec fn first_holder(ws: Seq<EqWindow>, number: usize, target_pid: u32, j: int) -> bool {
    &&& 0 <= j < ws.len()
    &&& ws[j].number == number && ws[j].pid != target_pid
    &&& forall|k: int| 0 <= k < j ==> !(ws[k].number == number && ws[k].pid != target_pid)
}

/// The number a displaced window takes: the target's previous number, or,
/// when the target had none (0), the lowest free number other than the chosen
/// one.
pub open spec fn replacement_number(ws: Seq<EqWindow>, previous: usize, new_number: usize) -> usize {
    if previous > 0 {
        previous
    } else {
        choose|n: usize| n >= 1 && n != new_number && !number_used(ws, n as int) && forall|k: int|
            1 <= k < n && k != new_number ==> #[trigger] number_used(ws, k)
    }
}

/// The windows after window `i` takes `new_number` and the first other
/// window holding that number takes the replacement number.
pub open spec fn renumbered(ws: Seq<EqWindow>, i: int, new_number: usize) -> Seq<EqWindow> {
    let replacement = replacement_number(ws, ws[i].number, new_number);
    let moved = if exists|j: int| first_holder(ws, new_number, ws[i].pid, j) {
        let j = choose|j: int| first_holder(ws, new_number, ws[i].pid, j);
        ws.update(j, with_number(ws[j], replacement))
    } else {
        ws
    };
    moved.update(i, with_number(moved[i], new_number))
}

/// Give a client's window a chosen number. The window that held the number
/// takes the client's previous number, or, when the client had none (0), the
/// lowest free number other than the chosen one. Returns false, changing
/// nothing, when the client is unknown.
pub fn assign_window_number(eq_windows: &mut [EqWindow], target_pid: u32, new_number: usize) -> (b: bool)
    requires
        old(eq_windows)@.len() + 2 < usize::MAX,
    ensures
        b == pids_of(old(eq_windows)@).contains(target_pid),
        !b ==> final(eq_windows)@ == old(eq_windows)@,
        b ==> exists|i: int| {
            &&& 0 <= i < old(eq_windows)@.len() && (#[trigger] old(eq_windows)@[i]).pid == target_pid
            &&& (forall|k: int| 0 <= k < i ==> old(eq_windows)@[k].pid != target_pid)
            &&& final(eq_windows)@ == renumbered(old(eq_windows)@, i, new_number)
        },
{
    let ghost ws = eq_windows@;
    let i = match position_of(eq_windows, target_pid) {
        Some(i) => i,
        None => return false,
    };
    proof {
        assert(pids_of(ws)[i as int] == target_pid);
    }
    let old_number = eq_windows[i].number;
    let replacement = if old_number > 0 {
        old_number
    } else {
        let n = lowest_free_number_except(eq_windows, new_number);
        proof {
            let c = choose|c: usize| c >= 1 && c != new_number && !number_used(ws, c as int) && forall|k: int|
                1 <= k < c && k != new_number ==> #[trigger] number_used(ws, k);
            if c < n {
                assert(number_used(ws, c as int));
            }
            if n < c {
                assert(number_used(ws, n as int));
            }
        }
        n
    };
    let len = eq_windows.len();
    let mut j: usize = 0;
    while j < len
        invariant
            len == eq_windows@.len(),
            eq_windows@ == ws,
            j <= len,
            forall|k: int| 0 <= k < j ==> !((#[trigger] ws[k]).number == new_number && ws[k].pid != target_pid),
        ensures
            j <= len,
            j < len ==> ws[j as int].number == new_number && ws[j as int].pid != target_pid,
            forall|k: int| 0 <= k < j ==> !((#[trigger] ws[k]).number == new_number && ws[k].pid != target_pid),
        decreases len - j,
    {
        if eq_windows[j].number == new_number && eq_windows[j].pid != target_pid {
            break;
        }
        j = j + 1;
    }
    if j < len {
        proof {
            assert(first_holder(ws, new_number, target_pid, j as int));
            let c = choose|c: int| first_holder(ws, new_number, target_pid, c);
            if c < j {
                assert(!(ws[c].number == new_number && ws[c].pid != target_pid));
            }
            if j < c {
                assert(!(ws[j as int].number == new_number && ws[j as int].pid != target_pid));
            }
        }
        eq_windows[j].number = replacement;
    } else {
        proof {
            assert(!exists|c: int| first_holder(ws, new_number, target_pid, c));
        }
    }
    let ghost moved = eq_windows@;
    eq_windows[i].number = new_number;
    proof {
        assert(moved[i as int].pid == target_pid);
        assert(eq_windows@ =~= moved.update(i as int, with_number(moved[i as int], new_number)));
        if j < len {
            assert(moved =~= ws.update(j as int, with_number(ws[j as int], replacement)));
        }
    }
    true
}

/// `after` is `before` with the window numbers of the first windows of two
/// loaded clients exchanged, and `r` holds the two numbers before the
/// exchange; or, when either client is unknown, `r` is `None` and nothing
/// changed.
pub open spec fn numbers_exchanged(
    before: Seq<EqWindow>,
    after: Seq<EqWindow>,
    first_pid: u32,
    second_pid: u32,
    r: Option<(usize, usize)>,
) -> bool {
    &&& after.len() == before.len()
    &&& (r is None <==> !pids_of(before).contains(first_pid) || !pids_of(before).contains(second_pid))
    &&& (r is None ==> after == before)
    &&& (r matches Some((a, b)) ==> exists|i: int, j: int| {
        &&& 0 <= i < before.len() && 0 <= j < before.len()
        &&& before[i].pid == first_pid && before[j].pid == second_pid
        &&& (forall|k: int| 0 <= k < i ==> before[k].pid != first_pid)
        &&& (forall|k: int| 0 <= k < j ==> before[k].pid != second_pid)
        &&& a == before[i].number && b == before[j].number
        &&& after[i].number == b && after[j].number == a
        &&& forall|k: int| 0 <= k < before.len() ==> {
            &&& (#[trigger] after[k]).pid == before[k].pid
            &&& after[k].hwnd == before[k].hwnd
            &&& after[k].character == before[k].character
            &&& after[k].server == before[k].server
            &&& after[k].class == before[k].class
            &&& (k != i && k != j ==> after[k].number == before[k].number)
        }
    })
}

/// Exchanging the same two clients' window numbers twice gives back the
/// original windows.
pub proof fn law_number_exchange_undoes_itself(
    before: Seq<EqWindow>,
    middle: Seq<EqWindow>,
    after: Seq<EqWindow>,
    first_pid: u32,
    second_pid: u32,
    r1: Option<(usize, usize)>,
    r2: Option<(usize, usize)>,
)
    requires
        numbers_exchanged(before, middle, first_pid, second_pid, r1),
        numbers_exchanged(middle, after, first_pid, second_pid, r2),
    ensures
        after == before,
{
    if r1 is Some {
        let (a, b) = r1.unwrap();
        let (i, j) = choose|i: int, j: int| {
            &&& 0 <= i < before.len() && 0 <= j < before.len()
            &&& before[i].pid == first_pid && before[j].pid == second_pid
            &&& (forall|k: int| 0 <= k < i ==> before[k].pid != first_pid)
            &&& (forall|k: int| 0 <= k < j ==> before[k].pid != second_pid)
            &&& a == before[i].number && b == before[j].number
            &&& middle[i].number == b && middle[j].number == a
            &&& forall|k: int| 0 <= k < before.len() ==> {
                &&& (#[trigger] middle[k]).pid == before[k].pid
                &&& middle[k].hwnd == before[k].hwnd
                &&& middle[k].character == before[k].character
                &&& middle[k].server == before[k].server
                &&& middle[k].class == before[k].class
                &&& (k != i && k != j ==> middle[k].number == before[k].number)
            }
        };
        assert(pids_of(middle)[i] == first_pid);
        assert(pids_of(middle)[j] == second_pid);
        let (c, d) = r2.unwrap();
        let (i2, j2) = choose|i2: int, j2: int| {
            &&& 0 <= i2 < middle.len() && 0 <= j2 < middle.len()
            &&& middle[i2].pid == first_pid && middle[j2].pid == second_pid
            &&& (forall|k: int| 0 <= k < i2 ==> middle[k].pid != first_pid)
            &&& (forall|k: int| 0 <= k < j2 ==> middle[k].pid != second_pid)
            &&& c == middle[i2].number && d == middle[j2].number
            &&& after[i2].number == d && after[j2].number == c
            &&& forall|k: int| 0 <= k < middle.len() ==> {
                &&& (#[trigger] after[k]).pid == middle[k].pid
                &&& after[k].hwnd == middle[k].hwnd
                &&& after[k].character == middle[k].character
                &&& after[k].server == middle[k].server
                &&& after[k].class == middle[k].class
                &&& (k != i2 && k != j2 ==> after[k].number == middle[k].number)
            }
        };
        if i2 < i {
            assert(middle[i2].pid == before[i2].pid);
        }
        if i < i2 {
            assert(middle[i].pid == first_pid);
        }
        if j2 < j {
            assert(middle[j2].pid == before[j2].pid);
        }
        if j < j2 {
            assert(middle[j].pid == second_pid);
        }
        assert(i2 == i && j2 == j);
        assert forall|k: int| 0 <= k < before.len() implies #[trigger] after[k] == before[k] by {
            assert(after[k].pid == middle[k].pid);
            assert(middle[k].pid == before[k].pid);
        }
        assert(after =~= before);
    }
}

/// Exchange the stable window numbers of two loaded clients (the first window
/// of each pid). Returns the two numbers before the exchange, or `None` when
/// either client is unknown.
pub fn exchange_window_numbers(eq_windows: &mut [EqWindow], first_pid: u32, second_pid: u32) -> (r: Option<(usize, usize)>)
    ensures
        numbers_exchanged(old(eq_windows)@, final(eq_windows)@, first_pid, second_pid, r),
{
    let first_index = match position_of(eq_windows, first_pid) {
        Some(i) => i,
        None => return None,
    };
    let second_index = match position_of(eq_windows, second_pid) {
        Some(i) => i,
        None => return None,
    };
    let first_number = eq_windows[first_index].number;
    let second_number = eq_windows[second_index].number;
    assert(pids_of(eq_windows@)[first_index as int] == first_pid);
    assert(pids_of(eq_windows@)[second_index as int] == second_pid);
    if first_index != second_index {
        eq_windows[first_index].number = second_number;
        eq_windows[second_index].number = first_number;
    }
    assert(final(eq_windows)@[first_index as int].number == second_number);
    Some((first_number, second_number))
}

/// The first window of a pid.
pub fn position_of(eq_windows: &[EqWindow], pid: u32) -> (r: Option<usize>)
    ensures
        match r {
            Some(i) => i < eq_windows@.len() && eq_windows@[i as int].pid == pid && forall|k: int|
                0 <= k < i ==> eq_windows@[k].pid != pid,
            None => !pids_of(eq_windows@).contains(pid),
        },
{
    let n = eq_windows.len();
    let mut i: usize = 0;
    while i < n
        invariant
            n == eq_windows@.len(),
            i <= n,
            forall|k: int| 0 <= k < i ==> eq_windows@[k].pid != pid,
        decreases n - i,
    {
        if eq_windows[i].pid == pid {
            return Some(i);
        }
        i = i + 1;
    }
    proof {
        if pids_of(eq_windows@).contains(pid) {
            let k = choose|k: int| 0 <= k < pids_of(eq_windows@).len() && pids_of(eq_windows@)[k] == pid;
            assert(eq_windows@[k].pid == pid);
        }
    }
    None
}

/// The pid of the foreground client, but only when its window confirms
/// keyboard focus: the first window whose handle is `foreground` and for
/// which `has_keyboard_focus` answers true.
pub fn focused_foreground_pid<F: Fn(usize) -> bool>(windows: &[EqWindow], foreground: usize, has_keyboard_focus: F) -> (r:
    Option<u32>)
    requires
        forall|h: usize| has_keyboard_focus.requires((h,)),
    ensures
        match r {
            Some(pid) => exists|i: int| {
                &&& 0 <= i < windows@.len()
                &&& windows@[i].hwnd == foreground && windows@[i].pid == pid
                &&& has_keyboard_focus.ensures((foreground,), true)
            },
            None => forall|i: int| 0 <= i < windows@.len() && (#[trigger] windows@[i]).hwnd == foreground
                ==> has_keyboard_focus.ensures((foreground,), false),
        },
{
    let n = windows.len();
    let mut i: usize = 0;
    while i < n
        invariant
            n == windows@.len(),
            i <= n,
            forall|h: usize| has_keyboard_focus.requires((h,)),
            forall|k: int| 0 <= k < i && (#[trigger] windows@[k]).hwnd == foreground
                ==> has_keyboard_focus.ensures((foreground,), false),
        decreases n - i,
    {
        if windows[i].hwnd == foreground {
            let focused = has_keyboard_focus(windows[i].hwnd);
            if focused {
                return Some(windows[i].pid);
            }
        }
        i = i + 1;
    }
    None
}

pub open spec fn opt_view(s: Option<String>) -> Option<Seq<char>> {
    match s {
        Some(s) => Some(s@),
        None => None,
    }
}

/// Reconcile a newly observed automatic identity without overwriting a manual
/// assignment when the automatic source has not changed (ignoring ASCII
/// case). Returns whether the window's identity was refreshed.
pub fn reconcile_identity(
    observed: &mut PidMap<(String, String)>,
    window: &mut EqWindow,
    character: String,
    server: String,
    class: Option<String>,
) -> (refreshed: bool)
    requires
        old(observed).wf(),
    ensures
        final(observed).wf(),
        ({
            let pid = old(window).pid;
            let unchanged = old(observed).view().contains_key(pid) && eq_ignore_case(
                old(observed).view()[pid].0@,
                character@,
            ) && eq_ignore_case(old(observed).view()[pid].1@, server@);
            &&& refreshed == !unchanged
            &&& !refreshed ==> final(observed).view() == old(observed).view() && *final(window) == *old(window)
            &&& refreshed ==> {
                &&& final(observed).view() == old(observed).view().insert(pid, (character, server))
                &&& *final(window) == (EqWindow {
                    character: Some(character),
                    server: Some(server),
                    class,
                    ..*old(window)
                })
            }
        }),
{
    let unchanged = match observed.get(window.pid) {
        Some(pair) => eq_ignore_ascii_case(pair.0.as_str(), character.as_str()) && eq_ignore_ascii_case(
            pair.1.as_str(),
            server.as_str(),
        ),
        None => false,
    };
    if unchanged {
        return false;
    }
    observed.insert(window.pid, (character.clone(), server.clone()));
    window.character = Some(character);
    window.server = Some(server);
    window.class = class;
    true
}

/// The sort key of a window under a preferred order: ranked windows first by
/// rank, then unranked ones by their current number; ties by number and pid.
#[derive(Clone, Copy, Debug, PartialEq, Eq, Structural)]
pub struct OrderKey {
    pub unranked: bool,
    pub primary: usize,
    pub number: usize,
    pub pid: u32,
}

pub open spec fn key_le(a: OrderKey, b: OrderKey) -> bool {
    ||| !a.unranked && b.unranked
    ||| a.unranked == b.unranked && a.primary < b.primary
    ||| a.unranked == b.unranked && a.primary == b.primary && a.number < b.number
    ||| a.unranked == b.unranked && a.primary == b.primary && a.number == b.number && a.pid <= b.pid
}

pub open spec fn key_order() -> spec_fn(OrderKey, OrderKey) -> bool {
    |a: OrderKey, b: OrderKey| key_le(a, b)
}

pub proof fn lemma_key_order_total()
    ensures
        total_preorder(key_order()),
{
    let le = key_order();
    assert(transitive(le));
    assert(strongly_connected(le));
}

/// `preferred[k]` is the first identity matching a server and character.
pub open spec fn first_match(preferred: Seq<BoxIdentity>, server: Seq<char>, character: Seq<char>, k: int) -> bool {
    &&& 0 <= k < preferred.len()
    &&& eq_ignore_case(preferred[k].server@, server) && eq_ignore_case(preferred[k].character@, character)
    &&& forall|j: int| 0 <= j < k ==> !(eq_ignore_case(preferred[j].server@, server) && eq_ignore_case(
        #[trigger] preferred[j].character@,
        character,
    ))
}

/// The rank of an identified window in the preferred order, if listed.
pub open spec fn rank_of(w: EqWindow, preferred: Seq<BoxIdentity>) -> Option<int> {
    match (w.server, w.character) {
        (Some(server), Some(character)) => if exists|k: int| first_match(preferred, server@, character@, k) {
            Some(choose|k: int| first_match(preferred, server@, character@, k))
        } else {
            None
        },
        _ => None,
    }
}

pub open spec fn key_of(w: EqWindow, preferred: Seq<BoxIdentity>) -> OrderKey {
    match rank_of(w, preferred) {
        Some(r) => OrderKey { unranked: false, primary: r as usize, number: w.number, pid: w.pid },
        None => OrderKey { unranked: true, primary: w.number, number: w.number, pid: w.pid },
    }
}

/// The first window of a pid, if any.
pub open spec fn first_index(ws: Seq<EqWindow>, pid: u32) -> Option<int> {
    if exists|i: int| 0 <= i < ws.len() && ws[i].pid == pid && forall|k: int| 0 <= k < i ==> ws[k].pid != pid {
        Some(choose|i: int| 0 <= i < ws.len() && ws[i].pid == pid && forall|k: int| 0 <= k < i ==> ws[k].pid != pid)
    } else {
        None
    }
}

/// Number the windows `1, 2, ...` in the given order (each key numbering the
/// first window of its pid), recording whether any number changed.
pub open spec fn assign_numbers(ws: Seq<EqWindow>, order: Seq<OrderKey>) -> (Seq<EqWindow>, bool)
    decreases order.len(),
{
    if order.len() == 0 {
        (ws, false)
    } else {
        let (prev, changed) = assign_numbers(ws, order.drop_last());
        let desired = order.len();
        match first_index(prev, order.last().pid) {
            Some(i) => if prev[i].number != desired {
                (prev.update(i, EqWindow { number: desired as usize, ..prev[i] }), true)
            } else {
                (prev, changed)
            },
            None => (prev, changed),
        }
    }
}

/// Renumbering keeps every window but its number.
proof fn lemma_assign_numbers_pids(ws: Seq<EqWindow>, order: Seq<OrderKey>)
    ensures
        pids_of(assign_numbers(ws, order).0) == pids_of(ws),
        assign_numbers(ws, order).0.len() == ws.len(),
        forall|k: int| 0 <= k < ws.len() ==> #[trigger] assign_numbers(ws, order).0[k] == with_number(
            ws[k],
            assign_numbers(ws, order).0[k].number,
        ),
    decreases order.len(),
{
    if order.len() > 0 {
        lemma_assign_numbers_pids(ws, order.drop_last());
        let prev = assign_numbers(ws, order.drop_last()).0;
        match first_index(prev, order.last().pid) {
            Some(i) => {
                assert(pids_of(prev.update(i, EqWindow { number: order.len() as usize, ..prev[i] })) =~= pids_of(prev));
            },
            None => {},
        }
    }
}

proof fn lemma_first_index(ws: Seq<EqWindow>, pid: u32, i: int)
    requires
        0 <= i < ws.len(),
        ws[i].pid == pid,
        forall|k: int| 0 <= k < i ==> ws[k].pid != pid,
    ensures
        first_index(ws, pid) == Some(i),
{
    let j = choose|j: int| 0 <= j < ws.len() && ws[j].pid == pid && forall|k: int| 0 <= k < j ==> ws[k].pid != pid;
    if j < i {
        assert(ws[j].pid != pid);
    } else if j > i {
        assert(ws[i].pid != pid);
    }
}

proof fn lemma_first_index_none(ws: Seq<EqWindow>, pid: u32)
    requires
        forall|k: int| 0 <= k < ws.len() ==> ws[k].pid != pid,
    ensures
        first_index(ws, pid) is None,
{
}

#[verifier::spinoff_prover]
fn rank_exec(window: &EqWindow, preferred: &[BoxIdentity]) -> (r: Option<usize>)
    ensures
        match r {
            Some(k) => rank_of(*window, preferred@) == Some(k as int),
            None => rank_of(*window, preferred@) is None,
        },
{
    let server = match &window.server {
        Some(server) => server,
        None => return None,
    };
    let character = match &window.character {
        Some(character) => character,
        None => return None,
    };
    let n = preferred.len();
    let mut k: usize = 0;
    while k < n
        invariant
            n == preferred@.len(),
            window.server == Some(*server),
            window.character == Some(*character),
            k <= n,
            forall|j: int| 0 <= j < k ==> !(eq_ignore_case(preferred@[j].server@, server@) && eq_ignore_case(
                #[trigger] preferred@[j].character@,
                character@,
            )),
        decreases n - k,
    {
        if preferred[k].matches(server.as_str(), character.as_str()) {
            proof {
                assert(first_match(preferred@, server@, character@, k as int));
                assert(exists|c: int| first_match(preferred@, server@, character@, c));
                let c = choose|c: int| first_match(preferred@, server@, character@, c);
                assert(first_match(preferred@, server@, character@, c));
                if c < k {
                } else if c > k {
                    assert(!(eq_ignore_case(preferred@[k as int].server@, server@) && eq_ignore_case(
                        preferred@[k as int].character@,
                        character@,
                    )));
                }
                assert(c == k);
            }
            return Some(k);
        }
        k = k + 1;
    }
    None
}

/// Assign contiguous window numbers from the configured identity priority.
/// Unlisted and not-yet-identified clients follow in their current relative
/// order. Returns whether any number changed.
pub fn apply_preferred_box_order(eq_windows: &mut [EqWindow], preferred: &[BoxIdentity]) -> (changed: bool)
    ensures
        preferred@.len() == 0 || old(eq_windows)@.len() == 0 ==> !changed && final(eq_windows)@ == old(eq_windows)@,
        preferred@.len() > 0 && old(eq_windows)@.len() > 0 ==> {
            let keys = old(eq_windows)@.map_values(|w: EqWindow| key_of(w, preferred@));
            let (numbered, any) = assign_numbers(old(eq_windows)@, stable_sort(keys, key_order()));
            final(eq_windows)@ == numbered && changed == any
        },
{
    if preferred.len() == 0 || eq_windows.len() == 0 {
        return false;
    }
    let ghost ws0 = eq_windows@;
    let ghost keys = ws0.map_values(|w: EqWindow| key_of(w, preferred@));
    let ghost le = key_order();
    let n = eq_windows.len();
    let mut ordered: Vec<OrderKey> = Vec::new();
    let mut i: usize = 0;
    proof {
        assert(keys.take(0) =~= Seq::<OrderKey>::empty());
    }
    while i < n
        invariant
            n == eq_windows@.len(),
            eq_windows@ == ws0,
            keys == ws0.map_values(|w: EqWindow| key_of(w, preferred@)),
            le == key_order(),
            i <= n,
            ordered@ == stable_sort(keys.take(i as int), le),
        decreases n - i,
    {
        let w = &eq_windows[i];
        let key = match rank_exec(w, preferred) {
            Some(r) => OrderKey { unranked: false, primary: r, number: w.number, pid: w.pid },
            None => OrderKey { unranked: true, primary: w.number, number: w.number, pid: w.pid },
        };
        assert(key == keys[i as int]);
        let ghost before = ordered@;
        let mut j = ordered.len();
        while j > 0 && !(
        (!ordered[j - 1].unranked && key.unranked)
            || (ordered[j - 1].unranked == key.unranked && ordered[j - 1].primary < key.primary)
            || (ordered[j - 1].unranked == key.unranked && ordered[j - 1].primary == key.primary
                && ordered[j - 1].number < key.number)
            || (ordered[j - 1].unranked == key.unranked && ordered[j - 1].primary == key.primary
                && ordered[j - 1].number == key.number && ordered[j - 1].pid <= key.pid))
            invariant
                j <= ordered@.len(),
                before == ordered@,
                le == key_order(),
                forall|q: int| j <= q < before.len() ==> !le(#[trigger] before[q], key),
            decreases j,
        {
            j = j - 1;
        }
        proof {
            lemma_insert_sorted_at(before, key, le, j as int);
            assert(keys.take(i + 1).drop_last() =~= keys.take(i as int));
            assert(keys.take(i + 1).last() == keys[i as int]);
        }
        ordered.insert(j, key);
        i = i + 1;
    }
    proof {
        assert(keys.take(n as int) =~= keys);
        lemma_key_order_total();
        lemma_stable_sort(keys, le);
    }
    let ghost order = ordered@;
    let m = ordered.len();
    let mut changed = false;
    let mut k: usize = 0;
    proof {
        assert(order.take(0) =~= Seq::<OrderKey>::empty());
    }
    while k < m
        invariant
            m == order.len(),
            order == ordered@,
            k <= m,
            eq_windows@.len() == ws0.len(),
            (eq_windows@, changed) == assign_numbers(ws0, order.take(k as int)),
        decreases m - k,
    {
        let pid = ordered[k].pid;
        let desired = k + 1;
        proof {
            assert(order.take(k + 1).drop_last() =~= order.take(k as int));
            assert(order.take(k + 1).last() == order[k as int]);
        }
        match position_of(eq_windows, pid) {
            Some(idx) => {
                proof {
                    lemma_first_index(eq_windows@, pid, idx as int);
                }
                if eq_windows[idx].number != desired {
                    eq_windows[idx].number = desired;
                    changed = true;
                }
            },
            None => {
                proof {
                    assert forall|q: int| 0 <= q < eq_windows@.len() implies eq_windows@[q].pid != pid by {
                        if eq_windows@[q].pid == pid {
                            assert(pids_of(eq_windows@)[q] == pid);
                        }
                    }
                    lemma_first_index_none(eq_windows@, pid);
                }
            },
        }
        k = k + 1;
    }
    proof {
        assert(order.take(m as int) =~= order);
    }
    changed
}

/// `s` without any occurrence of `x`.
pub open spec fn without(s: Seq<u32>, x: u32) -> Seq<u32> {
    s.filter(other_than(x))
}

pub open spec fn other_than(x: u32) -> spec_fn(u32) -> bool {
    |y: u32| y != x
}

pub open spec fn pid_other_than(pid: u32) -> spec_fn(EqWindow) -> bool {
    |w: EqWindow| w.pid != pid
}

/// The windows other than those of `pid`.
pub open spec fn without_pid(ws: Seq<EqWindow>, pid: u32) -> Seq<EqWindow> {
    ws.filter(pid_other_than(pid))
}

/// A filtered sequence without duplicates stays without duplicates.
pub proof fn lemma_filter_no_duplicates(s: Seq<u32>, pred: spec_fn(u32) -> bool)
    requires
        s.no_duplicates(),
    ensures
        s.filter(pred).no_duplicates(),
    decreases s.len(),
{
    reveal_with_fuel(Seq::filter, 1);
    if s.len() > 0 {
        let t = s.drop_last();
        assert(t.no_duplicates());
        lemma_filter_no_duplicates(t, pred);
        if pred(s.last()) {
            let f = t.filter(pred);
            if f.contains(s.last()) {
                t.lemma_filter_contains_rev(pred, s.last());
                let k = choose|k: int| 0 <= k < t.len() && t[k] == s.last();
                assert(s[k] == s[s.len() - 1]);
            }
            let g = f.push(s.last());
            assert forall|a: int, b: int| 0 <= a < g.len() && 0 <= b < g.len() && a != b implies g[a] != g[b] by {
                if a == f.len() {
                    assert(f.contains(g[b]));
                } else if b == f.len() {
                    assert(f.contains(g[a]));
                }
            }
        }
    }
}

/// Membership after filtering.
pub proof fn lemma_filter_membership(s: Seq<u32>, pred: spec_fn(u32) -> bool)
    ensures
        forall|y: u32| #[trigger] s.filter(pred).contains(y) <==> s.contains(y) && pred(y),
{
    assert forall|y: u32| #[trigger] s.filter(pred).contains(y) <==> s.contains(y) && pred(y) by {
        if s.filter(pred).contains(y) {
            s.lemma_filter_contains_rev(pred, y);
            let k = choose|k: int| 0 <= k < s.filter(pred).len() && s.filter(pred)[k] == y;
            s.lemma_filter_pred(pred, k);
        }
        if s.contains(y) && pred(y) {
            let k = choose|k: int| 0 <= k < s.len() && s[k] == y;
            s.lemma_filter_contains(pred, k);
        }
    }
}

/// Filtering with a predicate that holds everywhere changes nothing.
pub proof fn lemma_filter_all(s: Seq<u32>, pred: spec_fn(u32) -> bool)
    requires
        forall|i: int| 0 <= i < s.len() ==> pred(#[trigger] s[i]),
    ensures
        s.filter(pred) == s,
    decreases s.len(),
{
    reveal_with_fuel(Seq::filter, 1);
    if s.len() > 0 {
        lemma_filter_all(s.drop_last(), pred);
        assert(s.drop_last().push(s.last()) =~= s);
    }
}

/// Remove every occurrence of `x`, keeping the order of the rest.
pub fn remove_all(v: &mut Vec<u32>, x: u32)
    ensures
        final(v)@ == without(old(v)@, x),
        forall|y: u32| #[trigger] final(v)@.contains(y) <==> old(v)@.contains(y) && y != x,
        old(v)@.no_duplicates() ==> final(v)@.no_duplicates(),
        final(v)@.len() <= old(v)@.len(),
        !old(v)@.contains(x) ==> final(v)@ == old(v)@,
{
    let ghost pred = other_than(x);
    let ghost s0 = v@;
    let mut out: Vec<u32> = Vec::new();
    let n = v.len();
    let mut i: usize = 0;
    proof {
        assert(s0.take(0).filter(pred) =~= Seq::<u32>::empty()) by {
            reveal_with_fuel(Seq::filter, 1);
        }
    }
    while i < n
        invariant
            n == s0.len(),
            v@ == s0,
            pred == other_than(x),
            i <= n,
            out@ == s0.take(i as int).filter(pred),
        decreases n - i,
    {
        proof {
            assert(s0.take(i + 1).drop_last() =~= s0.take(i as int));
            assert(s0.take(i + 1).last() == s0[i as int]);
            reveal_with_fuel(Seq::filter, 1);
        }
        let y = v[i];
        if y != x {
            out.push(y);
        }
        i = i + 1;
    }
    proof {
        assert(s0.take(n as int) =~= s0);
        lemma_filter_membership(s0, pred);
        s0.lemma_filter_len(pred);
        if s0.no_duplicates() {
            lemma_filter_no_duplicates(s0, pred);
        }
        if !s0.contains(x) {
            assert forall|k: int| 0 <= k < s0.len() implies pred(#[trigger] s0[k]) by {
                assert(s0.contains(s0[k]));
            }
            lemma_filter_all(s0, pred);
        }
    }
    *v = out;
}

pub proof fn lemma_pids_filter(ws: Seq<EqWindow>, pid: u32)
    ensures
        pids_of(without_pid(ws, pid)) == without(pids_of(ws), pid),
    decreases ws.len(),
{
    reveal_with_fuel(Seq::filter, 1);
    if ws.len() > 0 {
        lemma_pids_filter(ws.drop_last(), pid);
        assert(pids_of(ws).drop_last() =~= pids_of(ws.drop_last()));
        let f = ws.drop_last().filter(pid_other_than(pid));
        assert(pids_of(f.push(ws.last())) =~= pids_of(f).push(ws.last().pid));
    }
}

/// Remove every window of a pid, keeping the order of the rest.
pub fn remove_windows(ws: &mut Vec<EqWindow>, pid: u32)
    ensures
        final(ws)@ == without_pid(old(ws)@, pid),
{
    let ghost pred = pid_other_than(pid);
    let ghost s0 = ws@;
    let mut i: usize = 0;
    let ghost mut j: int = 0;
    proof {
        assert(s0.take(0).filter(pred) =~= Seq::<EqWindow>::empty()) by {
            reveal_with_fuel(Seq::filter, 1);
        }
        assert(ws@ =~= s0.take(0).filter(pred) + s0.skip(0));
    }
    while i < ws.len()
        invariant
            pred == pid_other_than(pid),
            0 <= j <= s0.len(),
            ws@ == s0.take(j).filter(pred) + s0.skip(j),
            i == s0.take(j).filter(pred).len(),
        decreases s0.len() - j,
    {
        proof {
            assert(s0.take(j + 1).drop_last() =~= s0.take(j));
            assert(s0.take(j + 1).last() == s0[j]);
            reveal_with_fuel(Seq::filter, 1);
            assert(ws@[i as int] == s0[j]);
        }
        if ws[i].pid == pid {
            ws.remove(i);
            proof {
                assert(ws@ =~= s0.take(j + 1).filter(pred) + s0.skip(j + 1));
            }
        } else {
            proof {
                assert(ws@ =~= s0.take(j + 1).filter(pred) + s0.skip(j + 1));
            }
            i = i + 1;
        }
        proof {
            j = j + 1;
        }
    }
    proof {
        assert(j == s0.len());
        assert(s0.take(j) =~= s0);
        assert(ws@ =~= s0.filter(pred));
    }
}

/// A saved active/PiP partition.
#[derive(Debug)]
pub struct ClientPartition {
    pub active_pid: Option<u32>,
    pub pip_order: Vec<u32>,
}

impl ClientPartition {
    pub fn new(active_pid: Option<u32>, pip_order: Vec<u32>) -> (p: ClientPartition)
        ensures
            p.active_pid == active_pid,
            p.pip_order@ == pip_order@,
    {
        ClientPartition { active_pid, pip_order }
    }
}

fn copy_pids(v: &Vec<u32>) -> (r: Vec<u32>)
    ensures
        r@ == v@,
{
    let mut out: Vec<u32> = Vec::new();
    let n = v.len();
    let mut i: usize = 0;
    while i < n
        invariant
            n == v@.len(),
            i <= n,
            out@ == v@.take(i as int),
        decreases n - i,
    {
        out.push(v[i]);
        assert(out@ =~= v@.take(i + 1));
        i = i + 1;
    }
    assert(v@.take(n as int) =~= v@);
    out
}

/// The number of a pid's first window, or `usize::MAX` for an unknown pid.
pub open spec fn pip_number(ws: Seq<EqWindow>, pid: u32) -> usize {
    match first_index(ws, pid) {
        Some(i) => ws[i].number,
        None => usize::MAX,
    }
}

pub open spec fn pip_number_order(ws: Seq<EqWindow>) -> spec_fn(u32, u32) -> bool {
    |a: u32, b: u32| pip_number(ws, a) <= pip_number(ws, b)
}

/// Client windows and the active/PiP partition.
pub struct ClientRegistry {
    pub windows: Vec<EqWindow>,
    pip_order: Vec<u32>,
    pub preferred_order: Vec<BoxIdentity>,
    active_pid: Option<u32>,
    /// The last automatically observed (character, server) per client.
    pub observed_identities: PidMap<(String, String)>,
}

impl ClientRegistry {
    pub closed spec fn active(&self) -> Option<u32> {
        self.active_pid
    }

    pub closed spec fn pip_seq(&self) -> Seq<u32> {
        self.pip_order@
    }

    pub closed spec fn windows_seq(&self) -> Seq<EqWindow> {
        self.windows@
    }

    pub closed spec fn preferred_seq(&self) -> Seq<BoxIdentity> {
        self.preferred_order@
    }

    pub closed spec fn observed(&self) -> Map<u32, (String, String)> {
        self.observed_identities.view()
    }

    pub closed spec fn wf(&self) -> bool {
        self.observed_identities.wf()
    }

    /// The partition invariant over the current windows.
    pub closed spec fn partition_valid(&self) -> bool {
        partition_ok(self.active(), self.pip_seq(), pids_of(self.windows_seq()))
    }

    pub fn new(preferred_order: Vec<BoxIdentity>) -> (r: Self)
        ensures
            r.wf(),
            r.windows_seq().len() == 0,
            r.active() is None,
            r.pip_seq().len() == 0,
            r.preferred_seq() == preferred_order@,
            r.observed() == Map::<u32, (String, String)>::empty(),
            r.partition_valid(),
    {
        ClientRegistry {
            windows: Vec::new(),
            pip_order: Vec::new(),
            preferred_order,
            active_pid: None,
            observed_identities: PidMap::new(),
        }
    }

    pub fn active_pid(&self) -> (r: Option<u32>)
        ensures
            r == self.active(),
    {
        self.active_pid
    }

    pub fn windows(&self) -> (r: &[EqWindow])
        ensures
            r@ == self.windows_seq(),
    {
        self.windows.as_slice()
    }

    /// Point a known window at a new handle (the game may recreate its window).
    pub fn set_window_handle(&mut self, index: usize, hwnd: usize)
        requires
            index < old(self).windows_seq().len(),
        ensures
            final(self).windows_seq() == old(self).windows_seq().update(
                index as int,
                with_hwnd(old(self).windows_seq()[index as int], hwnd),
            ),
            final(self).active() == old(self).active(),
            final(self).pip_seq() == old(self).pip_seq(),
            final(self).observed() == old(self).observed(),
            final(self).preferred_seq() == old(self).preferred_seq(),
            old(self).wf() ==> final(self).wf(),
            old(self).partition_valid() ==> final(self).partition_valid(),
    {
        self.windows[index].hwnd = hwnd;
        proof {
            assert(self.windows@ =~= old(self).windows@.update(index as int, with_hwnd(old(self).windows@[index as int], hwnd)));
            assert(pids_of(self.windows@) =~= pids_of(old(self).windows@));
        }
    }

    /// Renumber the windows from the configured identity priority (see
    /// `apply_preferred_box_order`). Returns whether any number changed.
    pub fn apply_preferred_order(&mut self) -> (changed: bool)
        ensures
            old(self).preferred_seq().len() == 0 || old(self).windows_seq().len() == 0 ==> !changed
                && final(self).windows_seq() == old(self).windows_seq(),
            old(self).preferred_seq().len() > 0 && old(self).windows_seq().len() > 0 ==> {
                let keys = old(self).windows_seq().map_values(|w: EqWindow| key_of(w, old(self).preferred_seq()));
                let (numbered, any) = assign_numbers(old(self).windows_seq(), stable_sort(keys, key_order()));
                final(self).windows_seq() == numbered && changed == any
            },
            pids_of(final(self).windows_seq()) == pids_of(old(self).windows_seq()),
            final(self).windows_seq().len() == old(self).windows_seq().len(),
            forall|k: int| 0 <= k < old(self).windows_seq().len() ==> #[trigger] final(self).windows_seq()[k]
                == with_number(old(self).windows_seq()[k], final(self).windows_seq()[k].number),
            final(self).active() == old(self).active(),
            final(self).pip_seq() == old(self).pip_seq(),
            final(self).observed() == old(self).observed(),
            final(self).preferred_seq() == old(self).preferred_seq(),
            old(self).wf() ==> final(self).wf(),
            old(self).partition_valid() ==> final(self).partition_valid(),
    {
        let changed = apply_preferred_box_order(self.windows.as_mut_slice(), self.preferred_order.as_slice());
        proof {
            if self.preferred_order@.len() > 0 && old(self).windows@.len() > 0 {
                let keys = old(self).windows@.map_values(|w: EqWindow| key_of(w, self.preferred_order@));
                lemma_assign_numbers_pids(old(self).windows@, stable_sort(keys, key_order()));
            }
        }
        changed
    }

    /// Exchange the window numbers of two loaded clients; see
    /// `exchange_window_numbers`.
    pub fn exchange_numbers(&mut self, first_pid: u32, second_pid: u32) -> (r: Option<(usize, usize)>)
        ensures
            numbers_exchanged(old(self).windows_seq(), final(self).windows_seq(), first_pid, second_pid, r),
            pids_of(final(self).windows_seq()) == pids_of(old(self).windows_seq()),
            final(self).active() == old(self).active(),
            final(self).pip_seq() == old(self).pip_seq(),
            final(self).observed() == old(self).observed(),
            final(self).preferred_seq() == old(self).preferred_seq(),
            old(self).wf() ==> final(self).wf(),
            old(self).partition_valid() ==> final(self).partition_valid(),
    {
        let r = exchange_window_numbers(self.windows.as_mut_slice(), first_pid, second_pid);
        proof {
            assert(pids_of(self.windows@) =~= pids_of(old(self).windows@));
        }
        r
    }

    /// Give a client's window a chosen number; see `assign_window_number`.
    pub fn assign_number(&mut self, target_pid: u32, new_number: usize) -> (b: bool)
        requires
            old(self).windows_seq().len() + 2 < usize::MAX,
        ensures
            b == pids_of(old(self).windows_seq()).contains(target_pid),
            !b ==> final(self).windows_seq() == old(self).windows_seq(),
            b ==> exists|i: int| {
                &&& 0 <= i < old(self).windows_seq().len() && (#[trigger] old(self).windows_seq()[i]).pid == target_pid
                &&& (forall|k: int| 0 <= k < i ==> old(self).windows_seq()[k].pid != target_pid)
                &&& final(self).windows_seq() == renumbered(old(self).windows_seq(), i, new_number)
            },
            pids_of(final(self).windows_seq()) == pids_of(old(self).windows_seq()),
            final(self).active() == old(self).active(),
            final(self).pip_seq() == old(self).pip_seq(),
            final(self).observed() == old(self).observed(),
            final(self).preferred_seq() == old(self).preferred_seq(),
            old(self).wf() ==> final(self).wf(),
            old(self).partition_valid() ==> final(self).partition_valid(),
    {
        let b = assign_window_number(self.windows.as_mut_slice(), target_pid, new_number);
        proof {
            if b {
                let ws = old(self).windows@;
                let i = choose|i: int| {
                    &&& 0 <= i < ws.len() && (#[trigger] ws[i]).pid == target_pid
                    &&& (forall|k: int| 0 <= k < i ==> ws[k].pid != target_pid)
                    &&& self.windows@ == renumbered(ws, i, new_number)
                };
                let replacement = replacement_number(ws, ws[i].number, new_number);
                if exists|j: int| first_holder(ws, new_number, ws[i].pid, j) {
                    let j = choose|j: int| first_holder(ws, new_number, ws[i].pid, j);
                    let moved = ws.update(j, with_number(ws[j], replacement));
                    assert(pids_of(moved) =~= pids_of(ws));
                    assert(pids_of(self.windows@) =~= pids_of(moved));
                } else {
                    assert(pids_of(self.windows@) =~= pids_of(ws));
                }
            }
        }
        b
    }

    /// Assign a character identity to a client's first window. Returns false,
    /// changing nothing, when the client is unknown.
    pub fn set_identity(&mut self, pid: u32, character: String, server: String, class: Option<String>) -> (b: bool)
        ensures
            b == pids_of(old(self).windows_seq()).contains(pid),
            !b ==> final(self).windows_seq() == old(self).windows_seq(),
            b ==> exists|i: int| {
                &&& 0 <= i < old(self).windows_seq().len() && (#[trigger] old(self).windows_seq()[i]).pid == pid
                &&& (forall|k: int| 0 <= k < i ==> old(self).windows_seq()[k].pid != pid)
                &&& final(self).windows_seq() == old(self).windows_seq().update(
                    i,
                    EqWindow {
                        hwnd: old(self).windows_seq()[i].hwnd,
                        pid,
                        number: old(self).windows_seq()[i].number,
                        character: Some(character),
                        server: Some(server),
                        class,
                    },
                )
            },
            pids_of(final(self).windows_seq()) == pids_of(old(self).windows_seq()),
            final(self).active() == old(self).active(),
            final(self).pip_seq() == old(self).pip_seq(),
            final(self).observed() == old(self).observed(),
            final(self).preferred_seq() == old(self).preferred_seq(),
            old(self).wf() ==> final(self).wf(),
            old(self).partition_valid() ==> final(self).partition_valid(),
    {
        match position_of(self.windows.as_slice(), pid) {
            Some(i) => {
                let hwnd = self.windows[i].hwnd;
                let number = self.windows[i].number;
                self.windows.set(
                    i,
                    EqWindow { hwnd, pid, number, character: Some(character), server: Some(server), class },
                );
                proof {
                    assert(pids_of(old(self).windows@)[i as int] == pid);
                    assert(pids_of(self.windows@) =~= pids_of(old(self).windows@));
                }
                true
            },
            None => false,
        }
    }

    pub fn pips(&self) -> (r: &[u32])
        ensures
            r@ == self.pip_seq(),
    {
        self.pip_order.as_slice()
    }

    pub fn pip_at(&self, index: usize) -> (r: Option<u32>)
        ensures
            r == (if index < self.pip_seq().len() { Some(self.pip_seq()[index as int]) } else { None }),
    {
        if index < self.pip_order.len() {
            Some(self.pip_order[index])
        } else {
            None
        }
    }

    pub fn snapshot_partition(&self) -> (p: ClientPartition)
        ensures
            p.active_pid == self.active(),
            p.pip_order@ == self.pip_seq(),
    {
        ClientPartition { active_pid: self.active_pid, pip_order: copy_pids(&self.pip_order) }
    }

    pub fn restore_partition(&mut self, partition: ClientPartition)
        ensures
            old(self).wf() ==> final(self).wf(),
            final(self).active() == partition.active_pid,
            final(self).pip_seq() == partition.pip_order@,
            final(self).windows_seq() == old(self).windows_seq(),
            final(self).preferred_seq() == old(self).preferred_seq(),
            final(self).observed() == old(self).observed(),
    {
        self.active_pid = partition.active_pid;
        self.pip_order = partition.pip_order;
    }

    /// Forget a client. If it was active, the first PiP becomes active.
    pub fn remove(&mut self, pid: u32)
        requires
            old(self).wf(),
        ensures
            final(self).wf(),
            final(self).windows_seq() == without_pid(old(self).windows_seq(), pid),
            final(self).observed() == old(self).observed().remove(pid),
            final(self).preferred_seq() == old(self).preferred_seq(),
            ({
                let pips = without(old(self).pip_seq(), pid);
                if old(self).active() == Some(pid) {
                    if pips.len() > 0 {
                        &&& final(self).active() == Some(pips[0])
                        &&& final(self).pip_seq() == without(pips, pips[0])
                    } else {
                        final(self).active() is None && final(self).pip_seq() == pips
                    }
                } else {
                    final(self).active() == old(self).active() && final(self).pip_seq() == pips
                }
            }),
            old(self).partition_valid() ==> final(self).partition_valid(),
    {
        let ghost old_known = pids_of(self.windows@);
        let ghost old_pips = self.pip_order@;
        let ghost old_active = self.active_pid;
        remove_windows(&mut self.windows, pid);
        let _ = self.observed_identities.remove(pid);
        remove_all(&mut self.pip_order, pid);
        let ghost mid = self.pip_order@;
        if self.active_pid == Some(pid) {
            if self.pip_order.len() > 0 {
                let promoted = self.pip_order[0];
                self.active_pid = Some(promoted);
                remove_all(&mut self.pip_order, promoted);
            } else {
                self.active_pid = None;
            }
        }
        proof {
            lemma_pids_filter(old(self).windows_seq(), pid);
            let known = pids_of(self.windows@);
            lemma_filter_membership(old_known, other_than(pid));
            if partition_ok(old_active, old_pips, old_known) {
                assert forall|i: int| 0 <= i < self.pip_order@.len() implies known.contains(
                    #[trigger] self.pip_order@[i],
                ) by {
                    let y = self.pip_order@[i];
                    assert(self.pip_order@.contains(y));
                    assert(mid.contains(y));
                    assert(old_pips.contains(y));
                    let k = choose|k: int| 0 <= k < old_pips.len() && old_pips[k] == y;
                    assert(old_known.contains(old_pips[k]));
                }
                if old_active == Some(pid) {
                    if mid.len() > 0 {
                        assert(mid.contains(mid[0]));
                        assert(old_pips.contains(mid[0]));
                        let k = choose|k: int| 0 <= k < old_pips.len() && old_pips[k] == mid[0];
                        assert(old_known.contains(old_pips[k]));
                    }
                }
            }
        }
    }

    /// Track a new client: it becomes active if requested and none is, else
    /// it is appended to the PiPs.
    pub fn add(&mut self, window: EqWindow, prefer_active: bool)
        ensures
            old(self).wf() ==> final(self).wf(),
            final(self).windows_seq() == old(self).windows_seq().push(window),
            final(self).observed() == old(self).observed(),
            final(self).preferred_seq() == old(self).preferred_seq(),
            old(self).active() is None && prefer_active ==> final(self).active() == Some(window.pid)
                && final(self).pip_seq() == old(self).pip_seq(),
            !(old(self).active() is None && prefer_active) ==> final(self).active() == old(self).active()
                && final(self).pip_seq() == old(self).pip_seq().push(window.pid),
            old(self).partition_valid() && !pids_of(old(self).windows_seq()).contains(window.pid)
                ==> final(self).partition_valid(),
    {
        let pid = window.pid;
        let ghost old_known = pids_of(self.windows@);
        self.windows.push(window);
        if self.active_pid.is_none() && prefer_active {
            self.active_pid = Some(pid);
        } else {
            self.pip_order.push(pid);
        }
        proof {
            let known = pids_of(self.windows@);
            assert(known =~= old_known.push(pid));
            assert(known[old_known.len() as int] == pid);
            assert forall|y: u32| old_known.contains(y) implies known.contains(y) by {
                let k = choose|k: int| 0 <= k < old_known.len() && old_known[k] == y;
                assert(known[k] == y);
            }
            if partition_ok(old(self).active(), old(self).pip_seq(), old_known) && !old_known.contains(pid) {
                let p = self.pip_order@;
                assert forall|i: int| 0 <= i < p.len() implies known.contains(#[trigger] p[i]) by {
                    if i < old(self).pip_seq().len() {
                        assert(old_known.contains(old(self).pip_seq()[i]));
                    }
                }
                if !(old(self).active() is None && prefer_active) {
                    assert forall|a: int, b: int| 0 <= a < p.len() && 0 <= b < p.len() && a != b implies p[a] != p[b] by {
                        if a == p.len() - 1 {
                            assert(old_known.contains(p[b]));
                        } else if b == p.len() - 1 {
                            assert(old_known.contains(p[a]));
                        }
                    }
                    if let Some(act) = old(self).active() {
                        assert(!p.contains(act)) by {
                            if p.contains(act) {
                                let k = choose|k: int| 0 <= k < p.len() && p[k] == act;
                                if k < old(self).pip_seq().len() {
                                    assert(old(self).pip_seq().contains(act));
                                }
                            }
                        }
                    }
                } else {
                    assert(!p.contains(pid)) by {
                        if p.contains(pid) {
                            let k = choose|k: int| 0 <= k < p.len() && p[k] == pid;
                            assert(old_known.contains(p[k]));
                        }
                    }
                }
            }
        }
    }

    /// Make the first PiP active when no client is.
    pub fn ensure_active(&mut self)
        ensures
            old(self).wf() ==> final(self).wf(),
            final(self).windows_seq() == old(self).windows_seq(),
            final(self).observed() == old(self).observed(),
            final(self).preferred_seq() == old(self).preferred_seq(),
            old(self).active() is None && old(self).pip_seq().len() > 0 ==> {
                let first = old(self).pip_seq()[0];
                &&& final(self).active() == Some(first)
                &&& final(self).pip_seq() == without(old(self).pip_seq(), first)
            },
            !(old(self).active() is None && old(self).pip_seq().len() > 0) ==> final(self).active() == old(
                self,
            ).active() && final(self).pip_seq() == old(self).pip_seq(),
            old(self).partition_valid() ==> final(self).partition_valid(),
    {
        if self.active_pid.is_none() && self.pip_order.len() > 0 {
            let first = self.pip_order[0];
            self.active_pid = Some(first);
            remove_all(&mut self.pip_order, first);
            proof {
                let known = pids_of(self.windows@);
                if old(self).partition_valid() {
                    assert(known.contains(old(self).pip_seq()[0]));
                    assert forall|i: int| 0 <= i < self.pip_order@.len() implies known.contains(
                        #[trigger] self.pip_order@[i],
                    ) by {
                        let y = self.pip_order@[i];
                        assert(self.pip_order@.contains(y));
                        let k = choose|k: int| 0 <= k < old(self).pip_seq().len() && old(self).pip_seq()[k] == y;
                        assert(known.contains(old(self).pip_seq()[k]));
                    }
                }
            }
        }
    }

    /// Keep at most `maximum` PiPs.
    pub fn truncate_pips(&mut self, maximum: usize)
        ensures
            old(self).wf() ==> final(self).wf(),
            final(self).windows_seq() == old(self).windows_seq(),
            final(self).observed() == old(self).observed(),
            final(self).preferred_seq() == old(self).preferred_seq(),
            final(self).active() == old(self).active(),
            final(self).pip_seq() == (if maximum < old(self).pip_seq().len() {
                old(self).pip_seq().take(maximum as int)
            } else {
                old(self).pip_seq()
            }),
            old(self).partition_valid() ==> final(self).partition_valid(),
    {
        self.pip_order.truncate(maximum);
        proof {
            let p = self.pip_order@;
            let o = old(self).pip_seq();
            if maximum < o.len() {
                assert(p =~= o.take(maximum as int));
            } else {
                assert(p =~= o);
            }
            if old(self).partition_valid() {
                assert forall|i: int| 0 <= i < p.len() implies pids_of(self.windows@).contains(#[trigger] p[i]) by {
                    assert(p[i] == o[i]);
                }
                assert forall|a: int, b: int| 0 <= a < p.len() && 0 <= b < p.len() && a != b implies p[a] != p[b] by {
                    assert(p[a] == o[a] && p[b] == o[b]);
                }
                if let Some(act) = old(self).active() {
                    assert(!p.contains(act)) by {
                        if p.contains(act) {
                            let k = choose|k: int| 0 <= k < p.len() && p[k] == act;
                            assert(o[k] == act);
                        }
                    }
                }
            }
        }
    }

    /// Exchange two PiP positions; false (changing nothing) when either is
    /// out of range.
    pub fn swap_pips(&mut self, first: usize, second: usize) -> (b: bool)
        ensures
            old(self).wf() ==> final(self).wf(),
            final(self).windows_seq() == old(self).windows_seq(),
            final(self).observed() == old(self).observed(),
            final(self).preferred_seq() == old(self).preferred_seq(),
            final(self).active() == old(self).active(),
            b == (first < old(self).pip_seq().len() && second < old(self).pip_seq().len()),
            !b ==> final(self).pip_seq() == old(self).pip_seq(),
            b ==> final(self).pip_seq() == old(self).pip_seq().update(first as int, old(self).pip_seq()[second as int]).update(
                second as int,
                old(self).pip_seq()[first as int],
            ),
            old(self).partition_valid() ==> final(self).partition_valid(),
    {
        if first >= self.pip_order.len() || second >= self.pip_order.len() {
            return false;
        }
        let a = self.pip_order[first];
        let b = self.pip_order[second];
        self.pip_order.set(first, b);
        self.pip_order.set(second, a);
        proof {
            let p = self.pip_order@;
            let o = old(self).pip_seq();
            let m = |i: int| if i == first { second as int } else if i == second { first as int } else { i };
            assert forall|i: int| 0 <= i < p.len() implies #[trigger] p[i] == o[m(i)] by {}
            if old(self).partition_valid() {
                assert forall|i: int| 0 <= i < p.len() implies pids_of(self.windows@).contains(#[trigger] p[i]) by {
                    assert(p[i] == o[m(i)]);
                }
                assert forall|x: int, y: int| 0 <= x < p.len() && 0 <= y < p.len() && x != y implies p[x] != p[y] by {
                    assert(p[x] == o[m(x)] && p[y] == o[m(y)]);
                }
                if let Some(act) = old(self).active() {
                    assert(!p.contains(act)) by {
                        if p.contains(act) {
                            let k = choose|k: int| 0 <= k < p.len() && p[k] == act;
                            assert(o[m(k)] == act);
                        }
                    }
                }
            }
        }
        true
    }

    /// Promote a known client into the active partition. A PiP client
    /// exchanges places with the active client; a client outside the visible
    /// PiPs becomes active and the previous active client joins the PiPs,
    /// replacing the last one when `max_pips` are shown.
    pub fn promote(&mut self, target_pid: u32, max_pips: usize) -> (b: bool)
        ensures
            old(self).wf() ==> final(self).wf(),
            final(self).windows_seq() == old(self).windows_seq(),
            final(self).observed() == old(self).observed(),
            final(self).preferred_seq() == old(self).preferred_seq(),
            ({
                let act = old(self).active();
                let pips = old(self).pip_seq();
                if act != Some(target_pid) && pips.contains(target_pid) {
                    b && (final(self).active(), final(self).pip_seq()) == exchanged(act, pips, target_pid)
                } else if act == Some(target_pid) || !pids_of(old(self).windows_seq()).contains(target_pid) {
                    !b && final(self).active() == act && final(self).pip_seq() == pips
                } else {
                    &&& b
                    &&& final(self).active() == Some(target_pid)
                    &&& final(self).pip_seq() == match act {
                        None => pips,
                        Some(prev) => if pips.len() < max_pips {
                            pips.push(prev)
                        } else if max_pips > 0 {
                            pips.update(max_pips - 1, prev).take(max_pips as int)
                        } else {
                            pips
                        },
                    }
                }
            }),
            old(self).partition_valid() ==> final(self).partition_valid(),
            old(self).pip_seq().len() <= max_pips ==> final(self).pip_seq().len() <= max_pips,
    {
        let ghost known = pids_of(self.windows@);
        if exchange_active_with_pip(&mut self.active_pid, &mut self.pip_order, target_pid) {
            proof {
                assert(partition_ok(old(self).active(), old(self).pip_seq(), known) ==> partition_ok(
                    self.active(),
                    self.pip_seq(),
                    known,
                ));
                assert(self.pip_order@.len() <= old(self).pip_seq().len());
            }
            return true;
        }
        if self.active_pid == Some(target_pid) {
            return false;
        }
        match position_of(self.windows.as_slice(), target_pid) {
            None => return false,
            Some(idx) => {
                assert(known[idx as int] == target_pid);
            },
        }
        let previous_active = self.active_pid;
        self.active_pid = Some(target_pid);
        if let Some(prev) = previous_active {
            if self.pip_order.len() < max_pips {
                self.pip_order.push(prev);
            } else if max_pips > 0 {
                self.pip_order.set(max_pips - 1, prev);
                self.pip_order.truncate(max_pips);
            }
        }
        proof {
            let o = old(self).pip_seq();
            let p = self.pip_order@;
            if let Some(prev) = previous_active {
                if o.len() < max_pips {
                    assert(p =~= o.push(prev));
                } else if max_pips > 0 {
                    assert(p =~= o.update(max_pips - 1, prev).take(max_pips as int));
                }
            }
            if partition_ok(old(self).active(), o, known) {
                assert(known.contains(target_pid));
                assert forall|i: int| 0 <= i < p.len() implies known.contains(#[trigger] p[i]) by {
                    if i < o.len() && !(previous_active is Some && i == max_pips - 1 && o.len() >= max_pips) {
                        assert(p[i] == o[i]);
                    }
                }
                assert forall|x: int, y: int| 0 <= x < p.len() && 0 <= y < p.len() && x != y implies p[x] != p[y] by {
                    if let Some(prev) = previous_active {
                        let slot: int = if o.len() < max_pips { o.len() as int } else { max_pips - 1 };
                        if x == slot {
                            assert(o.contains(p[y]) || y == slot);
                        } else if y == slot {
                            assert(o.contains(p[x]));
                        }
                    }
                }
                assert(!p.contains(target_pid)) by {
                    if p.contains(target_pid) {
                        let k = choose|k: int| 0 <= k < p.len() && p[k] == target_pid;
                        if previous_active is Some && ((o.len() < max_pips && k == o.len()) || (o.len() >= max_pips
                            && k == max_pips - 1)) {
                        } else {
                            assert(o[k] == target_pid);
                        }
                    }
                }
            }
        }
        true
    }

    /// Order the PiPs by their clients' window numbers (unknown clients last),
    /// keeping the relative order of equal numbers.
    pub fn apply_auto_order(&mut self)
        ensures
            old(self).wf() ==> final(self).wf(),
            final(self).windows_seq() == old(self).windows_seq(),
            final(self).observed() == old(self).observed(),
            final(self).preferred_seq() == old(self).preferred_seq(),
            final(self).active() == old(self).active(),
            final(self).pip_seq() == stable_sort(old(self).pip_seq(), pip_number_order(old(self).windows_seq())),
            old(self).partition_valid() ==> final(self).partition_valid(),
    {
        let ghost le = pip_number_order(self.windows@);
        let ghost o = self.pip_order@;
        let n = self.pip_order.len();
        let mut sorted: Vec<u32> = Vec::new();
        let mut i: usize = 0;
        proof {
            assert(o.take(0) =~= Seq::<u32>::empty());
        }
        while i < n
            invariant
                n == o.len(),
                self.pip_order@ == o,
                le == pip_number_order(self.windows@),
                i <= n,
                sorted@ == stable_sort(o.take(i as int), le),
            decreases n - i,
        {
            let pid = self.pip_order[i];
            let key = pip_number_exec(self.windows.as_slice(), pid);
            let ghost before = sorted@;
            let mut j = sorted.len();
            while j > 0 && !(pip_number_exec(self.windows.as_slice(), sorted[j - 1]) <= key)
                invariant
                    j <= sorted@.len(),
                    before == sorted@,
                    le == pip_number_order(self.windows@),
                    key == pip_number(self.windows@, pid),
                    forall|q: int| j <= q < before.len() ==> !le(#[trigger] before[q], pid),
                decreases j,
            {
                j = j - 1;
            }
            proof {
                lemma_insert_sorted_at(before, pid, le, j as int);
                assert(o.take(i + 1).drop_last() =~= o.take(i as int));
                assert(o.take(i + 1).last() == o[i as int]);
            }
            sorted.insert(j, pid);
            i = i + 1;
        }
        proof {
            assert(o.take(n as int) =~= o);
            assert(transitive(le));
            assert(strongly_connected(le));
            lemma_stable_sort(o, le);
        }
        self.pip_order = sorted;
        proof {
            let p = self.pip_order@;
            let known = pids_of(self.windows@);
            if old(self).partition_valid() {
                broadcast use vstd::seq_lib::group_to_multiset_ensures;

                o.lemma_multiset_has_no_duplicates();
                assert forall|x: u32| p.to_multiset().contains(x) implies p.to_multiset().count(x) == 1 by {}
                p.lemma_multiset_has_no_duplicates_conv();
                assert forall|i: int| 0 <= i < p.len() implies known.contains(#[trigger] p[i]) by {
                    assert(p.to_multiset().count(p[i]) > 0);
                    assert(o.contains(p[i]));
                    let k = choose|k: int| 0 <= k < o.len() && o[k] == p[i];
                    assert(known.contains(o[k]));
                }
                if let Some(act) = old(self).active() {
                    assert(!p.contains(act)) by {
                        if p.contains(act) {
                            assert(o.to_multiset().count(act) > 0);
                        }
                    }
                }
            }
        }
    }

    /// Check the partition invariant.
    pub fn debug_assert_partition(&self) -> (ok: bool)
        ensures
            ok == self.partition_valid(),
    {
        let ghost known = pids_of(self.windows@);
        let n = self.pip_order.len();
        let mut i: usize = 0;
        while i < n
            invariant
                n == self.pip_order@.len(),
                known == pids_of(self.windows@),
                i <= n,
                forall|a: int, b: int| 0 <= a < i && 0 <= b < n && a != b ==> self.pip_order@[a] != self.pip_order@[b],
                forall|a: int| 0 <= a < i ==> known.contains(#[trigger] self.pip_order@[a]),
                self.active_pid matches Some(act) ==> forall|a: int| 0 <= a < i ==> self.pip_order@[a] != act,
            decreases n - i,
        {
            let x = self.pip_order[i];
            match position_of(self.windows.as_slice(), x) {
                None => {
                    assert(!known.contains(self.pip_order@[i as int]));
                    return false;
                },
                Some(idx) => {
                    assert(known[idx as int] == x);
                },
            }
            if self.active_pid == Some(x) {
                assert(self.pip_order@.contains(x));
                return false;
            }
            let mut j: usize = 0;
            while j < n
                invariant
                    n == self.pip_order@.len(),
                    x == self.pip_order@[i as int],
                    i < n,
                    j <= n,
                    forall|b: int| 0 <= b < j && b != i ==> self.pip_order@[b] != x,
                decreases n - j,
            {
                if j != i && self.pip_order[j] == x {
                    return false;
                }
                j = j + 1;
            }
            i = i + 1;
        }
        match self.active_pid {
            Some(act) => {
                match position_of(self.windows.as_slice(), act) {
                    None => return false,
                    Some(idx) => {
                        assert(known[idx as int] == act);
                    },
                }
                assert(!self.pip_order@.contains(act));
            },
            None => {},
        }
        true
    }
}

/// The number of a pid's first window, or `usize::MAX` when unknown.
pub fn pip_number_exec(windows: &[EqWindow], pid: u32) -> (n: usize)
    ensures
        n == pip_number(windows@, pid),
{
    match position_of(windows, pid) {
        Some(i) => {
            proof {
                lemma_first_index(windows@, pid, i as int);
            }
            windows[i].number
        },
        None => {
            proof {
                assert forall|q: int| 0 <= q < windows@.len() implies windows@[q].pid != pid by {
                    if windows@[q].pid == pid {
                        assert(pids_of(windows@)[q] == pid);
                    }
                }
                lemma_first_index_none(windows@, pid);
            }
            usize::MAX
        },
    }
}

} // verus!
