//! What is known of a device's battery, and the order in which devices are listed.

use vstd::prelude::*;
use vstd::set_lib::{lemma_int_range, lemma_len_subset, set_int_range};
use vstd::string::*;

use crate::order::{
    precedes, precedes_is_antisymmetric, precedes_is_irreflexive, precedes_is_total,
    precedes_is_transitive, rank, Rank,
};
use crate::text::{decimal, hex4, push_decimal, push_hex4, texts};

verus! {

/// The latest reading of one paired device.
#[derive(Debug)]
pub struct BatteryState {
    /// `"PID:index"`, see [`device_key`].
    pub device_key: String,
    pub display_name: String,
    /// Product id of the receiver that the device is paired with.
    pub pid: u16,
    pub device_index: u8,
    pub battery_percent: u8,
    pub is_charging: bool,
}

/// A [`BatteryState`] with its texts seen as character sequences.
#[verifier::ext_equal]
pub struct Reading {
    pub device_key: Seq<char>,
    pub display_name: Seq<char>,
    pub pid: u16,
    pub device_index: u8,
    pub battery_percent: u8,
    pub is_charging: bool,
}

impl View for BatteryState {
    type V = Reading;

    open spec fn view(&self) -> Reading {
        Reading {
            device_key: self.device_key@,
            display_name: self.display_name@,
            pid: self.pid,
            device_index: self.device_index,
            battery_percent: self.battery_percent,
            is_charging: self.is_charging,
        }
    }
}

impl Clone for BatteryState {
    fn clone(&self) -> (copy: Self)
        ensures
            copy == *self,
    {
        BatteryState {
            device_key: self.device_key.clone(),
            display_name: self.display_name.clone(),
            pid: self.pid,
            device_index: self.device_index,
            battery_percent: self.battery_percent,
            is_charging: self.is_charging,
        }
    }
}

/// A list of states, seen as a sequence of readings.
pub open spec fn readings(list: Seq<BatteryState>) -> Seq<Reading> {
    Seq::new(list.len(), |i: int| list[i]@)
}

// ---------------------------------------------------------------------------
// Device keys
// ---------------------------------------------------------------------------

/// What the keys of all devices behind one receiver begin with.
pub open spec fn receiver_prefix(pid: u16) -> Seq<char> {
    hex4(pid, true).push(':')
}

/// The key of the device with a given index behind a given receiver.
pub open spec fn key_of(pid: u16, device_index: u8) -> Seq<char> {
    receiver_prefix(pid) + decimal(device_index as nat)
}

/// The key of the device with a given index behind a given receiver.
pub fn device_key(pid: u16, device_index: u8) -> (key: String)
    ensures
        key@ == key_of(pid, device_index),
{
    let mut key = String::new();
    push_hex4(&mut key, pid, true);
    key.push(':');
    push_decimal(&mut key, device_index as u64);
    assert(key@ == key_of(pid, device_index));
    key
}

/// The keys behind a receiver are told apart from those behind another, and
/// from each other.
pub proof fn device_keys_are_distinct(p: u16, i: u8, q: u16, j: u8)
    ensures
        key_of(p, i) == key_of(q, j) <==> p == q && i == j,
        crate::cut::has_prefix(key_of(p, i), receiver_prefix(q)) <==> p == q,
{
    let a = key_of(p, i);
    let b = key_of(q, j);
    assert(a.take(5) == receiver_prefix(p));
    assert(b.take(5) == receiver_prefix(q));
    assert(receiver_prefix(p).take(4) == hex4(p, true));
    assert(receiver_prefix(q).take(4) == hex4(q, true));
    crate::text::hex4_is_injective(p, q, true);
    assert(a.skip(5) == decimal(i as nat));
    assert(b.skip(5) == decimal(j as nat));
    crate::text::decimal_reads_back(i as nat);
    crate::text::decimal_reads_back(j as nat);
}

// ---------------------------------------------------------------------------
// The order in which devices are listed
// ---------------------------------------------------------------------------

/// `a` is listed before `b`: by name, then by receiver, then by key.
pub open spec fn listed_before(a: Reading, b: Reading) -> bool {
    ||| precedes(a.display_name, b.display_name)
    ||| a.display_name == b.display_name && a.pid < b.pid
    ||| a.display_name == b.display_name && a.pid == b.pid && precedes(a.device_key, b.device_key)
}

/// `order` arranges `input` into `output`: each item once, none listed before
/// one that stands ahead of it, and items of equal rank as they came.
pub open spec fn arranges(order: Seq<int>, input: Seq<Reading>, output: Seq<Reading>) -> bool {
    &&& order.len() == input.len()
    &&& output.len() == input.len()
    &&& forall|i: int| 0 <= i < order.len() ==> 0 <= #[trigger] order[i] < input.len()
    &&& forall|i: int, j: int|
        0 <= i < j < order.len() ==> #[trigger] order[i] != #[trigger] order[j]
    &&& forall|i: int| 0 <= i < order.len() ==> output[i] == input[#[trigger] order[i]]
    &&& forall|i: int, j: int|
        0 <= i < j < output.len() ==> {
            &&& !listed_before(#[trigger] output[j], #[trigger] output[i])
            &&& listed_before(output[i], output[j]) || order[i] < order[j]
        }
}

/// `output` is `input`, sorted as devices are listed; items of equal rank stay
/// as they came.
pub open spec fn is_listing_of(input: Seq<Reading>, output: Seq<Reading>) -> bool {
    exists|order: Seq<int>| arranges(order, input, output)
}

/// The order of listing is asymmetric.
pub proof fn listing_is_asymmetric(a: Reading, b: Reading)
    ensures
        !(listed_before(a, b) && listed_before(b, a)),
{
    precedes_is_antisymmetric(a.display_name, b.display_name);
    precedes_is_irreflexive(a.display_name);
    precedes_is_antisymmetric(a.device_key, b.device_key);
}

/// What is not listed before a second item that is not listed before a third,
/// is not listed before the third.
pub proof fn listing_is_transitive(a: Reading, b: Reading, c: Reading)
    ensures
        !listed_before(b, a) && !listed_before(c, b) ==> !listed_before(c, a),
        listed_before(a, b) && listed_before(b, c) ==> listed_before(a, c),
        listed_before(a, b) && !listed_before(c, b) ==> listed_before(a, c),
{
    precedes_is_total(a.display_name, b.display_name);
    precedes_is_total(b.display_name, c.display_name);
    precedes_is_total(a.display_name, c.display_name);
    precedes_is_antisymmetric(a.display_name, b.display_name);
    precedes_is_antisymmetric(b.display_name, c.display_name);
    precedes_is_antisymmetric(a.display_name, c.display_name);
    precedes_is_irreflexive(a.display_name);
    precedes_is_total(a.device_key, b.device_key);
    precedes_is_total(b.device_key, c.device_key);
    precedes_is_total(a.device_key, c.device_key);
    precedes_is_antisymmetric(a.device_key, b.device_key);
    precedes_is_antisymmetric(b.device_key, c.device_key);
    precedes_is_antisymmetric(a.device_key, c.device_key);
    precedes_is_irreflexive(a.device_key);
    if precedes(a.display_name, b.display_name) && precedes(b.display_name, c.display_name) {
        precedes_is_transitive(a.display_name, b.display_name, c.display_name);
    }
    if precedes(c.display_name, a.display_name) && precedes(a.display_name, b.display_name) {
        precedes_is_transitive(c.display_name, a.display_name, b.display_name);
    }
    if precedes(b.display_name, c.display_name) && precedes(c.display_name, a.display_name) {
        precedes_is_transitive(b.display_name, c.display_name, a.display_name);
    }
    if precedes(a.device_key, b.device_key) && precedes(b.device_key, c.device_key) {
        precedes_is_transitive(a.device_key, b.device_key, c.device_key);
    }
    if precedes(c.device_key, a.device_key) && precedes(a.device_key, b.device_key) {
        precedes_is_transitive(c.device_key, a.device_key, b.device_key);
    }
    if precedes(b.device_key, c.device_key) && precedes(c.device_key, a.device_key) {
        precedes_is_transitive(b.device_key, c.device_key, a.device_key);
    }
}

fn goes_before(a: &BatteryState, b: &BatteryState) -> (yes: bool)
    ensures
        yes == listed_before(a@, b@),
{
    proof {
        precedes_is_irreflexive(a@.display_name);
        precedes_is_antisymmetric(a@.display_name, b@.display_name);
    }
    match rank(a.display_name.as_str(), b.display_name.as_str()) {
        Rank::Before => true,
        Rank::After => false,
        Rank::Same => if a.pid != b.pid {
            a.pid < b.pid
        } else {
            match rank(a.device_key.as_str(), b.device_key.as_str()) {
                Rank::Before => true,
                _ => false,
            }
        },
    }
}

proof fn arranging_one_more(
    order: Seq<int>,
    input: Seq<Reading>,
    output: Seq<Reading>,
    x: Reading,
    p: int,
)
    requires
        arranges(order, input, output),
        0 <= p <= output.len(),
        forall|j: int| p <= j < output.len() ==> listed_before(x, #[trigger] output[j]),
        p > 0 ==> !listed_before(x, output[p - 1]),
    ensures
        arranges(order.insert(p, input.len() as int), input.push(x), output.insert(p, x)),
{
    let n = input.len() as int;
    let order2 = order.insert(p, n);
    let input2 = input.push(x);
    let output2 = output.insert(p, x);
    assert forall|i: int| 0 <= i < order2.len() implies 0 <= #[trigger] order2[i] < input2.len()
        && output2[i] == input2[order2[i]] by {
        if i < p {
            assert(order2[i] == order[i] && output2[i] == output[i]);
        } else if i > p {
            assert(order2[i] == order[i - 1] && output2[i] == output[i - 1]);
        }
    }
    assert forall|i: int, j: int| 0 <= i < j < order2.len() implies #[trigger] order2[i]
        != #[trigger] order2[j] by {
        let a = if i < p {
            i
        } else {
            i - 1
        };
        let b = if j < p {
            j
        } else {
            j - 1
        };
        if i != p {
            assert(order2[i] == order[a]);
        }
        if j != p {
            assert(order2[j] == order[b]);
        }
    }
    assert forall|i: int, j: int| 0 <= i < j < output2.len() implies !listed_before(
        #[trigger] output2[j],
        #[trigger] output2[i],
    ) && (listed_before(output2[i], output2[j]) || order2[i] < order2[j]) by {
        let a = if i < p {
            i
        } else {
            i - 1
        };
        let b = if j < p {
            j
        } else {
            j - 1
        };
        if i != p && j != p {
            assert(order2[i] == order[a] && output2[i] == output[a]);
            assert(order2[j] == order[b] && output2[j] == output[b]);
        } else if i == p {
            assert(output2[j] == output[b]);
            listing_is_asymmetric(x, output[b]);
        } else {
            assert(output2[i] == output[a] && order2[i] == order[a]);
            if a < p - 1 {
                assert(!listed_before(output[p - 1], output[a]));
                listing_is_transitive(output[a], output[p - 1], x);
            }
        }
    }
}

/// An arrangement leaves nothing out: every item of the input is in the output.
pub proof fn nothing_is_left_out(
    order: Seq<int>,
    input: Seq<Reading>,
    output: Seq<Reading>,
    k: int,
) -> (i: int)
    requires
        arranges(order, input, output),
        0 <= k < input.len(),
    ensures
        0 <= i < output.len(),
        order[i] == k,
        output[i] == input[k],
{
    let n = input.len() as int;
    if !order.contains(k) {
        let all = set_int_range(0, n);
        lemma_int_range(0, n);
        assert(order.no_duplicates()) by {
            assert forall|i: int, j: int|
                0 <= i < order.len() && 0 <= j < order.len() && i != j implies order[i]
                != order[j] by {
                if j < i {
                    assert(order[j] != order[i]);
                }
            }
        }
        order.unique_seq_to_set();
        assert(order.to_set().subset_of(all.remove(k))) by {
            assert forall|x: int| order.to_set().contains(x) implies all.remove(k).contains(x) by {
                let i = choose|i: int| 0 <= i < order.len() && order[i] == x;
                assert(0 <= order[i] < n);
            }
        }
        lemma_len_subset(order.to_set(), all.remove(k));
    }
    choose|i: int| 0 <= i < order.len() && order[i] == k
}

proof fn arranging_one_less(order: Seq<int>, input: Seq<Reading>, output: Seq<Reading>, a: int)
    requires
        arranges(order, input, output),
        0 <= a < order.len(),
        order[a] == input.len() - 1,
    ensures
        arranges(order.remove(a), input.drop_last(), output.remove(a)),
{
    let order2 = order.remove(a);
    let output2 = output.remove(a);
    assert forall|i: int| 0 <= i < order2.len() implies 0 <= #[trigger] order2[i] < input.len() - 1
        && output2[i] == input.drop_last()[order2[i]] by {
        let x = if i < a {
            i
        } else {
            i + 1
        };
        assert(order2[i] == order[x] && output2[i] == output[x]);
        if x < a {
            assert(order[x] != order[a]);
        } else {
            assert(order[a] != order[x]);
        }
    }
    assert forall|i: int, j: int| 0 <= i < j < order2.len() implies #[trigger] order2[i]
        != #[trigger] order2[j] by {
        let x = if i < a {
            i
        } else {
            i + 1
        };
        let y = if j < a {
            j
        } else {
            j + 1
        };
        assert(order2[i] == order[x] && order2[j] == order[y]);
    }
    assert forall|i: int, j: int| 0 <= i < j < output2.len() implies !listed_before(
        #[trigger] output2[j],
        #[trigger] output2[i],
    ) && (listed_before(output2[i], output2[j]) || order2[i] < order2[j]) by {
        let x = if i < a {
            i
        } else {
            i + 1
        };
        let y = if j < a {
            j
        } else {
            j + 1
        };
        assert(order2[i] == order[x] && output2[i] == output[x]);
        assert(order2[j] == order[y] && output2[j] == output[y]);
    }
}

proof fn arrangements_agree(
    p: Seq<int>,
    q: Seq<int>,
    input: Seq<Reading>,
    a: Seq<Reading>,
    b: Seq<Reading>,
)
    requires
        arranges(p, input, a),
        arranges(q, input, b),
    ensures
        p == q,
        a == b,
    decreases input.len(),
{
    if input.len() == 0 {
        assert(p == q && a == b);
    } else {
        let n = input.len() as int;
        let x = nothing_is_left_out(p, input, a, n - 1);
        let y = nothing_is_left_out(q, input, b, n - 1);
        arranging_one_less(p, input, a, x);
        arranging_one_less(q, input, b, y);
        arrangements_agree(p.remove(x), q.remove(y), input.drop_last(), a.remove(x), b.remove(y));
        let r = p.remove(x);
        if x < y {
            assert(r[x] == p[x + 1] && r[x] == q[x]);
            assert(a[x + 1] == input[p[x + 1]] && b[x] == input[q[x]]);
            assert(!listed_before(a[x + 1], a[x]));
            assert(listed_before(a[x], a[x + 1]) || p[x] < p[x + 1]);
            assert(!listed_before(b[y], b[x]));
        } else if y < x {
            assert(r[y] == q[y + 1] && r[y] == p[y]);
            assert(b[y + 1] == input[q[y + 1]] && a[y] == input[p[y]]);
            assert(listed_before(b[y], b[y + 1]) || q[y] < q[y + 1]);
            assert(!listed_before(a[x], a[y]));
        } else {
            assert(p =~= p.remove(x).insert(x, n - 1));
            assert(q =~= q.remove(x).insert(x, n - 1));
            assert(a =~= a.remove(x).insert(x, input[n - 1]));
            assert(b =~= b.remove(x).insert(x, input[n - 1]));
        }
    }
}

/// There is one listing of a list, so that devices do not change places without
/// a reason.
pub proof fn listings_are_unique(input: Seq<Reading>, a: Seq<Reading>, b: Seq<Reading>)
    requires
        is_listing_of(input, a),
        is_listing_of(input, b),
    ensures
        a == b,
{
    let p = choose|order: Seq<int>| arranges(order, input, a);
    let q = choose|order: Seq<int>| arranges(order, input, b);
    arrangements_agree(p, q, input, a, b);
}

/// The states of a list, sorted as devices are listed.
pub fn listing(list: &[BatteryState]) -> (sorted: Vec<BatteryState>)
    ensures
        is_listing_of(readings(list@), readings(sorted@)),
{
    let mut sorted: Vec<BatteryState> = Vec::new();
    let ghost input = readings(list@);
    let ghost mut order: Seq<int> = Seq::empty();
    let mut i: usize = 0;
    assert(arranges(order, input.take(0), readings(sorted@)));
    while i < list.len()
        invariant
            i <= list@.len(),
            input == readings(list@),
            arranges(order, input.take(i as int), readings(sorted@)),
        decreases list@.len() - i,
    {
        let x = list[i].clone();
        let mut p: usize = sorted.len();
        while p > 0 && goes_before(&x, &sorted[p - 1])
            invariant
                p <= sorted@.len(),
                forall|j: int|
                    p <= j < sorted@.len() ==> listed_before(x@, #[trigger] readings(sorted@)[j]),
            decreases p,
        {
            p = p - 1;
        }
        let ghost before = readings(sorted@);
        proof {
            if p > 0 {
                assert(before[p - 1] == sorted@[p - 1]@);
            }
            arranging_one_more(order, input.take(i as int), before, x@, p as int);
            assert(input.take(i as int).push(x@) == input.take(i + 1));
            order = order.insert(p as int, i as int);
        }
        sorted.insert(p, x);
        assert(readings(sorted@) == before.insert(p as int, x@));
        i = i + 1;
    }
    assert(input.take(i as int) == input);
    sorted
}

// ---------------------------------------------------------------------------
// The outcome of a poll
// ---------------------------------------------------------------------------

/// What one round of polling found.
#[derive(Debug)]
pub struct PollResult {
    pub devices: Vec<BatteryState>,
    pub errors: Vec<String>,
}

/// A [`PollResult`] with its texts seen as character sequences.
#[verifier::ext_equal]
pub struct Findings {
    pub devices: Seq<Reading>,
    pub errors: Seq<Seq<char>>,
}

impl View for PollResult {
    type V = Findings;

    open spec fn view(&self) -> Findings {
        Findings { devices: readings(self.devices@), errors: texts(self.errors@) }
    }
}

impl PollResult {
    /// Nothing found and nothing gone wrong.
    pub fn new() -> (result: Self)
        ensures
            result@ == (Findings { devices: Seq::empty(), errors: Seq::empty() }),
    {
        PollResult { devices: Vec::new(), errors: Vec::new() }
    }

    /// Sorts the devices as they are listed.
    pub fn sort_devices(&mut self)
        ensures
            is_listing_of(old(self)@.devices, final(self)@.devices),
            final(self)@.errors == old(self)@.errors,
    {
        self.devices = listing(&self.devices);
    }
}

impl Default for PollResult {
    fn default() -> (result: Self)
        ensures
            result@ == (Findings { devices: Seq::empty(), errors: Seq::empty() }),
    {
        PollResult::new()
    }
}

/// A key is the number of the receiver as four upper-case hexadecimal digits, a
/// colon, and the index of the device.
pub proof fn keys_tell_receiver_and_index(pid: u16, device_index: u8)
    ensures
        ({
            let key = key_of(pid, device_index);
            &&& key.take(4) == hex4(pid, true)
            &&& key[4] == ':'
            &&& crate::text::parsed_number(key.skip(5), 255) == Some(device_index as nat)
            &&& receiver_prefix(pid) == key.take(5)
        }),
{
    let key = key_of(pid, device_index);
    assert(key.take(4) == hex4(pid, true));
    assert(key.skip(5) == decimal(device_index as nat));
    assert(key.take(5) == receiver_prefix(pid));
    crate::text::decimal_reads_back(device_index as nat);
}

/// Names decide which device is listed first. Of devices with the same name the
/// receivers decide, and of devices behind the same receiver the keys.
pub proof fn names_decide_then_receivers_then_keys(a: Reading, b: Reading)
    ensures
        a.display_name != b.display_name ==> listed_before(a, b) == precedes(
            a.display_name,
            b.display_name,
        ),
        a.display_name == b.display_name && a.pid != b.pid ==> listed_before(a, b) == (a.pid
            < b.pid),
        a.display_name == b.display_name && a.pid == b.pid ==> listed_before(a, b) == precedes(
            a.device_key,
            b.device_key,
        ),
{
    precedes_is_irreflexive(a.display_name);
}

/// A listing holds every device, and nothing else, with the names in order; among
/// equal names the receivers are in order.
pub proof fn devices_are_listed_by_name(
    input: Seq<Reading>,
    output: Seq<Reading>,
    i: int,
    j: int,
    k: int,
)
    requires
        is_listing_of(input, output),
        0 <= i < j < output.len(),
        0 <= k < input.len(),
    ensures
        output.len() == input.len(),
        output[i].display_name == output[j].display_name || precedes(
            output[i].display_name,
            output[j].display_name,
        ),
        output[i].display_name == output[j].display_name ==> output[i].pid <= output[j].pid,
        output.contains(input[k]),
        input.contains(output[i]),
{
    let order = choose|order: Seq<int>| arranges(order, input, output);
    let found = nothing_is_left_out(order, input, output, k);
    assert(output[found] == input[k]);
    assert(output[i] == input[order[i]]);
    assert(!listed_before(output[j], output[i]));
    precedes_is_total(output[i].display_name, output[j].display_name);
}

} // verus!
